//! The read request for one page: where it goes and which parameters it carries.

use vstd::prelude::*;
use vstd::string::*;
use crate::text::{decimal_text, render_int};

verus! {

/// Address of the page that lists the players.
pub const TARGET_URL: &'static str = "http://rwr.runningwithrifles.com/rwr_stats/view_players.php";

/// Value of the `User-Agent` header that the request carries.
pub const USER_AGENT: &'static str =
    "Mozilla/5.0 (Windows NT 10.0; Win64; x64; rv:109.0) Gecko/20100101 Firefox/109.0";

/// Name of the parameter that selects the dataset.
pub const DATASET_PARAMETER: &'static str = "db";

/// Name of the parameter that selects the sort key.
pub const SORT_PARAMETER: &'static str = "sort";

/// Name of the parameter that selects the page offset.
pub const OFFSET_PARAMETER: &'static str = "start";

/// The sort key of every request.
pub const SORT_KEY: &'static str = "rank_progression";

/// Whether `pair` holds the name `name` and the value `value`.
pub open spec fn is_parameter(pair: (String, String), name: Seq<char>, value: Seq<char>) -> bool {
    pair.0@ == name && pair.1@ == value
}

/// The query parameters of the request for the page at `offset` of the dataset `dataset`, in
/// the order in which they are sent: the dataset, the fixed sort key, and the offset in
/// decimal.
pub fn page_query(dataset: &str, offset: i128) -> (query: Vec<(String, String)>)
    ensures
        query@.len() == 3,
        is_parameter(query@[0], DATASET_PARAMETER@, dataset@),
        is_parameter(query@[1], SORT_PARAMETER@, SORT_KEY@),
        is_parameter(query@[2], OFFSET_PARAMETER@, decimal_text(offset as int)),
{
    let mut query: Vec<(String, String)> = Vec::new();
    query.push((String::from_str(DATASET_PARAMETER), String::from_str(dataset)));
    query.push((String::from_str(SORT_PARAMETER), String::from_str(SORT_KEY)));
    query.push((String::from_str(OFFSET_PARAMETER), render_int(offset)));
    query
}

} // verus!
