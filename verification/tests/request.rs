use rwr_players::request::{page_query, SORT_KEY, TARGET_URL, USER_AGENT};

fn pair(name: &str, value: &str) -> (String, String) {
    (name.to_string(), value.to_string())
}

#[test]
fn query_names_dataset_sort_key_and_offset() {
    assert_eq!(
        page_query("invasion", 0),
        vec![pair("db", "invasion"), pair("sort", "rank_progression"), pair("start", "0")]
    );
    assert_eq!(
        page_query("pacific", 148900),
        vec![pair("db", "pacific"), pair("sort", "rank_progression"), pair("start", "148900")]
    );
}

#[test]
fn query_keeps_a_negative_offset() {
    assert_eq!(page_query("", -100)[2], pair("start", "-100"));
}

#[test]
fn request_constants() {
    assert_eq!(SORT_KEY, "rank_progression");
    assert_eq!(TARGET_URL, "http://rwr.runningwithrifles.com/rwr_stats/view_players.php");
    assert_eq!(
        USER_AGENT,
        "Mozilla/5.0 (Windows NT 10.0; Win64; x64; rv:109.0) Gecko/20100101 Firefox/109.0"
    );
}
