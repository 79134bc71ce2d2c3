//! The boundary to the HTML parser.
//!
//! Parsing markup into a tree and matching selectors against it is the work of the `scraper`
//! crate. Its types are opaque here, and what it computes is not proved: each item below states
//! what is taken on trust, by giving the result of one `scraper` function a name. The names say
//! only that a result is determined by the arguments of the call.

use vstd::prelude::*;
use vstd::string::*;
use crate::page::{DATA_CELL_SELECTOR, HEADER_CELL_SELECTOR, MARKER_SELECTOR, ROW_SELECTOR};

verus! {

/// `scraper::Html`: a parsed tree. Nothing inside it is visible here.
#[verifier::external_type_specification]
#[verifier::external_body]
pub struct ExHtml(scraper::Html);

/// `scraper::Selector`: a parsed selector group.
#[verifier::external_type_specification]
#[verifier::external_body]
pub struct ExSelector(scraper::Selector);

/// `scraper::ElementRef`: a handle to one element of a tree.
#[verifier::external_type_specification]
#[verifier::external_body]
pub struct ExElementRef<'a>(scraper::ElementRef<'a>);

/// `scraper::node::Element`: the name and the attributes of one element.
#[verifier::external_type_specification]
#[verifier::external_body]
pub struct ExElement(scraper::node::Element);

/// `scraper::error::SelectorErrorKind`: why a selector expression was rejected.
#[verifier::external_type_specification]
#[verifier::external_body]
pub struct ExSelectorErrorKind(scraper::error::SelectorErrorKind);

/// The longest markup, in characters, that is handed to the parser.
///
/// The parser holds the markup, and every text that it makes of it, in buffers of at most
/// `u32::MAX` bytes, and panics beyond. A character takes up to four bytes, and where the
/// parser puts one character for another the new one takes up to three: below this limit no
/// buffer grows past a quarter of what it can hold.
pub const MARKUP_LIMIT: usize = 0x1000_0000;

/// The longest selector expression, in characters, that is handed to the selector parser.
///
/// The selector parser counts the line breaks of an expression in 32 bits: below this limit
/// the count stays within a sixteenth of its range. Nesting needs no limit here, because the
/// parser has its own: past 75 nested groups it rejects the expression.
pub const EXPRESSION_LIMIT: usize = 0x1000_0000;

/// The tree that `scraper::Html::parse_fragment` builds from `markup`.
pub uninterp spec fn fragment_tree(markup: Seq<char>) -> scraper::Html;

/// The selector that `scraper::Selector::parse` reads from `expression`, or `None` where it
/// rejects the expression.
pub uninterp spec fn selector_for(expression: Seq<char>) -> Option<scraper::Selector>;

/// The elements of `tree` that match `selector`, in the order in which `scraper::Html::select`
/// yields them.
pub uninterp spec fn tree_matches(tree: scraper::Html, selector: scraper::Selector) -> Seq<
    scraper::ElementRef<'static>,
>;

/// The elements below `scope` that match `selector`, in the order in which
/// `scraper::ElementRef::select` yields them.
pub uninterp spec fn descendant_matches(
    scope: scraper::ElementRef<'static>,
    selector: scraper::Selector,
) -> Seq<scraper::ElementRef<'static>>;

/// The element that `handle` refers to, as `scraper::ElementRef::value` returns it.
pub uninterp spec fn element_data(handle: scraper::ElementRef<'static>) -> scraper::node::Element;

/// The class tokens of `element`, in the order in which `scraper::node::Element::classes`
/// yields them. (It yields them sorted and without duplicates, not as they were written.)
pub uninterp spec fn class_tokens(element: scraper::node::Element) -> Seq<Seq<char>>;

/// The text nodes below `element`, in the order in which `scraper::ElementRef::text` yields
/// them.
pub uninterp spec fn text_nodes(element: scraper::ElementRef<'static>) -> Seq<Seq<char>>;

/// Whether `selector` is one of the four selectors of the table: the only ones that are
/// matched against a tree.
pub open spec fn is_table_selector(selector: scraper::Selector) -> bool {
    ||| selector_for(ROW_SELECTOR@) == Some(selector)
    ||| selector_for(HEADER_CELL_SELECTOR@) == Some(selector)
    ||| selector_for(MARKER_SELECTOR@) == Some(selector)
    ||| selector_for(DATA_CELL_SELECTOR@) == Some(selector)
}

/// The texts that the strings hold, in order.
pub open spec fn texts_of(strings: Seq<String>) -> Seq<Seq<char>> {
    Seq::new(strings.len(), |i: int| strings[i]@)
}

/// `scraper::Html::parse_fragment`: on a markup within the limit parsing never fails, and the
/// tree depends on the markup alone. Longer markup is kept away from it, because its buffers
/// panic past `u32::MAX` bytes.
pub assume_specification[ scraper::Html::parse_fragment ](fragment: &str) -> (tree:
    scraper::Html)
    requires
        fragment@.len() <= MARKUP_LIMIT,
    ensures
        tree == fragment_tree(fragment@),
;

/// `scraper::Selector::parse`: whether an expression is accepted, and the selector it gives,
/// depend on the expression alone. Expressions over the limit are kept away from it, because
/// its line counter overflows past `u32::MAX` line breaks.
pub assume_specification[ scraper::Selector::parse ](selectors: &str) -> (parsed: Result<
    scraper::Selector,
    scraper::error::SelectorErrorKind,
>)
    requires
        selectors@.len() <= EXPRESSION_LIMIT,
    ensures
        match parsed {
            Ok(selector) => selector_for(selectors@) == Some(selector),
            Err(_) => selector_for(selectors@) is None,
        },
;

/// `scraper::Html::select`, collected: the matches depend on the tree and the selector alone.
/// Only the table's selectors are admitted: they hold type names and the child combinator,
/// which are matched without going down the tree, whereas a selector with `:has(..)` is
/// matched by a call for every level of it.
#[verifier::external_body]
pub(crate) fn select_in_tree<'a>(tree: &'a scraper::Html, selector: &scraper::Selector) -> (found:
    Vec<scraper::ElementRef<'a>>)
    requires
        is_table_selector(*selector),
    ensures
        found@ == tree_matches(*tree, *selector),
{
    tree.select(selector).collect()
}

/// `scraper::ElementRef::select`, collected: the matches depend on the element and the
/// selector alone. Only the table's selectors are admitted, as for [`select_in_tree`].
#[verifier::external_body]
pub(crate) fn select_within<'a>(
    scope: &scraper::ElementRef<'a>,
    selector: &scraper::Selector,
) -> (found: Vec<scraper::ElementRef<'a>>)
    requires
        is_table_selector(*selector),
    ensures
        found@ == descendant_matches(*scope, *selector),
{
    scope.select(selector).collect()
}

/// `scraper::ElementRef::value`: a handle always refers to an element, which depends on the
/// handle alone.
pub assume_specification<'a>[ scraper::ElementRef::<'a>::value ](
    handle: &scraper::ElementRef<'a>,
) -> (element: &'a scraper::node::Element)
    ensures
        *element == element_data(*handle),
;

/// `scraper::node::Element::classes`, collected as owned strings: the tokens depend on the
/// element alone.
#[verifier::external_body]
pub(crate) fn element_classes(element: &scraper::node::Element) -> (tokens: Vec<String>)
    ensures
        texts_of(tokens@) == class_tokens(*element),
{
    element.classes().map(String::from).collect()
}

/// `scraper::ElementRef::text`, collected as owned strings: the text nodes depend on the
/// element alone.
#[verifier::external_body]
pub(crate) fn element_texts(element: &scraper::ElementRef) -> (texts: Vec<String>)
    ensures
        texts_of(texts@) == text_nodes(*element),
{
    element.text().map(String::from).collect()
}

/// The selector that `expression` denotes, or `None` where the selector parser rejects the
/// expression. An expression of more than [`EXPRESSION_LIMIT`] characters is rejected
/// unread.
pub fn quick_selector(expression: &str) -> (selector: Option<scraper::Selector>)
    ensures
        selector == if expression@.len() <= EXPRESSION_LIMIT {
            selector_for(expression@)
        } else {
            None
        },
{
    if expression.unicode_len() > EXPRESSION_LIMIT {
        return None;
    }
    match scraper::Selector::parse(expression) {
        Ok(selector) => Some(selector),
        Err(_) => None,
    }
}

} // verus!
