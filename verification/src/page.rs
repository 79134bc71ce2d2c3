//! The rows of one page, as plain values, and how they are read out of the markup.

use vstd::prelude::*;
use vstd::string::*;
use crate::coerce::DecodeError;
use crate::dom::{
    class_tokens, descendant_matches, element_classes, element_data, element_texts,
    fragment_tree, quick_selector, select_in_tree, select_within, selector_for, text_nodes,
    texts_of, tree_matches, MARKUP_LIMIT,
};

verus! {

/// Selects the rows of the data table.
pub const ROW_SELECTOR: &'static str = "table > tbody > tr";

/// Selects the header cells of a row.
pub const HEADER_CELL_SELECTOR: &'static str = "th";

/// Selects the marker elements of a header cell.
pub const MARKER_SELECTOR: &'static str = "div";

/// Selects the data cells of a row.
pub const DATA_CELL_SELECTOR: &'static str = "td";

/// One row of the table.
#[derive(Debug, PartialEq, Eq)]
pub enum Row {
    /// A row with header cells. For each marker element of its header cells, from left to
    /// right: the first class token of the element, `None` where it has no class.
    Header(Vec<Option<String>>),
    /// A row without header cells. For each data cell, from left to right: its first text
    /// node, `None` where it holds no text.
    Data(Vec<Option<String>>),
}

/// What a [`Row`] holds, as mathematical values.
pub enum RowView {
    Header(Seq<Option<Seq<char>>>),
    Data(Seq<Option<Seq<char>>>),
}

/// The text of an optional string.
pub open spec fn cell_view(cell: Option<String>) -> Option<Seq<char>> {
    match cell {
        Some(text) => Some(text@),
        None => None,
    }
}

/// The texts of a list of optional strings.
pub open spec fn cells_view(cells: Seq<Option<String>>) -> Seq<Option<Seq<char>>> {
    Seq::new(cells.len(), |i: int| cell_view(cells[i]))
}

impl View for Row {
    type V = RowView;

    open spec fn view(&self) -> RowView {
        match *self {
            Row::Header(classes) => RowView::Header(cells_view(classes@)),
            Row::Data(cells) => RowView::Data(cells_view(cells@)),
        }
    }
}

/// The views of a list of rows.
pub open spec fn rows_view(rows: Seq<Row>) -> Seq<RowView> {
    Seq::new(rows.len(), |i: int| rows[i]@)
}

/// The first of `items`, if there is one.
pub open spec fn first_item(items: Seq<Seq<char>>) -> Option<Seq<char>> {
    if items.len() > 0 {
        Some(items[0])
    } else {
        None
    }
}

/// For each element, its first class token.
pub open spec fn first_classes(elements: Seq<scraper::ElementRef<'static>>) -> Seq<
    Option<Seq<char>>,
> {
    Seq::new(elements.len(), |i: int| first_item(class_tokens(element_data(elements[i]))))
}

/// For each element, its first text node.
pub open spec fn first_texts(elements: Seq<scraper::ElementRef<'static>>) -> Seq<
    Option<Seq<char>>,
> {
    Seq::new(elements.len(), |i: int| first_item(text_nodes(elements[i])))
}

/// The first class tokens of the marker elements of the first `n` header cells.
pub open spec fn marker_classes(header_cells: Seq<scraper::ElementRef<'static>>, n: nat) -> Seq<
    Option<Seq<char>>,
>
    decreases n,
{
    if n == 0 {
        Seq::empty()
    } else {
        marker_classes(header_cells, (n - 1) as nat) + first_classes(
            descendant_matches(header_cells[n - 1], selector_for(MARKER_SELECTOR@)->0),
        )
    }
}

/// The row that a row element stands for: a header row where it has header cells, else a data
/// row.
pub open spec fn row_model(row: scraper::ElementRef<'static>) -> RowView {
    let header_cells = descendant_matches(row, selector_for(HEADER_CELL_SELECTOR@)->0);
    if header_cells.len() > 0 {
        RowView::Header(marker_classes(header_cells, header_cells.len()))
    } else {
        RowView::Data(
            first_texts(descendant_matches(row, selector_for(DATA_CELL_SELECTOR@)->0)),
        )
    }
}

/// The rows of the data table in `markup`, in the order in which the parser yields them.
pub open spec fn page_model(markup: Seq<char>) -> Seq<RowView> {
    let rows = tree_matches(fragment_tree(markup), selector_for(ROW_SELECTOR@)->0);
    Seq::new(rows.len(), |i: int| row_model(rows[i]))
}

/// The four selectors that find the table's rows and cells, parsed once.
pub struct TableSelectors {
    rows: scraper::Selector,
    header_cells: scraper::Selector,
    markers: scraper::Selector,
    data_cells: scraper::Selector,
}

impl TableSelectors {
    #[verifier::type_invariant]
    spec fn well_formed(self) -> bool {
        &&& selector_for(ROW_SELECTOR@) == Some(self.rows)
        &&& selector_for(HEADER_CELL_SELECTOR@) == Some(self.header_cells)
        &&& selector_for(MARKER_SELECTOR@) == Some(self.markers)
        &&& selector_for(DATA_CELL_SELECTOR@) == Some(self.data_cells)
    }

    /// Parses the four selectors. The result is `None` only where the selector parser rejects
    /// one of the four expressions.
    pub fn new() -> (selectors: Option<TableSelectors>)
        ensures
            selectors is Some <==> {
                &&& selector_for(ROW_SELECTOR@) is Some
                &&& selector_for(HEADER_CELL_SELECTOR@) is Some
                &&& selector_for(MARKER_SELECTOR@) is Some
                &&& selector_for(DATA_CELL_SELECTOR@) is Some
            },
    {
        proof {
            reveal_strlit("table > tbody > tr");
            reveal_strlit("th");
            reveal_strlit("div");
            reveal_strlit("td");
        }
        let rows = match quick_selector(ROW_SELECTOR) {
            Some(selector) => selector,
            None => {
                return None;
            },
        };
        let header_cells = match quick_selector(HEADER_CELL_SELECTOR) {
            Some(selector) => selector,
            None => {
                return None;
            },
        };
        let markers = match quick_selector(MARKER_SELECTOR) {
            Some(selector) => selector,
            None => {
                return None;
            },
        };
        let data_cells = match quick_selector(DATA_CELL_SELECTOR) {
            Some(selector) => selector,
            None => {
                return None;
            },
        };
        Some(TableSelectors { rows, header_cells, markers, data_cells })
    }
}

/// The view of a list with one more cell is the view of the list with one more text.
proof fn lemma_cells_view_push(cells: Seq<Option<String>>, cell: Option<String>)
    ensures
        cells_view(cells.push(cell)) == cells_view(cells).push(cell_view(cell)),
{
}

/// The first of the strings, if there is one.
fn first_string(strings: Vec<String>) -> (first: Option<String>)
    ensures
        cell_view(first) == first_item(texts_of(strings@)),
{
    if strings.len() > 0 {
        Some(strings[0].clone())
    } else {
        None
    }
}

/// Reads one row element into a [`Row`].
fn read_row(element: &scraper::ElementRef, selectors: &TableSelectors) -> (row: Row)
    ensures
        row@ == row_model(*element),
{
    proof {
        use_type_invariant(selectors);
    }
    let header_cells = select_within(element, &selectors.header_cells);
    if header_cells.len() > 0 {
        let mut classes: Vec<Option<String>> = Vec::new();
        for i in 0..header_cells.len()
            invariant
                selector_for(MARKER_SELECTOR@) == Some(selectors.markers),
                cells_view(classes@) == marker_classes(header_cells@, i as nat),
        {
            let marker_elements = select_within(&header_cells[i], &selectors.markers);
            let ghost before = cells_view(classes@);
            for j in 0..marker_elements.len()
                invariant
                    cells_view(classes@) == before + first_classes(marker_elements@).take(
                        j as int,
                    ),
            {
                let tokens: Vec<String> = element_classes(marker_elements[j].value());
                let first: Option<String> = first_string(tokens);
                proof {
                    let found = first_classes(marker_elements@);
                    lemma_cells_view_push(classes@, first);
                    assert((before + found.take(j as int)).push(found[j as int]) =~= before
                        + found.take(j + 1));
                }
                classes.push(first);
            }
            assert(first_classes(marker_elements@).take(marker_elements@.len() as int)
                == first_classes(marker_elements@));
        }
        Row::Header(classes)
    } else {
        let cells = select_within(element, &selectors.data_cells);
        let mut texts: Vec<Option<String>> = Vec::new();
        for i in 0..cells.len()
            invariant
                cells_view(texts@) == first_texts(cells@).take(i as int),
        {
            let nodes: Vec<String> = element_texts(&cells[i]);
            let first: Option<String> = first_string(nodes);
            proof {
                lemma_cells_view_push(texts@, first);
            }
            texts.push(first);
        }
        assert(first_texts(cells@).take(cells@.len() as int) == first_texts(cells@));
        Row::Data(texts)
    }
}

/// Reads the rows of the data table out of `markup`. A markup of more than
/// [`MARKUP_LIMIT`] characters is refused unread.
pub fn read_rows(markup: &str, selectors: &TableSelectors) -> (rows: Result<Vec<Row>, DecodeError>)
    ensures
        match rows {
            Ok(found) => markup@.len() <= MARKUP_LIMIT && rows_view(found@) == page_model(
                markup@,
            ),
            Err(e) => markup@.len() > MARKUP_LIMIT && e == DecodeError::OversizedMarkup,
        },
{
    proof {
        use_type_invariant(selectors);
    }
    if markup.unicode_len() > MARKUP_LIMIT {
        return Err(DecodeError::OversizedMarkup);
    }
    let tree = scraper::Html::parse_fragment(markup);
    let elements = select_in_tree(&tree, &selectors.rows);
    let mut rows: Vec<Row> = Vec::new();
    for i in 0..elements.len()
        invariant
            rows_view(rows@) == page_model(markup@).take(i as int),
            elements@ == tree_matches(fragment_tree(markup@), selector_for(ROW_SELECTOR@)->0),
    {
        let row: Row = read_row(&elements[i], selectors);
        proof {
            let model = page_model(markup@);
            assert(model.take(i as int).push(model[i as int]) =~= model.take(i + 1));
        }
        rows.push(row);
    }
    Ok(rows)
}

} // verus!
