//! The table decoder: from the rows of one page to the players they describe.
//!
//! The columns are named by the page itself. A header row appends one column marker for each
//! marker element of its header cells; a data row gives one player, whose cells are stored
//! by position: the first cell that holds text goes to the first marker, the second to the
//! second, and so on. A cell without text takes up no marker, and cells beyond the last marker
//! are ignored, as are columns whose marker names no field.

use vstd::prelude::*;
use crate::coerce::DecodeError;
use crate::dom::MARKUP_LIMIT;
use crate::page::{
    cells_view, page_model, read_rows, rows_view, Row, RowView, TableSelectors,
};
use crate::player::{
    blank_player, field_named, lemma_blank_player_is_well_formed,
    lemma_with_cell_keeps_well_formed, with_cell, Field, Player, PlayerView,
};

verus! {

/// The column markers that a header row adds: for each marker element the field that its class
/// names, or `None` where one of the marker elements has no class.
pub open spec fn header_fields(classes: Seq<Option<Seq<char>>>) -> Option<Seq<Option<Field>>> {
    if forall|i: int| 0 <= i < classes.len() ==> (#[trigger] classes[i]) is Some {
        Some(Seq::new(classes.len(), |i: int| field_named(classes[i]->0)))
    } else {
        None
    }
}

/// The player and the number of markers taken up after the first `n` cells of a data row, or
/// the error of the first cell that is malformed.
pub open spec fn cells_progress(
    markers: Seq<Option<Field>>,
    cells: Seq<Option<Seq<char>>>,
    n: nat,
) -> Result<(PlayerView, nat), DecodeError>
    decreases n,
{
    if n == 0 {
        Ok((blank_player(), 0nat))
    } else {
        match cells_progress(markers, cells, (n - 1) as nat) {
            Err(e) => Err(e),
            Ok((player, used)) => match cells[n - 1] {
                None => Ok((player, used)),
                Some(text) => if used >= markers.len() {
                    Ok((player, used))
                } else {
                    match markers[used as int] {
                        None => Ok((player, used + 1)),
                        Some(field) => match with_cell(player, field, text) {
                            Ok(filled) => Ok((filled, used + 1)),
                            Err(e) => Err(e),
                        },
                    }
                },
            },
        }
    }
}

/// The player that a data row with the cells `cells` describes under the markers `markers`.
pub open spec fn decoded_row(markers: Seq<Option<Field>>, cells: Seq<Option<Seq<char>>>) -> Result<
    PlayerView,
    DecodeError,
> {
    match cells_progress(markers, cells, cells.len()) {
        Ok((player, _)) => Ok(player),
        Err(e) => Err(e),
    }
}

/// The markers and the players after the first `n` rows of a page, or the error of the first
/// row that cannot be decoded.
pub open spec fn page_progress(rows: Seq<RowView>, n: nat) -> Result<
    (Seq<Option<Field>>, Seq<PlayerView>),
    DecodeError,
>
    decreases n,
{
    if n == 0 {
        Ok((Seq::empty(), Seq::empty()))
    } else {
        match page_progress(rows, (n - 1) as nat) {
            Err(e) => Err(e),
            Ok((markers, players)) => match rows[n - 1] {
                RowView::Header(classes) => match header_fields(classes) {
                    Some(fields) => Ok((markers + fields, players)),
                    None => Err(DecodeError::UnexpectedMarkup),
                },
                RowView::Data(cells) => match decoded_row(markers, cells) {
                    Ok(player) => Ok((markers, players.push(player))),
                    Err(e) => Err(e),
                },
            },
        }
    }
}

/// The players that the rows of a page describe, in row order.
pub open spec fn decoded(rows: Seq<RowView>) -> Result<Seq<PlayerView>, DecodeError> {
    match page_progress(rows, rows.len()) {
        Ok((_, players)) => Ok(players),
        Err(e) => Err(e),
    }
}

/// The number of data rows among the first `n` rows.
pub open spec fn data_rows(rows: Seq<RowView>, n: nat) -> nat
    decreases n,
{
    if n == 0 {
        0
    } else {
        data_rows(rows, (n - 1) as nat) + if rows[n - 1] is Data {
            1nat
        } else {
            0nat
        }
    }
}

/// The views of a list of players.
pub open spec fn players_view(players: Seq<Player>) -> Seq<PlayerView> {
    Seq::new(players.len(), |i: int| players[i]@)
}

/// A page that decodes gives exactly one player for each of its data rows.
pub proof fn lemma_one_player_per_data_row(rows: Seq<RowView>, n: nat)
    requires
        n <= rows.len(),
    ensures
        page_progress(rows, n) matches Ok((_, players)) ==> players.len() == data_rows(rows, n),
    decreases n,
{
    if n > 0 {
        lemma_one_player_per_data_row(rows, (n - 1) as nat);
    }
}

/// The rows of a page that holds the header row `header`, if it has one, and after it the
/// data rows `data`.
pub open spec fn table_rows(
    header: Option<Seq<Option<Seq<char>>>>,
    data: Seq<Seq<Option<Seq<char>>>>,
) -> Seq<RowView> {
    let head = match header {
        Some(classes) => seq![RowView::Header(classes)],
        None => Seq::empty(),
    };
    head + Seq::new(data.len(), |i: int| RowView::Data(data[i]))
}

/// The column markers under which the data rows of such a page are read.
pub open spec fn table_markers(header: Option<Seq<Option<Seq<char>>>>) -> Seq<Option<Field>> {
    match header {
        Some(classes) => match header_fields(classes) {
            Some(fields) => fields,
            None => Seq::empty(),
        },
        None => Seq::empty(),
    }
}

/// Whether a page of the header row `header`, if any, and the data rows `data` is valid:
/// every marker element of the header has a class, and every data row decodes under the
/// header's markers.
pub open spec fn is_valid_table(
    header: Option<Seq<Option<Seq<char>>>>,
    data: Seq<Seq<Option<Seq<char>>>>,
) -> bool {
    &&& header matches Some(classes) ==> header_fields(classes) is Some
    &&& forall|i: int|
        0 <= i < data.len() ==> decoded_row(table_markers(header), #[trigger] data[i]) is Ok
}

/// The players of a valid page: the `i`-th is the one that the `i`-th data row describes.
pub open spec fn table_players(
    header: Option<Seq<Option<Seq<char>>>>,
    data: Seq<Seq<Option<Seq<char>>>>,
) -> Seq<PlayerView> {
    Seq::new(data.len(), |i: int| decoded_row(table_markers(header), data[i])->Ok_0)
}

/// After the header and the first `n` data rows of a valid page, the markers are those of the
/// header and the players are those of the `n` rows.
proof fn lemma_valid_table_progress(
    header: Option<Seq<Option<Seq<char>>>>,
    data: Seq<Seq<Option<Seq<char>>>>,
    n: nat,
)
    requires
        is_valid_table(header, data),
        n <= data.len(),
    ensures
        ({
            let rows = table_rows(header, data);
            let head: nat = if header is Some {
                1
            } else {
                0
            };
            &&& rows.len() == head + data.len()
            &&& page_progress(rows, head + n) == Ok::<
                (Seq<Option<Field>>, Seq<PlayerView>),
                DecodeError,
            >((table_markers(header), table_players(header, data).take(n as int)))
            &&& data_rows(rows, head + n) == n
        }),
    decreases n,
{
    let rows = table_rows(header, data);
    let head: nat = if header is Some {
        1
    } else {
        0
    };
    let players = table_players(header, data);
    if n == 0 {
        assert(players.take(0) =~= Seq::<PlayerView>::empty());
        if header is Some {
            assert(rows[0] == RowView::Header(header->0));
            assert(Seq::<Option<Field>>::empty() + table_markers(header) =~= table_markers(
                header,
            ));
            assert(page_progress(rows, 0) == Ok::<
                (Seq<Option<Field>>, Seq<PlayerView>),
                DecodeError,
            >((Seq::empty(), Seq::empty())));
        }
    } else {
        lemma_valid_table_progress(header, data, (n - 1) as nat);
        assert(rows[head + n - 1] == RowView::Data(data[n - 1]));
        assert(players.take(n - 1).push(players[n - 1]) =~= players.take(n as int));
    }
}

/// A valid page gives one record for each of its data rows, the `i`-th from the `i`-th row;
/// its header row gives none. So the record count of the page is the number of its data rows.
pub proof fn lemma_valid_table_decodes_row_by_row(
    header: Option<Seq<Option<Seq<char>>>>,
    data: Seq<Seq<Option<Seq<char>>>>,
)
    requires
        is_valid_table(header, data),
    ensures
        decoded(table_rows(header, data)) == Ok::<Seq<PlayerView>, DecodeError>(
            table_players(header, data),
        ),
        table_players(header, data).len() == data.len(),
        data_rows(table_rows(header, data), table_rows(header, data).len()) == data.len(),
{
    lemma_valid_table_progress(header, data, data.len());
    assert(table_players(header, data).take(data.len() as int) =~= table_players(header, data));
}

/// The same of a page of markup within the limit in which the parser finds a valid table:
/// decoding gives one record for each data row, the `i`-th from the `i`-th row.
pub proof fn lemma_valid_page_decodes_row_by_row(
    markup: Seq<char>,
    header: Option<Seq<Option<Seq<char>>>>,
    data: Seq<Seq<Option<Seq<char>>>>,
)
    requires
        markup.len() <= MARKUP_LIMIT,
        page_model(markup) == table_rows(header, data),
        is_valid_table(header, data),
    ensures
        decoded_page(markup) == Ok::<Seq<PlayerView>, DecodeError>(table_players(header, data)),
        table_players(header, data).len() == data.len(),
{
    lemma_valid_table_decodes_row_by_row(header, data);
}

/// Every player of a data row is a record.
pub proof fn lemma_row_player_is_well_formed(
    markers: Seq<Option<Field>>,
    cells: Seq<Option<Seq<char>>>,
    n: nat,
)
    ensures
        cells_progress(markers, cells, n) matches Ok((player, _)) ==> player.well_formed(),
    decreases n,
{
    if n == 0 {
        lemma_blank_player_is_well_formed();
    } else {
        lemma_row_player_is_well_formed(markers, cells, (n - 1) as nat);
        match cells_progress(markers, cells, (n - 1) as nat) {
            Ok((player, used)) => {
                if cells[n - 1] is Some && used < markers.len() && markers[used as int] is Some {
                    lemma_with_cell_keeps_well_formed(
                        player,
                        markers[used as int]->0,
                        cells[n - 1]->0,
                    );
                }
            },
            Err(_) => {},
        }
    }
}

/// Every player of a page that decodes is a record.
pub proof fn lemma_page_players_are_well_formed(rows: Seq<RowView>, n: nat)
    ensures
        page_progress(rows, n) matches Ok((_, players)) ==> forall|i: int|
            0 <= i < players.len() ==> (#[trigger] players[i]).well_formed(),
    decreases n,
{
    if n > 0 {
        lemma_page_players_are_well_formed(rows, (n - 1) as nat);
        match (page_progress(rows, (n - 1) as nat), rows[n - 1]) {
            (Ok((markers, _)), RowView::Data(cells)) => {
                lemma_row_player_is_well_formed(markers, cells, cells.len());
            },
            _ => {},
        }
    }
}

/// Reads the class tokens of a header row into column markers.
fn read_header(classes: &Vec<Option<String>>) -> (fields: Option<Vec<Option<Field>>>)
    ensures
        match fields {
            Some(found) => header_fields(cells_view(classes@)) == Some(found@),
            None => header_fields(cells_view(classes@)) is None,
        },
{
    let ghost view = cells_view(classes@);
    let mut fields: Vec<Option<Field>> = Vec::new();
    for i in 0..classes.len()
        invariant
            view == cells_view(classes@),
            fields@.len() == i,
            forall|j: int| 0 <= j < i ==> (#[trigger] view[j]) is Some,
            forall|j: int| 0 <= j < i ==> #[trigger] fields@[j] == field_named(view[j]->0),
    {
        match &classes[i] {
            Some(class) => {
                fields.push(Field::from_marker(class.as_str()));
            },
            None => {
                assert(view[i as int] is None);
                return None;
            },
        }
    }
    Some(fields)
}

/// Decodes one data row under the given markers.
fn decode_row(markers: &Vec<Option<Field>>, cells: &Vec<Option<String>>) -> (player: Result<
    Player,
    DecodeError,
>)
    ensures
        match player {
            Ok(p) => decoded_row(markers@, cells_view(cells@)) == Ok::<
                PlayerView,
                DecodeError,
            >(p@),
            Err(e) => decoded_row(markers@, cells_view(cells@)) == Err::<
                PlayerView,
                DecodeError,
            >(e),
        },
{
    let ghost view = cells_view(cells@);
    let mut player: Player = Player::default();
    let mut used: usize = 0;
    for i in 0..cells.len()
        invariant
            view == cells_view(cells@),
            used <= i,
            cells_progress(markers@, view, i as nat) == Ok::<(PlayerView, nat), DecodeError>(
                (player@, used as nat),
            ),
    {
        match &cells[i] {
            None => {},
            Some(text) => {
                if used < markers.len() {
                    match markers[used] {
                        None => {},
                        Some(field) => {
                            match player.set_field(field, text.as_str()) {
                                Ok(_) => {},
                                Err(e) => {
                                    proof {
                                        lemma_error_stays(markers@, view, (i + 1) as nat, e);
                                    }
                                    return Err(e);
                                },
                            }
                        },
                    }
                    used += 1;
                }
            },
        }
    }
    Ok(player)
}

/// Once a cell is malformed, the row keeps that error whatever follows.
proof fn lemma_error_stays(
    markers: Seq<Option<Field>>,
    cells: Seq<Option<Seq<char>>>,
    n: nat,
    e: DecodeError,
)
    requires
        n <= cells.len(),
        cells_progress(markers, cells, n) == Err::<(PlayerView, nat), DecodeError>(e),
    ensures
        cells_progress(markers, cells, cells.len()) == Err::<(PlayerView, nat), DecodeError>(e),
    decreases cells.len() - n,
{
    if n < cells.len() {
        lemma_error_stays(markers, cells, n + 1, e);
    }
}

/// Once a row cannot be decoded, the page keeps that error whatever follows.
proof fn lemma_page_error_stays(rows: Seq<RowView>, n: nat, e: DecodeError)
    requires
        n <= rows.len(),
        page_progress(rows, n) == Err::<(Seq<Option<Field>>, Seq<PlayerView>), DecodeError>(e),
    ensures
        page_progress(rows, rows.len()) == Err::<
            (Seq<Option<Field>>, Seq<PlayerView>),
            DecodeError,
        >(e),
    decreases rows.len() - n,
{
    if n < rows.len() {
        assert(page_progress(rows, n + 1) == Err::<
            (Seq<Option<Field>>, Seq<PlayerView>),
            DecodeError,
        >(e));
        lemma_page_error_stays(rows, n + 1, e);
    }
}

/// Decodes the rows of one page into players, in row order.
///
/// The result holds one player for each data row; its length is the record count of the page.
/// The first row that cannot be decoded fails the whole page.
pub fn decode_rows(rows: &Vec<Row>) -> (players: Result<Vec<Player>, DecodeError>)
    ensures
        match players {
            Ok(found) => decoded(rows_view(rows@)) == Ok::<Seq<PlayerView>, DecodeError>(
                players_view(found@),
            ) && found@.len() == data_rows(rows_view(rows@), rows@.len() as nat),
            Err(e) => decoded(rows_view(rows@)) == Err::<Seq<PlayerView>, DecodeError>(e),
        },
        players matches Ok(found) ==> forall|i: int|
            0 <= i < found@.len() ==> (#[trigger] found@[i])@.well_formed(),
{
    let ghost view = rows_view(rows@);
    let mut markers: Vec<Option<Field>> = Vec::new();
    let mut players: Vec<Player> = Vec::new();
    assert(players_view(players@) =~= Seq::<PlayerView>::empty());
    for i in 0..rows.len()
        invariant
            view == rows_view(rows@),
            page_progress(view, i as nat) == Ok::<
                (Seq<Option<Field>>, Seq<PlayerView>),
                DecodeError,
            >((markers@, players_view(players@))),
    {
        match &rows[i] {
            Row::Header(classes) => {
                match read_header(classes) {
                    Some(mut fields) => {
                        markers.append(&mut fields);
                    },
                    None => {
                        proof {
                            lemma_page_error_stays(
                                view,
                                (i + 1) as nat,
                                DecodeError::UnexpectedMarkup,
                            );
                        }
                        return Err(DecodeError::UnexpectedMarkup);
                    },
                }
            },
            Row::Data(cells) => {
                match decode_row(&markers, cells) {
                    Ok(player) => {
                        proof {
                            assert(players_view(players@.push(player)) =~= players_view(
                                players@,
                            ).push(player@));
                        }
                        players.push(player);
                    },
                    Err(e) => {
                        proof {
                            lemma_page_error_stays(view, (i + 1) as nat, e);
                        }
                        return Err(e);
                    },
                }
            },
        }
    }
    proof {
        lemma_one_player_per_data_row(view, rows@.len() as nat);
        lemma_page_players_are_well_formed(view, rows@.len() as nat);
        assert forall|i: int| 0 <= i < players@.len() implies (
        #[trigger] players@[i])@.well_formed() by {
            assert(players_view(players@)[i] == players@[i]@);
        }
    }
    Ok(players)
}

/// The players that the page `markup` describes: a markup over the limit is refused, any
/// other is decoded from the rows that the parser finds in it.
pub open spec fn decoded_page(markup: Seq<char>) -> Result<Seq<PlayerView>, DecodeError> {
    if markup.len() > MARKUP_LIMIT {
        Err(DecodeError::OversizedMarkup)
    } else {
        decoded(page_model(markup))
    }
}

/// Decodes one page of markup into players, in row order.
///
/// The rows are those that the parser finds for the table's row selector; they are decoded as
/// [`decode_rows`] says. A markup of more than [`MARKUP_LIMIT`] characters is refused unread.
pub fn decode_page(markup: &str, selectors: &TableSelectors) -> (players: Result<
    Vec<Player>,
    DecodeError,
>)
    ensures
        match players {
            Ok(found) => decoded_page(markup@) == Ok::<Seq<PlayerView>, DecodeError>(
                players_view(found@),
            ) && found@.len() == data_rows(page_model(markup@), page_model(markup@).len()),
            Err(e) => decoded_page(markup@) == Err::<Seq<PlayerView>, DecodeError>(e),
        },
        players matches Ok(found) ==> forall|i: int|
            0 <= i < found@.len() ==> (#[trigger] found@[i])@.well_formed(),
{
    match read_rows(markup, selectors) {
        Ok(rows) => decode_rows(&rows),
        Err(e) => Err(e),
    }
}

} // verus!
