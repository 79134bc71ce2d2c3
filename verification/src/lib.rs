//! Concurrent pagination engine for a paged table of player statistics.
//!
//! Workers share one [`cursor::Cursor`], which hands each of them the offset of a page that
//! nobody else has. A worker fetches its page, decodes the table in it into
//! [`player::Player`] records, persists them, and goes on to another page until it meets a
//! page that is not full. The library holds the decisions and the decoding; fetching and
//! writing are left to the caller, which is told what to do by [`worker::WorkerState::action`].
//!
//! - [`text`]: digits, suffixes and the decimal text of integers.
//! - [`coerce`]: from the text of a cell to a counter, a duration, a distance or a free text.
//! - [`player`]: the record and how a cell is stored into it.
//! - [`dom`]: the boundary to the HTML parser.
//! - [`page`]: the rows of a page as plain values, read out of the markup.
//! - [`decoder`]: from rows to records.
//! - [`cursor`]: the allocator of page offsets.
//! - [`worker`]: the worker loop as a state machine.
//! - [`crew`]: what holds of several workers on one cursor, whatever the order of their turns.
//! - [`request`]: the parameters of the request for one page.
//! - [`store`]: the statements sent to the destination database.

pub mod coerce;
pub mod crew;
pub mod cursor;
pub mod decoder;
pub mod dom;
pub mod page;
pub mod player;
pub mod request;
pub mod store;
pub mod text;
pub mod worker;
