//! The worker loop, as a state machine.
//!
//! A worker fetches one page, decodes it, persists its records, and then either begins the
//! next page or stops. The library decides; the caller does the outside work. In each state
//! [`WorkerState::action`] says what is to be done, and [`WorkerState::step`] takes the outcome
//! as an [`Event`] and gives the next state.

use vstd::prelude::*;
use crate::coerce::DecodeError;
use crate::cursor::{Cursor, PAGE_SIZE};
use crate::player::Player;

verus! {

/// What ended a worker that did not finish.
#[derive(Clone, Copy, Debug, PartialEq, Eq, Structural)]
pub enum Failure {
    /// The page could not be fetched.
    Fetch,
    /// The page could not be decoded.
    Decode(DecodeError),
    /// A record could not be written to the store.
    Persist,
}

/// Where a worker stands.
#[derive(Clone, Copy, Debug, PartialEq, Eq, Structural)]
pub enum WorkerState {
    /// The page at `offset` is being fetched.
    Fetching { offset: i128 },
    /// The page at `offset` was fetched and is being decoded.
    Decoding { offset: i128 },
    /// The page at `offset` gave `record_count` records, which are being persisted.
    Persisting { offset: i128, record_count: usize },
    /// The worker saw the last page and stopped.
    Done,
    /// The worker stopped on an error.
    Failed(Failure),
}

/// The outcome of the work that a state asked for.
#[derive(Clone, Copy, Debug, PartialEq, Eq, Structural)]
pub enum Event {
    /// The page was fetched.
    Fetched,
    /// The fetch failed after the retries that the client makes.
    FetchFailed,
    /// The page was decoded and gave `record_count` records.
    Decoded { record_count: usize },
    /// The page could not be decoded.
    DecodeFailed(DecodeError),
    /// Every record of the page was written, in the order decoded.
    Persisted,
    /// A record could not be written.
    PersistFailed,
}

/// The work that a state asks for.
#[derive(Clone, Copy, Debug, PartialEq, Eq, Structural)]
pub enum Action {
    /// Fetch the page at `offset`.
    Fetch { offset: i128 },
    /// Decode the page that was fetched.
    Decode,
    /// Write the `record_count` records of the page to the store, in the order decoded.
    Persist { record_count: usize },
    /// Nothing is left to do.
    Stop,
}

/// Whether a page with `record_count` records is the last one: a page that is not full.
pub open spec fn is_last_page(record_count: int) -> bool {
    record_count < PAGE_SIZE
}

/// Whether `state` is one from which no further state is reached.
pub open spec fn is_terminal(state: WorkerState) -> bool {
    state is Done || state is Failed
}

/// Whether `event` in `state` makes the worker begin another page, and so take an offset
/// from the cursor.
pub open spec fn begins_page(state: WorkerState, event: Event) -> bool {
    state matches WorkerState::Persisting { record_count, .. } && event is Persisted
        && !is_last_page(record_count as int)
}

/// The state that follows `state` on `event`, where `fresh` is the offset that the cursor
/// hands out if another page is begun. An event that the state does not wait for leaves the
/// state as it is.
pub open spec fn next_state(state: WorkerState, event: Event, fresh: int) -> WorkerState {
    match (state, event) {
        (WorkerState::Fetching { offset }, Event::Fetched) => WorkerState::Decoding { offset },
        (WorkerState::Fetching { .. }, Event::FetchFailed) => WorkerState::Failed(Failure::Fetch),
        (WorkerState::Decoding { offset }, Event::Decoded { record_count }) => {
            WorkerState::Persisting { offset, record_count }
        },
        (WorkerState::Decoding { .. }, Event::DecodeFailed(e)) => WorkerState::Failed(
            Failure::Decode(e),
        ),
        (WorkerState::Persisting { record_count, .. }, Event::Persisted) => {
            if is_last_page(record_count as int) {
                WorkerState::Done
            } else {
                WorkerState::Fetching { offset: fresh as i128 }
            }
        },
        (WorkerState::Persisting { .. }, Event::PersistFailed) => WorkerState::Failed(
            Failure::Persist,
        ),
        _ => state,
    }
}

/// The work that `state` asks for.
pub open spec fn action_of(state: WorkerState) -> Action {
    match state {
        WorkerState::Fetching { offset } => Action::Fetch { offset },
        WorkerState::Decoding { .. } => Action::Decode,
        WorkerState::Persisting { record_count, .. } => Action::Persist { record_count },
        WorkerState::Done => Action::Stop,
        WorkerState::Failed(_) => Action::Stop,
    }
}

impl WorkerState {
    /// The first state of a worker: fetching the page at the offset that the cursor hands out.
    pub fn start(cursor: &mut Cursor) -> (state: WorkerState)
        requires
            old(cursor).can_allocate(),
        ensures
            state == (WorkerState::Fetching { offset: old(cursor).next_offset() as i128 }),
            final(cursor).next_offset() == old(cursor).next_offset() + PAGE_SIZE,
    {
        let offset: i128 = cursor.allocate_next();
        WorkerState::Fetching { offset }
    }

    /// The state that follows on `event`. The cursor is advanced by one page where another
    /// page is begun, and left alone otherwise.
    pub fn step(self, event: Event, cursor: &mut Cursor) -> (next: WorkerState)
        requires
            begins_page(self, event) ==> old(cursor).can_allocate(),
        ensures
            next == next_state(self, event, old(cursor).next_offset()),
            final(cursor).next_offset() == if begins_page(self, event) {
                old(cursor).next_offset() + PAGE_SIZE
            } else {
                old(cursor).next_offset()
            },
    {
        match (self, event) {
            (WorkerState::Fetching { offset }, Event::Fetched) => WorkerState::Decoding { offset },
            (WorkerState::Fetching { .. }, Event::FetchFailed) => WorkerState::Failed(
                Failure::Fetch,
            ),
            (WorkerState::Decoding { offset }, Event::Decoded { record_count }) => {
                WorkerState::Persisting { offset, record_count }
            },
            (WorkerState::Decoding { .. }, Event::DecodeFailed(e)) => WorkerState::Failed(
                Failure::Decode(e),
            ),
            (WorkerState::Persisting { record_count, .. }, Event::Persisted) => {
                if (record_count as i128) < PAGE_SIZE {
                    WorkerState::Done
                } else {
                    let offset: i128 = cursor.allocate_next();
                    WorkerState::Fetching { offset }
                }
            },
            (WorkerState::Persisting { .. }, Event::PersistFailed) => WorkerState::Failed(
                Failure::Persist,
            ),
            _ => self,
        }
    }

    /// Whether `event` in this state makes the worker begin another page.
    pub fn takes_offset(&self, event: &Event) -> (taken: bool)
        ensures
            taken == begins_page(*self, *event),
    {
        match (*self, *event) {
            (WorkerState::Persisting { record_count, .. }, Event::Persisted) => {
                (record_count as i128) >= PAGE_SIZE
            },
            _ => false,
        }
    }

    /// The work that this state asks for.
    pub fn action(&self) -> (action: Action)
        ensures
            action == action_of(*self),
    {
        match *self {
            WorkerState::Fetching { offset } => Action::Fetch { offset },
            WorkerState::Decoding { .. } => Action::Decode,
            WorkerState::Persisting { record_count, .. } => Action::Persist { record_count },
            WorkerState::Done => Action::Stop,
            WorkerState::Failed(_) => Action::Stop,
        }
    }

    /// Whether the worker has stopped.
    pub fn is_finished(&self) -> (finished: bool)
        ensures
            finished == is_terminal(*self),
    {
        match *self {
            WorkerState::Done => true,
            WorkerState::Failed(_) => true,
            _ => false,
        }
    }
}

impl Event {
    /// The event that the outcome of decoding a page stands for.
    pub fn after_decode(outcome: &Result<Vec<Player>, DecodeError>) -> (event: Event)
        ensures
            event == match *outcome {
                Ok(players) => Event::Decoded { record_count: players.len() },
                Err(e) => Event::DecodeFailed(e),
            },
    {
        match outcome {
            Ok(players) => Event::Decoded { record_count: players.len() },
            Err(e) => Event::DecodeFailed(*e),
        }
    }
}

/// Whether a run succeeded: every worker stopped in `Done`.
pub fn run_succeeded(workers: &Vec<WorkerState>) -> (ok: bool)
    ensures
        ok == forall|i: int| 0 <= i < workers.len() ==> (#[trigger] workers[i]) is Done,
{
    for i in 0..workers.len()
        invariant
            forall|j: int| 0 <= j < i ==> (#[trigger] workers[j]) is Done,
    {
        match workers[i] {
            WorkerState::Done => {},
            _ => {
                return false;
            },
        }
    }
    true
}

/// A page with fewer records than a full page ends the worker: once it is decoded and its
/// records are persisted, the worker is `Done`, and what it was asked to persist are exactly
/// the records of that page.
pub proof fn lemma_short_page_ends_worker(offset: i128, record_count: usize, fresh: int)
    requires
        is_last_page(record_count as int),
    ensures
        ({
            let decoding = WorkerState::Decoding { offset };
            let persisting = next_state(decoding, Event::Decoded { record_count }, fresh);
            &&& persisting == (WorkerState::Persisting { offset, record_count })
            &&& action_of(persisting) == (Action::Persist { record_count })
            &&& next_state(persisting, Event::Persisted, fresh) == WorkerState::Done
        }),
{
}

/// A full page sends the worker on to the next page, at the offset that the cursor hands out.
pub proof fn lemma_full_page_continues(offset: i128, record_count: usize, fresh: i128)
    requires
        !is_last_page(record_count as int),
    ensures
        next_state(
            WorkerState::Persisting { offset, record_count },
            Event::Persisted,
            fresh as int,
        ) == (WorkerState::Fetching { offset: fresh }),
{
}

/// A worker that has stopped stays where it is, and asks for no more work.
pub proof fn lemma_stopped_worker_stays(state: WorkerState, event: Event, fresh: int)
    requires
        is_terminal(state),
    ensures
        next_state(state, event, fresh) == state,
        action_of(state) == Action::Stop,
        !begins_page(state, event),
{
}

/// A failed fetch, decode or write stops the worker in `Failed`, and a worker is never asked
/// to persist a page that did not decode.
pub proof fn lemma_errors_are_fatal(offset: i128, record_count: usize, e: DecodeError, fresh: int)
    ensures
        next_state(WorkerState::Fetching { offset }, Event::FetchFailed, fresh)
            == WorkerState::Failed(Failure::Fetch),
        next_state(WorkerState::Decoding { offset }, Event::DecodeFailed(e), fresh)
            == WorkerState::Failed(Failure::Decode(e)),
        next_state(WorkerState::Persisting { offset, record_count }, Event::PersistFailed, fresh)
            == WorkerState::Failed(Failure::Persist),
        action_of(WorkerState::Failed(Failure::Decode(e))) == Action::Stop,
{
}

} // verus!
