//! Several workers on one cursor.
//!
//! Workers take turns in an order that nobody controls. This module states what holds of every
//! such order, as long as nothing fails: the cursor hands out every page of the dataset once,
//! and one more page to each worker, on which that worker stops.

use vstd::prelude::*;
use crate::cursor::PAGE_SIZE;
use crate::worker::{begins_page, is_last_page, is_terminal, next_state, Event, WorkerState};

verus! {

/// The workers of a run and the cursor that they share.
pub struct Crew {
    /// The offset that the cursor hands out next.
    pub cursor: int,
    /// Where each worker stands.
    pub workers: Seq<WorkerState>,
    /// The offsets that the cursor has handed out, in that order, each with the worker that
    /// took it.
    pub handed: Seq<(int, int)>,
}

/// The crew of `count` workers that were started one after the other on a cursor at `start`.
pub open spec fn started(start: int, count: nat) -> Crew {
    Crew {
        cursor: start + count * PAGE_SIZE,
        workers: Seq::new(
            count,
            |i: int| WorkerState::Fetching { offset: (start + i * PAGE_SIZE) as i128 },
        ),
        handed: Seq::new(count, |i: int| (i, start + i * PAGE_SIZE)),
    }
}

/// The outcome of the work that `state` asks for when nothing fails and the page at each
/// offset holds `records(offset)` records.
pub open spec fn turn_event(state: WorkerState, records: spec_fn(i128) -> usize) -> Event {
    match state {
        WorkerState::Fetching { .. } => Event::Fetched,
        WorkerState::Decoding { offset } => Event::Decoded { record_count: records(offset) },
        _ => Event::Persisted,
    }
}

/// The crew after worker `who` has done the work that its state asks for. A worker that has
/// stopped takes no turn.
pub open spec fn after_turn(crew: Crew, who: int, records: spec_fn(i128) -> usize) -> Crew {
    if 0 <= who < crew.workers.len() && !is_terminal(crew.workers[who]) {
        let state = crew.workers[who];
        let event = turn_event(state, records);
        let next = next_state(state, event, crew.cursor);
        if begins_page(state, event) {
            Crew {
                cursor: crew.cursor + PAGE_SIZE,
                workers: crew.workers.update(who, next),
                handed: crew.handed.push((who, crew.cursor)),
            }
        } else {
            Crew { workers: crew.workers.update(who, next), ..crew }
        }
    } else {
        crew
    }
}

/// The crew after the workers have taken their turns in the order `schedule`.
pub open spec fn after_turns(crew: Crew, schedule: Seq<int>, records: spec_fn(i128) -> usize) -> Crew
    decreases schedule.len(),
{
    if schedule.len() == 0 {
        crew
    } else {
        after_turn(after_turns(crew, schedule.drop_last(), records), schedule.last(), records)
    }
}

/// The offset of the `k`-th page from `start` on.
pub open spec fn page_offset(start: int, k: int) -> i128 {
    (start + k * PAGE_SIZE) as i128
}

/// Whether the dataset has exactly `full_pages` full pages from `start` on: of the pages that
/// the cursor can hand out, the first `full_pages` are full and all later ones are short.
/// Nothing is asked of offsets that are not `start` plus a number of pages.
pub open spec fn has_full_pages(records: spec_fn(i128) -> usize, start: int, full_pages: nat) -> bool {
    forall|k: int|
        0 <= k && start + k * PAGE_SIZE <= i128::MAX ==> (is_last_page(
            records(#[trigger] page_offset(start, k)) as int,
        ) <==> k >= full_pages)
}

/// Whether `state` is at work on one of the first `handed` pages from `start` on, or has
/// stopped in `Done`.
pub open spec fn holds_handed_page(state: WorkerState, start: int, handed: int) -> bool {
    match state {
        WorkerState::Fetching { offset } => is_handed_page(offset as int, start, handed),
        WorkerState::Decoding { offset } => is_handed_page(offset as int, start, handed),
        WorkerState::Persisting { offset, .. } => is_handed_page(offset as int, start, handed),
        WorkerState::Done => true,
        WorkerState::Failed(_) => false,
    }
}

/// Whether `offset` is that of one of the first `handed` pages from `start` on.
pub open spec fn is_handed_page(offset: int, start: int, handed: int) -> bool {
    start <= offset < start + handed * PAGE_SIZE && (offset - start) % (PAGE_SIZE as int) == 0
}

/// Whether every worker of the crew has stopped in `Done`.
pub open spec fn all_done(crew: Crew) -> bool {
    forall|i: int| 0 <= i < crew.workers.len() ==> (#[trigger] crew.workers[i]) is Done
}

/// Whether `state` is at work on a page below `limit`.
pub open spec fn holds_page_below(state: WorkerState, limit: int) -> bool {
    match state {
        WorkerState::Fetching { offset } => offset < limit,
        WorkerState::Decoding { offset } => offset < limit,
        WorkerState::Persisting { offset, .. } => offset < limit,
        _ => false,
    }
}

/// The number of workers that are at work on a page below `limit`.
pub open spec fn holders_below(workers: Seq<WorkerState>, limit: int) -> nat
    decreases workers.len(),
{
    if workers.len() == 0 {
        0
    } else {
        holders_below(workers.drop_last(), limit) + if holds_page_below(workers.last(), limit) {
            1nat
        } else {
            0nat
        }
    }
}

/// What holds of a crew of `count` workers at every moment of a run without failure on a
/// dataset with `full_pages` full pages: the cursor has handed out a run of pages from
/// `start` on without gap or repeat, no worker has failed, each worker is at work on one of
/// those pages or has stopped, and each worker either is at work on a full page or accounts
/// for one of the pages handed out beyond the full ones.
pub open spec fn in_step(crew: Crew, start: int, count: nat, full_pages: nat) -> bool {
    let limit = start + full_pages * PAGE_SIZE;
    let handed = crew.handed.len() as int;
    &&& crew.workers.len() == count
    &&& crew.cursor == start + handed * PAGE_SIZE
    &&& forall|k: int|
        0 <= k < handed ==> (#[trigger] crew.handed[k]).1 == start + k * PAGE_SIZE && 0
            <= crew.handed[k].0 < count
    &&& forall|i: int|
        0 <= i < count ==> holds_handed_page(#[trigger] crew.workers[i], start, handed) && (
        crew.workers[i] matches WorkerState::Persisting { offset, record_count }
            ==> (is_last_page(record_count as int) <==> offset >= limit))
    &&& holders_below(crew.workers, limit) + if handed > full_pages {
        handed - full_pages
    } else {
        0
    } == count
}

/// Replacing one worker changes the number of holders by that worker alone.
proof fn lemma_holders_update(workers: Seq<WorkerState>, who: int, next: WorkerState, limit: int)
    requires
        0 <= who < workers.len(),
    ensures
        holders_below(workers.update(who, next), limit) + if holds_page_below(workers[who], limit) {
            1nat
        } else {
            0nat
        } == holders_below(workers, limit) + if holds_page_below(next, limit) {
            1nat
        } else {
            0nat
        },
    decreases workers.len(),
{
    let changed = workers.update(who, next);
    if who == workers.len() - 1 {
        assert(changed.drop_last() =~= workers.drop_last());
    } else {
        lemma_holders_update(workers.drop_last(), who, next, limit);
        assert(changed.drop_last() =~= workers.drop_last().update(who, next));
    }
}

/// Workers that have all stopped hold no page.
proof fn lemma_no_holders_when_done(workers: Seq<WorkerState>, limit: int)
    requires
        forall|i: int| 0 <= i < workers.len() ==> (#[trigger] workers[i]) is Done,
    ensures
        holders_below(workers, limit) == 0,
    decreases workers.len(),
{
    if workers.len() > 0 {
        lemma_no_holders_when_done(workers.drop_last(), limit);
    }
}

/// Of `count` workers just started, those at work on a full page are as many as there are
/// full pages among the first `count`.
proof fn lemma_holders_at_start(start: int, count: nat, limit_pages: nat)
    requires
        i128::MIN <= start,
        start + count * PAGE_SIZE <= i128::MAX,
    ensures
        holders_below(started(start, count).workers, start + limit_pages * PAGE_SIZE) == if count
            <= limit_pages {
            count
        } else {
            limit_pages
        },
    decreases count,
{
    if count > 0 {
        lemma_holders_at_start(start, (count - 1) as nat, limit_pages);
        assert(started(start, count).workers.drop_last() =~= started(
            start,
            (count - 1) as nat,
        ).workers);
    }
}

/// A crew that was just started is in step.
proof fn lemma_started_in_step(start: int, count: nat, full_pages: nat)
    requires
        i128::MIN <= start,
        start + count * PAGE_SIZE <= i128::MAX,
    ensures
        in_step(started(start, count), start, count, full_pages),
{
    lemma_holders_at_start(start, count, full_pages);
}

/// A turn keeps a crew in step.
proof fn lemma_turn_keeps_step(
    crew: Crew,
    who: int,
    records: spec_fn(i128) -> usize,
    start: int,
    count: nat,
    full_pages: nat,
)
    requires
        i128::MIN <= start,
        start + (full_pages + count) * PAGE_SIZE <= i128::MAX,
        has_full_pages(records, start, full_pages),
        in_step(crew, start, count, full_pages),
    ensures
        in_step(after_turn(crew, who, records), start, count, full_pages),
{
    if 0 <= who < crew.workers.len() && !is_terminal(crew.workers[who]) {
        let limit = start + full_pages * PAGE_SIZE;
        let state = crew.workers[who];
        let event = turn_event(state, records);
        let next = next_state(state, event, crew.cursor);
        let after = after_turn(crew, who, records);
        lemma_holders_update(crew.workers, who, next, limit);
        assert(holds_handed_page(state, start, crew.handed.len() as int));
        match state {
            WorkerState::Decoding { offset } => {
                let k = (offset - start) / (PAGE_SIZE as int);
                assert(page_offset(start, k) == offset);
                assert(is_last_page(records(offset) as int) <==> offset >= limit);
            },
            _ => {},
        }
        assert forall|i: int| 0 <= i < count implies holds_handed_page(
            #[trigger] after.workers[i],
            start,
            after.handed.len() as int,
        ) && (after.workers[i] matches WorkerState::Persisting { offset, record_count }
            ==> (is_last_page(record_count as int) <==> offset >= limit)) by {
            if i != who {
                assert(after.workers[i] == crew.workers[i]);
                assert(holds_handed_page(crew.workers[i], start, crew.handed.len() as int));
            }
        }
        assert forall|k: int| 0 <= k < after.handed.len() implies (#[trigger] after.handed[k]).1
            == start + k * PAGE_SIZE && 0 <= after.handed[k].0 < count by {
            if k < crew.handed.len() {
                assert(after.handed[k] == crew.handed[k]);
            }
        }
    }
}

/// Every order of turns keeps a crew in step. In particular no worker ever fails, and the
/// cursor is never asked for more than the full pages and one page for each worker.
pub proof fn lemma_crew_stays_in_step(
    start: int,
    count: nat,
    full_pages: nat,
    records: spec_fn(i128) -> usize,
    schedule: Seq<int>,
)
    requires
        i128::MIN <= start,
        start + (full_pages + count) * PAGE_SIZE <= i128::MAX,
        has_full_pages(records, start, full_pages),
    ensures
        in_step(after_turns(started(start, count), schedule, records), start, count, full_pages),
        after_turns(started(start, count), schedule, records).cursor <= start + (full_pages
            + count) * PAGE_SIZE,
    decreases schedule.len(),
{
    if schedule.len() == 0 {
        lemma_started_in_step(start, count, full_pages);
    } else {
        lemma_crew_stays_in_step(start, count, full_pages, records, schedule.drop_last());
        lemma_turn_keeps_step(
            after_turns(started(start, count), schedule.drop_last(), records),
            schedule.last(),
            records,
            start,
            count,
            full_pages,
        );
    }
}

/// Workers that share a cursor share the pages, whatever the order of their turns.
///
/// Take any number of workers, at least one, started on one cursor, and a dataset with
/// `full_pages` full pages followed by short ones. If nothing fails and the workers, taking
/// turns in any order, have all stopped, then the cursor has handed out exactly the full
/// pages and one short page for each worker: the `k`-th offset handed out is `start` plus `k`
/// pages, so every page is taken by one worker and no offset is handed out twice, and the
/// cursor stands right behind the last of them.
pub proof fn lemma_crew_shares_every_page(
    start: int,
    count: nat,
    full_pages: nat,
    records: spec_fn(i128) -> usize,
    schedule: Seq<int>,
)
    requires
        count >= 1,
        i128::MIN <= start,
        start + (full_pages + count) * PAGE_SIZE <= i128::MAX,
        has_full_pages(records, start, full_pages),
        all_done(after_turns(started(start, count), schedule, records)),
    ensures
        ({
            let end = after_turns(started(start, count), schedule, records);
            &&& end.handed.len() == full_pages + count
            &&& end.cursor == start + (full_pages + count) * PAGE_SIZE
            &&& forall|k: int|
                0 <= k < full_pages + count ==> (#[trigger] end.handed[k]).1 == start + k
                    * PAGE_SIZE && 0 <= end.handed[k].0 < count
        }),
{
    let end = after_turns(started(start, count), schedule, records);
    lemma_crew_stays_in_step(start, count, full_pages, records, schedule);
    lemma_no_holders_when_done(end.workers, start + full_pages * PAGE_SIZE);
}

} // verus!
