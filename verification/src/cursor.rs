//! The shared page cursor: hands out page offsets, one page apart, each exactly once.
//!
//! The cursor is the only thing that workers share besides the store. It is changed through
//! `allocate_next` alone, under exclusive access, so that no two callers are handed the same
//! offset.

use vstd::prelude::*;

verus! {

/// Number of rows on a full page, and the distance between two allocated offsets.
pub const PAGE_SIZE: i128 = 100;

/// The next unallocated page offset.
#[derive(Debug)]
pub struct Cursor {
    next: i128,
}

impl Cursor {
    /// The offset that the next allocation returns.
    pub closed spec fn next_offset(&self) -> int {
        self.next as int
    }

    /// Whether one more allocation stays within the range of the offset type.
    pub open spec fn can_allocate(&self) -> bool {
        self.next_offset() + PAGE_SIZE <= i128::MAX
    }

    /// A cursor whose first allocation returns `start`.
    pub fn new(start: i128) -> (cursor: Cursor)
        ensures
            cursor.next_offset() == start,
    {
        Cursor { next: start }
    }

    /// Whether one more allocation stays within the range of the offset type.
    pub fn has_room(&self) -> (room: bool)
        ensures
            room == self.can_allocate(),
    {
        self.next <= i128::MAX - PAGE_SIZE
    }

    /// Returns the current offset and advances the cursor by one page.
    pub fn allocate_next(&mut self) -> (offset: i128)
        requires
            old(self).can_allocate(),
        ensures
            offset == old(self).next_offset(),
            final(self).next_offset() == old(self).next_offset() + PAGE_SIZE,
    {
        let offset: i128 = self.next;
        self.next = offset + PAGE_SIZE;
        offset
    }
}

/// Whether `trace` lists the states of one cursor before and after a run of allocations: each
/// state is what `allocate_next` leaves of the state before it.
pub open spec fn is_allocation_trace(trace: Seq<Cursor>) -> bool {
    forall|i: int|
        0 <= i < trace.len() - 1 ==> (#[trigger] trace[i + 1]).next_offset() == trace[i].next_offset()
            + PAGE_SIZE
}

/// In any run of allocations on one cursor, the `i`-th allocation returns the start offset
/// plus `i` pages: the offsets handed out are the start, the start plus one page, the start
/// plus two pages and so on, without gap.
pub proof fn lemma_allocations_are_exhaustive(trace: Seq<Cursor>, i: int)
    requires
        is_allocation_trace(trace),
        0 <= i < trace.len(),
    ensures
        trace[i].next_offset() == trace[0].next_offset() + i * PAGE_SIZE,
    decreases i,
{
    if i > 0 {
        lemma_allocations_are_exhaustive(trace, i - 1);
        assert(trace[(i - 1) + 1].next_offset() == trace[i - 1].next_offset() + PAGE_SIZE);
    }
}

/// In any run of allocations on one cursor, no offset is handed out twice.
pub proof fn lemma_allocations_do_not_overlap(trace: Seq<Cursor>, i: int, j: int)
    requires
        is_allocation_trace(trace),
        0 <= i < j < trace.len(),
    ensures
        trace[i].next_offset() != trace[j].next_offset(),
{
    lemma_allocations_are_exhaustive(trace, i);
    lemma_allocations_are_exhaustive(trace, j);
}

} // verus!
