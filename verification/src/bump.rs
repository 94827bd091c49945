//! The bump allocation strategy: a single cursor walks forward through
//! the heap region, and the whole region is reclaimed at once when the
//! last outstanding allocation is freed.

use vstd::prelude::*;

verus! {

use crate::align::{align_up_checked, spec_align_up, lemma_align_up_bounds};
use crate::layout::Layout;

pub struct BumpAllocator {
    pub heap_start: usize,
    pub heap_end: usize,
    pub next: usize,
    pub allocations: usize,
}

impl BumpAllocator {
    /// The allocator's internal consistency: the cursor stays inside the
    /// heap bounds, and a heap with no outstanding allocations has its
    /// cursor parked at the start.
    pub open spec fn wf(self) -> bool {
        &&& self.heap_start <= self.next <= self.heap_end
        &&& self.allocations == 0 ==> self.next == self.heap_start
    }

    /// The strict form of the outstanding-count invariant, for use
    /// with non-empty allocations: the cursor sits strictly past the
    /// heap start exactly while allocations are outstanding. `init`
    /// establishes it, and the contracts of `allocate` (for a
    /// positive size) and `deallocate` preserve it step by step, so
    /// it holds along any history of positive-size requests; a
    /// zero-size allocation is the one input that breaks it.
    pub open spec fn strict_cursor_invariant(self) -> bool {
        &&& self.wf()
        &&& self.allocations > 0 ==> self.next > self.heap_start
    }

    /// Creates a new empty bump allocator.
    pub fn new() -> (r: BumpAllocator)
        ensures
            r.wf(),
            r.heap_start == 0,
            r.heap_end == 0,
            r.next == 0,
            r.allocations == 0,
    {
        BumpAllocator { heap_start: 0, heap_end: 0, next: 0, allocations: 0 }
    }

    /// Hands the allocator its heap bounds. The memory range itself is
    /// managed by the caller; only its addresses are tracked here.
    pub fn init(&mut self, heap_start: usize, heap_size: usize)
        requires
            old(self).allocations == 0,
            heap_start + heap_size <= usize::MAX,
        ensures
            final(self).wf(),
            final(self).heap_start == heap_start,
            final(self).heap_end == heap_start + heap_size,
            final(self).next == heap_start,
            final(self).allocations == 0,
            final(self).strict_cursor_invariant(),
    {
        self.heap_start = heap_start;
        self.heap_end = heap_start + heap_size;
        self.next = heap_start;
    }

    /// Serves an allocation by rounding the cursor up to the requested
    /// alignment and advancing it past the requested size. Fails exactly
    /// when the aligned request does not fit in the remaining region.
    pub fn allocate(&mut self, layout: Layout) -> (r: Option<usize>)
        requires
            old(self).wf(),
            layout.wf(),
            old(self).allocations < usize::MAX,
        ensures
            final(self).wf(),
            final(self).heap_start == old(self).heap_start,
            final(self).heap_end == old(self).heap_end,
            ({
                let start = spec_align_up(old(self).next as int, layout.align as int);
                if start + layout.size <= old(self).heap_end {
                    &&& r == Some(start as usize)
                    &&& start % layout.align as int == 0
                    &&& final(self).next == start + layout.size
                    &&& final(self).next >= old(self).next
                    &&& layout.size > 0 ==> final(self).next > final(self).heap_start
                    &&& final(self).allocations == old(self).allocations + 1
                    &&& old(self).strict_cursor_invariant() && layout.size > 0
                        ==> final(self).strict_cursor_invariant()
                } else {
                    &&& r is None
                    &&& final(self).next == old(self).next
                    &&& final(self).allocations == old(self).allocations
                    &&& old(self).strict_cursor_invariant() ==> final(self)
                        .strict_cursor_invariant()
                }
            }),
    {
        proof {
            lemma_align_up_bounds(self.next as int, layout.align as int);
        }
        let alloc_start = match align_up_checked(self.next, layout.align) {
            Some(s) => s,
            None => {
                return None;
            },
        };
        let alloc_end = match alloc_start.checked_add(layout.size) {
            Some(end) => end,
            None => {
                return None;
            },
        };
        if alloc_end > self.heap_end {
            None
        } else {
            self.next = alloc_end;
            self.allocations = self.allocations + 1;
            Some(alloc_start)
        }
    }

    /// Records that one allocation was returned; once none remain, the
    /// cursor snaps back to the heap start and the whole region is free
    /// again.
    pub fn deallocate(&mut self)
        requires
            old(self).wf(),
            old(self).allocations > 0,
        ensures
            final(self).wf(),
            final(self).heap_start == old(self).heap_start,
            final(self).heap_end == old(self).heap_end,
            final(self).allocations == old(self).allocations - 1,
            final(self).next == if final(self).allocations == 0 {
                final(self).heap_start
            } else {
                old(self).next
            },
            old(self).strict_cursor_invariant() ==> final(self).strict_cursor_invariant(),
    {
        self.allocations = self.allocations - 1;
        if self.allocations == 0 {
            self.next = self.heap_start;
        }
    }

    /// The outstanding-count invariant of the bump strategy: whenever the
    /// count is zero the cursor sits exactly at the heap start, so the
    /// full capacity is available again. (With a zero-sized allocation
    /// the cursor can also sit at the start while the count is positive,
    /// so only this direction holds of all states.)
    pub proof fn lemma_idle_cursor_at_start(self)
        requires
            self.wf(),
            self.allocations == 0,
        ensures
            self.next == self.heap_start,
    {
    }

    /// Under the strict invariant — that is, along any history of
    /// positive-size allocations — the outstanding-count property is
    /// a biconditional: the cursor sits at the heap start exactly
    /// when the count is zero.
    pub proof fn lemma_cursor_iff_idle(self)
        requires
            self.strict_cursor_invariant(),
        ensures
            self.allocations == 0 <==> self.next == self.heap_start,
    {
    }
}

} // verus!
