//! The free-list ("first fit") allocation strategy: a list of free
//! regions, scanned front to back; a matching region is removed, a
//! large-enough tail remainder is re-inserted, and freed spans are
//! pushed back at the head without coalescing.
//!
//! In the running kernel each free region stores its own bookkeeping
//! node at its first bytes; here the list is held as plain
//! address/size pairs, and the node's size and alignment survive as
//! the constraints every tracked region must satisfy.

use vstd::prelude::*;

verus! {

use crate::align::{align_up_checked, spec_align_up, is_pow2, lemma_align_up_bounds,
    lemma_aligned_to_divisor, lemma_pow2_divides};
use crate::layout::Layout;

/// Bytes a free region must be able to host for its bookkeeping node.
pub const NODE_SIZE: usize = 16;

/// Alignment a free region must have for its bookkeeping node.
pub const NODE_ALIGN: usize = 8;

/// One free span of heap memory.
#[derive(Clone, Copy, PartialEq, Eq, Structural, Debug)]
pub struct Region {
    pub addr: usize,
    pub size: usize,
}

impl Region {
    pub open spec fn end(self) -> int {
        self.addr + self.size
    }

    /// A region the list may track: aligned and large enough for a
    /// bookkeeping node, with an in-range end address.
    pub open spec fn wf(self) -> bool {
        &&& self.addr as int % (NODE_ALIGN as int) == 0
        &&& self.size >= NODE_SIZE
        &&& self.addr + self.size <= usize::MAX
    }
}

/// Total bytes tracked by a free list.
pub open spec fn free_bytes(s: Seq<Region>) -> int
    decreases s.len(),
{
    if s.len() == 0 {
        0
    } else {
        s[0].size + free_bytes(s.drop_first())
    }
}

/// Where an allocation of `size` bytes at alignment `align` would sit
/// inside `region`: the aligned start, provided the span fits and the
/// tail remainder is either empty or large enough to stay tracked.
pub open spec fn spec_fit(region: Region, size: int, align: int) -> Option<int>
    recommends
        align > 0,
{
    let start = spec_align_up(region.addr as int, align);
    let end = start + size;
    if end > region.end() {
        None
    } else if region.end() - end > 0 && region.end() - end < NODE_SIZE {
        None
    } else {
        Some(start)
    }
}

/// First-fit search: the index of the first region the request fits
/// in, with the allocation's start address.
pub open spec fn spec_find(s: Seq<Region>, size: int, align: int) -> Option<(int, int)>
    decreases s.len(),
{
    if s.len() == 0 {
        None
    } else {
        match spec_fit(s[0], size, align) {
            Some(start) => Some((0, start)),
            None => match spec_find(s.drop_first(), size, align) {
                Some((i, start)) => Some((i + 1, start)),
                None => None,
            },
        }
    }
}

/// The request as the allocator actually serves it: alignment raised
/// to at least the node alignment, size padded to a multiple of that
/// alignment and to at least a node.
pub open spec fn spec_size_align(layout: Layout) -> (int, int) {
    let align = if layout.align >= NODE_ALIGN {
        layout.align as int
    } else {
        NODE_ALIGN as int
    };
    let padded = spec_align_up(layout.size as int, align);
    let size = if padded >= NODE_SIZE {
        padded
    } else {
        NODE_SIZE as int
    };
    (size, align)
}

/// The free list after serving `layout`, with the chosen start
/// address: the matched region leaves the list and a non-empty tail
/// remainder is re-inserted at the head.
pub open spec fn spec_allocate(s: Seq<Region>, layout: Layout) -> (Seq<Region>, Option<int>) {
    let (size, align) = spec_size_align(layout);
    match spec_find(s, size, align) {
        None => (s, None),
        Some((i, start)) => {
            let region = s[i];
            let end = start + size;
            let excess = region.end() - end;
            let removed = s.remove(i);
            if excess > 0 {
                (removed.insert(0, Region { addr: end as usize, size: excess as usize }),
                    Some(start))
            } else {
                (removed, Some(start))
            }
        },
    }
}

/// The free list after a span allocated with `layout` at `ptr` comes
/// back: its normalized extent is pushed at the head, uncoalesced.
pub open spec fn spec_deallocate(s: Seq<Region>, ptr: usize, layout: Layout) -> Seq<Region> {
    let (size, _) = spec_size_align(layout);
    s.insert(0, Region { addr: ptr, size: size as usize })
}

pub struct LinkedListAllocator {
    free_list: Vec<Region>,
}

impl View for LinkedListAllocator {
    type V = Seq<Region>;

    closed spec fn view(&self) -> Seq<Region> {
        self.free_list@
    }
}

impl LinkedListAllocator {
    pub open spec fn wf(self) -> bool {
        forall|i: int| 0 <= i < self@.len() ==> (#[trigger] self@[i]).wf()
    }

    /// Creates an empty free-list allocator.
    pub fn new() -> (r: LinkedListAllocator)
        ensures
            r.wf(),
            r@ == Seq::<Region>::empty(),
    {
        let v: Vec<Region> = Vec::new();
        proof {
            assert(v@ =~= Seq::<Region>::empty());
        }
        LinkedListAllocator { free_list: v }
    }

    /// Hands the allocator its heap bounds as one free region. The
    /// caller vouches that the range is unused, and initializes only
    /// once.
    pub fn init(&mut self, heap_start: usize, heap_size: usize)
        requires
            old(self).wf(),
            old(self)@.len() == 0,
            heap_start as int % (NODE_ALIGN as int) == 0,
            heap_size >= NODE_SIZE,
            heap_start + heap_size <= usize::MAX,
        ensures
            final(self).wf(),
            final(self)@ =~= seq![Region { addr: heap_start, size: heap_size }],
            free_bytes(final(self)@) == heap_size,
    {
        self.add_free_region(heap_start, heap_size);
        proof {
            lemma_free_bytes_insert_front(old(self)@,
                Region { addr: heap_start, size: heap_size });
        }
    }

    /// Pushes a free span at the head of the list.
    pub fn add_free_region(&mut self, addr: usize, size: usize)
        requires
            old(self).wf(),
            addr as int % (NODE_ALIGN as int) == 0,
            size >= NODE_SIZE,
            addr + size <= usize::MAX,
        ensures
            final(self).wf(),
            final(self)@ == old(self)@.insert(0, Region { addr, size }),
            free_bytes(final(self)@) == free_bytes(old(self)@) + size,
    {
        let region = Region { addr, size };
        self.free_list.insert(0, region);
        proof {
            lemma_free_bytes_insert_front(old(self)@, region);
            assert forall|i: int| 0 <= i < self@.len() implies (#[trigger] self@[i]).wf() by {
                if i > 0 {
                    assert(self@[i] == old(self)@[i - 1]);
                }
            }
        }
    }

    /// Whether an allocation with the given size and alignment can be
    /// carved out of `region`, and from which address.
    pub fn alloc_from_region(region: Region, size: usize, align: usize) -> (r: Result<usize, ()>)
        requires
            region.wf(),
            align > 0,
        ensures
            r == match spec_fit(region, size as int, align as int) {
                Some(start) => Ok::<usize, ()>(start as usize),
                None => Err::<usize, ()>(()),
            },
    {
        proof {
            lemma_align_up_bounds(region.addr as int, align as int);
        }
        let alloc_start = match align_up_checked(region.addr, align) {
            Some(s) => s,
            None => {
                return Err(());
            },
        };
        let alloc_end = match alloc_start.checked_add(size) {
            Some(e) => e,
            None => {
                return Err(());
            },
        };
        let region_end = region.addr + region.size;
        if alloc_end > region_end {
            return Err(());
        }
        let excess_size = region_end - alloc_end;
        if excess_size > 0 && excess_size < NODE_SIZE {
            return Err(());
        }
        Ok(alloc_start)
    }

    /// First-fit scan: removes and returns the first region the
    /// request fits in, together with the allocation start address.
    pub fn find_region(&mut self, size: usize, align: usize) -> (r: Option<(Region, usize)>)
        requires
            old(self).wf(),
            align > 0,
        ensures
            final(self).wf(),
            match spec_find(old(self)@, size as int, align as int) {
                Some((i, start)) => r == Some((old(self)@[i], start as usize))
                    && final(self)@ == old(self)@.remove(i),
                None => r is None && final(self)@ == old(self)@,
            },
    {
        let ghost s = self@;
        let n = self.free_list.len();
        let mut i: usize = 0;
        while i < n
            invariant
                s == old(self)@,
                self@ == s,
                self.wf(),
                n == s.len(),
                i <= n,
                align > 0,
                forall|j: int| 0 <= j < i ==> spec_fit(#[trigger] s[j], size as int,
                    align as int) is None,
            decreases n - i,
        {
            let region = self.free_list[i];
            match Self::alloc_from_region(region, size, align) {
                Ok(alloc_start) => {
                    proof {
                        lemma_spec_find_hit(s, size as int, align as int, i as int);
                    }
                    self.free_list.remove(i);
                    proof {
                        assert forall|k: int| 0 <= k < self@.len() implies
                            (#[trigger] self@[k]).wf() by {
                            assert(self@[k] == if k < i { s[k] } else { s[k + 1] });
                        }
                    }
                    return Some((region, alloc_start));
                },
                Err(_) => {
                    i = i + 1;
                },
            }
        }
        proof {
            lemma_spec_find_miss(s, size as int, align as int);
        }
        None
    }

    /// Normalizes a request so that the allocated span can itself host
    /// a bookkeeping node when it is later freed.
    pub fn size_align(layout: Layout) -> (r: (usize, usize))
        requires
            layout.wf(),
        ensures
            (r.0 as int, r.1 as int) == spec_size_align(layout),
    {
        proof {
            lemma_node_align_pow2();
            lemma_size_align_wf(layout);
        }
        let align = if layout.align >= NODE_ALIGN {
            layout.align
        } else {
            NODE_ALIGN
        };
        let padded = crate::align::align_up(layout.size, align);
        let size = if padded >= NODE_SIZE {
            padded
        } else {
            NODE_SIZE
        };
        (size, align)
    }

    /// Serves an allocation request first-fit, re-inserting a tail
    /// remainder; returns the start address, or nothing when no free
    /// region fits. The result honours the requested alignment.
    pub fn allocate(&mut self, layout: Layout) -> (r: Option<usize>)
        requires
            old(self).wf(),
            layout.wf(),
        ensures
            final(self).wf(),
            ({
                let (after, res) = spec_allocate(old(self)@, layout);
                &&& final(self)@ == after
                &&& r == match res {
                    Some(start) => Some(start as usize),
                    None => None::<usize>,
                }
            }),
            r matches Some(p) ==> p % (spec_size_align(layout).1 as usize) == 0
                && layout.align > 0 && p % layout.align == 0,
    {
        let ghost s = self@;
        let (size, align) = Self::size_align(layout);
        proof {
            lemma_size_align_wf(layout);
        }
        match self.find_region(size, align) {
            Some((region, alloc_start)) => {
                proof {
                    lemma_spec_find_fit(s, size as int, align as int);
                    lemma_align_up_bounds(region.addr as int, align as int);
                }
                let alloc_end = alloc_start + size;
                let excess_size = region.addr + region.size - alloc_end;
                if excess_size > 0 {
                    proof {
                        lemma_alloc_end_aligned(region, layout, alloc_start as int);
                    }
                    self.add_free_region(alloc_end, excess_size);
                }
                proof {
                    lemma_alloc_start_aligned(region, layout, alloc_start as int);
                }
                Some(alloc_start)
            },
            None => None,
        }
    }

    /// Returns a span allocated with `layout` at `ptr` to the free
    /// list.
    pub fn deallocate(&mut self, ptr: usize, layout: Layout)
        requires
            old(self).wf(),
            layout.wf(),
            ptr as int % (NODE_ALIGN as int) == 0,
            ptr + spec_size_align(layout).0 <= usize::MAX,
        ensures
            final(self).wf(),
            final(self)@ == spec_deallocate(old(self)@, ptr, layout),
            free_bytes(final(self)@) == free_bytes(old(self)@) + spec_size_align(layout).0,
    {
        proof {
            lemma_size_align_wf(layout);
        }
        let (size, _) = Self::size_align(layout);
        self.add_free_region(ptr, size);
    }

    /// How many free regions the list currently tracks.
    pub fn region_count(&self) -> (r: usize)
        ensures
            r == self@.len(),
    {
        self.free_list.len()
    }

    /// The free region at position `i`, counted from the head.
    pub fn region_at(&self, i: usize) -> (r: Region)
        requires
            i < self@.len(),
        ensures
            r == self@[i as int],
    {
        self.free_list[i]
    }
}

proof fn lemma_node_align_pow2()
    ensures
        is_pow2(NODE_ALIGN as int),
        is_pow2(NODE_SIZE as int),
{
    reveal_with_fuel(is_pow2, 6);
}

/// The normalized size and alignment are well formed: a power-of-two
/// alignment that is a multiple of the node alignment, and a size that
/// is a multiple of the node alignment, at least a node, and in range.
proof fn lemma_size_align_wf(layout: Layout)
    requires
        layout.wf(),
    ensures
        ({
            let (size, align) = spec_size_align(layout);
            &&& align > 0
            &&& is_pow2(align)
            &&& align % (NODE_ALIGN as int) == 0
            &&& size >= NODE_SIZE
            &&& size % (NODE_ALIGN as int) == 0
            &&& size <= usize::MAX
            &&& spec_align_up(layout.size as int, align) <= usize::MAX
        }),
{
    lemma_node_align_pow2();
    let (size, align) = spec_size_align(layout);
    lemma_pow2_divides(NODE_ALIGN as int, align);
    lemma_align_up_bounds(layout.size as int, align);
    let padded = spec_align_up(layout.size as int, align);
    lemma_aligned_to_divisor(padded, align, NODE_ALIGN as int);
    if layout.align < NODE_ALIGN {
        assert(padded < layout.size + NODE_ALIGN);
        lemma_align_up_bounds(layout.size as int, layout.align as int);
    }
}

/// An allocation start chosen by `spec_fit` honours both the
/// normalized and the requested alignment.
proof fn lemma_alloc_start_aligned(region: Region, layout: Layout, start: int)
    requires
        layout.wf(),
        region.wf(),
        start == spec_align_up(region.addr as int, spec_size_align(layout).1),
    ensures
        start % spec_size_align(layout).1 == 0,
        start % (NODE_ALIGN as int) == 0,
        layout.align > 0,
        start % (layout.align as int) == 0,
        start >= 0,
{
    lemma_size_align_wf(layout);
    let align = spec_size_align(layout).1;
    lemma_align_up_bounds(region.addr as int, align);
    lemma_aligned_to_divisor(start, align, NODE_ALIGN as int);
    lemma_pow2_divides(layout.align as int, align);
    lemma_aligned_to_divisor(start, align, layout.align as int);
}

/// The end of an allocated span keeps the node alignment, so a tail
/// remainder can re-enter the list.
proof fn lemma_alloc_end_aligned(region: Region, layout: Layout, start: int)
    requires
        layout.wf(),
        region.wf(),
        start == spec_align_up(region.addr as int, spec_size_align(layout).1),
    ensures
        (start + spec_size_align(layout).0) % (NODE_ALIGN as int) == 0,
{
    lemma_alloc_start_aligned(region, layout, start);
    lemma_size_align_wf(layout);
    let size = spec_size_align(layout).0;
    vstd::arithmetic::div_mod::lemma_add_mod_noop(start, size, NODE_ALIGN as int);
}

/// If every region before `i` rejects the request and region `i`
/// accepts it, the first-fit search lands on `i`.
proof fn lemma_spec_find_hit(s: Seq<Region>, size: int, align: int, i: int)
    requires
        0 <= i < s.len(),
        spec_fit(s[i], size, align) is Some,
        forall|j: int| 0 <= j < i ==> spec_fit(#[trigger] s[j], size, align) is None,
    ensures
        spec_find(s, size, align) == Some((i, spec_fit(s[i], size, align)->Some_0)),
    decreases i,
{
    if i == 0 {
    } else {
        assert(spec_fit(s[0], size, align) is None);
        let t = s.drop_first();
        assert forall|j: int| 0 <= j < i - 1 implies spec_fit(#[trigger] t[j], size,
            align) is None by {
            assert(t[j] == s[j + 1]);
        }
        assert(t[i - 1] == s[i]);
        lemma_spec_find_hit(t, size, align, i - 1);
    }
}

/// If every region rejects the request, the search comes up empty.
proof fn lemma_spec_find_miss(s: Seq<Region>, size: int, align: int)
    requires
        forall|j: int| 0 <= j < s.len() ==> spec_fit(#[trigger] s[j], size, align) is None,
    ensures
        spec_find(s, size, align) is None,
    decreases s.len(),
{
    if s.len() > 0 {
        let t = s.drop_first();
        assert forall|j: int| 0 <= j < t.len() implies spec_fit(#[trigger] t[j], size,
            align) is None by {
            assert(t[j] == s[j + 1]);
        }
        lemma_spec_find_miss(t, size, align);
    }
}

/// A successful first-fit search names a region that accepts the
/// request at the returned start address.
pub proof fn lemma_spec_find_fit(s: Seq<Region>, size: int, align: int)
    ensures
        spec_find(s, size, align) matches Some((i, start)) ==> 0 <= i < s.len()
            && spec_fit(s[i], size, align) == Some(start),
    decreases s.len(),
{
    if s.len() > 0 {
        lemma_spec_find_fit(s.drop_first(), size, align);
        if spec_fit(s[0], size, align) is None {
            match spec_find(s.drop_first(), size, align) {
                Some((i, start)) => {
                    assert(s.drop_first()[i] == s[i + 1]);
                },
                None => {},
            }
        }
    }
}

/// Inserting a region at the head grows the free-byte total by its
/// size.
pub proof fn lemma_free_bytes_insert_front(s: Seq<Region>, r: Region)
    ensures
        free_bytes(s.insert(0, r)) == free_bytes(s) + r.size,
{
    let t = s.insert(0, r);
    assert(t[0] == r);
    assert(t.drop_first() =~= s);
}

/// Removing the region at `i` shrinks the free-byte total by its
/// size.
pub proof fn lemma_free_bytes_remove(s: Seq<Region>, i: int)
    requires
        0 <= i < s.len(),
    ensures
        free_bytes(s.remove(i)) == free_bytes(s) - s[i].size,
    decreases i,
{
    if i == 0 {
        assert(s.remove(0) =~= s.drop_first());
    } else {
        let t = s.remove(i);
        assert(t[0] == s[0]);
        assert(t.drop_first() =~= s.drop_first().remove(i - 1));
        lemma_free_bytes_remove(s.drop_first(), i - 1);
    }
}

/// Free-byte accounting for one served request: the free total drops
/// by the normalized size plus whatever front padding the alignment
/// forced; with no alignment beyond the node's, there is no padding.
pub proof fn lemma_allocate_free_bytes(s: Seq<Region>, layout: Layout)
    requires
        layout.wf(),
        forall|i: int| 0 <= i < s.len() ==> (#[trigger] s[i]).wf(),
    ensures
        ({
            let (size, align) = spec_size_align(layout);
            let (after, res) = spec_allocate(s, layout);
            match res {
                Some(start) => {
                    let i = spec_find(s, size, align)->Some_0.0;
                    let pad = start - s[i].addr;
                    &&& 0 <= pad < align
                    &&& free_bytes(after) == free_bytes(s) - size - pad
                    &&& layout.align <= NODE_ALIGN ==> free_bytes(after) == free_bytes(s) - size
                },
                None => after == s && free_bytes(after) == free_bytes(s),
            }
        }),
{
    let (size, align) = spec_size_align(layout);
    let (after, res) = spec_allocate(s, layout);
    lemma_size_align_wf(layout);
    lemma_spec_find_fit(s, size, align);
    match res {
        Some(start) => {
            let (i, _) = spec_find(s, size, align)->Some_0;
            let region = s[i];
            lemma_align_up_bounds(region.addr as int, align);
            let end = start + size;
            let excess = region.end() - end;
            lemma_free_bytes_remove(s, i);
            if excess > 0 {
                lemma_free_bytes_insert_front(s.remove(i),
                    Region { addr: end as usize, size: excess as usize });
            }
            if layout.align <= NODE_ALIGN {
                assert(align == NODE_ALIGN as int);
                assert(region.addr as int % (NODE_ALIGN as int) == 0);
                assert(start == region.addr as int);
            }
        },
        None => {},
    }
}

/// Returning a span restores exactly the free bytes its allocation
/// consumed, so any sequence of allocate/deallocate pairs at node
/// alignment leaves the free-byte total where it started.
pub proof fn lemma_allocate_then_deallocate(s: Seq<Region>, layout: Layout)
    requires
        layout.wf(),
        layout.align <= NODE_ALIGN,
        forall|i: int| 0 <= i < s.len() ==> (#[trigger] s[i]).wf(),
    ensures
        ({
            let (after, res) = spec_allocate(s, layout);
            res matches Some(start) ==> free_bytes(spec_deallocate(after, start as usize,
                layout)) == free_bytes(s)
        }),
{
    let (after, res) = spec_allocate(s, layout);
    lemma_allocate_free_bytes(s, layout);
    match res {
        Some(start) => {
            lemma_free_bytes_insert_front(after,
                Region { addr: start as usize, size: spec_size_align(layout).0 as usize });
        },
        None => {},
    }
}

/// The normalized sizes of a batch of returned spans.
pub open spec fn returned_bytes(freed: Seq<(usize, Layout)>) -> int
    decreases freed.len(),
{
    if freed.len() == 0 {
        0
    } else {
        spec_size_align(freed[0].1).0 + returned_bytes(freed.drop_first())
    }
}

/// The free list after a batch of spans comes back, first to last.
pub open spec fn spec_deallocate_all(s: Seq<Region>, freed: Seq<(usize, Layout)>) -> Seq<
    Region,
>
    decreases freed.len(),
{
    if freed.len() == 0 {
        s
    } else {
        spec_deallocate_all(spec_deallocate(s, freed[0].0, freed[0].1),
            freed.drop_first())
    }
}

/// Freeing a batch of spans restores exactly the sum of their
/// normalized sizes, whatever order they come back in: the gain of
/// each return is its own span's size, so the total neither depends
/// on the order nor leaks across a cycle.
pub proof fn lemma_deallocate_all_free_bytes(s: Seq<Region>, freed: Seq<(usize, Layout)>)
    requires
        forall|i: int| 0 <= i < freed.len() ==> (#[trigger] freed[i]).1.wf(),
    ensures
        free_bytes(spec_deallocate_all(s, freed)) == free_bytes(s) + returned_bytes(freed),
    decreases freed.len(),
{
    if freed.len() > 0 {
        lemma_size_align_wf(freed[0].1);
        lemma_free_bytes_insert_front(s, Region {
            addr: freed[0].0,
            size: spec_size_align(freed[0].1).0 as usize,
        });
        let rest = freed.drop_first();
        assert forall|i: int| 0 <= i < rest.len() implies (#[trigger] rest[i]).1.wf() by {
            assert(rest[i] == freed[i + 1]);
        }
        lemma_deallocate_all_free_bytes(spec_deallocate(s, freed[0].0, freed[0].1),
            rest);
    }
}

/// A just-freed span serves the same request again at once: it sits
/// at the head of the list, the request fits it exactly, so the next
/// allocation with the same layout succeeds at the freed address and
/// returns the list to its prior state. Re-running the allocations
/// of a freed batch therefore succeeds, span for span.
pub proof fn lemma_reallocate_after_free(s: Seq<Region>, ptr: usize, layout: Layout)
    requires
        layout.wf(),
        ptr as int % spec_size_align(layout).1 == 0,
        ptr + spec_size_align(layout).0 <= usize::MAX,
    ensures
        ({
            let s1 = spec_deallocate(s, ptr, layout);
            &&& spec_allocate(s1, layout).1 == Some(ptr as int)
            &&& spec_allocate(s1, layout).0 == s
        }),
{
    lemma_size_align_wf(layout);
    let (size, align) = spec_size_align(layout);
    let freed = Region { addr: ptr, size: size as usize };
    let s1 = spec_deallocate(s, ptr, layout);
    assert(s1[0] == freed);
    assert(spec_align_up(ptr as int, align) == ptr as int);
    assert(spec_fit(freed, size, align) == Some(ptr as int));
    assert(spec_find(s1, size, align) == Some((0int, ptr as int)));
    assert(s1.remove(0) =~= s);
}

} // verus!
