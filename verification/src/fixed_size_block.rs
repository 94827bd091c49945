//! The fixed-size-block allocation strategy: one free list of blocks
//! per power-of-two size class, with a free-list allocator as the
//! fallback for requests larger than the largest class. Using the
//! class size as the block alignment makes every in-class block
//! aligned at least as strictly as any request it can serve.

use vstd::prelude::*;

verus! {

use crate::align::{is_pow2, lemma_pow2_divides, lemma_aligned_to_divisor};
use crate::layout::Layout;
use crate::linked_list::{LinkedListAllocator, Region, free_bytes, spec_allocate,
    spec_deallocate, spec_size_align, NODE_ALIGN};

/// How many block size classes the ladder has.
pub const BLOCK_SIZE_COUNT: usize = 9;

/// The block size ladder. Each size is a power of two because it also
/// serves as the block's alignment.
pub open spec fn spec_block_size(i: int) -> int {
    if i == 0 {
        8
    } else if i == 1 {
        16
    } else if i == 2 {
        32
    } else if i == 3 {
        64
    } else if i == 4 {
        128
    } else if i == 5 {
        256
    } else if i == 6 {
        512
    } else if i == 7 {
        1024
    } else {
        2048
    }
}

/// The block size of class `i`.
pub fn block_size(i: usize) -> (r: usize)
    requires
        i < BLOCK_SIZE_COUNT,
    ensures
        r == spec_block_size(i as int),
{
    match i {
        0 => 8,
        1 => 16,
        2 => 32,
        3 => 64,
        4 => 128,
        5 => 256,
        6 => 512,
        7 => 1024,
        _ => 2048,
    }
}

/// A block must satisfy both the size and the alignment of a request,
/// so the class is chosen by the larger of the two.
pub open spec fn spec_required_block_size(layout: Layout) -> int {
    if layout.size >= layout.align {
        layout.size as int
    } else {
        layout.align as int
    }
}

/// The first class at or after `i` whose blocks are at least `req`
/// bytes.
pub open spec fn spec_class_from(req: int, i: int) -> Option<int>
    decreases BLOCK_SIZE_COUNT - i when i <= BLOCK_SIZE_COUNT
{
    if i >= BLOCK_SIZE_COUNT {
        None
    } else if spec_block_size(i) >= req {
        Some(i)
    } else {
        spec_class_from(req, i + 1)
    }
}

/// The lowest class able to serve `layout`, if any class is large
/// enough.
pub open spec fn spec_list_index(layout: Layout) -> Option<int> {
    spec_class_from(spec_required_block_size(layout), 0)
}

/// Returns the lowest possible block class for a given request.
pub fn list_index(layout: &Layout) -> (r: Option<usize>)
    ensures
        r == match spec_list_index(*layout) {
            Some(i) => Some(i as usize),
            None => None::<usize>,
        },
{
    let required_block_size = if layout.size >= layout.align {
        layout.size
    } else {
        layout.align
    };
    let mut i: usize = 0;
    while i < BLOCK_SIZE_COUNT
        invariant
            i <= BLOCK_SIZE_COUNT,
            spec_list_index(*layout) == spec_class_from(required_block_size as int, i as int),
            required_block_size as int == spec_required_block_size(*layout),
        decreases BLOCK_SIZE_COUNT - i,
    {
        if block_size(i) >= required_block_size {
            return Some(i);
        }
        i = i + 1;
    }
    None
}

/// Every class size is a power of two no smaller than the smallest
/// rung of the ladder.
pub proof fn lemma_block_size_pow2(i: int)
    requires
        0 <= i < BLOCK_SIZE_COUNT,
    ensures
        is_pow2(spec_block_size(i)),
        spec_block_size(i) >= 8,
        spec_block_size(i) <= 2048,
{
    reveal_with_fuel(is_pow2, 12);
    assert(is_pow2(8));
    assert(is_pow2(16));
    assert(is_pow2(32));
    assert(is_pow2(64));
    assert(is_pow2(128));
    assert(is_pow2(256));
    assert(is_pow2(512));
    assert(is_pow2(1024));
    assert(is_pow2(2048));
}

/// A chosen class lies within the ladder and is large enough for the
/// request.
pub proof fn lemma_list_index_char(layout: Layout)
    ensures
        spec_list_index(layout) matches Some(i) ==> 0 <= i < BLOCK_SIZE_COUNT
            && spec_block_size(i) >= spec_required_block_size(layout),
{
    lemma_class_from_char(spec_required_block_size(layout), 0);
}

proof fn lemma_class_from_char(req: int, i: int)
    requires
        0 <= i <= BLOCK_SIZE_COUNT,
    ensures
        spec_class_from(req, i) matches Some(k) ==> i <= k < BLOCK_SIZE_COUNT
            && spec_block_size(k) >= req,
    decreases BLOCK_SIZE_COUNT - i,
{
    if i < BLOCK_SIZE_COUNT && spec_block_size(i) < req {
        lemma_class_from_char(req, i + 1);
    }
}

/// The block layout used to carve a fresh class-`i` block out of the
/// fallback allocator: the class size doubles as the alignment.
pub open spec fn spec_block_layout(i: int) -> Layout {
    Layout { size: spec_block_size(i) as usize, align: spec_block_size(i) as usize }
}

/// Bytes held by the class lists up to (excluding) class `k`.
pub open spec fn class_bytes_up_to(lists: Seq<Seq<usize>>, k: int) -> int
    decreases k when k >= 0
{
    if k <= 0 {
        0
    } else {
        class_bytes_up_to(lists, k - 1) + lists[k - 1].len() * spec_block_size(k - 1)
    }
}

/// Bytes held across all class lists.
pub open spec fn class_bytes(lists: Seq<Seq<usize>>) -> int {
    class_bytes_up_to(lists, BLOCK_SIZE_COUNT as int)
}

pub struct FixedSizeBlockAllocator {
    list_heads: Vec<Vec<usize>>,
    fallback_allocator: LinkedListAllocator,
}

impl FixedSizeBlockAllocator {
    /// The class lists: for each class, the addresses of its free
    /// blocks, most recently freed last.
    pub closed spec fn lists(self) -> Seq<Seq<usize>> {
        self.list_heads@.map_values(|v: Vec<usize>| v@)
    }

    /// The free regions of the fallback allocator.
    pub closed spec fn fallback(self) -> Seq<Region> {
        self.fallback_allocator@
    }

    /// Every block parked in class `i` is aligned to (and one block
    /// large at) that class's size.
    pub closed spec fn wf(self) -> bool {
        &&& self.lists().len() == BLOCK_SIZE_COUNT
        &&& forall|i: int, j: int| 0 <= i < BLOCK_SIZE_COUNT && 0 <= j < self.lists()[i].len()
            ==> block_in_class(#[trigger] self.lists()[i][j], i)
        &&& self.fallback_allocator.wf()
    }

    /// Bytes the allocator holds ready across the class lists and the
    /// fallback's free list.
    pub open spec fn total_free(self) -> int {
        class_bytes(self.lists()) + free_bytes(self.fallback())
    }

    /// Creates an empty fixed-size-block allocator.
    pub fn new() -> (r: FixedSizeBlockAllocator)
        ensures
            r.wf(),
            r.fallback() == Seq::<Region>::empty(),
            forall|i: int| 0 <= i < BLOCK_SIZE_COUNT ==> (#[trigger] r.lists()[i]).len() == 0,
            r.total_free() == 0,
    {
        let mut heads: Vec<Vec<usize>> = Vec::new();
        let mut i: usize = 0;
        while i < BLOCK_SIZE_COUNT
            invariant
                i <= BLOCK_SIZE_COUNT,
                heads@.len() == i,
                forall|k: int| 0 <= k < i ==> (#[trigger] heads@[k])@.len() == 0,
            decreases BLOCK_SIZE_COUNT - i,
        {
            heads.push(Vec::new());
            i = i + 1;
        }
        let r = FixedSizeBlockAllocator {
            list_heads: heads,
            fallback_allocator: LinkedListAllocator::new(),
        };
        proof {
            assert forall|k: int| 0 <= k < BLOCK_SIZE_COUNT implies
                (#[trigger] r.lists()[k]).len() == 0 by {
                assert(r.lists()[k] == heads@[k]@);
            }
            lemma_class_bytes_all_empty(r.lists(), BLOCK_SIZE_COUNT as int);
        }
        r
    }

    /// Hands the fallback allocator its heap bounds. The caller
    /// vouches that the range is unused, and initializes only once.
    pub fn init(&mut self, heap_start: usize, heap_size: usize)
        requires
            old(self).wf(),
            old(self).fallback().len() == 0,
            heap_start as int % (NODE_ALIGN as int) == 0,
            heap_size >= crate::linked_list::NODE_SIZE,
            heap_start + heap_size <= usize::MAX,
        ensures
            final(self).wf(),
            final(self).lists() == old(self).lists(),
            final(self).fallback() =~= seq![Region { addr: heap_start, size: heap_size }],
            free_bytes(final(self).fallback()) == heap_size,
    {
        self.fallback_allocator.init(heap_start, heap_size);
    }

    /// Allocates using the fallback allocator.
    fn fallback_alloc(&mut self, layout: Layout) -> (r: Option<usize>)
        requires
            old(self).wf(),
            layout.wf(),
        ensures
            final(self).wf(),
            final(self).lists() == old(self).lists(),
            ({
                let (after, res) = spec_allocate(old(self).fallback(), layout);
                &&& final(self).fallback() == after
                &&& r == match res {
                    Some(start) => Some(start as usize),
                    None => None::<usize>,
                }
            }),
            r matches Some(p) ==> layout.align > 0 && p % layout.align == 0,
    {
        self.fallback_allocator.allocate(layout)
    }

    /// Serves a request from its class list when one is parked there;
    /// otherwise carves a fresh block of the class size (and class
    /// alignment) out of the fallback allocator. Requests above the
    /// largest class go to the fallback directly. A returned address
    /// honours the requested alignment, whichever path served it.
    pub fn allocate(&mut self, layout: Layout) -> (r: Option<usize>)
        requires
            old(self).wf(),
            layout.wf(),
        ensures
            final(self).wf(),
            match spec_list_index(layout) {
                Some(i) => if old(self).lists()[i].len() > 0 {
                    &&& r == Some(old(self).lists()[i].last())
                    &&& final(self).lists() == old(self).lists().update(i,
                        old(self).lists()[i].drop_last())
                    &&& final(self).fallback() == old(self).fallback()
                    &&& final(self).total_free() == old(self).total_free()
                        - spec_block_size(i)
                } else {
                    let (after, res) = spec_allocate(old(self).fallback(),
                        spec_block_layout(i));
                    &&& final(self).fallback() == after
                    &&& final(self).lists() == old(self).lists()
                    &&& r == match res {
                        Some(start) => Some(start as usize),
                        None => None::<usize>,
                    }
                },
                None => ({
                    let (after, res) = spec_allocate(old(self).fallback(), layout);
                    &&& final(self).fallback() == after
                    &&& final(self).lists() == old(self).lists()
                    &&& r == match res {
                        Some(start) => Some(start as usize),
                        None => None::<usize>,
                    }
                }),
            },
            r matches Some(p) ==> layout.align > 0 && p % layout.align == 0,
    {
        proof {
            lemma_layout_align_pos(layout);
        }
        match list_index(&layout) {
            Some(index) => {
                proof {
                    lemma_list_index_char(layout);
                    lemma_block_size_pow2(index as int);
                }
                let popped = self.list_heads[index].pop();
                match popped {
                    Some(addr) => {
                        proof {
                            let i = index as int;
                            let lists = old(self).lists();
                            assert(lists[i] == old(self).list_heads@[i]@);
                            assert(block_in_class(lists[i][lists[i].len() - 1], i));
                            assert(self.lists() =~= lists.update(i, lists[i].drop_last()));
                            lemma_class_bytes_update(lists, i, lists[i].drop_last());
                            assert(lists[i].drop_last().len() * spec_block_size(i)
                                == (lists[i].len() - 1) * spec_block_size(i));
                            vstd::arithmetic::mul::lemma_mul_is_distributive_sub_other_way(
                                spec_block_size(i), lists[i].len() as int, 1);
                            assert forall|j: int| 0 <= j < self.lists()[i].len() implies
                                block_in_class(#[trigger] self.lists()[i][j], i) by {
                                assert(self.lists()[i][j] == lists[i][j]);
                                assert(block_in_class(lists[i][j], i));
                            }
                            lemma_wf_after_class_update(*old(self), *self, i);
                            lemma_block_alignment_serves(addr, i, layout);
                        }
                        Some(addr)
                    },
                    None => {
                        proof {
                            assert(self.lists() =~= old(self).lists());
                            lemma_block_layout_wf(index as int);
                        }
                        let block_sz = block_size(index);
                        let block_layout = Layout { size: block_sz, align: block_sz };
                        let r = self.fallback_alloc(block_layout);
                        proof {
                            match r {
                                Some(p) => {
                                    lemma_block_alignment_serves(p, index as int, layout);
                                },
                                None => {},
                            }
                        }
                        r
                    },
                }
            },
            None => self.fallback_alloc(layout),
        }
    }

    /// Returns a block to its class list, or an oversized span to the
    /// fallback allocator. The address must come from an earlier
    /// `allocate` with the same layout, which is what makes an
    /// in-class address carry its class's alignment.
    pub fn deallocate(&mut self, ptr: usize, layout: Layout)
        requires
            old(self).wf(),
            layout.wf(),
            match spec_list_index(layout) {
                Some(i) => block_in_class(ptr, i),
                None => ptr as int % (NODE_ALIGN as int) == 0 && ptr + spec_size_align(
                    layout).0 <= usize::MAX,
            },
        ensures
            final(self).wf(),
            match spec_list_index(layout) {
                Some(i) => {
                    &&& final(self).lists() == old(self).lists().update(i,
                        old(self).lists()[i].push(ptr))
                    &&& final(self).fallback() == old(self).fallback()
                    &&& final(self).total_free() == old(self).total_free()
                        + spec_block_size(i)
                },
                None => {
                    &&& final(self).fallback() == spec_deallocate(old(self).fallback(),
                        ptr, layout)
                    &&& final(self).lists() == old(self).lists()
                    &&& final(self).total_free() == old(self).total_free()
                        + spec_size_align(layout).0
                },
            },
    {
        match list_index(&layout) {
            Some(index) => {
                proof {
                    lemma_list_index_char(layout);
                    // a block of this class can host its in-list node
                    lemma_block_size_pow2(index as int);
                    assert(spec_block_size(index as int) >= NODE_ALIGN);
                    assert(old(self).lists()[index as int]
                        == old(self).list_heads@[index as int]@);
                }
                self.list_heads[index].push(ptr);
                proof {
                    let i = index as int;
                    let lists = old(self).lists();
                    assert(self.lists() =~= lists.update(i, lists[i].push(ptr)));
                    lemma_class_bytes_update(lists, i, lists[i].push(ptr));
                    vstd::arithmetic::mul::lemma_mul_is_distributive_add_other_way(
                        spec_block_size(i), lists[i].len() as int, 1);
                    assert forall|j: int| 0 <= j < self.lists()[i].len() implies
                        block_in_class(#[trigger] self.lists()[i][j], i) by {
                        if j < lists[i].len() {
                            assert(self.lists()[i][j] == lists[i][j]);
                            assert(block_in_class(lists[i][j], i));
                        } else {
                            assert(self.lists()[i][j] == ptr);
                        }
                    }
                    lemma_wf_after_class_update(*old(self), *self, i);
                }
            },
            None => {
                self.fallback_allocator.deallocate(ptr, layout);
                proof {
                    assert(self.lists() =~= old(self).lists());
                }
            },
        }
    }

    /// How many blocks are parked in class `i`.
    pub fn class_len(&self, i: usize) -> (r: usize)
        requires
            self.wf(),
            i < BLOCK_SIZE_COUNT,
        ensures
            r == self.lists()[i as int].len(),
    {
        self.list_heads[i].len()
    }

    /// How many free regions the fallback allocator tracks.
    pub fn fallback_region_count(&self) -> (r: usize)
        ensures
            r == self.fallback().len(),
    {
        self.fallback_allocator.region_count()
    }
}

/// What class membership means for a block address: aligned to the
/// class size, with the block's end in range.
pub open spec fn block_in_class(addr: usize, class: int) -> bool {
    &&& addr as int % spec_block_size(class) == 0
    &&& addr + spec_block_size(class) <= usize::MAX
}

/// A well-formed request has a positive alignment.
proof fn lemma_layout_align_pos(layout: Layout)
    requires
        layout.wf(),
    ensures
        layout.align > 0,
{
}

/// The layout used to carve a fresh class block is well formed.
proof fn lemma_block_layout_wf(i: int)
    requires
        0 <= i < BLOCK_SIZE_COUNT,
    ensures
        spec_block_layout(i).wf(),
{
    lemma_block_size_pow2(i);
    let bs = spec_block_size(i);
    vstd::arithmetic::div_mod::lemma_mod_self_0(bs);
    assert(crate::align::spec_align_up(bs, bs) == bs);
}

/// An address aligned to a class serving `layout` is aligned for
/// `layout` itself: the request's alignment is a power of two no
/// larger than the class size.
proof fn lemma_block_alignment_serves(addr: usize, i: int, layout: Layout)
    requires
        layout.wf(),
        spec_list_index(layout) == Some(i),
        addr as int % spec_block_size(i) == 0,
    ensures
        layout.align > 0,
        addr as int % layout.align as int == 0,
        addr % layout.align == 0,
{
    lemma_class_from_char(spec_required_block_size(layout), 0);
    lemma_block_size_pow2(i);
    lemma_pow2_divides(layout.align as int, spec_block_size(i));
    lemma_aligned_to_divisor(addr as int, spec_block_size(i), layout.align as int);
    assert(addr as int % layout.align as int == addr % layout.align);
}

/// Replacing one class list leaves every other class's blocks, so
/// well-formedness only needs checking at the touched class.
proof fn lemma_wf_after_class_update(before: FixedSizeBlockAllocator,
    after: FixedSizeBlockAllocator, i: int)
    requires
        before.wf(),
        0 <= i < BLOCK_SIZE_COUNT,
        after.fallback() == before.fallback(),
        after.lists().len() == BLOCK_SIZE_COUNT,
        forall|k: int| 0 <= k < BLOCK_SIZE_COUNT && k != i ==> after.lists()[k]
            == before.lists()[k],
        forall|j: int| 0 <= j < after.lists()[i].len() ==> block_in_class(
            #[trigger] after.lists()[i][j], i),
    ensures
        after.wf(),
{
    assert forall|k: int, j: int| 0 <= k < BLOCK_SIZE_COUNT && 0 <= j
        < after.lists()[k].len() implies block_in_class(#[trigger] after.lists()[k][j],
        k) by {
        if k != i {
            assert(after.lists()[k] == before.lists()[k]);
            assert(block_in_class(before.lists()[k][j], k));
        }
    }
}

/// With every class list empty, the class lists hold no bytes.
proof fn lemma_class_bytes_all_empty(lists: Seq<Seq<usize>>, k: int)
    requires
        0 <= k <= BLOCK_SIZE_COUNT,
        forall|i: int| 0 <= i < BLOCK_SIZE_COUNT ==> (#[trigger] lists[i]).len() == 0,
    ensures
        class_bytes_up_to(lists, k) == 0,
    decreases k,
{
    if k > 0 {
        lemma_class_bytes_all_empty(lists, k - 1);
        vstd::arithmetic::mul::lemma_mul_basics(spec_block_size(k - 1));
    }
}

/// Replacing class `i`'s list changes the class-list byte total by
/// the difference of the two lists' holdings.
pub proof fn lemma_class_bytes_update(lists: Seq<Seq<usize>>, i: int, nl: Seq<usize>)
    requires
        0 <= i < BLOCK_SIZE_COUNT,
        lists.len() == BLOCK_SIZE_COUNT,
    ensures
        class_bytes(lists.update(i, nl)) == class_bytes(lists) + nl.len()
            * spec_block_size(i) - lists[i].len() * spec_block_size(i),
{
    lemma_class_bytes_update_up_to(lists, i, nl, BLOCK_SIZE_COUNT as int);
}

proof fn lemma_class_bytes_update_up_to(lists: Seq<Seq<usize>>, i: int, nl: Seq<usize>, k: int)
    requires
        0 <= i < BLOCK_SIZE_COUNT,
        lists.len() == BLOCK_SIZE_COUNT,
        0 <= k <= BLOCK_SIZE_COUNT,
    ensures
        class_bytes_up_to(lists.update(i, nl), k) == if k > i {
            class_bytes_up_to(lists, k) + nl.len() * spec_block_size(i) - lists[i].len()
                * spec_block_size(i)
        } else {
            class_bytes_up_to(lists, k)
        },
    decreases k,
{
    if k > 0 {
        lemma_class_bytes_update_up_to(lists, i, nl, k - 1);
    }
}

/// A well-formed allocator has exactly one class list per rung of
/// the ladder. Well-formedness itself is not open, so outside
/// callers take this consequence from here when they reason over the
/// class lists.
pub proof fn lemma_wf_class_count(a: FixedSizeBlockAllocator)
    requires
        a.wf(),
    ensures
        a.lists().len() == BLOCK_SIZE_COUNT,
{
}

/// Parking a freed block in its class and handing it out again later
/// leaves the class lists holding exactly the bytes they started
/// with: in-class allocate/deallocate cycles, in any order, neither
/// leak nor invent capacity, and the re-allocation is served the
/// freed block itself.
pub proof fn lemma_class_round_trip(lists: Seq<Seq<usize>>, i: int, addr: usize)
    requires
        lists.len() == BLOCK_SIZE_COUNT,
        0 <= i < BLOCK_SIZE_COUNT,
    ensures
        ({
            let pushed = lists.update(i, lists[i].push(addr));
            let popped = pushed.update(i, pushed[i].drop_last());
            &&& class_bytes(pushed) == class_bytes(lists) + spec_block_size(i)
            &&& pushed[i].len() > 0 && pushed[i].last() == addr
            &&& popped == lists
            &&& class_bytes(popped) == class_bytes(lists)
        }),
{
    let pushed = lists.update(i, lists[i].push(addr));
    let popped = pushed.update(i, pushed[i].drop_last());
    lemma_class_bytes_update(lists, i, lists[i].push(addr));
    vstd::arithmetic::mul::lemma_mul_is_distributive_add_other_way(spec_block_size(i),
        lists[i].len() as int, 1);
    assert(pushed[i].drop_last() =~= lists[i]);
    assert(popped =~= lists);
}

} // verus!
