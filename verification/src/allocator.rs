//! The kernel heap: its fixed virtual range, the mapping step that
//! backs that range with physical frames before the allocator may
//! touch it, and the allocator interface the strategies share.

use vstd::prelude::*;

verus! {

use crate::layout::Layout;
use crate::memory::{FrameAllocator, MapToError, OffsetPageTable, PAGE_SIZE};

/// The virtual address the kernel heap starts at.
pub const HEAP_START: u64 = 0x4444_4444_0000;

/// The kernel heap's size in bytes: 100 KiB.
pub const HEAP_SIZE: u64 = 100 * 1024;

/// How many pages back the heap: the pages containing its first and
/// last byte, inclusive.
pub const HEAP_PAGE_COUNT: u64 = (HEAP_SIZE + PAGE_SIZE - 1) / PAGE_SIZE;

/// The allocator interface the heap strategies share: a request
/// yields the address of a span satisfying its layout, or nothing
/// when it cannot be served; a span is returned with the same layout
/// it was obtained with.
pub trait GlobalAlloc {
    fn allocate(&mut self, layout: Layout) -> Option<usize>;

    fn deallocate(&mut self, addr: usize, layout: Layout);
}

/// The placeholder allocator the kernel boots with before a heap
/// exists: every request fails.
pub struct Dummy;

impl GlobalAlloc for Dummy {
    /// Never returns memory.
    fn allocate(&mut self, _layout: Layout) -> (r: Option<usize>) {
        None
    }

    /// Never has anything to take back: with no span ever handed
    /// out, a call here cannot be paired with an allocation, and the
    /// running kernel treats one as fatal.
    fn deallocate(&mut self, _addr: usize, _layout: Layout) {
    }
}

/// The base address of the heap page at the given position.
pub open spec fn spec_heap_page(k: int) -> u64 {
    (HEAP_START + PAGE_SIZE * k) as u64
}

/// Backs the heap's virtual range with physical frames, page by
/// page: for each heap page a frame is drawn from the frame
/// allocator and the mapping is recorded. On success every heap page
/// is mapped and all earlier mappings survive; the heap allocator
/// may be initialized over the range only after this returns
/// successfully.
pub fn init_heap<A: FrameAllocator>(mapper: &mut OffsetPageTable, frame_allocator: &mut A)
    -> (r: Result<(), MapToError>)
    ensures
        r is Ok ==> forall|k: int| 0 <= k < HEAP_PAGE_COUNT ==> final(mapper)@.contains_key(
            #[trigger] spec_heap_page(k)),
        forall|p: u64| #[trigger] old(mapper)@.contains_key(p) ==> final(mapper)@
            .contains_key(p) && final(mapper)@[p] == old(mapper)@[p],
        // a page collision is reported only when a heap page really
        // was mapped beforehand
        r == Err::<(), MapToError>(MapToError::PageAlreadyMapped) ==> exists|k: int|
            0 <= k < HEAP_PAGE_COUNT && old(mapper)@.contains_key(#[trigger] spec_heap_page(
            k)),
        // nothing outside the heap range is ever mapped
        forall|p: u64| #[trigger] final(mapper)@.contains_key(p) ==> old(mapper)@
            .contains_key(p) || exists|k: int| 0 <= k < HEAP_PAGE_COUNT && p
            == spec_heap_page(k),
{
    let page_count = HEAP_PAGE_COUNT;
    let mut k: u64 = 0;
    while k < page_count
        invariant
            page_count == HEAP_PAGE_COUNT,
            k <= page_count,
            forall|j: int| 0 <= j < k ==> mapper@.contains_key(#[trigger] spec_heap_page(
                j)),
            forall|p: u64| #[trigger] old(mapper)@.contains_key(p) ==> mapper@
                .contains_key(p) && mapper@[p] == old(mapper)@[p],
            forall|p: u64| #[trigger] mapper@.contains_key(p) ==> old(mapper)@
                .contains_key(p) || exists|j: int| 0 <= j < k && p == spec_heap_page(j),
        decreases page_count - k,
    {
        let frame = match frame_allocator.allocate_frame() {
            Some(frame) => frame,
            None => {
                return Err(MapToError::FrameAllocationFailed);
            },
        };
        let page = HEAP_START + PAGE_SIZE * k;
        let ghost before = mapper@;
        match mapper.map_to(page, frame) {
            Ok(_) => {
                proof {
                    assert(mapper@ == before.insert(page, frame));
                    assert(page == spec_heap_page(k as int));
                    assert forall|p: u64| #[trigger] mapper@.contains_key(p) implies
                        old(mapper)@.contains_key(p) || exists|j: int| 0 <= j < k + 1
                        && p == spec_heap_page(j) by {
                        if p == page {
                            assert((k as int) < k as int + 1 && p == spec_heap_page(
                                k as int));
                        } else {
                            assert(before.contains_key(p));
                        }
                    }
                }
            },
            Err(e) => {
                proof {
                    assert(mapper@ == before);
                    assert forall|p: u64| #[trigger] old(mapper)@.contains_key(p) implies
                        mapper@.contains_key(p) && mapper@[p] == old(mapper)@[p] by {
                        assert(before.contains_key(p) && before[p] == old(mapper)@[p]);
                    }
                    assert(e == MapToError::PageAlreadyMapped);
                    assert(before.contains_key(page));
                    assert(page == spec_heap_page(k as int));
                    assert forall|j: int| 0 <= j < k implies spec_heap_page(j)
                        != page by {
                        assert(HEAP_START + PAGE_SIZE * j < HEAP_START + PAGE_SIZE * (
                            k as int));
                    }
                    assert(old(mapper)@.contains_key(page));
                    assert((k as int) < HEAP_PAGE_COUNT && page == spec_heap_page(
                        k as int));
                }
                return Err(e);
            },
        }
        k = k + 1;
    }
    Ok(())
}

} // verus!
