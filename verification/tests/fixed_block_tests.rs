use my_os::fixed_size_block::{block_size, list_index, FixedSizeBlockAllocator, BLOCK_SIZE_COUNT};
use my_os::layout::Layout;

fn layout(size: usize, align: usize) -> Layout {
    Layout::from_size_align(size, align).unwrap()
}

#[test]
fn block_size_ladder() {
    let expected = [8, 16, 32, 64, 128, 256, 512, 1024, 2048];
    for (i, want) in expected.iter().enumerate() {
        assert_eq!(block_size(i), *want);
    }
    assert_eq!(BLOCK_SIZE_COUNT, expected.len());
}

#[test]
fn list_index_picks_smallest_fitting_class() {
    assert_eq!(list_index(&layout(1, 1)), Some(0));
    assert_eq!(list_index(&layout(8, 8)), Some(0));
    assert_eq!(list_index(&layout(9, 1)), Some(1));
    assert_eq!(list_index(&layout(100, 1)), Some(4));
    assert_eq!(list_index(&layout(2048, 1)), Some(8));
    // the alignment can drive the class up on its own
    assert_eq!(list_index(&layout(8, 64)), Some(3));
    // beyond the largest class the fallback allocator serves
    assert_eq!(list_index(&layout(2049, 1)), None);
    assert_eq!(list_index(&layout(8, 4096)), None);
}

#[test]
fn all_class_sizes_return_aligned_blocks() {
    let mut a = FixedSizeBlockAllocator::new();
    a.init(0x100000, 0x19000);
    for i in 0..BLOCK_SIZE_COUNT {
        let size = block_size(i);
        let l = layout(size, size);
        let addr = a.allocate(l).expect("class allocation failed");
        assert_eq!(addr % size, 0, "class {} block misaligned", i);
        a.deallocate(addr, l);
    }
}

#[test]
fn alignment_honoured_for_every_request_alignment() {
    let mut a = FixedSizeBlockAllocator::new();
    a.init(0x100000, 0x19000);
    for exp in 0..=11u32 {
        let align = 1usize << exp;
        let l = layout(8, align);
        let addr = a.allocate(l).expect("aligned allocation failed");
        assert_eq!(addr % align, 0, "alignment {} violated", align);
        a.deallocate(addr, l);
    }
}

#[test]
fn oversized_requests_route_to_fallback_aligned() {
    let mut a = FixedSizeBlockAllocator::new();
    a.init(0x200000, 0x19000);
    let l = layout(5000, 16);
    let addr = a.allocate(l).expect("oversized allocation failed");
    assert_eq!(addr % 16, 0);
    a.deallocate(addr, l);
    let l2 = layout(3000, 4096);
    let addr2 = a.allocate(l2).expect("high-alignment allocation failed");
    assert_eq!(addr2 % 4096, 0);
    a.deallocate(addr2, l2);
}

#[test]
fn freed_blocks_park_in_their_class_and_are_reused() {
    let mut a = FixedSizeBlockAllocator::new();
    a.init(0x300000, 0x19000);
    let l = layout(64, 8);
    let addr = a.allocate(l).unwrap();
    assert_eq!(a.class_len(3), 0);
    a.deallocate(addr, l);
    assert_eq!(a.class_len(3), 1);
    // the parked block serves the next request of the class
    let again = a.allocate(l).unwrap();
    assert_eq!(again, addr);
    assert_eq!(a.class_len(3), 0);
}

#[test]
fn cycle_restores_class_capacity_any_order() {
    let mut a = FixedSizeBlockAllocator::new();
    a.init(0x400000, 0x19000);
    let l = layout(32, 8);
    let mut addrs = Vec::new();
    for _ in 0..20 {
        addrs.push(a.allocate(l).unwrap());
    }
    // free in reverse order
    for addr in addrs.iter().rev() {
        a.deallocate(*addr, l);
    }
    assert_eq!(a.class_len(2), 20);
    // all twenty can be had again, from the class lists alone
    let fallback_regions = a.fallback_region_count();
    for _ in 0..20 {
        let addr = a.allocate(l).unwrap();
        assert!(addrs.contains(&addr));
    }
    assert_eq!(a.class_len(2), 0);
    assert_eq!(a.fallback_region_count(), fallback_regions);
}

#[test]
fn heap_scenario_many_boxes() {
    // allocate and free one block at a time far more often than the
    // heap could hold live at once: freed memory must be reused
    let mut a = FixedSizeBlockAllocator::new();
    a.init(0x500000, 0x19000);
    let l = layout(8, 8);
    let mut seen = std::collections::HashSet::new();
    for _ in 0..200000 {
        let addr = a.allocate(l).expect("allocation failed during churn");
        seen.insert(addr);
        a.deallocate(addr, l);
    }
    // with immediate reuse only one block address is ever drawn
    assert_eq!(seen.len(), 1);
}
