use my_os::layout::Layout;
use my_os::linked_list::LinkedListAllocator;

fn layout(size: usize, align: usize) -> Layout {
    Layout::from_size_align(size, align).unwrap()
}

fn total_free(a: &LinkedListAllocator) -> u128 {
    let mut sum: u128 = 0;
    for i in 0..a.region_count() {
        sum += a.region_at(i).size as u128;
    }
    sum
}

#[test]
fn free_list_starts_empty_and_init_tracks_heap() {
    let mut a = LinkedListAllocator::new();
    assert_eq!(a.region_count(), 0);
    a.init(0x10000, 0x8000);
    assert_eq!(a.region_count(), 1);
    let region = a.region_at(0);
    assert_eq!(region.addr, 0x10000);
    assert_eq!(region.size, 0x8000);
}

#[test]
fn free_list_first_fit_takes_front_of_first_region() {
    let mut a = LinkedListAllocator::new();
    a.init(0x10000, 0x1000);
    let addr = a.allocate(layout(64, 8)).unwrap();
    assert_eq!(addr, 0x10000);
    // the tail remainder is re-inserted at the head
    assert_eq!(a.region_count(), 1);
    assert_eq!(a.region_at(0).addr, 0x10040);
    assert_eq!(a.region_at(0).size, 0x1000 - 64);
}

#[test]
fn free_list_requests_are_normalized() {
    let mut a = LinkedListAllocator::new();
    a.init(0x10000, 0x1000);
    // a 1-byte request still consumes a whole node-sized span
    a.allocate(layout(1, 1)).unwrap();
    assert_eq!(total_free(&a), (0x1000 - 16) as u128);
}

#[test]
fn free_list_alloc_fails_when_nothing_fits() {
    let mut a = LinkedListAllocator::new();
    a.init(0x10000, 0x100);
    assert!(a.allocate(layout(0x200, 8)).is_none());
    // a failed allocation leaves the list untouched
    assert_eq!(a.region_count(), 1);
    assert_eq!(total_free(&a), 0x100);
}

#[test]
fn free_list_cycle_restores_capacity_any_order() {
    let mut a = LinkedListAllocator::new();
    a.init(0x20000, 0x2000);
    let initial = total_free(&a);
    let l = layout(48, 8);
    let p1 = a.allocate(l).unwrap();
    let p2 = a.allocate(l).unwrap();
    let p3 = a.allocate(l).unwrap();
    // free in a different order than allocated
    a.deallocate(p2, l);
    a.deallocate(p3, l);
    a.deallocate(p1, l);
    assert_eq!(total_free(&a), initial);
    // the heap can again serve allocations up to its capacity,
    // through the remaining large region
    let big = a.allocate(layout(0x2000 - 3 * 48 - 16, 8));
    assert!(big.is_some());
}

#[test]
fn free_list_does_not_coalesce() {
    let mut a = LinkedListAllocator::new();
    a.init(0x30000, 0x1000);
    let l = layout(64, 8);
    let p1 = a.allocate(l).unwrap();
    let p2 = a.allocate(l).unwrap();
    a.deallocate(p1, l);
    a.deallocate(p2, l);
    // three regions: two freed spans at the head, the tail remainder
    // behind them; adjacent freed spans stay separate
    assert_eq!(a.region_count(), 3);
    assert_eq!(a.region_at(0).addr, p2);
    assert_eq!(a.region_at(1).addr, p1);
}

#[test]
fn free_list_remainder_too_small_is_forfeited() {
    let mut a = LinkedListAllocator::new();
    a.init(0x40000, 72);
    // 72 - 64 = 8 bytes would remain: too small to host a node, so
    // the request must not split this region
    assert!(a.allocate(layout(64, 8)).is_none());
    // a request consuming the whole region succeeds
    let p = a.allocate(layout(72, 8)).unwrap();
    assert_eq!(p, 0x40000);
    assert_eq!(a.region_count(), 0);
}

#[test]
fn heap_scenario_vector_growth_sum() {
    // heap of 100 KiB; grow a 1000-element integer collection with
    // doubling reallocation, then read back the element sum
    let heap_size = (my_os::allocator::HEAP_SIZE) as usize;
    let mut a = LinkedListAllocator::new();
    a.init(0x44440000, heap_size);

    let n: u64 = 1000;
    let mut values: Vec<u64> = Vec::new();
    let mut capacity: usize = 4;
    let mut block = a
        .allocate(layout(capacity * 8, 8))
        .expect("initial backing allocation failed");
    for i in 0..n {
        if values.len() == capacity {
            // grow: allocate the doubled span, then release the old one
            let new_capacity = capacity * 2;
            let new_block = a
                .allocate(layout(new_capacity * 8, 8))
                .expect("grown backing allocation failed");
            a.deallocate(block, layout(capacity * 8, 8));
            block = new_block;
            capacity = new_capacity;
        }
        values.push(i);
    }
    assert!(values.len() == 1000);
    let sum: u64 = values.iter().sum();
    assert_eq!(sum, n * (n - 1) / 2);
    a.deallocate(block, layout(capacity * 8, 8));
    assert_eq!(total_free(&a), heap_size as u128);
}
