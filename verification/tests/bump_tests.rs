use my_os::bump::BumpAllocator;
use my_os::layout::Layout;

fn layout(size: usize, align: usize) -> Layout {
    Layout::from_size_align(size, align).unwrap()
}

#[test]
fn bump_new_is_empty() {
    let b = BumpAllocator::new();
    assert_eq!(b.heap_start, 0);
    assert_eq!(b.heap_end, 0);
    assert_eq!(b.next, 0);
    assert_eq!(b.allocations, 0);
}

#[test]
fn bump_allocates_sequentially() {
    let mut b = BumpAllocator::new();
    b.init(0x1000, 0x1000);
    let first = b.allocate(layout(16, 8)).unwrap();
    assert_eq!(first, 0x1000);
    let second = b.allocate(layout(16, 8)).unwrap();
    assert_eq!(second, 0x1010);
    assert_eq!(b.allocations, 2);
    assert_eq!(b.next, 0x1020);
}

#[test]
fn bump_respects_alignment() {
    let mut b = BumpAllocator::new();
    b.init(0x1004, 0x1000);
    let addr = b.allocate(layout(8, 64)).unwrap();
    assert_eq!(addr % 64, 0);
    assert_eq!(addr, 0x1040);
}

#[test]
fn bump_rejects_when_full() {
    let mut b = BumpAllocator::new();
    b.init(0x1000, 64);
    assert!(b.allocate(layout(48, 8)).is_some());
    assert!(b.allocate(layout(32, 8)).is_none());
    // a failed allocation changes nothing
    assert_eq!(b.allocations, 1);
    assert!(b.allocate(layout(16, 8)).is_some());
}

#[test]
fn bump_cursor_monotonic_while_outstanding() {
    let mut b = BumpAllocator::new();
    b.init(0x2000, 0x1000);
    let mut last = b.next;
    for _ in 0..10 {
        b.allocate(layout(24, 8)).unwrap();
        assert!(b.next >= last);
        last = b.next;
    }
    b.deallocate();
    // cursor does not move while allocations remain outstanding
    assert_eq!(b.next, last);
}

#[test]
fn bump_resets_when_count_reaches_zero() {
    let mut b = BumpAllocator::new();
    b.init(0x2000, 0x100);
    for _ in 0..4 {
        b.allocate(layout(32, 8)).unwrap();
    }
    for _ in 0..4 {
        b.deallocate();
    }
    // the outstanding-count invariant: count zero puts the cursor
    // back at the heap start, so the full capacity is available again
    assert_eq!(b.allocations, 0);
    assert_eq!(b.next, b.heap_start);
    let again = b.allocate(layout(0x100, 1)).unwrap();
    assert_eq!(again, 0x2000);
}

#[test]
fn bump_long_lived_allocation_pins_heap() {
    let mut b = BumpAllocator::new();
    b.init(0x3000, 0x200);
    b.allocate(layout(16, 8)).unwrap(); // long lived
    for _ in 0..7 {
        b.allocate(layout(32, 8)).unwrap();
        b.deallocate();
    }
    // freeing short-lived allocations never resets the cursor while
    // the long-lived one is outstanding
    assert_eq!(b.allocations, 1);
    assert!(b.next > b.heap_start);
}
