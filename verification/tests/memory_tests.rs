use my_os::allocator::{init_heap, HEAP_PAGE_COUNT, HEAP_SIZE, HEAP_START};
use my_os::memory::{
    create_example_mapping, p1_index, p2_index, p3_index, p4_index, page_containing_address,
    page_offset, BootInfoFrameAllocator, EmptyFrameAllocator, FrameAllocator, MapToError,
    MemoryRegion, OffsetPageTable, PageTable, PageTableEntry, PageTables, PAGE_SIZE,
    TABLE_ENTRIES,
};

fn absent() -> PageTableEntry {
    PageTableEntry { present: false, huge_page: false, frame: 0 }
}

fn table_with(index: usize, entry: PageTableEntry) -> PageTable {
    let mut entries = vec![absent(); TABLE_ENTRIES];
    entries[index] = entry;
    PageTable { entries }
}

#[test]
fn address_indices_split_as_documented() {
    assert_eq!(p1_index(0x1000), 1);
    assert_eq!(p2_index(0x20_0000), 1);
    assert_eq!(p3_index(0x4000_0000), 1);
    assert_eq!(p4_index(0x80_0000_0000), 1);
    assert_eq!(page_offset(0xabcd), 0xbcd);
    assert_eq!(page_containing_address(0xabcd), 0xa000);
    // the indices of the heap's first address
    let addr = HEAP_START;
    assert_eq!(p4_index(addr), ((addr >> 39) & 0x1ff) as u16);
    assert_eq!(page_offset(addr), 0);
}

#[test]
fn page_walk_translates_a_mapped_address() {
    let addr: u64 = 0x0000_1234_5678_9abc;
    let leaf = PageTableEntry { present: true, huge_page: false, frame: 0x42_0000 };
    let l1 = table_with(p1_index(addr) as usize, leaf);
    let l2 = table_with(p2_index(addr) as usize, PageTableEntry {
        present: true,
        huge_page: false,
        frame: 3,
    });
    let l3 = table_with(p3_index(addr) as usize, PageTableEntry {
        present: true,
        huge_page: false,
        frame: 2,
    });
    let l4 = table_with(p4_index(addr) as usize, PageTableEntry {
        present: true,
        huge_page: false,
        frame: 1,
    });
    let pts = PageTables { tables: vec![l4, l3, l2, l1], root: 0 };
    assert_eq!(pts.translate_addr(addr), Some(0x42_0000 + (addr & 0xfff)));
    // the neighbouring page is not mapped
    assert_eq!(pts.translate_addr(addr + 0x1000), None);
}

#[test]
fn page_walk_reports_unmapped_at_top_level() {
    let empty = PageTable { entries: vec![absent(); TABLE_ENTRIES] };
    let pts = PageTables { tables: vec![empty], root: 0 };
    assert_eq!(pts.translate_addr(0xdead_b000), None);
}

#[test]
fn boot_info_allocator_yields_usable_frames_in_order() {
    let map = vec![
        MemoryRegion { start: 0x1000, end: 0x3000, usable: true },
        MemoryRegion { start: 0x3000, end: 0x5000, usable: false },
        MemoryRegion { start: 0x5000, end: 0x5800, usable: true },
    ];
    let mut fa = BootInfoFrameAllocator::init(map);
    assert_eq!(fa.allocate_frame(), Some(0x1000));
    assert_eq!(fa.allocate_frame(), Some(0x2000));
    // the reserved region is skipped; the partial region still
    // yields the frame its start lies in
    assert_eq!(fa.allocate_frame(), Some(0x5000));
    assert_eq!(fa.allocate_frame(), None);
    assert_eq!(fa.allocate_frame(), None);
}

#[test]
fn empty_frame_allocator_never_allocates() {
    let mut fa = EmptyFrameAllocator;
    assert_eq!(fa.allocate_frame(), None);
}

struct CountingFrameAllocator {
    next: u64,
}

impl FrameAllocator for CountingFrameAllocator {
    fn allocate_frame(&mut self) -> Option<u64> {
        let frame = self.next;
        self.next += PAGE_SIZE;
        Some(frame)
    }
}

#[test]
fn init_heap_maps_every_heap_page() {
    let mut mapper = OffsetPageTable::new();
    let mut fa = CountingFrameAllocator { next: 0x10_0000 };
    assert_eq!(init_heap(&mut mapper, &mut fa), Ok(()));
    assert_eq!(HEAP_PAGE_COUNT, HEAP_SIZE / PAGE_SIZE);
    assert_eq!(mapper.mapped_count() as u64, HEAP_PAGE_COUNT);
    for k in 0..HEAP_PAGE_COUNT {
        let page = HEAP_START + PAGE_SIZE * k;
        assert_eq!(mapper.translate_page(page), Some(0x10_0000 + PAGE_SIZE * k));
    }
}

#[test]
fn init_heap_fails_without_frames() {
    let mut mapper = OffsetPageTable::new();
    let mut fa = EmptyFrameAllocator;
    assert_eq!(init_heap(&mut mapper, &mut fa), Err(MapToError::FrameAllocationFailed));
    assert_eq!(mapper.mapped_count(), 0);
}

#[test]
fn mapping_a_page_twice_is_refused() {
    let mut mapper = OffsetPageTable::new();
    assert_eq!(mapper.map_to(0x4000, 0x9000), Ok(()));
    assert_eq!(mapper.map_to(0x4000, 0xa000), Err(MapToError::PageAlreadyMapped));
    // the original mapping survives the refused attempt
    assert_eq!(mapper.translate_page(0x4000), Some(0x9000));
}

#[test]
fn example_mapping_points_at_the_screen_frame() {
    let mut mapper = OffsetPageTable::new();
    let mut fa = EmptyFrameAllocator;
    create_example_mapping(0, &mut mapper, &mut fa);
    assert_eq!(mapper.translate_page(0), Some(0xb8000));
}
