//! Paging structures as data: the four-level page-table walk that
//! turns a virtual address into a physical one, the frame allocator
//! that hands out usable frames from the boot-time memory map, and
//! the page-to-frame mapping the heap is backed with. Reading the
//! active tables out of CPU registers and raw memory is the boot
//! code's hardware work; every address computation on them is
//! checked here.

use vstd::prelude::*;

verus! {

broadcast use {vstd::std_specs::btree::group_btree_axioms, vstd::laws_cmp::group_laws_cmp};

use std::collections::BTreeMap;

/// Bytes in one page or frame.
pub const PAGE_SIZE: u64 = 4096;

/// Entries in one page table.
pub const TABLE_ENTRIES: usize = 512;

pub open spec fn spec_p1_index(addr: u64) -> int {
    (addr as int / 0x1000) % 512
}

pub open spec fn spec_p2_index(addr: u64) -> int {
    (addr as int / 0x20_0000) % 512
}

pub open spec fn spec_p3_index(addr: u64) -> int {
    (addr as int / 0x4000_0000) % 512
}

pub open spec fn spec_p4_index(addr: u64) -> int {
    (addr as int / 0x80_0000_0000) % 512
}

/// The offset of an address within its page.
pub open spec fn spec_page_offset(addr: u64) -> int {
    addr as int % 0x1000
}

/// The nine address bits that index the table at each level of the
/// walk, counted with the leaf tables as level 1.
pub open spec fn spec_table_index(addr: u64, level: int) -> int {
    if level == 4 {
        spec_p4_index(addr)
    } else if level == 3 {
        spec_p3_index(addr)
    } else if level == 2 {
        spec_p2_index(addr)
    } else {
        spec_p1_index(addr)
    }
}

/// Extracts the level-1 table index from a virtual address.
pub fn p1_index(addr: u64) -> (r: u16)
    ensures
        r == spec_p1_index(addr),
        r < 512,
{
    proof {
        assert((addr >> 12) & 0x1ff == (addr / 0x1000) % 512 && (addr >> 12) & 0x1ff
            < 512) by (bit_vector);
    }
    ((addr >> 12) & 0x1ff) as u16
}

/// Extracts the level-2 table index from a virtual address.
pub fn p2_index(addr: u64) -> (r: u16)
    ensures
        r == spec_p2_index(addr),
        r < 512,
{
    proof {
        assert((addr >> 21) & 0x1ff == (addr / 0x20_0000) % 512 && (addr >> 21) & 0x1ff
            < 512) by (bit_vector);
    }
    ((addr >> 21) & 0x1ff) as u16
}

/// Extracts the level-3 table index from a virtual address.
pub fn p3_index(addr: u64) -> (r: u16)
    ensures
        r == spec_p3_index(addr),
        r < 512,
{
    proof {
        assert((addr >> 30) & 0x1ff == (addr / 0x4000_0000) % 512 && (addr >> 30) & 0x1ff
            < 512) by (bit_vector);
    }
    ((addr >> 30) & 0x1ff) as u16
}

/// Extracts the level-4 table index from a virtual address.
pub fn p4_index(addr: u64) -> (r: u16)
    ensures
        r == spec_p4_index(addr),
        r < 512,
{
    proof {
        assert((addr >> 39) & 0x1ff == (addr / 0x80_0000_0000) % 512 && (addr >> 39)
            & 0x1ff < 512) by (bit_vector);
    }
    ((addr >> 39) & 0x1ff) as u16
}

/// Extracts the within-page offset from a virtual address.
pub fn page_offset(addr: u64) -> (r: u64)
    ensures
        r == spec_page_offset(addr),
        r < 4096,
{
    proof {
        assert(addr & 0xfff == addr % 0x1000 && addr & 0xfff < 4096) by (bit_vector);
    }
    addr & 0xfff
}

/// The base address of the page containing an address.
pub fn page_containing_address(addr: u64) -> (r: u64)
    ensures
        r == addr - spec_page_offset(addr),
        r as int % 0x1000 == 0,
{
    proof {
        assert(addr & !0xfffu64 == (addr / 0x1000) * 0x1000 && (addr & !0xfffu64) % 0x1000
            == 0) by (bit_vector);
        vstd::arithmetic::div_mod::lemma_fundamental_div_mod(addr as int, 0x1000);
    }
    addr & !0xfffu64
}

/// One page-table entry: whether it is present, whether it maps a
/// huge page directly, and the frame it points at — the next table's
/// slot for the upper levels, the mapped frame's start address at
/// level 1.
#[derive(Clone, Copy, PartialEq, Eq, Structural, Debug)]
pub struct PageTableEntry {
    pub present: bool,
    pub huge_page: bool,
    pub frame: u64,
}

/// One page table: 512 entries.
pub struct PageTable {
    pub entries: Vec<PageTableEntry>,
}

pub open spec fn table_wf(t: PageTable) -> bool {
    t.entries@.len() == TABLE_ENTRIES
}

/// The walkable shape of a table hierarchy from slot `t` down
/// `level` more levels: every present non-huge entry of an interior
/// table points at a walkable table, and every present leaf entry
/// carries a page-aligned frame address.
pub open spec fn level_wf(tables: Seq<PageTable>, t: int, level: int) -> bool
    decreases level when level >= 1
{
    &&& 0 <= t < tables.len()
    &&& table_wf(tables[t])
    &&& level > 1 ==> forall|i: int| 0 <= i < TABLE_ENTRIES ==> {
        let e = #[trigger] tables[t].entries@[i];
        e.present && !e.huge_page ==> e.frame < tables.len() && level_wf(tables,
            e.frame as int, level - 1)
    }
    &&& level == 1 ==> forall|i: int| 0 <= i < TABLE_ENTRIES ==> {
        let e = #[trigger] tables[t].entries@[i];
        e.present && !e.huge_page ==> e.frame as int % 0x1000 == 0
    }
}

/// The translation the hierarchy defines for an address, walking
/// from slot `t` down `level` levels: absent entries make the
/// address unmapped, and the leaf entry's frame plus the page offset
/// is the physical address. A huge-page entry ends the walk with no
/// translation; the walker refuses such addresses up front.
pub open spec fn spec_walk(tables: Seq<PageTable>, t: int, addr: u64, level: int) -> Option<
    u64,
>
    decreases level when level >= 1
{
    let e = tables[t].entries@[spec_table_index(addr, level)];
    if !e.present {
        None
    } else if e.huge_page {
        None
    } else if level == 1 {
        Some((e.frame + spec_page_offset(addr)) as u64)
    } else {
        spec_walk(tables, e.frame as int, addr, level - 1)
    }
}

/// Whether the walk for an address runs into a huge-page entry,
/// which the walker does not support.
pub open spec fn spec_hits_huge(tables: Seq<PageTable>, t: int, addr: u64, level: int) -> bool
    decreases level when level >= 1
{
    let e = tables[t].entries@[spec_table_index(addr, level)];
    if !e.present {
        false
    } else if e.huge_page {
        true
    } else if level == 1 {
        false
    } else {
        spec_hits_huge(tables, e.frame as int, addr, level - 1)
    }
}

/// A four-level page-table hierarchy held as data: the tables, and
/// which of them is the active level-4 table.
pub struct PageTables {
    pub tables: Vec<PageTable>,
    pub root: usize,
}

impl PageTables {
    pub open spec fn wf(self) -> bool {
        level_wf(self.tables@, self.root as int, 4)
    }

    /// Translates a virtual address to the physical address it is
    /// mapped at, or nothing if the address is not mapped. Huge
    /// pages are not supported: the walk must not meet one.
    pub fn translate_addr(&self, addr: u64) -> (r: Option<u64>)
        requires
            self.wf(),
            !spec_hits_huge(self.tables@, self.root as int, addr, 4),
        ensures
            r == spec_walk(self.tables@, self.root as int, addr, 4),
    {
        self.translate_addr_inner(addr)
    }

    /// The walk itself: read the entry the address selects at each
    /// of the four levels, following frame slots downward; the last
    /// frame is the mapped frame, and the page offset lands inside
    /// it.
    fn translate_addr_inner(&self, addr: u64) -> (r: Option<u64>)
        requires
            self.wf(),
            !spec_hits_huge(self.tables@, self.root as int, addr, 4),
        ensures
            r == spec_walk(self.tables@, self.root as int, addr, 4),
    {
        let ghost tables = self.tables@;
        let ghost root = self.root as int;
        let e4 = self.tables[self.root].entries[p4_index(addr) as usize];
        proof {
            assert(0 <= spec_table_index(addr, 4) < 512);
            assert(e4 == tables[root].entries@[spec_table_index(addr, 4)]);
        }
        if !e4.present {
            return None;
        }
        proof {
            assert(!e4.huge_page);
            assert(e4.present && !e4.huge_page);
            assert(e4.frame < tables.len() && level_wf(tables, e4.frame as int, 3));
            assert(!spec_hits_huge(tables, e4.frame as int, addr, 3));
            assert(spec_walk(tables, root, addr, 4) == spec_walk(tables, e4.frame as int,
                addr, 3));
        }
        proof {
            assert(e4.frame < tables.len());
            assert((e4.frame as usize) < self.tables.len());
        }
        let t3 = &self.tables[e4.frame as usize];
        proof {
            assert(*t3 == tables[e4.frame as int]);
            assert(table_wf(tables[e4.frame as int]));
            assert(t3.entries@.len() == 512);
        }
        let e3 = t3.entries[p3_index(addr) as usize];
        proof {
            assert(0 <= spec_table_index(addr, 3) < 512);
            assert(e3 == tables[e4.frame as int].entries@[spec_table_index(addr, 3)]);
        }
        if !e3.present {
            return None;
        }
        proof {
            assert(!e3.huge_page);
            assert(e3.frame < tables.len() && level_wf(tables, e3.frame as int, 2));
            assert(!spec_hits_huge(tables, e3.frame as int, addr, 2));
            assert(spec_walk(tables, e4.frame as int, addr, 3) == spec_walk(tables,
                e3.frame as int, addr, 2));
        }
        let e2 = self.tables[e3.frame as usize].entries[p2_index(addr) as usize];
        proof {
            assert(0 <= spec_table_index(addr, 2) < 512);
            assert(e2 == tables[e3.frame as int].entries@[spec_table_index(addr, 2)]);
        }
        if !e2.present {
            return None;
        }
        proof {
            assert(!e2.huge_page);
            assert(e2.frame < tables.len() && level_wf(tables, e2.frame as int, 1));
            assert(!spec_hits_huge(tables, e2.frame as int, addr, 1));
            assert(spec_walk(tables, e3.frame as int, addr, 2) == spec_walk(tables,
                e2.frame as int, addr, 1));
        }
        let e1 = self.tables[e2.frame as usize].entries[p1_index(addr) as usize];
        proof {
            assert(0 <= spec_table_index(addr, 1) < 512);
            assert(e1 == tables[e2.frame as int].entries@[spec_table_index(addr, 1)]);
        }
        if !e1.present {
            return None;
        }
        proof {
            assert(!e1.huge_page);
            assert(e1.frame as int % 0x1000 == 0);
            lemma_aligned_frame_has_room(e1.frame);
            assert(spec_walk(tables, e2.frame as int, addr, 1) == Some((e1.frame
                + spec_page_offset(addr)) as u64));
        }
        Some(e1.frame + page_offset(addr))
    }
}

/// A page-aligned frame address leaves room for any within-page
/// offset.
proof fn lemma_aligned_frame_has_room(frame: u64)
    requires
        frame as int % 0x1000 == 0,
    ensures
        frame as int + 0xfff <= u64::MAX,
{
    let f = frame as int;
    let q = f / 0x1000;
    vstd::arithmetic::div_mod::lemma_fundamental_div_mod(f, 0x1000);
    assert(f == 0x1000 * q);
    assert(q <= 0xf_ffff_ffff_ffff) by (nonlinear_arith)
        requires
            f == 0x1000 * q,
            0 <= f <= u64::MAX,
    {}
    assert(f <= 0x1000 * 0xf_ffff_ffff_ffff) by (nonlinear_arith)
        requires
            f == 0x1000 * q,
            q <= 0xf_ffff_ffff_ffff,
    {}
}

/// What allocating a frame or mapping a page can fail with.
#[derive(Clone, Copy, PartialEq, Eq, Structural, Debug)]
pub enum MapToError {
    /// The frame allocator has no frame left to back the page.
    FrameAllocationFailed,
    /// The page is already mapped; mapping it again would shadow an
    /// existing mapping.
    PageAlreadyMapped,
}

/// A source of unused physical frames. Implementors promise, outside
/// any contract here, that every frame they yield is really unused:
/// handing out a frame twice maps two pages onto the same memory.
pub trait FrameAllocator {
    fn allocate_frame(&mut self) -> Option<u64>;
}

/// A frame allocator with nothing to give: every request fails.
pub struct EmptyFrameAllocator;

impl FrameAllocator for EmptyFrameAllocator {
    fn allocate_frame(&mut self) -> (r: Option<u64>) {
        None
    }
}

/// One region of the boot-time memory map: a physical address range
/// and whether the bootloader marked it usable.
#[derive(Clone, Copy, PartialEq, Eq, Structural, Debug)]
pub struct MemoryRegion {
    pub start: u64,
    pub end: u64,
    pub usable: bool,
}

impl MemoryRegion {
    /// A plausible region: non-decreasing bounds within the
    /// physical address space.
    pub open spec fn wf(self) -> bool {
        &&& self.start <= self.end
        &&& self.end <= 0x10_0000_0000_0000
    }

    /// How many frame-sized steps fit in the region, counting a
    /// trailing partial frame.
    pub open spec fn frame_count(self) -> int {
        (self.end - self.start + 0xfff) / 0x1000
    }
}

/// The frames a region offers: every frame-size step from its start
/// that still begins inside it.
pub open spec fn region_frames(r: MemoryRegion) -> Seq<u64> {
    Seq::new(r.frame_count() as nat, |i: int| (r.start + 0x1000 * i) as u64)
}

/// The usable frames of a whole memory map, region by region.
pub open spec fn spec_usable_frames(regions: Seq<MemoryRegion>) -> Seq<u64>
    decreases regions.len(),
{
    if regions.len() == 0 {
        Seq::empty()
    } else {
        (if regions[0].usable {
            region_frames(regions[0])
        } else {
            Seq::empty()
        }) + spec_usable_frames(regions.drop_first())
    }
}

/// The frame allocator the kernel boots with: it walks the usable
/// frames of the bootloader's memory map in order and never returns
/// the same frame twice. The bootloader vouches that usable regions
/// are really free; building the allocator trusts that record.
pub struct BootInfoFrameAllocator {
    memory_map: Vec<MemoryRegion>,
    next: usize,
}

impl BootInfoFrameAllocator {
    pub closed spec fn regions(self) -> Seq<MemoryRegion> {
        self.memory_map@
    }

    pub closed spec fn position(self) -> int {
        self.next as int
    }

    /// Every region of the map is plausible; holds of every value of
    /// this type.
    #[verifier::type_invariant]
    pub closed spec fn wf(self) -> bool {
        forall|i: int| 0 <= i < self.regions().len() ==> (#[trigger] self.regions()[i]).wf()
    }

    /// Creates the allocator over the bootloader's memory map,
    /// starting from its first usable frame.
    pub fn init(memory_map: Vec<MemoryRegion>) -> (r: BootInfoFrameAllocator)
        requires
            forall|i: int| 0 <= i < memory_map@.len() ==> (#[trigger] memory_map@[i]).wf(),
        ensures
            r.wf(),
            r.regions() == memory_map@,
            r.position() == 0,
    {
        BootInfoFrameAllocator { memory_map, next: 0 }
    }
}

impl FrameAllocator for BootInfoFrameAllocator {
    fn allocate_frame(&mut self) -> (r: Option<u64>) {
        self.next_usable_frame()
    }
}

impl BootInfoFrameAllocator {
    /// The next usable frame in memory-map order, if one is left;
    /// the position advances either way, so no frame is yielded
    /// twice.
    pub fn next_usable_frame(&mut self) -> (r: Option<u64>)
        ensures
            final(self).regions() == old(self).regions(),
            old(self).position() < usize::MAX ==> {
                &&& final(self).position() == old(self).position() + 1
                &&& r == if old(self).position() < spec_usable_frames(old(self)
                    .regions()).len() {
                    Some(spec_usable_frames(old(self).regions())[old(self).position()])
                } else {
                    None::<u64>
                }
            },
            old(self).position() == usize::MAX ==> final(self).position() == old(self)
                .position() && r is None,
    {
        proof {
            use_type_invariant(&*self);
        }
        if self.next == usize::MAX {
            return None;
        }
        let n = self.next;
        proof {
            assert(forall|i: int| 0 <= i < self.regions().len()
                ==> (#[trigger] self.regions()[i]).wf());
        }
        self.next = self.next + 1;
        self.frame_at(n)
    }

    /// Looks up the `n`-th usable frame of the memory map.
    fn frame_at(&self, n: usize) -> (r: Option<u64>)
        requires
            self.wf(),
        ensures
            r == if n < spec_usable_frames(self.regions()).len() {
                Some(spec_usable_frames(self.regions())[n as int])
            } else {
                None::<u64>
            },
    {
        let ghost all = spec_usable_frames(self.regions());
        proof {
            assert(self.regions().skip(0) =~= self.regions());
        }
        let mut remaining = n;
        let mut i: usize = 0;
        while i < self.memory_map.len()
            invariant
                self.wf(),
                all == spec_usable_frames(self.regions()),
                i <= self.memory_map.len(),
                remaining <= n,
                spec_usable_frames(self.regions().skip(i as int)).len() > remaining
                    ==> all.len() > n && all[n as int] == spec_usable_frames(
                    self.regions().skip(i as int))[remaining as int],
                spec_usable_frames(self.regions().skip(i as int)).len() <= remaining
                    ==> all.len() <= n,
            decreases self.memory_map.len() - i,
        {
            let region = self.memory_map[i];
            proof {
                lemma_usable_frames_step(self.regions(), i as int);
            }
            if region.usable {
                let span = region.end - region.start;
                let count = span / 0x1000 + if span % 0x1000 > 0 {
                    1
                } else {
                    0
                };
                proof {
                    assert(count == region.frame_count());
                    assert(region_frames(region).len() == region.frame_count());
                }
                if (remaining as u64) < count {
                    proof {
                        let sp = region.end as int - region.start as int;
                        let q = sp / 0x1000;
                        let rr = sp % 0x1000;
                        vstd::arithmetic::div_mod::lemma_fundamental_div_mod(sp, 0x1000);
                        if rr > 0 {
                            vstd::arithmetic::div_mod::lemma_fundamental_div_mod_converse(
                                sp + 0xfff, 0x1000, q + 1, rr - 1);
                        } else {
                            vstd::arithmetic::div_mod::lemma_fundamental_div_mod_converse(
                                sp + 0xfff, 0x1000, q, 0xfff);
                        }
                        assert(count == region.frame_count());
                        assert(region_frames(region).len() == count);
                        assert(spec_usable_frames(self.regions().skip(i as int)).len()
                            >= count);
                        assert(spec_usable_frames(self.regions().skip(i as int)).len()
                            > remaining as int);
                        assert(all.len() > n && all[n as int] == spec_usable_frames(
                            self.regions().skip(i as int))[remaining as int]);
                        assert(spec_usable_frames(self.regions().skip(i as int))[
                            remaining as int] == region_frames(region)[remaining as int]);
                        assert(region_frames(region)[remaining as int] == (region.start
                            + 0x1000 * (remaining as int)) as u64);
                        vstd::arithmetic::mul::lemma_mul_inequality(remaining as int,
                            count as int - 1, 0x1000);
                        assert(0x1000 * (remaining as int) == (remaining as int) * 0x1000);
                        assert((count as int - 1) * 0x1000 == 0x1000 * count - 0x1000)
                            by (nonlinear_arith);
                        assert(region.start + 0x1000 * (remaining as int)
                            <= region.end as int + 0xfff - 0x1000);
                    }
                    return Some(region.start + 0x1000 * (remaining as u64));
                }
                remaining = remaining - (count as usize);
            }
            i = i + 1;
        }
        proof {
            assert(self.regions().skip(self.regions().len() as int) =~= Seq::<
                MemoryRegion>::empty());
        }
        None
    }
}

/// Peeling one region off the front of the memory map splits its
/// usable-frame sequence at that region's frames.
proof fn lemma_usable_frames_step(regions: Seq<MemoryRegion>, i: int)
    requires
        0 <= i < regions.len(),
    ensures
        spec_usable_frames(regions.skip(i)) == (if regions[i].usable {
            region_frames(regions[i])
        } else {
            Seq::<u64>::empty()
        }) + spec_usable_frames(regions.skip(i + 1)),
{
    let s = regions.skip(i);
    assert(s[0] == regions[i]);
    assert(s.drop_first() =~= regions.skip(i + 1));
}

/// The page-to-frame mapping of the active address space, as far as
/// the kernel has built it: which virtual page is backed by which
/// physical frame. The hardware-facing act of writing the mapping
/// into the page tables and flushing the translation buffer is the
/// boot code's step; this records and checks what that step is told
/// to do.
pub struct OffsetPageTable {
    mappings: BTreeMap<u64, u64>,
}

impl View for OffsetPageTable {
    type V = Map<u64, u64>;

    closed spec fn view(&self) -> Map<u64, u64> {
        self.mappings@
    }
}

impl OffsetPageTable {
    /// An address space with no pages mapped yet.
    pub fn new() -> (r: OffsetPageTable)
        ensures
            r@ == Map::<u64, u64>::empty(),
    {
        OffsetPageTable { mappings: BTreeMap::new() }
    }

    /// Maps one page to one frame. Mapping a page twice is refused:
    /// the caller decides whether an existing mapping is expected,
    /// and nothing is overwritten behind its back.
    pub fn map_to(&mut self, page: u64, frame: u64) -> (r: Result<(), MapToError>)
        ensures
            if old(self)@.contains_key(page) {
                r == Err::<(), MapToError>(MapToError::PageAlreadyMapped) && final(self)@
                    == old(self)@
            } else {
                r == Ok::<(), MapToError>(()) && final(self)@ == old(self)@.insert(page,
                    frame)
            },
    {
        if self.mappings.contains_key(&page) {
            Err(MapToError::PageAlreadyMapped)
        } else {
            let _ = self.mappings.insert(page, frame);
            Ok(())
        }
    }

    /// The frame a page is mapped to, if it is mapped.
    pub fn translate_page(&self, page: u64) -> (r: Option<u64>)
        ensures
            r == if self@.contains_key(page) {
                Some(self@[page])
            } else {
                None::<u64>
            },
    {
        match self.mappings.get(&page) {
            Some(frame) => Some(*frame),
            None => None,
        }
    }

    /// How many pages are mapped.
    pub fn mapped_count(&self) -> (r: usize)
        ensures
            r == self@.dom().len(),
    {
        self.mappings.len()
    }
}

/// Maps a chosen page to the frame holding the memory-mapped text
/// screen, so writes through that page appear on screen. The page
/// must not be mapped yet, and the mapping must still be written to
/// the hardware tables by the caller.
pub fn create_example_mapping<A: FrameAllocator>(page: u64, mapper: &mut OffsetPageTable,
    _frame_allocator: &mut A)
    requires
        !old(mapper)@.contains_key(page),
    ensures
        final(mapper)@ == old(mapper)@.insert(page, 0xb8000),
{
    let frame: u64 = 0xb8000;
    let map_to_result = mapper.map_to(page, frame);
    match map_to_result {
        Ok(_) => {},
        Err(_) => {
            proof {
                assert(false);
            }
        },
    }
}

} // verus!
