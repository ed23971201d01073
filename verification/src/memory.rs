//! Frame allocation over the firmware memory map, and the address space
//! mapper: translation of virtual addresses and installation of mappings in a
//! four-level page-table hierarchy.

use vstd::prelude::*;
use bootloader::bootinfo::MemoryMap;
use crate::addr::{
    canonical_form, offset_in_page, Page, PhysAddr, PhysFrame, VirtAddr, PAGE_SIZE,
};
use crate::page_table::{
    compose_entry, entry_address, entry_frame, entry_present, FrameError, PageTableEntry,
    PageTableFlags, KernelMemory, PARENT_FLAGS_MASK, PRESENT, WRITABLE,
};
use crate::translation::{map_from, map_page, parent_flags, walk, walk_from, MapFailure, Walk};
use crate::regions::{
    lemma_usable_frames_prefix, lemma_usable_frames_step, memory_map_regions, region_count,
    region_frame_count, region_frames, region_is_usable, region_range, regions_addressable,
    usable_frames, Region, FRAME_NUMBER_LIMIT,
};

verus! {

/// A source of unused physical frames.
pub trait FrameAllocator {
    /// The start addresses of the frames that the coming calls hand out, in
    /// order. Once they are used up every call returns `None`.
    spec fn upcoming(&self) -> Seq<u64>;

    /// How many more calls the allocator can take before a counter of its
    /// own would overflow.
    spec fn calls_left(&self) -> nat;

    /// Hands out the next unused frame, or `None` when none is left.
    fn allocate_frame(&mut self) -> (frame: Option<PhysFrame>)
        requires
            old(self).calls_left() >= 1,
        ensures
            final(self).calls_left() >= old(self).calls_left() - 1,
            old(self).upcoming().len() == 0 ==> frame is None && final(self).upcoming().len() == 0,
            old(self).upcoming().len() > 0 ==> frame is Some && frame->0@ == old(self).upcoming()[0]
                && final(self).upcoming() == old(self).upcoming().drop_first(),
    ;
}

/// An allocator that never has a frame.
pub struct EmptyFrameAllocator;

impl FrameAllocator for EmptyFrameAllocator {
    open spec fn upcoming(&self) -> Seq<u64> {
        Seq::empty()
    }

    open spec fn calls_left(&self) -> nat {
        usize::MAX as nat
    }

    fn allocate_frame(&mut self) -> (frame: Option<PhysFrame>)
        ensures
            frame is None,
    {
        None
    }
}

/// An allocator that hands out the frames of the usable regions of the
/// bootloader's memory map, each frame once, in the order of the map.
pub struct BootInfoFrameAllocator {
    memory_map: &'static MemoryMap,
    next: usize,
}

impl BootInfoFrameAllocator {
    #[verifier::type_invariant]
    spec fn addressable(self) -> bool {
        regions_addressable(memory_map_regions(*self.memory_map))
    }

    /// The regions of the memory map that the allocator draws from.
    pub closed spec fn regions(self) -> Seq<Region> {
        memory_map_regions(*self.memory_map)
    }

    /// How many calls the allocator has taken.
    pub closed spec fn cursor(self) -> nat {
        self.next as nat
    }

    /// The start addresses of all the frames that the allocator ever hands
    /// out, in the order in which it does.
    pub open spec fn frames(self) -> Seq<u64> {
        usable_frames(self.regions())
    }

    /// How many calls the allocator has taken.
    pub fn allocated(&self) -> (calls: usize)
        ensures
            calls == self.cursor(),
    {
        self.next
    }

    /// An allocator over `memory_map` that has handed out nothing yet.
    pub fn init(memory_map: &'static MemoryMap) -> (allocator: Self)
        requires
            regions_addressable(memory_map_regions(*memory_map)),
        ensures
            allocator.regions() == memory_map_regions(*memory_map),
            allocator.cursor() == 0,
    {
        BootInfoFrameAllocator { memory_map, next: 0 }
    }

    /// An allocator over `memory_map` that has handed out nothing yet, or
    /// `None` where a usable region reaches beyond the physical addresses.
    pub fn try_init(memory_map: &'static MemoryMap) -> (result: Option<Self>)
        ensures
            result is Some <==> regions_addressable(memory_map_regions(*memory_map)),
            result matches Some(allocator) ==> allocator.regions() == memory_map_regions(
                *memory_map,
            ) && allocator.cursor() == 0,
    {
        let ghost regions = memory_map_regions(*memory_map);
        let count = region_count(memory_map);
        let mut i: usize = 0;
        while i < count
            invariant
                regions == memory_map_regions(*memory_map),
                count == regions.len(),
                i <= count,
                regions_addressable(regions.take(i as int)),
            decreases count - i,
        {
            let usable = region_is_usable(memory_map, i);
            let (start, end) = region_range(memory_map, i);
            if usable && start < end && end > FRAME_NUMBER_LIMIT {
                assert(region_frame_count(regions[i as int]) > 0);
                return None;
            }
            assert(regions_addressable(regions.take(i + 1))) by {
                assert forall|k: int|
                    0 <= k < i + 1 && region_frame_count(
                        #[trigger] regions.take(i + 1)[k],
                    ) > 0 implies regions.take(i + 1)[k].end_frame <= FRAME_NUMBER_LIMIT by {
                    if k < i {
                        assert(regions.take(i as int)[k] == regions.take(i + 1)[k]);
                    }
                }
            }
            i = i + 1;
        }
        assert(regions.take(count as int) =~= regions);
        Some(BootInfoFrameAllocator::init(memory_map))
    }

    /// The frame at position `index` of the sequence that the usable regions
    /// of the map offer.
    fn usable_frame(&self, index: usize) -> (frame: Option<PhysFrame>)
        ensures
            index < self.frames().len() ==> frame is Some && frame->0@ == self.frames()[index as int],
            index >= self.frames().len() ==> frame is None,
    {
        proof {
            use_type_invariant(self);
        }
        let ghost regions = memory_map_regions(*self.memory_map);
        let count = region_count(self.memory_map);
        let mut skip: usize = index;
        let mut i: usize = 0;
        while i < count
            invariant
                regions == memory_map_regions(*self.memory_map),
                regions_addressable(regions),
                count == regions.len(),
                i <= count,
                skip + usable_frames(regions.take(i as int)).len() == index,
            decreases count - i,
        {
            let usable = region_is_usable(self.memory_map, i);
            let (start, end) = region_range(self.memory_map, i);
            proof {
                lemma_usable_frames_step(regions, i as int);
                lemma_usable_frames_prefix(regions, i + 1);
            }
            if usable && start < end {
                let offered = end - start;
                if (skip as u64) < offered {
                    assert(region_frame_count(regions[i as int]) > 0);
                    let number = start + skip as u64;
                    let address = PhysAddr::new(number * PAGE_SIZE);
                    let frame = PhysFrame::containing_address(address);
                    assert(usable_frames(regions.take(i + 1))[index as int] == region_frames(
                        regions[i as int],
                    )[skip as int]);
                    return Some(frame);
                }
                skip = skip - offered as usize;
            }
            i = i + 1;
        }
        assert(regions.take(count as int) =~= regions);
        None
    }
}

impl FrameAllocator for BootInfoFrameAllocator {
    open spec fn upcoming(&self) -> Seq<u64> {
        if self.cursor() <= self.frames().len() {
            self.frames().skip(self.cursor() as int)
        } else {
            Seq::empty()
        }
    }

    open spec fn calls_left(&self) -> nat {
        (usize::MAX - self.cursor()) as nat
    }

    fn allocate_frame(&mut self) -> (frame: Option<PhysFrame>)
        ensures
            final(self).regions() == old(self).regions(),
            final(self).cursor() == old(self).cursor() + 1,
            old(self).cursor() < old(self).frames().len() ==> frame is Some && frame->0@ == old(
                self,
            ).frames()[old(self).cursor() as int],
            old(self).cursor() >= old(self).frames().len() ==> frame is None,
    {
        proof {
            use_type_invariant(&*self);
        }
        let frame = self.usable_frame(self.next);
        self.next = self.next + 1;
        frame
    }
}

/// Where the walk for a virtual address ended.
#[derive(Clone, Copy, Debug, PartialEq, Eq, Structural)]
pub enum Translation {
    /// The address is mapped and translates to this physical address.
    Mapped(PhysAddr),
    /// An entry on the way is not in use.
    NotMapped,
    /// An entry of level 3 or 2 on the way maps a huge page.
    HugePage,
}

impl Translation {
    pub open spec fn view(self) -> Walk {
        match self {
            Translation::Mapped(address) => Walk::Mapped(address@),
            Translation::NotMapped => Walk::NotMapped,
            Translation::HugePage => Walk::HugePage,
        }
    }
}

/// Walks the four levels of page tables for `addr`, from the level-4 table in
/// `level_4_frame`, and reports where the walk ends. Each table is read where
/// the mapping of physical memory at `physical_memory_offset` shows it.
pub fn lookup(
    addr: VirtAddr,
    physical_memory_offset: VirtAddr,
    level_4_frame: PhysFrame,
    memory: &KernelMemory,
) -> (result: Translation)
    ensures
        result@ == walk(memory.physical(physical_memory_offset@), level_4_frame@, addr@),
{
    let ghost tables = memory.physical(physical_memory_offset@);
    let mut table = level_4_frame;
    let mut level: u8 = 4;
    while level > 0
        invariant
            level <= 4,
            tables == memory.physical(physical_memory_offset@),
            walk_from(tables, table@, level as int, addr@) == walk(tables, level_4_frame@, addr@),
        decreases level,
    {
        let index = addr.page_table_index(level);
        let entry = memory.read_entry(physical_memory_offset, table, index);
        match entry.frame(level) {
            Ok(next) => {
                table = next;
            },
            Err(FrameError::FrameNotPresent) => {
                return Translation::NotMapped;
            },
            Err(FrameError::HugeFrame) => {
                return Translation::HugePage;
            },
        }
        level = level - 1;
    }
    Translation::Mapped(address_in_frame(table, addr))
}

/// The physical address that `addr` translates to once its page is known to
/// be mapped to `frame`: the frame's address plus the offset of `addr` in its
/// page.
pub fn address_in_frame(frame: PhysFrame, addr: VirtAddr) -> (address: PhysAddr)
    ensures
        address@ == frame@ + offset_in_page(addr@),
{
    let start = frame.start_address().as_u64();
    let offset = addr.page_offset();
    PhysAddr::new(start + offset as u64)
}

/// Translates `addr` through the page tables under `level_4_frame`, the frame
/// that the CPU's root register reports: the physical address that `addr` is
/// mapped to, or `None` where an entry on the way is not in use. Each table is
/// read where the mapping of physical memory at `physical_memory_offset`
/// shows it. A walk that meets a huge page is not supported.
pub fn translate_addr(
    addr: VirtAddr,
    physical_memory_offset: VirtAddr,
    level_4_frame: PhysFrame,
    memory: &KernelMemory,
) -> (result: Option<PhysAddr>)
    requires
        walk(memory.physical(physical_memory_offset@), level_4_frame@, addr@) != Walk::HugePage,
    ensures
        match result {
            Some(address) => walk(memory.physical(physical_memory_offset@), level_4_frame@, addr@)
                == Walk::Mapped(address@),
            None => walk(memory.physical(physical_memory_offset@), level_4_frame@, addr@)
                == Walk::NotMapped,
        },
{
    match lookup(addr, physical_memory_offset, level_4_frame, memory) {
        Translation::Mapped(address) => Some(address),
        Translation::NotMapped => None,
        Translation::HugePage => unreached(),
    }
}

/// Where the table in `frame` is found in virtual memory when all physical
/// memory is mapped at `physical_memory_offset`: the offset plus the frame's
/// address, or `None` where that sum is no canonical address.
pub fn table_location(physical_memory_offset: VirtAddr, frame: PhysFrame) -> (location: Option<
    VirtAddr,
>)
    ensures
        match location {
            Some(address) => physical_memory_offset@ + frame@ <= u64::MAX && canonical_form(
                (physical_memory_offset@ + frame@) as u64,
            ) == Some(address@),
            None => physical_memory_offset@ + frame@ > u64::MAX || canonical_form(
                (physical_memory_offset@ + frame@) as u64,
            ) is None,
        },
{
    match physical_memory_offset.as_u64().checked_add(frame.start_address().as_u64()) {
        Some(sum) => VirtAddr::try_new(sum),
        None => None,
    }
}

/// Where the active level-4 table is found in virtual memory, given the frame
/// that the CPU's root register reports.
pub fn active_level_4_table(physical_memory_offset: VirtAddr, level_4_frame: PhysFrame) -> (location:
    Option<VirtAddr>)
    ensures
        match location {
            Some(address) => physical_memory_offset@ + level_4_frame@ <= u64::MAX
                && canonical_form((physical_memory_offset@ + level_4_frame@) as u64) == Some(
                address@,
            ),
            None => physical_memory_offset@ + level_4_frame@ > u64::MAX || canonical_form(
                (physical_memory_offset@ + level_4_frame@) as u64,
            ) is None,
        },
{
    table_location(physical_memory_offset, level_4_frame)
}

/// Why a mapping was not installed.
#[derive(Clone, Copy, Debug, PartialEq, Eq, Structural)]
pub enum MapToError {
    /// A table was missing and the allocator had no frame for it.
    FrameAllocationFailed,
    /// An entry of level 3 or 2 above the page maps a huge page.
    ParentEntryHugePage,
    /// The page is already mapped, to this frame, which is not the one asked
    /// for.
    PageAlreadyMapped(PhysFrame),
}

impl MapToError {
    pub open spec fn view(self) -> MapFailure {
        match self {
            MapToError::FrameAllocationFailed => MapFailure::FrameAllocationFailed,
            MapToError::ParentEntryHugePage => MapFailure::ParentEntryHugePage,
            MapToError::PageAlreadyMapped(frame) => MapFailure::PageAlreadyMapped(frame@),
        }
    }
}

/// The page whose entry in the translation lookaside buffer is stale after a
/// mapping was installed. Whoever holds it has to invalidate that entry.
#[must_use]
#[derive(Clone, Copy, Debug, PartialEq, Eq, Structural)]
pub struct MapperFlush {
    page: Page,
}

impl MapperFlush {
    /// The page to invalidate.
    pub closed spec fn view(self) -> Page {
        self.page
    }

    pub fn page(self) -> (page: Page)
        ensures
            page == self@,
    {
        self.page
    }
}

/// The flags that the tables above a mapping with `flags` get.
pub fn parent_table_flags(flags: PageTableFlags) -> (parent: PageTableFlags)
    ensures
        parent@ == parent_flags(flags@),
{
    assert(0x7u64 & 0xfff0_0000_0000_0fff == 0x7 && 0x1u64 & 0xfff0_0000_0000_0fff == 0x1)
        by (bit_vector);
    flags.intersection(PageTableFlags::from_bits_truncate(PARENT_FLAGS_MASK)).union(
        PageTableFlags::from_bits_truncate(PRESENT),
    )
}

/// What mapping a page finds at an entry of a table above the page.
#[derive(Clone, Copy, Debug, PartialEq, Eq, Structural)]
pub enum ParentEntry {
    /// The entry is in use: `entry` is to be stored in its place, and the
    /// walk goes on in `table`.
    Existing { table: PhysFrame, entry: PageTableEntry },
    /// The entry is not in use: a new table is wanted.
    Missing,
    /// The entry maps a huge page.
    HugePage,
}

/// Decides what mapping a page with `flags` does at `entry`, found in a table
/// of `level` (4 to 2) above the page.
pub fn inspect_parent(entry: PageTableEntry, level: u8, flags: PageTableFlags) -> (found: ParentEntry)
    ensures
        match found {
            ParentEntry::Existing { table, entry: updated } => entry_frame(entry@, level as int)
                == Ok::<u64, FrameError>(table@) && updated@ == entry@ | parent_flags(flags@),
            ParentEntry::Missing => entry_frame(entry@, level as int) == Err::<u64, FrameError>(
                FrameError::FrameNotPresent,
            ),
            ParentEntry::HugePage => entry_frame(entry@, level as int) == Err::<u64, FrameError>(
                FrameError::HugeFrame,
            ),
        },
{
    match entry.frame(level) {
        Ok(table) => ParentEntry::Existing {
            table,
            entry: PageTableEntry::from_raw(entry.raw() | parent_table_flags(flags).bits()),
        },
        Err(FrameError::FrameNotPresent) => ParentEntry::Missing,
        Err(FrameError::HugeFrame) => ParentEntry::HugePage,
    }
}

/// The entry that points to a newly allocated table in `table`, above a
/// mapping with `flags`.
pub fn link_entry(table: PhysFrame, flags: PageTableFlags) -> (entry: PageTableEntry)
    ensures
        entry@ == compose_entry(table@, parent_flags(flags@)),
{
    PageTableEntry::with_frame(table, parent_table_flags(flags))
}

/// Decides what mapping a page to `frame` with `flags` stores at `existing`,
/// the page's entry in the table of level 1: the new entry, unless the page
/// is mapped to another frame.
pub fn leaf_entry(existing: PageTableEntry, frame: PhysFrame, flags: PageTableFlags) -> (result:
    Result<PageTableEntry, MapToError>)
    ensures
        match result {
            Ok(entry) => !(entry_present(existing@) && entry_address(existing@) != frame@)
                && entry@ == compose_entry(frame@, flags@),
            Err(error) => entry_present(existing@) && entry_address(existing@) != frame@
                && error@ == MapFailure::PageAlreadyMapped(entry_address(existing@)),
        },
{
    match existing.frame(1) {
        Ok(mapped) => {
            if mapped.start_address().as_u64() == frame.start_address().as_u64() {
                Ok(PageTableEntry::with_frame(frame, flags))
            } else {
                Err(MapToError::PageAlreadyMapped(mapped))
            }
        },
        Err(_) => Ok(PageTableEntry::with_frame(frame, flags)),
    }
}

/// A four-level page-table hierarchy in physical memory, with the offset at
/// which the running kernel sees that memory.
pub struct OffsetPageTable {
    level_4_frame: PhysFrame,
    phys_offset: VirtAddr,
    memory: KernelMemory,
}

impl OffsetPageTable {
    /// The frame of the level-4 table.
    pub closed spec fn root(&self) -> u64 {
        self.level_4_frame@
    }

    /// The virtual address at which physical memory is mapped.
    pub closed spec fn offset(&self) -> u64 {
        self.phys_offset@
    }

    /// Physical memory, as the mapping at the offset shows it: the word at
    /// each physical address.
    pub closed spec fn view(&self) -> Map<u64, u64> {
        self.memory.physical(self.phys_offset@)
    }

    pub fn level_4_frame(&self) -> (frame: PhysFrame)
        ensures
            frame@ == self.root(),
    {
        self.level_4_frame
    }

    pub fn phys_offset(&self) -> (offset: VirtAddr)
        ensures
            offset@ == self.offset(),
    {
        self.phys_offset
    }

    pub fn memory(&self) -> (memory: &KernelMemory)
        ensures
            memory.physical(self.offset()) == self@,
    {
        &self.memory
    }

    /// Installs the mapping of `page` to `frame` with `flags`, taking the
    /// frames of missing tables from `allocator`. On success the caller has
    /// to invalidate the page that the result names.
    pub fn map_to<A: FrameAllocator>(
        &mut self,
        page: Page,
        frame: PhysFrame,
        flags: PageTableFlags,
        allocator: &mut A,
    ) -> (result: Result<MapperFlush, MapToError>)
        requires
            old(allocator).calls_left() >= 3,
        ensures
            final(self).root() == old(self).root(),
            final(self).offset() == old(self).offset(),
            final(allocator).calls_left() >= old(allocator).calls_left() - 3,
            ({
                let outcome = map_page(
                    old(self)@,
                    old(self).root(),
                    page@,
                    frame@,
                    flags@,
                    old(allocator).upcoming(),
                );
                &&& final(self)@ == outcome.memory
                &&& outcome.taken <= old(allocator).upcoming().len()
                &&& final(allocator).upcoming() == old(allocator).upcoming().skip(
                    outcome.taken as int,
                )
                &&& match result {
                    Ok(flush) => outcome.result is Ok && flush@ == page,
                    Err(error) => outcome.result == Err::<(), MapFailure>(error@),
                }
            }),
    {
        let ghost upcoming = allocator.upcoming();
        let ghost calls = allocator.calls_left();
        let ghost outcome = map_page(self@, self.root(), page@, frame@, flags@, upcoming);
        let ghost mut taken: nat = 0;
        let address = page.start_address();
        let mut table = self.level_4_frame;
        let mut level: u8 = 4;
        assert(upcoming.skip(0) =~= upcoming);
        while level > 1
            invariant
                1 <= level <= 4,
                self.root() == old(self).root(),
                self.offset() == old(self).offset(),
                address@ == page@,
                calls == old(allocator).calls_left(),
                upcoming == old(allocator).upcoming(),
                outcome == map_page(
                    old(self)@,
                    old(self).root(),
                    page@,
                    frame@,
                    flags@,
                    upcoming,
                ),
                allocator.calls_left() >= calls - (4 - level),
                calls >= 3,
                taken <= upcoming.len(),
                allocator.upcoming() == upcoming.skip(taken as int),
                ({
                    let rest = map_from(
                        self@,
                        table@,
                        level as int,
                        page@,
                        frame@,
                        flags@,
                        allocator.upcoming(),
                    );
                    &&& rest.memory == outcome.memory
                    &&& rest.result == outcome.result
                    &&& rest.taken + taken == outcome.taken
                }),
            decreases level,
        {
            let index = address.page_table_index(level);
            let entry = self.memory.read_entry(self.phys_offset, table, index);
            match inspect_parent(entry, level, flags) {
                ParentEntry::Existing { table: next, entry: updated } => {
                    self.memory.write_entry(self.phys_offset, table, index, updated);
                    table = next;
                },
                ParentEntry::HugePage => {
                    return Err(MapToError::ParentEntryHugePage);
                },
                ParentEntry::Missing => {
                    match allocator.allocate_frame() {
                        None => {
                            assert(allocator.upcoming() =~= upcoming.skip(taken as int));
                            return Err(MapToError::FrameAllocationFailed);
                        },
                        Some(fresh) => {
                            self.memory.zero_table(self.phys_offset, fresh);
                            self.memory.write_entry(self.phys_offset, table, index, link_entry(fresh, flags));
                            proof {
                                assert(upcoming.skip(taken as int).drop_first() =~= upcoming.skip(
                                    taken as int + 1,
                                ));
                                taken = taken + 1;
                            }
                            table = fresh;
                        },
                    }
                },
            }
            level = level - 1;
        }
        let index = address.page_table_index(1);
        let existing = self.memory.read_entry(self.phys_offset, table, index);
        match leaf_entry(existing, frame, flags) {
            Ok(entry) => {
                self.memory.write_entry(self.phys_offset, table, index, entry);
                Ok(MapperFlush { page })
            },
            Err(error) => Err(error),
        }
    }
}

/// The mapper over the page tables under `level_4_frame`, the frame that the
/// CPU's root register reports, in the physical memory that `memory` shows at
/// `physical_memory_offset`.
pub fn init(physical_memory_offset: VirtAddr, level_4_frame: PhysFrame, memory: KernelMemory) -> (mapper:
    OffsetPageTable)
    ensures
        mapper.root() == level_4_frame@,
        mapper.offset() == physical_memory_offset@,
        mapper@ == memory.physical(physical_memory_offset@),
{
    OffsetPageTable { level_4_frame, phys_offset: physical_memory_offset, memory }
}

/// Physical address of the text buffer of the video card.
pub const VIDEO_MEMORY: u64 = 0xb8000;

/// The frame and the flags of the example mapping: the frame of the video
/// card's text buffer, in use and writable.
pub fn example_mapping() -> (target: (PhysFrame, PageTableFlags))
    ensures
        target.0@ == VIDEO_MEMORY,
        target.1@ == PRESENT | WRITABLE,
{
    assert((0x1u64 | 0x2u64) & 0xfff0_0000_0000_0fff == 0x1u64 | 0x2u64) by (bit_vector);
    (
        PhysFrame::containing_address(PhysAddr::new(VIDEO_MEMORY)),
        PageTableFlags::from_bits_truncate(PRESENT | WRITABLE),
    )
}

/// Maps `page` to the frame of the video card's text buffer, writable.
pub fn create_example_mapping<A: FrameAllocator>(
    page: Page,
    mapper: &mut OffsetPageTable,
    frame_allocator: &mut A,
) -> (result: Result<MapperFlush, MapToError>)
    requires
        old(frame_allocator).calls_left() >= 3,
    ensures
        final(mapper).root() == old(mapper).root(),
        final(mapper).offset() == old(mapper).offset(),
        final(frame_allocator).calls_left() >= old(frame_allocator).calls_left() - 3,
        ({
            let outcome = map_page(
                old(mapper)@,
                old(mapper).root(),
                page@,
                VIDEO_MEMORY,
                PRESENT | WRITABLE,
                old(frame_allocator).upcoming(),
            );
            &&& final(mapper)@ == outcome.memory
            &&& outcome.taken <= old(frame_allocator).upcoming().len()
            &&& final(frame_allocator).upcoming() == old(frame_allocator).upcoming().skip(
                outcome.taken as int,
            )
            &&& match result {
                Ok(flush) => outcome.result is Ok && flush@ == page,
                Err(error) => outcome.result == Err::<(), MapFailure>(error@),
            }
        }),
{
    let (frame, flags) = example_mapping();
    mapper.map_to(page, frame, flags, frame_allocator)
}

} // verus!
