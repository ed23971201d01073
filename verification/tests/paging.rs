use bootloader::bootinfo::{FrameRange, MemoryMap, MemoryRegion, MemoryRegionType};
use kernel_core::addr::{Page, PhysAddr, PhysFrame, VirtAddr};
use kernel_core::memory::{
    create_example_mapping, init, inspect_parent, leaf_entry, link_entry, lookup,
    parent_table_flags, translate_addr, BootInfoFrameAllocator, EmptyFrameAllocator,
    FrameAllocator, MapToError, OffsetPageTable, ParentEntry, Translation,
};
use kernel_core::page_table::{
    FrameError, KernelMemory, PageTableEntry, PageTableFlags, HUGE_PAGE, PRESENT,
    USER_ACCESSIBLE, WRITABLE,
};

const ROOT: u64 = 0x1000;
const OFFSET: u64 = 0xffff_8000_0000_0000;

fn offset() -> VirtAddr {
    VirtAddr::new(OFFSET)
}

fn frame_at(address: u64) -> PhysFrame {
    PhysFrame::containing_address(PhysAddr::new(address))
}

fn page_at(address: u64) -> Page {
    Page::containing_address(VirtAddr::new(address))
}

fn flags(bits: u64) -> PageTableFlags {
    PageTableFlags::from_bits_truncate(bits)
}

fn allocator_over(start_frame_number: u64, end_frame_number: u64) -> BootInfoFrameAllocator {
    let mut map = MemoryMap::new();
    map.add_region(MemoryRegion {
        range: FrameRange {
            start_frame_number,
            end_frame_number,
        },
        region_type: MemoryRegionType::Usable,
    });
    BootInfoFrameAllocator::init(Box::leak(Box::new(map)))
}

fn empty_mapper() -> OffsetPageTable {
    init(offset(), frame_at(ROOT), KernelMemory::new())
}

fn translate(mapper: &OffsetPageTable, address: u64) -> Option<u64> {
    translate_addr(
        VirtAddr::new(address),
        mapper.phys_offset(),
        mapper.level_4_frame(),
        mapper.memory(),
    )
        .map(|physical| physical.as_u64())
}

#[test]
fn flags_drop_address_bits() {
    assert_eq!(flags(0xffff_ffff_ffff_ffff).bits(), 0xfff0_0000_0000_0fff);
    assert_eq!(flags(PRESENT | WRITABLE).bits(), 3);
    assert_eq!(flags(PRESENT).union(flags(WRITABLE)).bits(), 3);
    assert_eq!(flags(PRESENT | WRITABLE).intersection(flags(WRITABLE | HUGE_PAGE)).bits(), 2);
}

#[test]
fn parent_flags_are_present_and_follow_the_mapping() {
    assert_eq!(parent_table_flags(flags(PRESENT | WRITABLE)).bits(), 3);
    assert_eq!(parent_table_flags(flags(PRESENT)).bits(), 1);
    assert_eq!(parent_table_flags(flags(0)).bits(), 1);
    assert_eq!(
        parent_table_flags(flags(PRESENT | USER_ACCESSIBLE | HUGE_PAGE | (1 << 63))).bits(),
        5
    );
}

#[test]
fn entry_leads_to_its_frame() {
    let entry = PageTableEntry::from_raw(0x8000_0000_0012_3003);
    assert_eq!(entry.flags().bits(), 0x8000_0000_0000_0003);
    for level in 1..=4u8 {
        assert_eq!(entry.frame(level), Ok(frame_at(0x12_3000)));
    }
    assert_eq!(PageTableEntry::with_frame(frame_at(0x12_3000), flags(3)).raw(), 0x12_3003);
}

#[test]
fn entry_not_in_use_leads_nowhere() {
    assert_eq!(PageTableEntry::from_raw(0).frame(4), Err(FrameError::FrameNotPresent));
    assert_eq!(
        PageTableEntry::from_raw(0x12_3082).frame(2),
        Err(FrameError::FrameNotPresent)
    );
}

#[test]
fn huge_page_bit_counts_at_levels_3_and_2_only() {
    let entry = PageTableEntry::from_raw(0x20_0083);
    assert_eq!(entry.frame(4), Ok(frame_at(0x20_0000)));
    assert_eq!(entry.frame(3), Err(FrameError::HugeFrame));
    assert_eq!(entry.frame(2), Err(FrameError::HugeFrame));
    assert_eq!(entry.frame(1), Ok(frame_at(0x20_0000)));
}

#[test]
fn memory_reads_what_was_written() {
    let mut memory = KernelMemory::new();
    assert_eq!(memory.read_entry(offset(), frame_at(0x5000), 7).raw(), 0);
    memory.write_entry(offset(), frame_at(0x5000), 7, PageTableEntry::from_raw(0x6003));
    memory.write_entry(offset(), frame_at(0x5000), 8, PageTableEntry::from_raw(0x7003));
    assert_eq!(memory.read_entry(offset(), frame_at(0x5000), 7).raw(), 0x6003);
    assert_eq!(memory.read_entry(offset(), frame_at(0x5000), 8).raw(), 0x7003);
    assert_eq!(memory.read_entry(offset(), frame_at(0x6000), 7).raw(), 0);
    memory.write_entry(offset(), frame_at(0x5000), 7, PageTableEntry::from_raw(0x9001));
    assert_eq!(memory.read_entry(offset(), frame_at(0x5000), 7).raw(), 0x9001);
}

#[test]
fn zero_table_clears_one_table() {
    let mut memory = KernelMemory::new();
    memory.write_entry(offset(), frame_at(0x5000), 0, PageTableEntry::from_raw(0x6003));
    memory.write_entry(offset(), frame_at(0x5000), 511, PageTableEntry::from_raw(0x7003));
    memory.write_entry(offset(), frame_at(0x4000), 511, PageTableEntry::from_raw(0x8003));
    memory.write_entry(offset(), frame_at(0x6000), 0, PageTableEntry::from_raw(0x9003));
    memory.zero_table(offset(), frame_at(0x5000));
    assert_eq!(memory.read_entry(offset(), frame_at(0x5000), 0).raw(), 0);
    assert_eq!(memory.read_entry(offset(), frame_at(0x5000), 511).raw(), 0);
    assert_eq!(memory.read_entry(offset(), frame_at(0x4000), 511).raw(), 0x8003);
    assert_eq!(memory.read_entry(offset(), frame_at(0x6000), 0).raw(), 0x9003);
}

#[test]
fn nothing_is_mapped_in_empty_tables() {
    let mapper = empty_mapper();
    assert_eq!(translate(&mapper, 0), None);
    assert_eq!(translate(&mapper, 0xb8000), None);
    assert_eq!(translate(&mapper, 0xffff_ffff_ffff_ffff), None);
    assert_eq!(
        lookup(
            VirtAddr::new(0xb8000),
            mapper.phys_offset(),
            mapper.level_4_frame(),
            mapper.memory()
        ),
        Translation::NotMapped
    );
}

#[test]
fn walk_stops_at_an_unused_entry_of_any_level() {
    // The address selects entry 1 at level 4, 2 at level 3, 3 at level 2 and 4 at level 1.
    let address: u64 = (1 << 39) | (2 << 30) | (3 << 21) | (4 << 12) | 0x5;
    let mut memory = KernelMemory::new();
    let root = frame_at(ROOT);
    assert_eq!(translate_addr(VirtAddr::new(address), offset(), root, &memory), None);
    memory.write_entry(offset(), root, 1, PageTableEntry::from_raw(0x2003));
    assert_eq!(translate_addr(VirtAddr::new(address), offset(), root, &memory), None);
    memory.write_entry(offset(), frame_at(0x2000), 2, PageTableEntry::from_raw(0x3003));
    assert_eq!(translate_addr(VirtAddr::new(address), offset(), root, &memory), None);
    memory.write_entry(offset(), frame_at(0x3000), 3, PageTableEntry::from_raw(0x4003));
    assert_eq!(translate_addr(VirtAddr::new(address), offset(), root, &memory), None);
    memory.write_entry(offset(), frame_at(0x4000), 4, PageTableEntry::from_raw(0x9_a003));
    assert_eq!(
        translate_addr(VirtAddr::new(address), offset(), root, &memory).map(|p| p.as_u64()),
        Some(0x9_a005)
    );
    // An unused entry further up hides what lies below it.
    memory.write_entry(offset(), frame_at(0x2000), 2, PageTableEntry::from_raw(0x3002));
    assert_eq!(translate_addr(VirtAddr::new(address), offset(), root, &memory), None);
}

#[test]
fn lookup_reports_a_huge_page() {
    let address: u64 = (1 << 39) | (2 << 30) | (3 << 21);
    let mut memory = KernelMemory::new();
    let root = frame_at(ROOT);
    memory.write_entry(offset(), root, 1, PageTableEntry::from_raw(0x2003));
    memory.write_entry(offset(), frame_at(0x2000), 2, PageTableEntry::from_raw(0x4000_0083));
    assert_eq!(lookup(VirtAddr::new(address), offset(), root, &memory), Translation::HugePage);
    // The neighbouring entry is unused: that address is simply not mapped.
    assert_eq!(
        lookup(VirtAddr::new(address + (1 << 30)), offset(), root, &memory),
        Translation::NotMapped
    );
}

#[test]
fn mapped_page_translates_at_every_offset() {
    let mut mapper = empty_mapper();
    let mut allocator = allocator_over(0x10, 0x20);
    let page = page_at(0x0000_1234_5678_9000);
    let flush = mapper
        .map_to(page, frame_at(0x7_7000), flags(PRESENT | WRITABLE), &mut allocator)
        .expect("three frames are there for the tables");
    assert_eq!(flush.page(), page);
    for offset in 0..4096u64 {
        assert_eq!(
            translate(&mapper, 0x0000_1234_5678_9000 + offset),
            Some(0x7_7000 + offset)
        );
    }
    assert_eq!(translate(&mapper, 0x0000_1234_5678_8fff), None);
    assert_eq!(translate(&mapper, 0x0000_1234_5678_a000), None);
}

#[test]
fn map_to_takes_three_frames_for_three_missing_tables() {
    let mut mapper = empty_mapper();
    let mut allocator = allocator_over(0x10, 0x20);
    let page = page_at((1 << 39) | (2 << 30) | (3 << 21) | (4 << 12));
    assert!(mapper
        .map_to(page, frame_at(0x7_7000), flags(PRESENT | WRITABLE), &mut allocator)
        .is_ok());
    let memory = mapper.memory();
    assert_eq!(memory.read_entry(offset(), frame_at(ROOT), 1).raw(), 0x1_0003);
    assert_eq!(memory.read_entry(offset(), frame_at(0x1_0000), 2).raw(), 0x1_1003);
    assert_eq!(memory.read_entry(offset(), frame_at(0x1_1000), 3).raw(), 0x1_2003);
    assert_eq!(memory.read_entry(offset(), frame_at(0x1_2000), 4).raw(), 0x7_7003);
    assert_eq!(allocator.allocate_frame(), Some(frame_at(0x1_3000)));
}

#[test]
fn map_to_uses_the_tables_that_exist() {
    let mut mapper = empty_mapper();
    let mut allocator = allocator_over(0x10, 0x20);
    let first = page_at(0x40_0000);
    let second = page_at(0x40_1000);
    assert!(mapper
        .map_to(first, frame_at(0x7_7000), flags(PRESENT), &mut allocator)
        .is_ok());
    assert!(mapper
        .map_to(second, frame_at(0x8_8000), flags(PRESENT | WRITABLE), &mut allocator)
        .is_ok());
    // The second mapping needed no table.
    assert_eq!(allocator.allocate_frame(), Some(frame_at(0x1_3000)));
    assert_eq!(translate(&mapper, 0x40_0abc), Some(0x7_7abc));
    assert_eq!(translate(&mapper, 0x40_1abc), Some(0x8_8abc));
    // The tables above gained the flags of the second mapping.
    assert_eq!(mapper.memory().read_entry(offset(), frame_at(ROOT), 0).raw(), 0x1_0003);
    assert_eq!(mapper.memory().read_entry(offset(), frame_at(0x1_0000), 0).raw(), 0x1_1003);
    assert_eq!(mapper.memory().read_entry(offset(), frame_at(0x1_1000), 2).raw(), 0x1_2003);
    assert_eq!(mapper.memory().read_entry(offset(), frame_at(0x1_2000), 0).raw(), 0x7_7001);
    assert_eq!(mapper.memory().read_entry(offset(), frame_at(0x1_2000), 1).raw(), 0x8_8003);
}

#[test]
fn second_mapping_to_another_frame_is_a_conflict() {
    let mut mapper = empty_mapper();
    let mut allocator = allocator_over(0x10, 0x20);
    let page = page_at(0xdead_b000);
    assert!(mapper
        .map_to(page, frame_at(0x7_7000), flags(PRESENT | WRITABLE), &mut allocator)
        .is_ok());
    assert_eq!(
        mapper.map_to(page, frame_at(0x8_8000), flags(PRESENT | WRITABLE), &mut allocator),
        Err(MapToError::PageAlreadyMapped(frame_at(0x7_7000)))
    );
    for offset in [0u64, 1, 0x7ff, 0xfff] {
        assert_eq!(translate(&mapper, 0xdead_b000 + offset), Some(0x7_7000 + offset));
    }
    // The conflict took no frame.
    assert_eq!(allocator.allocate_frame(), Some(frame_at(0x1_3000)));
}

#[test]
fn mapping_the_same_frame_again_succeeds() {
    let mut mapper = empty_mapper();
    let mut allocator = allocator_over(0x10, 0x20);
    let page = page_at(0xdead_b000);
    assert!(mapper
        .map_to(page, frame_at(0x7_7000), flags(PRESENT), &mut allocator)
        .is_ok());
    assert!(mapper
        .map_to(page, frame_at(0x7_7000), flags(PRESENT | WRITABLE), &mut EmptyFrameAllocator)
        .is_ok());
    assert_eq!(translate(&mapper, 0xdead_b010), Some(0x7_7010));
}

#[test]
fn missing_table_without_a_frame_fails() {
    let mut mapper = empty_mapper();
    assert_eq!(
        mapper.map_to(
            page_at(0xb8000),
            frame_at(0xb8000),
            flags(PRESENT | WRITABLE),
            &mut EmptyFrameAllocator
        ),
        Err(MapToError::FrameAllocationFailed)
    );
    assert_eq!(mapper.memory().read_entry(offset(), frame_at(ROOT), 0).raw(), 0);
    assert_eq!(translate(&mapper, 0xb8000), None);
}

#[test]
fn allocator_that_runs_out_half_way_fails() {
    let mut mapper = empty_mapper();
    let mut allocator = allocator_over(0x10, 0x12);
    assert_eq!(
        mapper.map_to(
            page_at(0xb8000),
            frame_at(0xb8000),
            flags(PRESENT | WRITABLE),
            &mut allocator
        ),
        Err(MapToError::FrameAllocationFailed)
    );
    // The two tables that could be made stay linked.
    assert_eq!(mapper.memory().read_entry(offset(), frame_at(ROOT), 0).raw(), 0x1_0003);
    assert_eq!(mapper.memory().read_entry(offset(), frame_at(0x1_0000), 0).raw(), 0x1_1003);
    assert_eq!(mapper.memory().read_entry(offset(), frame_at(0x1_1000), 0).raw(), 0);
    assert_eq!(translate(&mapper, 0xb8000), None);
    assert_eq!(allocator.allocate_frame(), None);
}

#[test]
fn map_to_below_a_huge_page_fails() {
    let mut memory = KernelMemory::new();
    memory.write_entry(offset(), frame_at(ROOT), 0, PageTableEntry::from_raw(0x2003));
    memory.write_entry(offset(), frame_at(0x2000), 0, PageTableEntry::from_raw(0x4000_0083));
    let mut mapper = init(offset(), frame_at(ROOT), memory);
    let mut allocator = allocator_over(0x10, 0x20);
    assert_eq!(
        mapper.map_to(
            page_at(0xb8000),
            frame_at(0xb8000),
            flags(PRESENT | WRITABLE),
            &mut allocator
        ),
        Err(MapToError::ParentEntryHugePage)
    );
    assert_eq!(mapper.memory().read_entry(offset(), frame_at(0x2000), 0).raw(), 0x4000_0083);
    assert_eq!(allocator.allocate_frame(), Some(frame_at(0x1_0000)));
}

#[test]
fn new_table_is_zeroed_before_it_is_linked() {
    let mut memory = KernelMemory::new();
    // Stale data in the frame that the allocator hands out next.
    memory.write_entry(offset(), frame_at(0x1_0000), 0, PageTableEntry::from_raw(0x5_5003));
    let mut mapper = init(offset(), frame_at(ROOT), memory);
    let mut allocator = allocator_over(0x10, 0x20);
    assert!(mapper
        .map_to(page_at(0), frame_at(0x7_7000), flags(PRESENT), &mut allocator)
        .is_ok());
    assert_eq!(mapper.memory().read_entry(offset(), frame_at(0x1_0000), 0).raw(), 0x1_1001);
    assert_eq!(translate(&mapper, 0x123), Some(0x7_7123));
}

#[test]
fn example_mapping_reaches_the_video_buffer() {
    let mut mapper = empty_mapper();
    let mut allocator = allocator_over(0x10, 0x20);
    let page = page_at(0);
    let flush = create_example_mapping(page, &mut mapper, &mut allocator)
        .expect("three frames are there for the tables");
    assert_eq!(flush.page(), page);
    for offset in [0u64, 0x8, 0x190, 0xfff] {
        assert_eq!(translate(&mapper, offset), Some(0xb8000 + offset));
    }
    assert_eq!(
        mapper
            .memory()
            .read_entry(offset(), frame_at(0x1_2000), 0)
            .flags()
            .bits(),
        PRESENT | WRITABLE
    );
}

#[test]
fn example_mapping_of_the_page_of_the_video_buffer_itself() {
    let mut mapper = empty_mapper();
    let mut allocator = allocator_over(0x10, 0x20);
    assert!(create_example_mapping(page_at(0xb8000), &mut mapper, &mut allocator).is_ok());
    assert_eq!(translate(&mapper, 0xb8000), Some(0xb8000));
    assert_eq!(translate(&mapper, 0xb8f9e), Some(0xb8f9e));
}

#[test]
fn example_mapping_without_frames_fails() {
    let mut mapper = empty_mapper();
    assert_eq!(
        create_example_mapping(page_at(0), &mut mapper, &mut EmptyFrameAllocator),
        Err(MapToError::FrameAllocationFailed)
    );
}

#[test]
fn mapper_keeps_what_it_was_made_of() {
    let mapper = init(
        VirtAddr::new(0xffff_8000_0000_0000),
        frame_at(ROOT),
        KernelMemory::new(),
    );
    assert_eq!(mapper.level_4_frame(), frame_at(ROOT));
    assert_eq!(mapper.phys_offset().as_u64(), 0xffff_8000_0000_0000);
}

#[test]
fn parent_entry_decisions() {
    let mapping = flags(PRESENT | WRITABLE);
    assert_eq!(
        inspect_parent(PageTableEntry::from_raw(0x2001), 4, mapping),
        ParentEntry::Existing {
            table: frame_at(0x2000),
            entry: PageTableEntry::from_raw(0x2003)
        }
    );
    assert_eq!(
        inspect_parent(PageTableEntry::from_raw(0x2000), 3, mapping),
        ParentEntry::Missing
    );
    assert_eq!(
        inspect_parent(PageTableEntry::from_raw(0x2081), 3, mapping),
        ParentEntry::HugePage
    );
    assert_eq!(link_entry(frame_at(0x9000), mapping).raw(), 0x9003);
}

#[test]
fn leaf_entry_decisions() {
    let mapping = flags(PRESENT | WRITABLE);
    assert_eq!(
        leaf_entry(PageTableEntry::from_raw(0), frame_at(0x9000), mapping),
        Ok(PageTableEntry::from_raw(0x9003))
    );
    assert_eq!(
        leaf_entry(PageTableEntry::from_raw(0x9001), frame_at(0x9000), mapping),
        Ok(PageTableEntry::from_raw(0x9003))
    );
    assert_eq!(
        leaf_entry(PageTableEntry::from_raw(0x8001), frame_at(0x9000), mapping),
        Err(MapToError::PageAlreadyMapped(frame_at(0x8000)))
    );
    // An entry that is not in use is overwritten, whatever it holds.
    assert_eq!(
        leaf_entry(PageTableEntry::from_raw(0x8000), frame_at(0x9000), mapping),
        Ok(PageTableEntry::from_raw(0x9003))
    );
}

#[test]
fn tables_are_read_behind_the_offset() {
    let address: u64 = (1 << 39) | (2 << 30) | (3 << 21) | (4 << 12) | 0x5;
    let root = frame_at(ROOT);
    let mut memory = KernelMemory::new();
    memory.write_entry(offset(), root, 1, PageTableEntry::from_raw(0x2003));
    memory.write_entry(offset(), frame_at(0x2000), 2, PageTableEntry::from_raw(0x3003));
    memory.write_entry(offset(), frame_at(0x3000), 3, PageTableEntry::from_raw(0x4003));
    memory.write_entry(offset(), frame_at(0x4000), 4, PageTableEntry::from_raw(0x9_a003));
    assert_eq!(
        translate_addr(VirtAddr::new(address), offset(), root, &memory).map(|p| p.as_u64()),
        Some(0x9_a005)
    );
    // Behind another offset the same physical frames hold nothing.
    let elsewhere = VirtAddr::new(0x0000_0180_0000_0000);
    assert_eq!(translate_addr(VirtAddr::new(address), elsewhere, root, &memory), None);
    assert_eq!(memory.read_entry(elsewhere, root, 1).raw(), 0);
}

#[test]
fn offset_and_address_add_up_to_the_location() {
    let mut memory = KernelMemory::new();
    // Physical 0x3008 behind offset 0x1000 is the location of physical 0x2008 behind 0x2000.
    memory.write_entry(VirtAddr::new(0x1000), frame_at(0x3000), 1, PageTableEntry::from_raw(7));
    assert_eq!(
        memory.read_entry(VirtAddr::new(0x2000), frame_at(0x2000), 1).raw(),
        7
    );
    assert_eq!(
        memory.read_entry(VirtAddr::new(0x2000), frame_at(0x3000), 1).raw(),
        0
    );
    // A table behind the highest offset has locations of its own.
    let top = VirtAddr::new(0xffff_ffff_ffff_f000);
    memory.write_entry(top, frame_at(0x1000), 0, PageTableEntry::from_raw(9));
    assert_eq!(memory.read_entry(top, frame_at(0x1000), 0).raw(), 9);
    assert_eq!(memory.read_entry(VirtAddr::new(0), frame_at(0), 0).raw(), 0);
}
