use bootloader::bootinfo::{FrameRange, MemoryMap, MemoryRegion, MemoryRegionType};
use kernel_core::addr::PhysFrame;
use kernel_core::memory::{BootInfoFrameAllocator, EmptyFrameAllocator, FrameAllocator};

fn memory_map(regions: &[(u64, u64, MemoryRegionType)]) -> &'static MemoryMap {
    let mut map = MemoryMap::new();
    for &(start_frame_number, end_frame_number, region_type) in regions {
        map.add_region(MemoryRegion {
            range: FrameRange {
                start_frame_number,
                end_frame_number,
            },
            region_type,
        });
    }
    Box::leak(Box::new(map))
}

fn addresses(allocator: &mut BootInfoFrameAllocator, calls: usize) -> Vec<Option<u64>> {
    let mut out = Vec::new();
    for _ in 0..calls {
        out.push(
            allocator
                .allocate_frame()
                .map(|frame: PhysFrame| frame.start_address().as_u64()),
        );
    }
    out
}

#[test]
fn empty_allocator_has_no_frame() {
    let mut allocator = EmptyFrameAllocator;
    assert_eq!(allocator.allocate_frame(), None);
    assert_eq!(allocator.allocate_frame(), None);
}

#[test]
fn frames_come_region_after_region() {
    let map = memory_map(&[
        (1, 3, MemoryRegionType::Usable),
        (3, 5, MemoryRegionType::Reserved),
        (5, 7, MemoryRegionType::Usable),
    ]);
    let mut allocator = BootInfoFrameAllocator::init(map);
    assert_eq!(
        addresses(&mut allocator, 4),
        vec![Some(0x1000), Some(0x2000), Some(0x5000), Some(0x6000)]
    );
}

#[test]
fn frames_are_aligned_distinct_and_ascending() {
    let map = memory_map(&[
        (0x10, 0x14, MemoryRegionType::Usable),
        (0x20, 0x23, MemoryRegionType::Usable),
    ]);
    let mut allocator = BootInfoFrameAllocator::init(map);
    let got = addresses(&mut allocator, 7);
    let mut previous: Option<u64> = None;
    for item in got {
        let address = item.expect("seven frames are usable");
        assert_eq!(address % 4096, 0);
        assert!((0x10000..0x14000).contains(&address) || (0x20000..0x23000).contains(&address));
        if let Some(before) = previous {
            assert!(before < address);
        }
        previous = Some(address);
    }
}

#[test]
fn call_after_the_last_frame_returns_none() {
    let map = memory_map(&[
        (2, 4, MemoryRegionType::Usable),
        (8, 9, MemoryRegionType::Usable),
    ]);
    let mut allocator = BootInfoFrameAllocator::init(map);
    assert_eq!(
        addresses(&mut allocator, 3),
        vec![Some(0x2000), Some(0x3000), Some(0x8000)]
    );
    assert_eq!(allocator.allocate_frame(), None);
    assert_eq!(allocator.allocate_frame(), None);
}

#[test]
fn map_without_usable_region_offers_nothing() {
    let map = memory_map(&[
        (0, 1, MemoryRegionType::FrameZero),
        (1, 0x100, MemoryRegionType::Kernel),
        (0x100, 0x200, MemoryRegionType::Reserved),
        (0x200, 0x300, MemoryRegionType::Bootloader),
    ]);
    let mut allocator = BootInfoFrameAllocator::init(map);
    assert_eq!(allocator.allocate_frame(), None);
}

#[test]
fn empty_map_offers_nothing() {
    let map = memory_map(&[]);
    let mut allocator = BootInfoFrameAllocator::init(map);
    assert_eq!(allocator.allocate_frame(), None);
}

#[test]
fn region_that_ends_before_it_starts_offers_nothing() {
    let map = memory_map(&[
        (9, 4, MemoryRegionType::Usable),
        (0x40, 0x41, MemoryRegionType::Usable),
    ]);
    let mut allocator = BootInfoFrameAllocator::init(map);
    assert_eq!(addresses(&mut allocator, 2), vec![Some(0x40000), None]);
}

#[test]
fn overlapping_regions_are_concatenated_as_they_are() {
    let map = memory_map(&[
        (1, 3, MemoryRegionType::Usable),
        (2, 4, MemoryRegionType::Usable),
    ]);
    let mut allocator = BootInfoFrameAllocator::init(map);
    assert_eq!(
        addresses(&mut allocator, 5),
        vec![Some(0x1000), Some(0x2000), Some(0x2000), Some(0x3000), None]
    );
}

#[test]
fn last_addressable_frame_is_handed_out() {
    let limit: u64 = 1 << 40;
    let map = memory_map(&[(limit - 1, limit, MemoryRegionType::Usable)]);
    let mut allocator = BootInfoFrameAllocator::try_init(map).expect("the region is addressable");
    assert_eq!(
        addresses(&mut allocator, 2),
        vec![Some(0x000f_ffff_ffff_f000), None]
    );
}

#[test]
fn try_init_refuses_a_usable_region_beyond_physical_addresses() {
    let limit: u64 = 1 << 40;
    let map = memory_map(&[
        (1, 2, MemoryRegionType::Usable),
        (limit, limit + 1, MemoryRegionType::Usable),
    ]);
    assert!(BootInfoFrameAllocator::try_init(map).is_none());
}

#[test]
fn try_init_ignores_regions_that_offer_nothing() {
    let limit: u64 = 1 << 40;
    let map = memory_map(&[
        (1, 2, MemoryRegionType::Usable),
        (limit, limit + 8, MemoryRegionType::Reserved),
    ]);
    let mut allocator = BootInfoFrameAllocator::try_init(map).expect("only the first region counts");
    assert_eq!(addresses(&mut allocator, 2), vec![Some(0x1000), None]);
}
