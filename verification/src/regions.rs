//! The firmware memory map and the sequence of frames that it offers.

use vstd::prelude::*;
use bootloader::bootinfo::MemoryMap;
use crate::addr::is_frame_start;

verus! {

/// The memory map that the bootloader hands over.
#[verifier::external_type_specification]
#[verifier::external_body]
pub struct ExMemoryMap(bootloader::bootinfo::MemoryMap);

/// One entry of the bootloader's memory map, which the map dereferences to.
#[verifier::external_type_specification]
#[verifier::external_body]
pub struct ExMemoryRegion(bootloader::bootinfo::MemoryRegion);

/// One region of physical memory as the firmware reports it: the frames from
/// number `start_frame` up to, not including, number `end_frame`.
pub struct Region {
    pub start_frame: u64,
    pub end_frame: u64,
    /// Whether the region is free for the kernel to use.
    pub usable: bool,
}

/// The regions that a memory map holds, in the order in which it yields them.
pub uninterp spec fn memory_map_regions(map: MemoryMap) -> Seq<Region>;

/// The length of the slice of regions that a `bootloader::bootinfo::MemoryMap`
/// dereferences to.
#[verifier::external_body]
pub(crate) fn region_count(map: &MemoryMap) -> (count: usize)
    ensures
        count == memory_map_regions(*map).len(),
{
    map.len()
}

/// The public fields `range.start_frame_number` and `range.end_frame_number`
/// of the region at `index` in a `bootloader::bootinfo::MemoryMap`.
#[verifier::external_body]
pub(crate) fn region_range(map: &MemoryMap, index: usize) -> (range: (u64, u64))
    requires
        index < memory_map_regions(*map).len(),
    ensures
        range.0 == memory_map_regions(*map)[index as int].start_frame,
        range.1 == memory_map_regions(*map)[index as int].end_frame,
{
    let region = &map[index];
    (region.range.start_frame_number, region.range.end_frame_number)
}

/// Whether the `region_type` of the region at `index` in a
/// `bootloader::bootinfo::MemoryMap` equals `MemoryRegionType::Usable`.
#[verifier::external_body]
pub(crate) fn region_is_usable(map: &MemoryMap, index: usize) -> (usable: bool)
    requires
        index < memory_map_regions(*map).len(),
    ensures
        usable == memory_map_regions(*map)[index as int].usable,
{
    map[index].region_type == bootloader::bootinfo::MemoryRegionType::Usable
}

/// First frame number whose address has more than 52 bits.
pub const FRAME_NUMBER_LIMIT: u64 = 0x0000_0100_0000_0000;

/// How many frames a region offers: all of its frames where it is usable,
/// none otherwise.
pub open spec fn region_frame_count(region: Region) -> nat {
    if region.usable && region.start_frame < region.end_frame {
        (region.end_frame - region.start_frame) as nat
    } else {
        0
    }
}

/// The start addresses of the frames that a region offers, ascending.
pub open spec fn region_frames(region: Region) -> Seq<u64> {
    Seq::new(region_frame_count(region), |i: int| ((region.start_frame + i) * 4096) as u64)
}

/// The start addresses of the frames that the usable regions offer: region
/// after region in the order of the map, ascending inside each region.
pub open spec fn usable_frames(regions: Seq<Region>) -> Seq<u64>
    decreases regions.len(),
{
    if regions.len() == 0 {
        Seq::empty()
    } else {
        usable_frames(regions.drop_last()) + region_frames(regions.last())
    }
}

/// Whether every frame that the regions offer has a physical address, that is
/// one of at most 52 bits.
pub open spec fn regions_addressable(regions: Seq<Region>) -> bool {
    forall|i: int|
        0 <= i < regions.len() && region_frame_count(#[trigger] regions[i]) > 0
            ==> regions[i].end_frame <= FRAME_NUMBER_LIMIT
}

/// Whether the regions that offer frames lie one after the other: each ends
/// before the later ones start.
pub open spec fn regions_ascending(regions: Seq<Region>) -> bool {
    forall|i: int, j: int|
        0 <= i < j < regions.len() && region_frame_count(#[trigger] regions[i]) > 0
            && region_frame_count(#[trigger] regions[j]) > 0
            ==> regions[i].end_frame <= regions[j].start_frame
}

/// The frames of a shorter map are the first frames of the longer one.
pub proof fn lemma_usable_frames_prefix(regions: Seq<Region>, count: int)
    requires
        0 <= count <= regions.len(),
    ensures
        usable_frames(regions.take(count)).len() <= usable_frames(regions).len(),
        forall|k: int|
            0 <= k < usable_frames(regions.take(count)).len() ==> usable_frames(regions)[k]
                == usable_frames(regions.take(count))[k],
    decreases regions.len(),
{
    if count == regions.len() {
        assert(regions.take(count) =~= regions);
    } else {
        assert(regions.drop_last().take(count) =~= regions.take(count));
        lemma_usable_frames_prefix(regions.drop_last(), count);
    }
}

/// Taking one more region appends the frames of that region.
pub proof fn lemma_usable_frames_step(regions: Seq<Region>, count: int)
    requires
        0 <= count < regions.len(),
    ensures
        usable_frames(regions.take(count + 1)) == usable_frames(regions.take(count))
            + region_frames(regions[count]),
{
    assert(regions.take(count + 1).drop_last() =~= regions.take(count));
    assert(regions.take(count + 1).last() == regions[count]);
}

/// Every offered frame lies in a usable region of the map, at a whole number
/// of frames from its start.
pub proof fn lemma_usable_frame_origin(regions: Seq<Region>, k: int) -> (origin: (int, int))
    requires
        0 <= k < usable_frames(regions).len(),
    ensures
        0 <= origin.0 < regions.len(),
        regions[origin.0].usable,
        0 <= origin.1 < regions[origin.0].end_frame - regions[origin.0].start_frame,
        usable_frames(regions)[k] == ((regions[origin.0].start_frame + origin.1) * 4096) as u64,
        origin.1 == k - usable_frames(regions.take(origin.0)).len(),
    decreases regions.len(),
{
    let before = usable_frames(regions.drop_last());
    if k < before.len() {
        let origin = lemma_usable_frame_origin(regions.drop_last(), k);
        assert(regions.drop_last().take(origin.0) =~= regions.take(origin.0));
        origin
    } else {
        assert(regions.take(regions.len() - 1) =~= regions.drop_last());
        (regions.len() - 1, k - before.len())
    }
}

/// How many frames the regions offer in all.
pub open spec fn usable_frame_count(regions: Seq<Region>) -> nat
    decreases regions.len(),
{
    if regions.len() == 0 {
        0
    } else {
        usable_frame_count(regions.drop_last()) + region_frame_count(regions.last())
    }
}

/// The sequence of offered frames is as long as the usable regions have
/// frames.
pub proof fn lemma_usable_frames_len(regions: Seq<Region>)
    ensures
        usable_frames(regions).len() == usable_frame_count(regions),
    decreases regions.len(),
{
    if regions.len() > 0 {
        lemma_usable_frames_len(regions.drop_last());
    }
}

/// Every offered frame starts at a multiple of 4096 and lies inside a usable
/// region of the map.
pub proof fn lemma_usable_frame_in_region(regions: Seq<Region>, k: int) -> (region: int)
    requires
        regions_addressable(regions),
        0 <= k < usable_frames(regions).len(),
    ensures
        0 <= region < regions.len(),
        regions[region].usable,
        is_frame_start(usable_frames(regions)[k]),
        regions[region].start_frame * 4096 <= usable_frames(regions)[k],
        usable_frames(regions)[k] + 4096 <= regions[region].end_frame * 4096,
{
    let origin = lemma_usable_frame_origin(regions, k);
    assert(region_frame_count(regions[origin.0]) > 0);
    origin.0
}

/// Where the regions that offer frames lie one after the other, the offered
/// frames ascend: a later call never returns the frame of an earlier call,
/// nor one below it.
pub proof fn lemma_usable_frames_ascending(regions: Seq<Region>, i: int, j: int)
    requires
        regions_addressable(regions),
        regions_ascending(regions),
        0 <= i < j < usable_frames(regions).len(),
    ensures
        usable_frames(regions)[i] < usable_frames(regions)[j],
{
    let first = lemma_usable_frame_origin(regions, i);
    let second = lemma_usable_frame_origin(regions, j);
    assert(region_frame_count(regions[first.0]) > 0);
    assert(region_frame_count(regions[second.0]) > 0);
    if second.0 < first.0 {
        lemma_usable_frames_step(regions, second.0);
        assert(regions.take(first.0).take(second.0 + 1) =~= regions.take(second.0 + 1));
        lemma_usable_frames_prefix(regions.take(first.0), second.0 + 1);
    }
}

} // verus!
