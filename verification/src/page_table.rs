//! Page-table entries, their flags, and a model of the physical memory that
//! holds the page tables.

use vstd::prelude::*;
use std::collections::HashMap;
use crate::addr::{is_frame_start, PhysAddr, PhysFrame, VirtAddr};

verus! {

broadcast use vstd::std_specs::hash::group_hash_axioms;

/// The entry is in use: it points to a table or maps a frame.
pub const PRESENT: u64 = 0x1;

/// Writes through the entry are allowed.
pub const WRITABLE: u64 = 0x2;

/// Code that runs in user mode may use the entry.
pub const USER_ACCESSIBLE: u64 = 0x4;

/// In an entry of level 3 or 2: the entry maps a huge page and points to no
/// table.
pub const HUGE_PAGE: u64 = 0x80;

/// The bits of an entry that hold the address of a frame.
pub const ADDRESS_MASK: u64 = 0x000f_ffff_ffff_f000;

/// The bits of an entry that hold flags.
pub const FLAGS_MASK: u64 = 0xfff0_0000_0000_0fff;

/// The flags of a mapping that also go on the tables above it.
pub const PARENT_FLAGS_MASK: u64 = 0x7;

/// Number of entries in a page table.
pub const ENTRY_COUNT: u16 = 512;

/// Whether an entry is in use.
pub open spec fn entry_present(entry: u64) -> bool {
    entry & PRESENT == PRESENT
}

/// Whether an entry, found in a table of `level`, maps a huge page. Only
/// entries of level 3 and 2 can.
pub open spec fn entry_huge(entry: u64, level: int) -> bool {
    (level == 3 || level == 2) && entry & HUGE_PAGE == HUGE_PAGE
}

/// The frame address that an entry holds.
pub open spec fn entry_address(entry: u64) -> u64 {
    entry & ADDRESS_MASK
}

/// The flags that an entry holds.
pub open spec fn entry_flags(entry: u64) -> u64 {
    entry & FLAGS_MASK
}

/// The entry that points to the frame at `frame` with `flags`.
pub open spec fn compose_entry(frame: u64, flags: u64) -> u64 {
    frame | flags
}

/// Why an entry leads to no frame.
#[derive(Clone, Copy, Debug, PartialEq, Eq, Structural)]
pub enum FrameError {
    /// The entry is not in use.
    FrameNotPresent,
    /// The entry maps a huge page.
    HugeFrame,
}

/// The frame that an entry of a table of `level` leads to: the next table for
/// levels 4 to 2, the mapped frame for level 1.
pub open spec fn entry_frame(entry: u64, level: int) -> Result<u64, FrameError> {
    if !entry_present(entry) {
        Err(FrameError::FrameNotPresent)
    } else if entry_huge(entry, level) {
        Err(FrameError::HugeFrame)
    } else {
        Ok(entry_address(entry))
    }
}

/// The physical address of entry `index` of the table in the frame at `table`.
pub open spec fn slot(table: u64, index: u16) -> u64 {
    (table + 8 * index) as u64
}

/// Whether `addr` is the address of an entry of the table in the frame at
/// `table`.
pub open spec fn in_table(table: u64, addr: u64) -> bool {
    table <= addr < table + 4096 && (addr - table) % 8 == 0
}

/// The memory `memory` after the table in the frame at `table` was filled
/// with unused entries.
pub open spec fn zero_table(memory: Map<u64, u64>, table: u64) -> Map<u64, u64> {
    Map::total(|addr: u64| if in_table(table, addr) { 0 } else { memory[addr] })
}

/// The address bits of an entry are where a frame starts.
pub proof fn lemma_entry_address_is_frame(entry: u64)
    ensures
        is_frame_start(entry_address(entry)),
{
    assert((entry & 0x000f_ffff_ffff_f000) % 4096 == 0 && (entry & 0x000f_ffff_ffff_f000)
        < 0x0010_0000_0000_0000) by (bit_vector);
}

/// An entry composed of a frame and flags holds exactly that frame and those
/// flags.
pub proof fn lemma_compose_entry(frame: u64, flags: u64)
    requires
        is_frame_start(frame),
        flags & ADDRESS_MASK == 0,
    ensures
        entry_address(compose_entry(frame, flags)) == frame,
        entry_flags(compose_entry(frame, flags)) == flags,
        compose_entry(frame, flags) & PRESENT == flags & PRESENT,
        compose_entry(frame, flags) & HUGE_PAGE == flags & HUGE_PAGE,
{
    assert(frame % 4096 == 0 && frame < 0x0010_0000_0000_0000 && flags & 0x000f_ffff_ffff_f000 == 0
        ==> (frame | flags) & 0x000f_ffff_ffff_f000 == frame && (frame | flags)
        & 0xfff0_0000_0000_0fff == flags && (frame | flags) & 0x1 == flags & 0x1 && (frame | flags)
        & 0x80 == flags & 0x80) by (bit_vector);
}

/// A set of page-table flags: any bits of an entry that are no address bits.
#[derive(Clone, Copy, Debug, PartialEq, Eq, Structural)]
pub struct PageTableFlags {
    bits: u64,
}

impl PageTableFlags {
    #[verifier::type_invariant]
    spec fn no_address_bits(self) -> bool {
        self.bits & ADDRESS_MASK == 0
    }

    /// The flags as bits of an entry.
    pub closed spec fn view(self) -> u64 {
        self.bits
    }

    /// The flags among `bits`; address bits are dropped.
    pub fn from_bits_truncate(bits: u64) -> (flags: PageTableFlags)
        ensures
            flags@ == bits & FLAGS_MASK,
            flags@ & ADDRESS_MASK == 0,
    {
        assert((bits & 0xfff0_0000_0000_0fff) & 0x000f_ffff_ffff_f000 == 0) by (bit_vector);
        PageTableFlags { bits: bits & FLAGS_MASK }
    }

    pub fn bits(self) -> (bits: u64)
        ensures
            bits == self@,
            bits & ADDRESS_MASK == 0,
    {
        proof {
            use_type_invariant(&self);
        }
        self.bits
    }

    /// The flags that are set in `self` or in `other`.
    pub fn union(self, other: PageTableFlags) -> (flags: PageTableFlags)
        ensures
            flags@ == self@ | other@,
    {
        proof {
            use_type_invariant(&self);
            use_type_invariant(&other);
        }
        let a = self.bits;
        let b = other.bits;
        assert(a & 0x000f_ffff_ffff_f000 == 0 && b & 0x000f_ffff_ffff_f000 == 0 ==> (a | b)
            & 0x000f_ffff_ffff_f000 == 0) by (bit_vector);
        PageTableFlags { bits: a | b }
    }

    /// The flags that are set in both `self` and `other`.
    pub fn intersection(self, other: PageTableFlags) -> (flags: PageTableFlags)
        ensures
            flags@ == self@ & other@,
    {
        proof {
            use_type_invariant(&self);
        }
        let a = self.bits;
        let b = other.bits;
        assert(a & 0x000f_ffff_ffff_f000 == 0 ==> (a & b) & 0x000f_ffff_ffff_f000 == 0)
            by (bit_vector);
        PageTableFlags { bits: a & b }
    }
}

/// One 64-bit entry of a page table.
#[derive(Clone, Copy, Debug, PartialEq, Eq, Structural)]
pub struct PageTableEntry {
    entry: u64,
}

impl PageTableEntry {
    /// The entry as the 64 bits that memory holds.
    pub closed spec fn view(self) -> u64 {
        self.entry
    }

    /// The entry that the bits `raw` encode.
    pub fn from_raw(raw: u64) -> (entry: PageTableEntry)
        ensures
            entry@ == raw,
    {
        PageTableEntry { entry: raw }
    }

    /// The entry that points to `frame` with `flags`.
    pub fn with_frame(frame: PhysFrame, flags: PageTableFlags) -> (entry: PageTableEntry)
        ensures
            entry@ == compose_entry(frame@, flags@),
    {
        PageTableEntry { entry: frame.start_address().as_u64() | flags.bits() }
    }

    pub fn raw(self) -> (raw: u64)
        ensures
            raw == self@,
    {
        self.entry
    }

    /// The frame address that the entry holds.
    pub fn addr(self) -> (address: PhysAddr)
        ensures
            address@ == entry_address(self@),
    {
        proof {
            lemma_entry_address_is_frame(self.entry);
        }
        PhysAddr::new(self.entry & ADDRESS_MASK)
    }

    /// The flags that the entry holds.
    pub fn flags(self) -> (flags: PageTableFlags)
        ensures
            flags@ == entry_flags(self@),
    {
        PageTableFlags::from_bits_truncate(self.entry)
    }

    /// The frame that the entry leads to when it is found in a table of
    /// `level`, or why it leads to none.
    pub fn frame(self, level: u8) -> (result: Result<PhysFrame, FrameError>)
        ensures
            result is Ok <==> entry_frame(self@, level as int) is Ok,
            result matches Ok(frame) ==> Ok::<u64, FrameError>(frame@) == entry_frame(
                self@,
                level as int,
            ),
            result matches Err(error) ==> Err::<u64, FrameError>(error) == entry_frame(
                self@,
                level as int,
            ),
    {
        if self.entry & PRESENT != PRESENT {
            Err(FrameError::FrameNotPresent)
        } else if (level == 3 || level == 2) && self.entry & HUGE_PAGE == HUGE_PAGE {
            Err(FrameError::HugeFrame)
        } else {
            proof {
                lemma_entry_address_is_frame(self.entry);
            }
            Ok(PhysFrame::containing_address(PhysAddr::new(self.entry & ADDRESS_MASK)))
        }
    }
}

/// Physical memory as it is seen through an offset mapping: the word at
/// physical address `phys` is the word at location `offset + phys`.
pub open spec fn through_offset(words: Map<int, u64>, offset: u64) -> Map<u64, u64> {
    Map::total(|phys: u64| words[offset + phys])
}

/// The words `words` after the 512 words from location `start` on were set to
/// zero.
pub open spec fn zero_words(words: Map<int, u64>, start: int) -> Map<int, u64> {
    Map::total(
        |location: int|
            if start <= location < start + 4096 && (location - start) % 8 == 0 {
                0
            } else {
                words[location]
            },
    )
}

/// The memory that the kernel can reach: the 64-bit word at each location.
/// Physical memory appears in it behind an offset, the word at physical
/// address `phys` at location `offset + phys`. Locations are plain numbers,
/// so that every physical address has a location of its own whatever the
/// offset is. Memory that was never written reads as zero, that is as unused
/// entries.
pub struct KernelMemory {
    words: HashMap<u128, u64>,
}

impl KernelMemory {
    /// The word at each location.
    pub closed spec fn view(&self) -> Map<int, u64> {
        Map::total(
            |location: int|
                if 0 <= location <= u128::MAX && self.words@.contains_key(location as u128) {
                    self.words@[location as u128]
                } else {
                    0
                },
        )
    }

    /// The word at each physical address, for physical memory mapped at
    /// `offset`.
    pub open spec fn physical(&self, offset: u64) -> Map<u64, u64> {
        through_offset(self@, offset)
    }

    /// Memory that holds zero everywhere.
    pub fn new() -> (memory: KernelMemory)
        ensures
            memory@ == Map::total(|location: int| 0u64),
    {
        let memory = KernelMemory { words: HashMap::new() };
        assert(memory@ =~= Map::total(|location: int| 0u64));
        memory
    }

    /// Entry `index` of the table in `table`, read through the mapping at
    /// `offset`.
    pub fn read_entry(&self, offset: VirtAddr, table: PhysFrame, index: u16) -> (entry:
        PageTableEntry)
        requires
            index < ENTRY_COUNT,
        ensures
            entry@ == self.physical(offset@)[slot(table@, index)],
    {
        let location = offset.as_u64() as u128 + table.start_address().as_u64() as u128 + 8 * (
        index as u128);
        match self.words.get(&location) {
            Some(word) => PageTableEntry { entry: *word },
            None => PageTableEntry { entry: 0 },
        }
    }

    /// Stores `entry` as entry `index` of the table in `table`, through the
    /// mapping at `offset`.
    pub fn write_entry(
        &mut self,
        offset: VirtAddr,
        table: PhysFrame,
        index: u16,
        entry: PageTableEntry,
    )
        requires
            index < ENTRY_COUNT,
        ensures
            final(self)@ == old(self)@.insert(offset@ + slot(table@, index), entry@),
            final(self).physical(offset@) == old(self).physical(offset@).insert(
                slot(table@, index),
                entry@,
            ),
    {
        let location = offset.as_u64() as u128 + table.start_address().as_u64() as u128 + 8 * (
        index as u128);
        self.words.insert(location, entry.entry);
        assert(self@ =~= old(self)@.insert(offset@ + slot(table@, index), entry@));
        assert(self.physical(offset@) =~= old(self).physical(offset@).insert(
            slot(table@, index),
            entry@,
        ));
    }

    /// Fills the table in `table` with unused entries, through the mapping
    /// at `offset`.
    pub fn zero_table(&mut self, offset: VirtAddr, table: PhysFrame)
        ensures
            final(self)@ == zero_words(old(self)@, offset@ + table@),
            final(self).physical(offset@) == zero_table(old(self).physical(offset@), table@),
    {
        let start = offset.as_u64() as u128 + table.start_address().as_u64() as u128;
        let mut index: u16 = 0;
        while index < 512
            invariant
                index <= 512,
                start == offset@ + table@,
                forall|location: int|
                    self@[location] == if start <= location < start + 8 * index && (location
                        - start) % 8 == 0 {
                        0
                    } else {
                        old(self)@[location]
                    },
            decreases 512 - index,
        {
            let location = start + 8 * (index as u128);
            let ghost before = self@;
            self.words.insert(location, 0);
            assert(self@ =~= before.insert(location as int, 0));
            index = index + 1;
        }
        assert(self@ =~= zero_words(old(self)@, offset@ + table@));
        assert(self.physical(offset@) =~= zero_table(old(self).physical(offset@), table@));
    }
}

} // verus!
