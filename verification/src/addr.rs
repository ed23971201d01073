//! Virtual and physical addresses, pages and frames.

use vstd::prelude::*;

verus! {

/// Size in bytes of a page and of a physical frame.
pub const PAGE_SIZE: u64 = 4096;

/// First value that is no physical address: physical addresses have 52 bits.
pub const PHYS_ADDR_LIMIT: u64 = 0x0010_0000_0000_0000;

/// Whether bits 47 to 63 of `addr` are all equal.
pub open spec fn is_canonical(addr: u64) -> bool {
    addr < 0x0000_8000_0000_0000 || addr >= 0xffff_8000_0000_0000
}

/// The canonical address that `addr` stands for, if any: `addr` itself where it
/// is canonical, its sign extension where bits 48 to 63 are zero and bit 47 is
/// set, and nothing otherwise.
pub open spec fn canonical_form(addr: u64) -> Option<u64> {
    if is_canonical(addr) {
        Some(addr)
    } else if addr < 0x0001_0000_0000_0000 {
        Some((addr + 0xffff_0000_0000_0000) as u64)
    } else {
        None
    }
}

/// The 9-bit index that `addr` selects in the page table of `level`: bits 39
/// to 47 for level 4, bits 30 to 38 for level 3, bits 21 to 29 for level 2,
/// and bits 12 to 20 for level 1 and for any other number.
pub open spec fn table_index(addr: u64, level: int) -> u16 {
    if level == 4 {
        ((addr >> 39) & 0x1ff) as u16
    } else if level == 3 {
        ((addr >> 30) & 0x1ff) as u16
    } else if level == 2 {
        ((addr >> 21) & 0x1ff) as u16
    } else {
        ((addr >> 12) & 0x1ff) as u16
    }
}

/// The 12-bit offset of `addr` inside its page.
pub open spec fn offset_in_page(addr: u64) -> u16 {
    (addr & 0xfff) as u16
}

/// The start of the 4096-byte block that holds `addr`.
pub open spec fn align_down(addr: u64) -> u64 {
    (addr - addr % 4096) as u64
}

/// `x86_64::VirtAddr::try_new`: accepts an address whose bits 47 to 63 are all
/// zero or all one, sign-extends one whose bits 48 to 63 are zero and whose bit
/// 47 is set, and rejects every other value.
#[verifier::external_body]
fn x86_try_canonical(addr: u64) -> (result: Option<u64>)
    ensures
        result == canonical_form(addr),
{
    x86_64::VirtAddr::try_new(addr).ok().map(|a| a.as_u64())
}

/// `x86_64::VirtAddr::p4_index`: bits 39 to 47 of the address.
#[verifier::external_body]
fn x86_p4_index(addr: u64) -> (index: u16)
    requires
        is_canonical(addr),
    ensures
        index == table_index(addr, 4),
{
    u16::from(x86_64::VirtAddr::new(addr).p4_index())
}

/// `x86_64::VirtAddr::p3_index`: bits 30 to 38 of the address.
#[verifier::external_body]
fn x86_p3_index(addr: u64) -> (index: u16)
    requires
        is_canonical(addr),
    ensures
        index == table_index(addr, 3),
{
    u16::from(x86_64::VirtAddr::new(addr).p3_index())
}

/// `x86_64::VirtAddr::p2_index`: bits 21 to 29 of the address.
#[verifier::external_body]
fn x86_p2_index(addr: u64) -> (index: u16)
    requires
        is_canonical(addr),
    ensures
        index == table_index(addr, 2),
{
    u16::from(x86_64::VirtAddr::new(addr).p2_index())
}

/// `x86_64::VirtAddr::p1_index`: bits 12 to 20 of the address.
#[verifier::external_body]
fn x86_p1_index(addr: u64) -> (index: u16)
    requires
        is_canonical(addr),
    ensures
        index == table_index(addr, 1),
{
    u16::from(x86_64::VirtAddr::new(addr).p1_index())
}

/// `x86_64::VirtAddr::page_offset`: bits 0 to 11 of the address.
#[verifier::external_body]
fn x86_page_offset(addr: u64) -> (offset: u16)
    requires
        is_canonical(addr),
    ensures
        offset == offset_in_page(addr),
{
    u16::from(x86_64::VirtAddr::new(addr).page_offset())
}

/// `x86_64::PhysFrame::containing_address` on `x86_64::PhysAddr::new(addr)`:
/// the start address of the 4 KiB frame that holds `addr`. `PhysAddr::new`
/// panics on an address of more than 52 bits.
#[verifier::external_body]
fn x86_frame_start(addr: u64) -> (start: u64)
    requires
        addr < PHYS_ADDR_LIMIT,
    ensures
        start == align_down(addr),
{
    let frame: x86_64::structures::paging::PhysFrame =
        x86_64::structures::paging::PhysFrame::containing_address(x86_64::PhysAddr::new(addr));
    frame.start_address().as_u64()
}

/// `x86_64::structures::paging::Page::containing_address`: the start address
/// of the 4 KiB page that holds the canonical address `addr`.
#[verifier::external_body]
fn x86_page_start(addr: u64) -> (start: u64)
    requires
        is_canonical(addr),
    ensures
        start == align_down(addr),
{
    let page: x86_64::structures::paging::Page =
        x86_64::structures::paging::Page::containing_address(x86_64::VirtAddr::new(addr));
    page.start_address().as_u64()
}

/// A canonical 64-bit virtual address.
#[derive(Clone, Copy, Debug, PartialEq, Eq, Structural)]
pub struct VirtAddr {
    addr: u64,
}

impl VirtAddr {
    #[verifier::type_invariant]
    spec fn canonical(self) -> bool {
        is_canonical(self.addr)
    }

    /// The address as a number.
    pub closed spec fn view(self) -> u64 {
        self.addr
    }

    /// The canonical address for `addr`, where `addr` stands for one.
    pub fn try_new(addr: u64) -> (result: Option<VirtAddr>)
        ensures
            canonical_form(addr) is Some <==> result is Some,
            result matches Some(v) ==> Some(v@) == canonical_form(addr) && is_canonical(v@),
    {
        match x86_try_canonical(addr) {
            Some(value) => {
                assert(is_canonical(value)) by {
                    lemma_canonical_form(addr);
                }
                Some(VirtAddr { addr: value })
            },
            None => None,
        }
    }

    /// The address `addr`, which must stand for a canonical address.
    pub fn new(addr: u64) -> (result: VirtAddr)
        requires
            canonical_form(addr) is Some,
        ensures
            Some(result@) == canonical_form(addr),
            is_canonical(result@),
    {
        VirtAddr::try_new(addr).unwrap()
    }

    pub fn as_u64(self) -> (addr: u64)
        ensures
            addr == self@,
            is_canonical(addr),
    {
        proof {
            use_type_invariant(&self);
        }
        self.addr
    }

    /// The index that this address selects in the page table of `level`.
    pub fn page_table_index(self, level: u8) -> (index: u16)
        ensures
            index == table_index(self@, level as int),
            index < 512,
    {
        proof {
            use_type_invariant(&self);
            lemma_table_index_bound(self.addr, level as int);
        }
        if level == 4 {
            x86_p4_index(self.addr)
        } else if level == 3 {
            x86_p3_index(self.addr)
        } else if level == 2 {
            x86_p2_index(self.addr)
        } else {
            x86_p1_index(self.addr)
        }
    }

    /// The offset of this address inside its page.
    pub fn page_offset(self) -> (offset: u16)
        ensures
            offset == offset_in_page(self@),
            offset < 4096,
    {
        proof {
            use_type_invariant(&self);
            lemma_offset_in_page_bound(self.addr);
        }
        x86_page_offset(self.addr)
    }
}

/// A physical address: a value of at most 52 bits.
#[derive(Clone, Copy, Debug, PartialEq, Eq, Structural)]
pub struct PhysAddr {
    addr: u64,
}

impl PhysAddr {
    #[verifier::type_invariant]
    spec fn in_range(self) -> bool {
        self.addr < PHYS_ADDR_LIMIT
    }

    /// The address as a number.
    pub closed spec fn view(self) -> u64 {
        self.addr
    }

    /// The physical address `addr`, unless it has a bit above bit 51 set.
    pub fn try_new(addr: u64) -> (result: Option<PhysAddr>)
        ensures
            result is Some <==> addr < PHYS_ADDR_LIMIT,
            result matches Some(p) ==> p@ == addr,
    {
        if addr < PHYS_ADDR_LIMIT {
            Some(PhysAddr { addr })
        } else {
            None
        }
    }

    /// The physical address `addr`.
    pub fn new(addr: u64) -> (result: PhysAddr)
        requires
            addr < PHYS_ADDR_LIMIT,
        ensures
            result@ == addr,
    {
        PhysAddr { addr }
    }

    pub fn as_u64(self) -> (addr: u64)
        ensures
            addr == self@,
            addr < PHYS_ADDR_LIMIT,
    {
        proof {
            use_type_invariant(&self);
        }
        self.addr
    }
}

/// Whether `addr` is where a physical frame starts.
pub open spec fn is_frame_start(addr: u64) -> bool {
    addr < PHYS_ADDR_LIMIT && addr % 4096 == 0
}

/// Whether `addr` is where a page starts.
pub open spec fn is_page_start(addr: u64) -> bool {
    is_canonical(addr) && addr % 4096 == 0
}

/// A 4 KiB frame of physical memory, known by the address where it starts.
#[derive(Clone, Copy, Debug, PartialEq, Eq, Structural)]
pub struct PhysFrame {
    start: u64,
}

impl PhysFrame {
    #[verifier::type_invariant]
    spec fn aligned(self) -> bool {
        is_frame_start(self.start)
    }

    /// The address where the frame starts.
    pub closed spec fn view(self) -> u64 {
        self.start
    }

    /// The frame that holds `address`.
    pub fn containing_address(address: PhysAddr) -> (frame: PhysFrame)
        ensures
            frame@ == align_down(address@),
            is_frame_start(frame@),
    {
        let start = x86_frame_start(address.as_u64());
        PhysFrame { start }
    }

    pub fn start_address(self) -> (address: PhysAddr)
        ensures
            address@ == self@,
            is_frame_start(self@),
    {
        proof {
            use_type_invariant(&self);
        }
        PhysAddr { addr: self.start }
    }
}

/// A 4 KiB page of virtual memory, known by the address where it starts.
#[derive(Clone, Copy, Debug, PartialEq, Eq, Structural)]
pub struct Page {
    start: u64,
}

impl Page {
    #[verifier::type_invariant]
    spec fn aligned(self) -> bool {
        is_page_start(self.start)
    }

    /// The address where the page starts.
    pub closed spec fn view(self) -> u64 {
        self.start
    }

    /// The page that holds `address`.
    pub fn containing_address(address: VirtAddr) -> (page: Page)
        ensures
            page@ == align_down(address@),
            is_page_start(page@),
    {
        let addr = address.as_u64();
        let start = x86_page_start(addr);
        assert(is_canonical(align_down(addr))) by {
            lemma_align_down_canonical(addr);
        }
        Page { start }
    }

    pub fn start_address(self) -> (address: VirtAddr)
        ensures
            address@ == self@,
            is_page_start(self@),
    {
        proof {
            use_type_invariant(&self);
        }
        VirtAddr { addr: self.start }
    }
}

/// Rounding down to a page boundary stays in the same half of the address
/// space.
pub proof fn lemma_align_down_canonical(addr: u64)
    requires
        is_canonical(addr),
    ensures
        is_canonical(align_down(addr)),
        align_down(addr) % 4096 == 0,
{
}

/// Whatever `canonical_form` yields is canonical.
pub proof fn lemma_canonical_form(addr: u64)
    ensures
        canonical_form(addr) matches Some(v) ==> is_canonical(v),
{
}

/// A table index is below 512.
pub proof fn lemma_table_index_bound(addr: u64, level: int)
    ensures
        table_index(addr, level) < 512,
{
    assert((addr >> 39) & 0x1ff < 512) by (bit_vector);
    assert((addr >> 30) & 0x1ff < 512) by (bit_vector);
    assert((addr >> 21) & 0x1ff < 512) by (bit_vector);
    assert((addr >> 12) & 0x1ff < 512) by (bit_vector);
}

/// A page offset is below 4096.
pub proof fn lemma_offset_in_page_bound(addr: u64)
    ensures
        offset_in_page(addr) < 4096,
{
    assert(addr & 0xfff < 4096) by (bit_vector);
}

} // verus!
