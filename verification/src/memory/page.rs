//! Virtual pages and the flags of their mappings, as plain values.

use vstd::prelude::*;
use x86_64::structures::paging::{Page as HardwarePage, Size4KiB};
use x86_64::VirtAddr;

verus! {

/// The flags of a mapping, as the bits of a page table entry.
pub type EntryFlags = u64;

/// The mapping is present.
pub const PRESENT: u64 = 0x1;

/// The page can be written to.
pub const WRITABLE: u64 = 0x2;

/// The page can be reached from user mode.
pub const USER_ACCESSIBLE: u64 = 0x4;

/// The mapping is the same in all address spaces.
pub const GLOBAL: u64 = 0x100;

/// No code can be run from the page.
pub const NO_EXECUTE: u64 = 0x8000_0000_0000_0000;

/// Whether `flags` holds every bit of `wanted`.
pub open spec fn spec_contains(flags: u64, wanted: u64) -> bool {
    flags & wanted == wanted
}

/// Whether `flags` holds every bit of `wanted`.
#[verifier::when_used_as_spec(spec_contains)]
pub fn contains(flags: u64, wanted: u64) -> (held: bool)
    ensures
        held == spec_contains(flags, wanted),
{
    flags & wanted == wanted
}

/// Whether `address` is a virtual address of the machine: the bits from 48
/// up are copies of bit 47.
pub open spec fn canonical(address: u64) -> bool {
    address < 0x8000_0000_0000 || address >= 0xffff_8000_0000_0000
}

/// Number of 4 KiB pages below the end of the address space: page numbers
/// lie below it.
pub const PAGE_LIMIT: u64 = 0x10_0000_0000_0000;

/// Whether `number` is the number of a page whose addresses are virtual
/// addresses of the machine.
pub open spec fn canonical_page(number: int) -> bool {
    0 <= number < 0x8_0000_0000 || 0xf_fff8_0000_0000 <= number < 0x10_0000_0000_0000
}

/// `x86_64::VirtAddr::try_new` on a plain address, as far as its success
/// goes: it gives an address if and only if the bits from 48 up are a sign
/// extension of bit 47.
#[verifier::external_body]
fn is_canonical(address: u64) -> (valid: bool)
    ensures
        valid == canonical(address),
{
    VirtAddr::try_new(address).is_ok()
}

/// `x86_64::structures::paging::Page::containing_address` on a plain address:
/// the start address of the 4 KiB page that holds `address`, which is
/// `address` aligned downwards to a multiple of the page size. The address
/// has to be canonical, else `VirtAddr::new` panics.
#[verifier::external_body]
fn containing_page_start(address: u64) -> (start: u64)
    requires
        canonical(address),
    ensures
        start == (address / 4096) * 4096,
{
    HardwarePage::<Size4KiB>::containing_address(VirtAddr::new(address)).start_address().as_u64()
}

/// `x86_64::VirtAddr::p4_index` on a plain address: the nine bits of the
/// address from bit 39 on, the index into the level 4 page table. The address
/// has to be canonical, else `VirtAddr::new` panics.
#[verifier::external_body]
fn level_4_index(address: u64) -> (index: u16)
    requires
        canonical(address),
    ensures
        index == (address / 0x80_0000_0000) % 512,
{
    u16::from(VirtAddr::new(address).p4_index())
}

/// A page of virtual memory: 4096 bytes that start at a multiple of 4096.
///
/// A page is known by its number, its start address divided by the page size.
/// Its addresses are canonical.
#[derive(Clone, Copy, Debug, PartialEq, Eq, PartialOrd, Ord, Hash)]
pub struct Page {
    start_address: u64,
}

impl View for Page {
    type V = int;

    /// The number of the page.
    closed spec fn view(&self) -> int {
        self.start_address as int / 4096
    }
}

impl Page {
    #[verifier::type_invariant]
    pub closed spec fn inv(self) -> bool {
        self.start_address % 4096 == 0 && canonical(self.start_address)
    }

    /// The page that contains the virtual address `address`.
    pub fn containing_address(address: u64) -> (page: Page)
        requires
            canonical(address),
        ensures
            page@ == address / 4096,
    {
        Page { start_address: containing_page_start(address) }
    }

    /// The page that contains `address`, where that is a virtual address of
    /// the machine.
    pub fn try_containing_address(address: u64) -> (page: Option<Page>)
        ensures
            page is Some <==> canonical(address),
            page matches Some(p) ==> p@ == address / 4096,
    {
        if is_canonical(address) {
            Some(Self::containing_address(address))
        } else {
            None
        }
    }

    /// The page with the given number.
    pub fn from_number(number: u64) -> (page: Page)
        requires
            canonical_page(number as int),
        ensures
            page@ == number,
    {
        Page { start_address: number * 4096 }
    }

    /// The number of the page: its start address divided by the page size.
    pub fn number(&self) -> (number: u64)
        ensures
            number == self@,
            canonical_page(number as int),
    {
        proof {
            use_type_invariant(self);
        }
        self.start_address / 4096
    }

    /// The virtual address at which the page starts.
    pub fn start_address(&self) -> (address: u64)
        ensures
            address == self@ * 4096,
            canonical(address),
    {
        proof {
            use_type_invariant(self);
        }
        self.start_address
    }

    /// The index of the page in the level 4 page table.
    pub fn p4_index(&self) -> (index: u16)
        ensures
            index == (self@ / 0x800_0000) % 512,
            index < 512,
    {
        let address = self.start_address();
        let index = level_4_index(address);
        assert((self@ * 4096) / 0x80_0000_0000 == self@ / 0x800_0000) by {
            let n = self@;
            assert((n * 4096) / 0x80_0000_0000 == n / 0x800_0000) by (nonlinear_arith);
        }
        index
    }
}

/// The pages from one page up to and with another, in rising order.
#[derive(Clone, Copy, Debug, PartialEq, Eq)]
pub struct PageRange {
    start: u64,
    end: u64,
}

/// The numbers from `start` up to and with `end`, in rising order.
pub open spec fn numbers(start: int, end: int) -> Seq<int> {
    if end >= start {
        Seq::new((end - start + 1) as nat, |k: int| start + k)
    } else {
        Seq::empty()
    }
}

impl View for PageRange {
    type V = Seq<int>;

    /// The numbers of the pages of the range, in rising order.
    closed spec fn view(&self) -> Seq<int> {
        numbers(self.start as int, self.end as int)
    }
}

impl PageRange {
    #[verifier::type_invariant]
    pub closed spec fn inv(self) -> bool {
        self.start > self.end || (canonical_page(self.start as int) && canonical_page(self.end as int)
            && (self.end < 0x8_0000_0000 || self.start >= 0xf_fff8_0000_0000))
    }

    /// The pages from `start` up to and with `end`. Where `end` lies before
    /// `start`, the range is empty. The two pages have to lie on the same
    /// side of the gap in the middle of the address space.
    pub fn new(start: Page, end: Page) -> (range: PageRange)
        requires
            start@ <= end@ ==> end@ < 0x8_0000_0000 || start@ >= 0xf_fff8_0000_0000,
        ensures
            range@ == numbers(start@, end@),
    {
        PageRange { start: start.number(), end: end.number() }
    }

    /// The pages with the numbers from `first` up to and with `last`. Where
    /// `last` lies before `first`, the range is empty. Else the two have to
    /// be numbers of pages on the same side of the gap in the middle of the
    /// address space.
    pub fn from_numbers(first: u64, last: u64) -> (range: PageRange)
        requires
            first <= last ==> canonical_page(first as int) && canonical_page(last as int) && (last
                < 0x8_0000_0000 || first >= 0xf_fff8_0000_0000),
        ensures
            range@ == numbers(first as int, last as int),
    {
        PageRange { start: first, end: last }
    }

    /// The range without a page.
    pub fn empty() -> (range: PageRange)
        ensures
            range@ == Seq::<int>::empty(),
    {
        PageRange { start: 1, end: 0 }
    }

    /// Whether the range holds no page.
    pub fn is_empty(&self) -> (empty: bool)
        ensures
            empty == (self@.len() == 0),
    {
        self.start > self.end
    }

    /// The number of pages in the range.
    pub fn len(&self) -> (len: u64)
        ensures
            len == self@.len(),
    {
        proof {
            use_type_invariant(self);
        }
        if self.start > self.end {
            0
        } else {
            self.end - self.start + 1
        }
    }

    /// Hands out the first page of the range, if there is one, and leaves
    /// the pages behind it.
    pub fn next(&mut self) -> (page: Option<Page>)
        ensures
            old(self)@.len() == 0 ==> page is None && final(self)@ == old(self)@,
            old(self)@.len() > 0 ==> page is Some && page->0@ == old(self)@[0] && final(self)@ == old(
                self,
            )@.drop_first(),
    {
        proof {
            use_type_invariant(&*self);
        }
        if self.start <= self.end {
            let page = Page::from_number(self.start);
            let ghost before = self@;
            self.start = self.start + 1;
            assert(self@ =~= before.drop_first());
            Some(page)
        } else {
            None
        }
    }
}

/// The numbers of the pages that hold the addresses from `from` up to and
/// with `to`, in rising order.
pub open spec fn pages_between(from: int, to: int) -> Seq<int> {
    numbers(from / 4096, to / 4096)
}

/// The numbers of the pages that hold the `size` bytes from the address
/// `start` on, in rising order. No bytes lie in no page.
pub open spec fn region_pages(start: int, size: int) -> Seq<int> {
    if size <= 0 {
        Seq::empty()
    } else {
        pages_between(start, start + size - 1)
    }
}

impl PageRange {
    /// The pages from the one that holds the address `from` to the one that
    /// holds the address `to`. The two addresses have to lie on the same
    /// side of the gap in the middle of the address space.
    pub fn between(from: u64, to: u64) -> (pages: PageRange)
        requires
            canonical(from),
            canonical(to),
            from < 0x8000_0000_0000 <==> to < 0x8000_0000_0000,
        ensures
            pages@ == pages_between(from as int, to as int),
    {
        let first = Page::containing_address(from);
        let last = Page::containing_address(to);
        PageRange::new(first, last)
    }
}

} // verus!
