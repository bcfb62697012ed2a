//! Physical frames as plain values.

use vstd::prelude::*;
use vstd::set_lib::*;
use x86_64::structures::paging::{PhysFrame, Size4KiB};
use x86_64::PhysAddr;

verus! {

/// Number of 4 KiB frames that a 52-bit physical address can reach: frame
/// numbers lie below it.
pub const FRAME_LIMIT: u64 = 0x100_0000_0000;

/// Whether `address` is a physical address of the machine: the bits from 52
/// up are zero.
pub open spec fn valid_phys_addr(address: u64) -> bool {
    address < 0x10_0000_0000_0000
}

/// The frames `first, first + 1, ..` up to and without `first + count`.
pub open spec fn frame_run(first: int, count: int) -> Set<int> {
    set_int_range(first, first + count)
}

/// A run of frames is a finite set of as many frames as it was made of.
pub proof fn lemma_frame_run(first: int, count: int)
    requires
        count >= 0,
    ensures
        frame_run(first, count).finite(),
        frame_run(first, count).len() == count,
{
    lemma_int_range(first, first + count);
}

/// `x86_64::structures::paging::PhysFrame::containing_address` on a plain
/// address: the start address of the 4 KiB frame that holds `address`. The
/// address is aligned downwards to a multiple of the frame size. It has to be
/// a valid physical address, else `PhysAddr::new` panics.
#[verifier::external_body]
fn containing_frame_start(address: u64) -> (start: u64)
    requires
        valid_phys_addr(address),
    ensures
        start == (address / 4096) * 4096,
{
    PhysFrame::<Size4KiB>::containing_address(PhysAddr::new(address)).start_address().as_u64()
}

/// A frame of physical memory: 4096 bytes that start at a multiple of 4096.
///
/// A frame is known by its number, its start address divided by the frame
/// size. The number is below [`FRAME_LIMIT`], so that the start address is a
/// valid physical address.
#[derive(Clone, Copy, Debug, PartialEq, Eq, PartialOrd, Ord, Hash)]
pub struct Frame {
    start_address: u64,
}

impl View for Frame {
    type V = int;

    /// The number of the frame.
    closed spec fn view(&self) -> int {
        self.start_address as int / 4096
    }
}

impl Frame {
    #[verifier::type_invariant]
    pub closed spec fn inv(self) -> bool {
        self.start_address % 4096 == 0 && valid_phys_addr(self.start_address)
    }

    /// The frame that contains the physical address `address`.
    pub fn containing_address(address: u64) -> (frame: Frame)
        requires
            valid_phys_addr(address),
        ensures
            frame@ == address / 4096,
    {
        Frame { start_address: containing_frame_start(address) }
    }

    /// The frame with the given number.
    pub fn from_number(number: u64) -> (frame: Frame)
        requires
            number < FRAME_LIMIT,
        ensures
            frame@ == number,
    {
        Frame { start_address: number * 4096 }
    }

    /// The number of the frame: its start address divided by the frame size.
    pub fn number(&self) -> (number: u64)
        ensures
            number == self@,
            number < FRAME_LIMIT,
    {
        proof {
            use_type_invariant(self);
        }
        self.start_address / 4096
    }

    /// The physical address at which the frame starts.
    pub fn start_address(&self) -> (address: u64)
        ensures
            address == self@ * 4096,
            valid_phys_addr(address),
    {
        proof {
            use_type_invariant(self);
        }
        self.start_address
    }
}

} // verus!
