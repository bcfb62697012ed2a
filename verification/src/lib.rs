//! Memory and process management core of a small x86-64 kernel.
//!
//! The crate holds the bookkeeping of the kernel: which physical frames are
//! free, which pages a memory region covers, which contexts exist and in what
//! state they are. Everything that touches the machine itself (page tables in
//! memory, control registers, interrupt controllers) is left to the caller,
//! which is handed plain values that say what has to be done.

use vstd::prelude::*;

pub mod common;
pub mod context;
pub mod interrupt;
pub mod memory;
pub mod syscall;

verus! {

/// Scheduling identifier of the processor that runs the caller.
///
/// The kernel schedules work on a single processor, whose identifier is zero.
#[inline(always)]
pub fn cpu_id() -> (id: usize)
    ensures
        id == 0,
{
    0
}

/// Number of processors that can have work scheduled.
#[inline(always)]
pub fn cpu_count() -> (count: usize)
    ensures
        count == 1,
{
    1
}

/// What the kernel tells the emulator when a test run ends.
#[derive(Debug, Clone, Copy, PartialEq, Eq, Structural)]
pub enum QemuExitCode {
    /// All tests passed.
    Success,
    /// A test failed.
    Failed,
}

impl QemuExitCode {
    /// The number that is written to the exit port of the emulator.
    pub fn code(self) -> (code: u32)
        ensures
            code == (match self {
                QemuExitCode::Success => 0x10u32,
                QemuExitCode::Failed => 0x11u32,
            }),
    {
        match self {
            QemuExitCode::Success => 0x10,
            QemuExitCode::Failed => 0x11,
        }
    }
}

} // verus!
