//! Flags and numbers that system calls take.

use vstd::prelude::*;

verus! {

/// The clock that tells the time of day.
pub const CLOCK_REALTIME: usize = 1;

/// The clock that tells the time since the boot.
pub const CLOCK_MONOTONIC: usize = 4;

/// The handler of a signal that stands for the default action.
pub const SIG_DFL: usize = 0;

} // verus!
