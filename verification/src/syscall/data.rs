//! Plain data that system calls hand over.

use vstd::prelude::*;

verus! {

/// A point in time: seconds and the nanoseconds of the second.
#[derive(Clone, Copy, Debug, PartialEq, Eq, Structural)]
pub struct TimeSpec {
    /// The seconds.
    pub tv_sec: i64,
    /// The nanoseconds of the second.
    pub tv_nsec: i32,
}

/// What a context does when a signal arrives.
#[derive(Clone, Copy, Debug)]
pub struct SigAction {
    /// The address of the handler.
    pub sa_handler: usize,
    /// The signals that are held back while the handler runs.
    pub sa_mask: [u64; 2],
    /// The flags of the action.
    pub sa_flags: u64,
}

} // verus!
