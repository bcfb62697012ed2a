//! Errors of system calls.

use vstd::prelude::*;

verus! {

/// The error of a system call, known by its number.
#[derive(Clone, Copy, Debug, PartialEq, Eq, Structural)]
pub struct Error {
    /// The number of the error.
    pub errno: i32,
}

impl Error {
    /// The error with the number `errno`.
    pub fn new(errno: i32) -> (error: Error)
        ensures
            error.errno == errno,
    {
        Error { errno }
    }
}

/// Try again: what was asked for cannot be had at the moment.
pub const EAGAIN: i32 = 11;

/// Invalid argument.
pub const EINVAL: i32 = 22;

} // verus!
