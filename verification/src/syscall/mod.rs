//! What system calls speak of: error numbers, flags and plain data.

pub mod data;
pub mod error;
pub mod flag;
pub mod time;

pub use self::data::{SigAction, TimeSpec};
pub use self::error::{Error, EAGAIN, EINVAL};
pub use self::flag::{CLOCK_MONOTONIC, CLOCK_REALTIME, SIG_DFL};
