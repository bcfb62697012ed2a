//! The system call that tells the time.

use super::data::TimeSpec;
use super::error::{Error, EINVAL};
use super::flag::{CLOCK_MONOTONIC, CLOCK_REALTIME};
use vstd::prelude::*;

verus! {

/// The seconds of a clock as a time specification holds them: the number
/// itself where it fits, else the number that the same 64 bits stand for with
/// a sign.
pub open spec fn seconds_of(seconds: u64) -> i64 {
    if seconds <= 0x7fff_ffff_ffff_ffff {
        seconds as i64
    } else {
        (seconds - 0x1_0000_0000_0000_0000) as i64
    }
}

/// The nanoseconds of a clock as a time specification holds them: the number
/// that the low 32 bits stand for with a sign.
pub open spec fn nanoseconds_of(nanoseconds: u64) -> i32 {
    let low = nanoseconds % 0x1_0000_0000;
    if low <= 0x7fff_ffff {
        low as i32
    } else {
        (low - 0x1_0000_0000) as i32
    }
}

/// Writes the time of the clock `clock` to `time`, and returns zero.
///
/// `realtime` and `monotonic` are the readings of the two clocks of the
/// kernel, each as seconds and nanoseconds. Any other clock is an invalid
/// argument, and leaves `time` as it is.
pub fn clock_gettime(clock: usize, realtime: (u64, u64), monotonic: (u64, u64), time: &mut TimeSpec) -> (result:
    Result<usize, Error>)
    ensures
        clock == CLOCK_REALTIME ==> result == Ok::<usize, Error>(0) && final(time).tv_sec == seconds_of(
            realtime.0,
        ) && final(time).tv_nsec == nanoseconds_of(realtime.1),
        clock == CLOCK_MONOTONIC ==> result == Ok::<usize, Error>(0) && final(time).tv_sec == seconds_of(
            monotonic.0,
        ) && final(time).tv_nsec == nanoseconds_of(monotonic.1),
        clock != CLOCK_REALTIME && clock != CLOCK_MONOTONIC ==> result == Err::<usize, Error>(
            Error { errno: EINVAL },
        ) && *final(time) == *old(time),
{
    let arch_time = if clock == CLOCK_REALTIME {
        realtime
    } else if clock == CLOCK_MONOTONIC {
        monotonic
    } else {
        return Err(Error::new(EINVAL));
    };
    time.tv_sec = signed_64(arch_time.0);
    time.tv_nsec = signed_32(arch_time.1);
    Ok(0)
}

/// The number that the 64 bits of `value` stand for with a sign.
fn signed_64(value: u64) -> (signed: i64)
    ensures
        signed == seconds_of(value),
{
    if value <= 0x7fff_ffff_ffff_ffff {
        value as i64
    } else {
        ((value - 0x8000_0000_0000_0000) as i64) - 0x4000_0000_0000_0000 - 0x4000_0000_0000_0000
    }
}

/// The number that the low 32 bits of `value` stand for with a sign.
fn signed_32(value: u64) -> (signed: i32)
    ensures
        signed == nanoseconds_of(value),
{
    let low = value % 0x1_0000_0000;
    if low <= 0x7fff_ffff {
        low as i32
    } else {
        ((low - 0x8000_0000) as i32) - 0x4000_0000 - 0x4000_0000
    }
}

} // verus!
