//! The timer interrupt: it keeps the time, counts the ticks, and says when
//! the running context has had its share.

use vstd::prelude::*;

verus! {

/// The nanoseconds that pass between two ticks of the timer.
pub const PIT_RATE: u64 = 2_250_286;

/// The number of ticks that a context runs before another one gets its turn.
pub const SWITCH_TICKS: usize = 10;

/// The nanoseconds of a second.
pub const NANOS_PER_SEC: u64 = 1_000_000_000;

/// The time `offset`, in seconds and nanoseconds, one tick of the timer
/// later: the nanoseconds that are more than a second go to the seconds.
pub open spec fn ticked(offset: (u64, u64)) -> (int, int) {
    (offset.0 + (offset.1 + PIT_RATE) / (NANOS_PER_SEC as int), (offset.1 + PIT_RATE) % (NANOS_PER_SEC as int))
}

/// Handles one tick of the timer: moves the time since the boot on by the
/// length of a tick, counts the tick, and says whether the running context
/// has to make way for another one, which is so where at least
/// [`SWITCH_TICKS`] ticks were counted before this one. The count starts
/// over at zero where it cannot go on.
pub fn timer_interrupt_handler(offset: &mut (u64, u64), ticks: &mut usize) -> (switch: bool)
    requires
        old(offset).1 + PIT_RATE <= u64::MAX,
        ticked(*old(offset)).0 <= u64::MAX,
    ensures
        final(offset).0 == ticked(*old(offset)).0,
        final(offset).1 == ticked(*old(offset)).1,
        final(offset).1 < NANOS_PER_SEC,
        switch == (*old(ticks) >= SWITCH_TICKS),
        *final(ticks) == (if *old(ticks) == usize::MAX {
            0
        } else {
            *old(ticks) + 1
        }),
{
    let sum = offset.1 + PIT_RATE;
    offset.1 = sum % NANOS_PER_SEC;
    offset.0 = offset.0 + sum / NANOS_PER_SEC;
    let before = *ticks;
    *ticks = if before == usize::MAX {
        0
    } else {
        before + 1
    };
    before >= SWITCH_TICKS
}

} // verus!
