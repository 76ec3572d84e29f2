use vstd::prelude::*;

verus! {

/// Frequency of the `time` counter, in ticks per second (the QEMU `virt` board).
pub const CLOCK_FREQ: usize = 12_500_000;

/// Timer interrupts per second: the length of a time slice is a hundredth
/// of a second.
pub const TICKS_PER_SEC: usize = 100;

pub const MSEC_PER_SEC: usize = 1000;

pub const MICRO_PER_SEC: usize = 1_000_000;

/// The time in microseconds at counter value `ticks`.
pub fn get_time_us(ticks: usize) -> (r: usize)
    ensures
        r == ticks / (CLOCK_FREQ / MICRO_PER_SEC),
{
    ticks / (CLOCK_FREQ / MICRO_PER_SEC)
}

/// The time in milliseconds at counter value `ticks`.
pub fn get_time_ms(ticks: usize) -> (r: usize)
    ensures
        r == ticks / (CLOCK_FREQ / MSEC_PER_SEC),
{
    ticks / (CLOCK_FREQ / MSEC_PER_SEC)
}

/// The counter value at which the next timer interrupt is due when the
/// counter reads `now`: one time slice later.
pub fn set_next_trigger(now: usize) -> (r: usize)
    requires
        now + CLOCK_FREQ / TICKS_PER_SEC <= usize::MAX,
    ensures
        r == now + CLOCK_FREQ / TICKS_PER_SEC,
        r > now,
{
    now + CLOCK_FREQ / TICKS_PER_SEC
}

/// How long the sleep test program waits, in milliseconds.
pub const SLEEP_MS: isize = 30000;

/// The time until which the sleep test waits when it starts at `now`
/// (milliseconds).
pub fn sleep_deadline(now: isize) -> (r: isize)
    requires
        now + SLEEP_MS <= isize::MAX,
    ensures
        r == now + SLEEP_MS,
{
    now + SLEEP_MS
}

/// Whether the sleep test keeps waiting at time `now`.
pub fn still_sleeping(now: isize, wait_for: isize) -> (r: bool)
    ensures
        r == (now < wait_for),
{
    now < wait_for
}

} // verus!
