//! The time budget monitor: what share of the host's quantum a chunk used.

use vstd::prelude::*;

verus! {

/// Microseconds of measured cost that count as one percent of the quantum.
pub const MICROS_PER_PERCENT: u64 = 10;

/// What the host's budget check answers when the quantum is used up.
pub const TIMESLICE_EXHAUSTED: i32 = 1;

/// A percentage brought into the range that the host's budget check accepts.
pub open spec fn clamp_percent(percent: int) -> int {
    if percent <= 0 {
        1
    } else if percent > 100 {
        100
    } else {
        percent
    }
}

/// The clamped percentage of the quantum that a cost in microseconds stands for.
pub open spec fn cost_percent(micros: int) -> int {
    clamp_percent(micros / (MICROS_PER_PERCENT as int))
}

/// Clamps a percentage to `1..=100`.
pub fn fix_range(percent: i32) -> (clamped: i32)
    ensures
        clamped == clamp_percent(percent as int),
        1 <= clamped <= 100,
{
    if percent <= 0 {
        1
    } else if percent > 100 {
        100
    } else {
        percent
    }
}

/// Converts the measured cost of a chunk to a clamped percentage of the quantum.
pub fn timeslice_percent(micros: u64) -> (percent: i32)
    ensures
        percent == cost_percent(micros as int),
        1 <= percent <= 100,
{
    let raw: u64 = micros / MICROS_PER_PERCENT;
    if raw > 100 {
        100
    } else {
        fix_range(raw as i32)
    }
}

/// Whether the answer of the host's budget check says that the quantum is used up.
pub fn timeslice_exhausted(response: i32) -> (exhausted: bool)
    ensures
        exhausted <==> response == TIMESLICE_EXHAUSTED,
{
    response == TIMESLICE_EXHAUSTED
}

} // verus!
