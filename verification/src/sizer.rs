//! The adaptive sizer: the slice budget for the next episode.

use vstd::prelude::*;

verus! {

/// The smallest slice budget handed on: with it every chunk still makes progress.
pub const MIN_BYTES_PER_SLICE: u64 = 1;

/// The budget that the shrink policy gives, before the floor is applied.
///
/// An episode that stayed within one quantum keeps what it achieved. One that
/// overshot within the second quantum gives up the overshoot's share of its
/// bytes. One that used two or more whole quanta divides its bytes by their
/// number.
pub open spec fn shrunk_budget(bytes_processed: int, consumed_timeslice: int) -> int {
    if consumed_timeslice <= 100 {
        bytes_processed
    } else if consumed_timeslice / 100 == 1 {
        bytes_processed - bytes_processed * (consumed_timeslice - 100) / 100
    } else {
        bytes_processed / (consumed_timeslice / 100)
    }
}

/// The slice budget for the next episode: the shrunk budget, but never under
/// the floor.
pub open spec fn next_slice_budget(bytes_processed: int, consumed_timeslice: int) -> int {
    let shrunk = shrunk_budget(bytes_processed, consumed_timeslice);
    if shrunk < MIN_BYTES_PER_SLICE {
        MIN_BYTES_PER_SLICE as int
    } else {
        shrunk
    }
}

/// What the shrink policy cuts off lies between nothing and everything.
pub proof fn lemma_shrunk_budget_bounds(bytes_processed: int, consumed_timeslice: int)
    requires
        0 <= bytes_processed,
        0 <= consumed_timeslice,
    ensures
        0 <= shrunk_budget(bytes_processed, consumed_timeslice) <= bytes_processed,
        consumed_timeslice / 100 == 1 ==> 0 <= bytes_processed * (consumed_timeslice - 100) / 100
            <= bytes_processed,
{
    let quanta = consumed_timeslice / 100;
    if quanta == 1 {
        let over = consumed_timeslice - 100;
        assert(0 <= bytes_processed * over <= bytes_processed * 100) by (nonlinear_arith)
            requires
                0 <= bytes_processed,
                0 <= over <= 100,
        ;
    } else if quanta >= 2 {
        assert(0 <= bytes_processed / quanta <= bytes_processed) by (nonlinear_arith)
            requires
                0 <= bytes_processed,
                1 <= quanta,
        ;
    }
}

/// An episode that overshot its quantum never gets a larger budget than the
/// bytes it processed, provided it processed any.
pub proof fn lemma_overshoot_shrinks(bytes_processed: int, consumed_timeslice: int)
    requires
        1 <= bytes_processed,
        100 < consumed_timeslice,
    ensures
        1 <= next_slice_budget(bytes_processed, consumed_timeslice) <= bytes_processed,
{
    lemma_shrunk_budget_bounds(bytes_processed, consumed_timeslice);
}

/// Computes the slice budget for the next episode from the bytes that this
/// episode processed and the percentages of the quantum that it was charged.
pub fn adjust_slice_size(bytes_processed: u64, consumed_timeslice: u128) -> (next: u64)
    ensures
        next == next_slice_budget(bytes_processed as int, consumed_timeslice as int),
        next >= MIN_BYTES_PER_SLICE,
        bytes_processed >= 1 ==> next <= bytes_processed,
        bytes_processed >= 1 && consumed_timeslice <= 100 ==> next == bytes_processed,
{
    proof {
        lemma_shrunk_budget_bounds(bytes_processed as int, consumed_timeslice as int);
    }
    let shrunk: u64 = if consumed_timeslice <= 100 {
        bytes_processed
    } else {
        let quanta: u128 = consumed_timeslice / 100;
        if quanta == 1 {
            let over: u128 = consumed_timeslice - 100;
            assert(bytes_processed * over <= u64::MAX * 100) by (nonlinear_arith)
                requires
                    0 <= bytes_processed <= u64::MAX,
                    0 <= over <= 100,
            ;
            let cut: u128 = bytes_processed as u128 * over / 100;
            bytes_processed - cut as u64
        } else {
            (bytes_processed as u128 / quanta) as u64
        }
    };
    if shrunk < MIN_BYTES_PER_SLICE {
        MIN_BYTES_PER_SLICE
    } else {
        shrunk
    }
}

} // verus!
