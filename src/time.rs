use vstd::prelude::*;

use crate::fixed::{clamp, floor_div};

verus! {

/// Time is counted in flicks: `FLICKS_PER_SECOND` of them make a second, so
/// one sample period at every common sample rate is a whole number of flicks.
pub const FLICKS_PER_SECOND: i64 = 705_600_000;

/// The source index that the time `flicks` falls on at `sample_rate`,
/// rounded down and held within the range of `usize`.
pub open spec fn index_at(flicks: i64, sample_rate: u32) -> usize {
    clamp((flicks * sample_rate) / (FLICKS_PER_SECOND as int), 0, usize::MAX as int) as usize
}

/// The source index that the time `flicks` falls on at `sample_rate`.
pub fn index_at_exec(flicks: i64, sample_rate: u32) -> (r: usize)
    ensures
        r == index_at(flicks, sample_rate),
{
    proof {
        crate::easing::lemma_mul_abs(
            flicks as int,
            sample_rate as int,
            0x8000_0000_0000_0000,
            0x1_0000_0000,
        );
    }
    crate::fixed::saturate_usize(
        floor_div(flicks as i128 * sample_rate as i128, FLICKS_PER_SECOND as i128),
    )
}

/// The time, in flicks, at which source index `index` plays at
/// `sample_rate`, rounded down; zero for a sound without a rate.
pub open spec fn time_of(index: usize, sample_rate: u32) -> int {
    if sample_rate == 0 {
        0
    } else {
        (index * FLICKS_PER_SECOND) / (sample_rate as int)
    }
}

/// The time, in flicks, at which source index `index` plays at `sample_rate`.
pub fn time_of_exec(index: usize, sample_rate: u32) -> (r: u128)
    ensures
        r == time_of(index, sample_rate),
{
    if sample_rate == 0 {
        0
    } else {
        proof {
            assert(0 <= index * FLICKS_PER_SECOND <= 0x1_0000_0000_0000_0000 * 0x1_0000_0000)
                by (nonlinear_arith)
                requires
                    0 <= index <= 0x1_0000_0000_0000_0000,
            ;
        }
        (index as u128 * FLICKS_PER_SECOND as u128) / sample_rate as u128
    }
}

/// The length of one output tick at `output_rate`, in flicks, rounded down.
pub open spec fn tick_length(output_rate: u32) -> int {
    (FLICKS_PER_SECOND as int) / (output_rate as int)
}

/// At a sample rate that divides a second into whole flicks, the duration of
/// `n` frames is exact: it is `n / sample_rate` seconds.
pub proof fn lemma_duration_exact(n: usize, sample_rate: u32)
    requires
        sample_rate > 0,
        (FLICKS_PER_SECOND as int) % (sample_rate as int) == 0,
    ensures
        time_of(n, sample_rate) * sample_rate == n * FLICKS_PER_SECOND,
{
    let r = sample_rate as int;
    let q = (FLICKS_PER_SECOND as int) / r;
    vstd::arithmetic::div_mod::lemma_fundamental_div_mod(FLICKS_PER_SECOND as int, r);
    assert(n * FLICKS_PER_SECOND == (n * q) * r) by (nonlinear_arith)
        requires
            FLICKS_PER_SECOND == r * q + 0,
    ;
    crate::fixed::lemma_mul_div_cancel(n * q, r);
}

} // verus!
