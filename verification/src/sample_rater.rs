//! Timing bounds for one LTC bit, as sample counts at a given sample rate.
//!
//! The physical duration of one bit lies between 405 2/3 µs and 530 2/3 µs
//! across the 24–30 fps range with margin, that is between 1217/3 and
//! 1592/3 microseconds; the derived counts are widened by two samples on
//! each side for rounding slack.

use vstd::arithmetic::div_mod::lemma_div_is_ordered;
use vstd::prelude::*;

verus! {

/// Fewest samples a full bit can span at `rate` Hz.
pub open spec fn spec_min_bit_count(rate: int) -> int {
    rate * 1217 / 3000000 - 2
}

/// Most samples a full bit can span at `rate` Hz.
pub open spec fn spec_max_bit_count(rate: int) -> int {
    rate * 1592 / 3000000 + 2
}

/// Fewest samples a half bit can span at `rate` Hz.
pub open spec fn spec_min_half_count(rate: int) -> int {
    rate * 1217 / 6000000 - 2
}

/// Most samples a half bit can span at `rate` Hz.
pub open spec fn spec_max_half_count(rate: int) -> int {
    rate * 1592 / 6000000 + 2
}

/// Dividing a larger product by the same constant gives at least as much.
proof fn lemma_scaled_ordered(a: int, b: int, f: int, d: int)
    requires
        0 <= a <= b,
        f >= 0,
        d > 0,
    ensures
        a * f / d <= b * f / d,
{
    assert(a * f <= b * f) by (nonlinear_arith)
        requires
            0 <= a <= b,
            f >= 0,
    ;
    lemma_div_is_ordered(a * f, b * f, d);
}

/// The most samples a full bit can span; the rate must let a full bit
/// last at least two samples.
pub fn max_sample_count_for_bit(sample_rate: u32) -> (r: usize)
    ensures
        r == spec_max_bit_count(sample_rate as int),
{
    proof {
        lemma_scaled_ordered(sample_rate as int, 0xffff_ffff, 1592, 3000000);
    }
    let scaled: u64 = (sample_rate as u64) * 1592 / 3000000;
    (scaled + 2) as usize
}

/// The fewest samples a full bit can span.
pub fn min_sample_count_for_bit(sample_rate: u32) -> (r: usize)
    requires
        sample_rate >= 4932,
    ensures
        r == spec_min_bit_count(sample_rate as int),
{
    proof {
        lemma_scaled_ordered(4932, sample_rate as int, 1217, 3000000);
        lemma_scaled_ordered(sample_rate as int, 0xffff_ffff, 1217, 3000000);
    }
    let scaled: u64 = (sample_rate as u64) * 1217 / 3000000;
    (scaled - 2) as usize
}

/// The most samples a half bit can span.
pub fn max_sample_count_for_halfbit(sample_rate: u32) -> (r: usize)
    ensures
        r == spec_max_half_count(sample_rate as int),
{
    proof {
        lemma_scaled_ordered(sample_rate as int, 0xffff_ffff, 1592, 6000000);
    }
    let scaled: u64 = (sample_rate as u64) * 1592 / 6000000;
    (scaled + 2) as usize
}

/// The fewest samples a half bit can span; the rate must let a half bit
/// last at least two samples.
pub fn min_sample_count_for_halfbit(sample_rate: u32) -> (r: usize)
    requires
        sample_rate >= 9861,
    ensures
        r == spec_min_half_count(sample_rate as int),
{
    proof {
        lemma_scaled_ordered(9861, sample_rate as int, 1217, 6000000);
        lemma_scaled_ordered(sample_rate as int, 0xffff_ffff, 1217, 6000000);
    }
    let scaled: u64 = (sample_rate as u64) * 1217 / 6000000;
    (scaled - 2) as usize
}

} // verus!
