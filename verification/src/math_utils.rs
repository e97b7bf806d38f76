//! Conversion between durations and sample counts.
use vstd::prelude::*;

verus! {

/// The number of samples that `ms` milliseconds last at `sample_rate` hertz:
/// `ms * sample_rate / 1000`, rounded to the nearest integer, halves upwards.
pub open spec fn samples_in(ms: nat, sample_rate: nat) -> nat {
    (ms * sample_rate + 500) / 1000
}

/// `samples_in`, held to the range of `u64`.
pub open spec fn samples_in_u64(ms: nat, sample_rate: nat) -> nat {
    if samples_in(ms, sample_rate) <= u64::MAX {
        samples_in(ms, sample_rate)
    } else {
        u64::MAX as nat
    }
}

/// `samples_in(ms, sample_rate)` is the integer nearest to the exact quotient
/// `ms * sample_rate / 1000`: it is off by at most one half, and an exact half
/// is rounded upwards.
pub proof fn lemma_samples_in_is_nearest(ms: nat, sample_rate: nat)
    ensures
        1000 * samples_in(ms, sample_rate) <= ms * sample_rate + 500,
        ms * sample_rate + 500 < 1000 * (samples_in(ms, sample_rate) + 1),
{
    let p = ms * sample_rate + 500;
    assert(p == 1000 * (p / 1000) + p % 1000 && 0 <= p % 1000 < 1000) by {
        vstd::arithmetic::div_mod::lemma_fundamental_div_mod(p as int, 1000);
    }
}

/// A longer time or a higher rate never gives fewer samples.
pub proof fn lemma_samples_in_monotone(ms1: nat, sr1: nat, ms2: nat, sr2: nat)
    requires
        ms1 <= ms2,
        sr1 <= sr2,
    ensures
        samples_in(ms1, sr1) <= samples_in(ms2, sr2),
{
    assert(ms1 * sr1 <= ms2 * sr2) by (nonlinear_arith)
        requires
            ms1 <= ms2,
            sr1 <= sr2,
    ;
    vstd::arithmetic::div_mod::lemma_div_is_ordered(
        (ms1 * sr1 + 500) as int,
        (ms2 * sr2 + 500) as int,
        1000,
    );
}

/// Convert milliseconds to a sample count at the given sample rate.
///
/// The count is rounded to the nearest sample and saturates at `u64::MAX`.
pub fn ms_to_samples(ms: u64, sample_rate: u64) -> (samples: u64)
    ensures
        samples == samples_in_u64(ms as nat, sample_rate as nat),
    no_unwind
{
    let wide_ms: u128 = ms as u128;
    let wide_rate: u128 = sample_rate as u128;
    assert(wide_ms * wide_rate <= 0xFFFF_FFFF_FFFF_FFFF * 0xFFFF_FFFF_FFFF_FFFF)
        by (nonlinear_arith)
        requires
            wide_ms <= 0xFFFF_FFFF_FFFF_FFFF,
            wide_rate <= 0xFFFF_FFFF_FFFF_FFFF,
    ;
    let rounded: u128 = (wide_ms * wide_rate + 500) / 1000;
    if rounded > u64::MAX as u128 {
        u64::MAX
    } else {
        rounded as u64
    }
}

} // verus!
