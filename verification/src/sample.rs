//! Samples at the boundary: telling finite samples from infinities and
//! not-a-number values by their bits.
//!
//! A sample is a 32-bit binary floating-point number: one sign bit, eight
//! exponent bits, twenty-three fraction bits. It is finite unless all of
//! its exponent bits are set.
use vstd::prelude::*;

verus! {

/// The exponent bits of a sample.
pub const EXPONENT_MASK: u32 = 0x7F80_0000;

/// The sign bit of a sample.
pub const SIGN_MASK: u32 = 0x8000_0000;

/// The bits of the sample zero.
pub const ZERO_BITS: u32 = 0;

/// The sample with these bits is finite: neither an infinity nor
/// not-a-number.
pub open spec fn is_finite_bits(bits: u32) -> bool {
    bits & EXPONENT_MASK != EXPONENT_MASK
}

/// The sample that goes into the signal path for an input sample: the
/// sample itself where it is finite, zero otherwise.
pub open spec fn sanitized(bits: u32) -> u32 {
    if is_finite_bits(bits) {
        bits
    } else {
        ZERO_BITS
    }
}

/// Whether the sample with these bits is finite.
pub fn is_finite_sample(bits: u32) -> (finite: bool)
    ensures
        finite == is_finite_bits(bits),
    no_unwind
{
    bits & EXPONENT_MASK != EXPONENT_MASK
}

/// Replace a sample that is not finite by zero; a finite sample passes
/// unchanged.
pub fn sanitize_sample(bits: u32) -> (clean: u32)
    ensures
        clean == sanitized(bits),
        is_finite_bits(clean),
    no_unwind
{
    proof {
        lemma_sanitized_is_finite(bits);
    }
    if bits & EXPONENT_MASK != EXPONENT_MASK {
        bits
    } else {
        ZERO_BITS
    }
}

/// Whatever comes in, what goes into the signal path is finite, and
/// sanitizing it again changes nothing.
pub proof fn lemma_sanitized_is_finite(bits: u32)
    ensures
        is_finite_bits(sanitized(bits)),
        sanitized(sanitized(bits)) == sanitized(bits),
{
    assert(0u32 & 0x7F80_0000u32 != 0x7F80_0000u32) by (bit_vector);
}

/// Whether a sample is finite does not depend on its sign.
pub proof fn lemma_finite_whatever_the_sign(bits: u32)
    ensures
        is_finite_bits(bits ^ SIGN_MASK) == is_finite_bits(bits),
{
    assert((bits ^ 0x8000_0000u32) & 0x7F80_0000u32 == bits & 0x7F80_0000u32) by (bit_vector);
}

/// The two infinities and every not-a-number value are exactly the samples
/// whose exponent bits are all set; every sample below the positive
/// infinity, taken without its sign, is finite.
pub proof fn lemma_finite_is_below_infinity(bits: u32)
    ensures
        is_finite_bits(bits) <==> (bits & !SIGN_MASK) < EXPONENT_MASK,
{
    assert((bits & 0x7F80_0000u32 != 0x7F80_0000u32) <==> (bits & !0x8000_0000u32)
        < 0x7F80_0000u32) by (bit_vector);
}

} // verus!
