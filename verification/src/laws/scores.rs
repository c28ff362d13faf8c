//! Laws of confidence scores.
use vstd::arithmetic::power2::{lemma2_to64, lemma_pow2_adds, pow2};
use vstd::prelude::*;

use crate::confidence::{
    exponent, fraction, is_nan, magnitude, threshold_is_nearest_to_nine_tenths, value, Confidence,
    THRESHOLD_BITS,
};

verus! {

/// A score is low exactly where it is a number below nine tenths, as near as a
/// single-precision number comes to them, and is one at all exactly where it is a number
/// from 0 to 1. The unit is two to the power of minus 149.
pub proof fn scores_are_judged_by_their_value(score: Confidence)
    ensures
        score.is_low() <==> !is_nan(score.bits) && value(score.bits) < 0xe6_6666 * pow2(125),
        score.in_unit_range() <==> !is_nan(score.bits) && 0 <= value(score.bits) <= pow2(149),
{
    threshold_is_nearest_to_nine_tenths();
    assert(exponent(THRESHOLD_BITS) == 126 && fraction(THRESHOLD_BITS) == 0x66_6666);
    assert(value(THRESHOLD_BITS) == 0xe6_6666 * pow2(125));
}

/// The bits above those of infinity, the sign aside, denote no number; all others do.
pub proof fn numbers_end_at_infinity(bits: u32)
    ensures
        is_nan(bits) <==> bits % 0x8000_0000 > 0x7f80_0000,
{
    assert(bits % 0x8000_0000 == exponent(bits) * 0x80_0000 + fraction(bits));
}

/// Zero has no magnitude, the sign does not count, and the next bits are one more unit of
/// their exponent.
pub proof fn magnitudes_grow_step_by_step(bits: u32)
    requires
        bits < 0x7f80_0000,
    ensures
        magnitude(0) == 0,
        exponent(bits) == 0 ==> magnitude((bits + 1) as u32) == magnitude(bits) + 1,
        exponent(bits) > 0 ==> magnitude((bits + 1) as u32) == magnitude(bits) + pow2(
            (exponent(bits) - 1) as nat,
        ),
        magnitude((bits + 0x8000_0000) as u32) == magnitude(bits),
        value(bits) == magnitude(bits),
        value((bits + 0x8000_0000) as u32) == -(magnitude(bits) as int),
{
    let next = (bits + 1) as u32;
    let e = exponent(bits);
    let f = fraction(bits);
    lemma2_to64();
    assert(bits == e * 0x80_0000 + f);
    assert(exponent(0) == 0 && fraction(0) == 0);
    let minus = (bits + 0x8000_0000) as u32;
    assert(exponent(minus) == e && fraction(minus) == f);
    if f < 0x7f_ffff {
        assert(exponent(next) == e && fraction(next) == f + 1);
        if e > 0 {
            let p = pow2((e - 1) as nat);
            assert((0x80_0000 + (f + 1)) * p == (0x80_0000 + f) * p + p) by (nonlinear_arith);
        }
    } else {
        assert(exponent(next) == e + 1 && fraction(next) == 0);
        if e == 0 {
            assert(pow2((exponent(next) - 1) as nat) == 1);
        } else {
            let p = pow2((e - 1) as nat);
            lemma_pow2_adds((e - 1) as nat, 1);
            assert(pow2(e) == p * 2);
            assert(0x80_0000 * (p * 2) == (0x80_0000 + 0x7f_ffff) * p + p) by (nonlinear_arith);
        }
    }
}

} // verus!
