//! Confidence scores, held as the bits of a single-precision number.
use vstd::arithmetic::power2::{
    lemma2_to64, lemma_pow2_adds, lemma_pow2_pos, lemma_pow2_strictly_increases, pow2,
};
use vstd::prelude::*;

use crate::text::{lowercase, lowers_ascii, same_text};

verus! {

/// A confidence score: the IEEE 754 single-precision number with the bits `bits`.
#[derive(Clone, Copy, Debug, PartialEq, Eq, Structural)]
pub struct Confidence {
    pub bits: u32,
}

/// The bits of 0.0.
pub const ZERO_BITS: u32 = 0x0000_0000;

/// The bits of 1.0.
pub const ONE_BITS: u32 = 0x3f80_0000;

/// The bits of 0.9, below which a score is low.
pub const THRESHOLD_BITS: u32 = 0x3f66_6666;

/// The bits of 0.95.
pub const HIGH_BITS: u32 = 0x3f73_3333;

/// The bits of 0.6.
pub const MEDIUM_BITS: u32 = 0x3f19_999a;

/// The bits of 0.2.
pub const LOW_BITS: u32 = 0x3e4c_cccd;

/// The exponent field.
pub open spec fn exponent(bits: u32) -> nat {
    ((bits as nat) / 0x80_0000) % 0x100
}

/// The fraction field.
pub open spec fn fraction(bits: u32) -> nat {
    (bits as nat) % 0x80_0000
}

/// The sign field.
pub open spec fn negative(bits: u32) -> bool {
    bits >= 0x8000_0000
}

/// The bits denote no number.
pub open spec fn is_nan(bits: u32) -> bool {
    exponent(bits) == 255 && fraction(bits) != 0
}

/// The magnitude, in units of two to the power of minus 149, of which every
/// finite number is a multiple. An infinity counts as two to the power of 128,
/// which is above every finite number.
pub open spec fn magnitude(bits: u32) -> nat {
    if exponent(bits) == 0 {
        fraction(bits)
    } else {
        (0x80_0000 + fraction(bits)) * pow2((exponent(bits) - 1) as nat)
    }
}

/// The value, in the units of `magnitude`.
pub open spec fn value(bits: u32) -> int {
    if negative(bits) {
        -(magnitude(bits) as int)
    } else {
        magnitude(bits) as int
    }
}

/// The bits with the sign taken off, with a minus sign where it was set.
pub open spec fn rank(bits: u32) -> int {
    if negative(bits) {
        0x8000_0000 - bits
    } else {
        bits as int
    }
}

/// A larger exponent outweighs every fraction.
proof fn magnitude_of_larger_exponent(a: u32, b: u32)
    requires
        exponent(a) < exponent(b),
    ensures
        magnitude(a) < magnitude(b),
{
    let ea = exponent(a);
    let eb = exponent(b);
    let fa = fraction(a);
    let fb = fraction(b);
    let pb = pow2((eb - 1) as nat);
    lemma_pow2_pos((eb - 1) as nat);
    assert((0x80_0000 + fb) * pb >= 0x80_0000 * pb) by (nonlinear_arith)
        requires
            pb > 0,
            fb >= 0,
    ;
    if ea == 0 {
        assert(0x80_0000 * pb >= 0x80_0000) by (nonlinear_arith)
            requires
                pb >= 1,
        ;
    } else {
        let pa = pow2((ea - 1) as nat);
        lemma_pow2_pos((ea - 1) as nat);
        lemma2_to64();
        lemma_pow2_adds((ea - 1) as nat, 1);
        assert(pow2(ea) == pa * 2);
        if ea < eb - 1 {
            lemma_pow2_strictly_increases(ea, (eb - 1) as nat);
        }
        assert(2 * pa <= pb);
        assert((0x80_0000 + fa) * pa < 0x80_0000 * pb) by (nonlinear_arith)
            requires
                fa < 0x80_0000,
                pa > 0,
                2 * pa <= pb,
        ;
    }
}

/// Without the sign, the bits are ordered as the magnitudes are.
proof fn magnitude_follows_bits(a: u32, b: u32)
    requires
        a % 0x8000_0000 < b % 0x8000_0000,
    ensures
        magnitude(a) < magnitude(b),
{
    let ea = exponent(a);
    let eb = exponent(b);
    let fa = fraction(a);
    let fb = fraction(b);
    assert(a % 0x8000_0000 == ea * 0x80_0000 + fa);
    assert(b % 0x8000_0000 == eb * 0x80_0000 + fb);
    if ea < eb {
        magnitude_of_larger_exponent(a, b);
    } else {
        assert(ea == eb && fa < fb);
        if ea != 0 {
            let p = pow2((ea - 1) as nat);
            lemma_pow2_pos((ea - 1) as nat);
            assert((0x80_0000 + fa) * p < (0x80_0000 + fb) * p) by (nonlinear_arith)
                requires
                    fa < fb,
                    p > 0,
            ;
        }
    }
}

/// Equal bits, the sign aside, have equal magnitudes.
proof fn magnitude_ignores_the_sign(a: u32, b: u32)
    requires
        a % 0x8000_0000 == b % 0x8000_0000,
    ensures
        magnitude(a) == magnitude(b),
{
    assert(exponent(a) == exponent(b));
    assert(fraction(a) == fraction(b));
}

/// Ranks are ordered as the values are.
pub proof fn value_follows_rank(a: u32, b: u32)
    ensures
        value(a) < value(b) <==> rank(a) < rank(b),
        value(a) == value(b) <==> rank(a) == rank(b),
{
    let x = a % 0x8000_0000;
    let y = b % 0x8000_0000;
    assert(negative(a) ==> rank(a) == -(x as int));
    assert(!negative(a) ==> rank(a) == x);
    assert(negative(b) ==> rank(b) == -(y as int));
    assert(!negative(b) ==> rank(b) == y);
    assert(magnitude(0) == 0);
    if 0 < x {
        magnitude_follows_bits(0, a);
    } else {
        magnitude_ignores_the_sign(0, a);
    }
    if 0 < y {
        magnitude_follows_bits(0, b);
    } else {
        magnitude_ignores_the_sign(0, b);
    }
    if x < y {
        magnitude_follows_bits(a, b);
    } else if y < x {
        magnitude_follows_bits(b, a);
    } else {
        magnitude_ignores_the_sign(a, b);
    }
}

impl Confidence {
    /// The score denotes a number.
    pub open spec fn is_number(self) -> bool {
        !is_nan(self.bits)
    }

    /// The score, in units of two to the power of minus 149.
    pub open spec fn score(self) -> int {
        value(self.bits)
    }

    /// The score is a number below 0.9.
    pub open spec fn is_low(self) -> bool {
        self.is_number() && self.score() < value(THRESHOLD_BITS)
    }

    /// The score is a number from 0 to 1.
    pub open spec fn in_unit_range(self) -> bool {
        self.is_number() && 0 <= self.score() <= value(ONE_BITS)
    }

    fn number(self) -> (r: bool)
        ensures
            r == self.is_number(),
    {
        let low: u32 = self.bits % 0x8000_0000;
        assert(low == exponent(self.bits) * 0x80_0000 + fraction(self.bits));
        low <= 0x7f80_0000
    }

    fn signed_rank(self) -> (r: i64)
        ensures
            r == rank(self.bits),
    {
        if self.bits >= 0x8000_0000 {
            0x8000_0000i64 - self.bits as i64
        } else {
            self.bits as i64
        }
    }

    /// Whether the score is a number below 0.9.
    pub fn low(self) -> (r: bool)
        ensures
            r == self.is_low(),
    {
        proof {
            value_follows_rank(self.bits, THRESHOLD_BITS);
        }
        self.number() && self.signed_rank() < THRESHOLD_BITS as i64
    }

    /// Whether the score is a number from 0 to 1.
    pub fn valid(self) -> (r: bool)
        ensures
            r == self.in_unit_range(),
    {
        proof {
            value_follows_rank(self.bits, ZERO_BITS);
            value_follows_rank(ONE_BITS, self.bits);
            assert(value(ZERO_BITS) == 0);
        }
        self.number() && 0 <= self.signed_rank() && self.signed_rank() <= ONE_BITS as i64
    }
}

/// The score that a word stands for.
pub open spec fn word_confidence(word: Seq<char>) -> Option<Confidence> {
    if word == "high"@ {
        Some(Confidence { bits: HIGH_BITS })
    } else if word == "medium"@ {
        Some(Confidence { bits: MEDIUM_BITS })
    } else if word == "low"@ {
        Some(Confidence { bits: LOW_BITS })
    } else {
        None
    }
}

/// The score that a word in small letters stands for.
pub fn confidence_for_word(word: &str) -> (r: Option<Confidence>)
    ensures
        r == word_confidence(word@),
{
    if same_text(word, "high") {
        Some(Confidence { bits: HIGH_BITS })
    } else if same_text(word, "medium") {
        Some(Confidence { bits: MEDIUM_BITS })
    } else if same_text(word, "low") {
        Some(Confidence { bits: LOW_BITS })
    } else {
        None
    }
}

/// The score that a label stands for, whatever the case of its letters. A label
/// other than high, medium and low is refused.
pub fn confidence_from_label(label: &str) -> (r: Result<Confidence, String>)
    ensures
        match word_confidence(lowercase(label@)) {
            Some(c) => r == Ok::<Confidence, String>(c),
            None => r matches Err(e) && e@ == "confidence must be a number from 0 to 1"@,
        },
        lowers_ascii(label@),
{
    let word = label.to_lowercase();
    match confidence_for_word(word.as_str()) {
        Some(c) => Ok(c),
        None => Err("confidence must be a number from 0 to 1".to_owned()),
    }
}

/// Every label stands for a score from 0 to 1, and only the label for a high score
/// stands for one that is not low.
pub proof fn labels_stand_for_scores(word: Seq<char>)
    ensures
        word_confidence(word) matches Some(c) ==> c.in_unit_range() && (c.is_low() <==> word
            != "high"@),
{
    reveal_strlit("high");
    reveal_strlit("medium");
    reveal_strlit("low");
    assert(value(ZERO_BITS) == 0);
    value_follows_rank(ZERO_BITS, HIGH_BITS);
    value_follows_rank(ZERO_BITS, MEDIUM_BITS);
    value_follows_rank(ZERO_BITS, LOW_BITS);
    value_follows_rank(HIGH_BITS, ONE_BITS);
    value_follows_rank(MEDIUM_BITS, ONE_BITS);
    value_follows_rank(LOW_BITS, ONE_BITS);
    value_follows_rank(HIGH_BITS, THRESHOLD_BITS);
    value_follows_rank(MEDIUM_BITS, THRESHOLD_BITS);
    value_follows_rank(LOW_BITS, THRESHOLD_BITS);
}

/// One is two to the power of 149 units, and 0.9 is held as the multiple of its
/// spacing, two to the power of 125 units, that is nearest to nine tenths of it.
pub proof fn threshold_is_nearest_to_nine_tenths()
    ensures
        value(ONE_BITS) == pow2(149),
        -5 * pow2(125) <= 10 * value(THRESHOLD_BITS) - 9 * value(ONE_BITS) <= 5 * pow2(125),
        value(THRESHOLD_BITS) % (pow2(125) as int) == 0,
{
    assert(exponent(ONE_BITS) == 127 && fraction(ONE_BITS) == 0);
    assert(exponent(THRESHOLD_BITS) == 125 + 1 && fraction(THRESHOLD_BITS) == 0x66_6666);
    lemma2_to64();
    lemma_pow2_adds(23, 126);
    lemma_pow2_adds(24, 125);
    lemma_pow2_pos(125);
    assert(value(THRESHOLD_BITS) == 0xe6_6666 * pow2(125));
    vstd::arithmetic::div_mod::lemma_mod_multiples_basic(0xe6_6666, pow2(125) as int);
}

} // verus!
