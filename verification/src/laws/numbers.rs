//! Laws of numbers in texts.
use vstd::prelude::*;

use crate::text::{
    decimal, decimal_holds_digits, digit_char, digits_value, is_digit, parsed_unsigned,
    unsigned_digits,
};

verus! {

/// The digits of a number denote it, and do not start with a zero that could be left
/// out.
pub proof fn digits_denote_the_number(n: nat)
    ensures
        digits_value(decimal(n)) == n,
        n > 0 ==> decimal(n)[0] != '0',
        forall|i: int| 0 <= i < decimal(n).len() ==> '0' <= #[trigger] decimal(n)[i] <= '9',
        decimal(n).len() > 0,
    decreases n,
{
    decimal_holds_digits(n);
    assert forall|i: int| 0 <= i < decimal(n).len() implies '0' <= #[trigger] decimal(
        n,
    )[i] <= '9' by {
        assert(is_digit(decimal(n)[i]));
    }
    if n < 10 {
        let s = decimal(n);
        assert(s.last() == digit_char(n));
        assert(digits_value(s.drop_last()) == 0);
    } else {
        digits_denote_the_number(n / 10);
        let s = decimal(n);
        assert(s.drop_last() =~= decimal(n / 10));
        assert(s.last() == digit_char(n % 10));
    }
}

/// Each digit behind others counts ten times what stands before it, and itself.
pub proof fn digits_count_tenfold(s: Seq<char>, c: char)
    requires
        '0' <= c <= '9',
    ensures
        digits_value(Seq::empty()) == 0,
        digits_value(s.push(c)) == 10 * digits_value(s) + (c as nat - 48),
{
    assert(s.push(c).drop_last() =~= s);
}

/// A number is read out of its digits exactly where it is not above the bound, with or
/// without a plus sign.
pub proof fn numbers_are_read_out_of_their_digits(n: nat, max: nat)
    ensures
        n <= max ==> parsed_unsigned(decimal(n), max) == Some(n),
        n > max ==> parsed_unsigned(decimal(n), max) is None,
        n <= max ==> parsed_unsigned(seq!['+'] + decimal(n), max) == Some(n),
        n > max ==> parsed_unsigned(seq!['+'] + decimal(n), max) is None,
{
    digits_denote_the_number(n);
    let d = decimal(n);
    assert(unsigned_digits(d) == d);
    let p = seq!['+'] + d;
    assert(p.drop_first() =~= d);
    assert(unsigned_digits(p) == d);
}

/// Every row of digits is read as the number that it denotes, leading zeros or not, where
/// the number is not above the bound; with or without a plus sign.
pub proof fn rows_of_digits_are_read(d: Seq<char>, max: nat)
    requires
        d.len() > 0,
        forall|i: int| 0 <= i < d.len() ==> '0' <= #[trigger] d[i] <= '9',
    ensures
        digits_value(d) <= max ==> parsed_unsigned(d, max) == Some(digits_value(d)),
        digits_value(d) > max ==> parsed_unsigned(d, max) is None,
        parsed_unsigned(seq!['+'] + d, max) == parsed_unsigned(d, max),
{
    assert('0' <= d[0] <= '9');
    assert(unsigned_digits(d) == d);
    let p = seq!['+'] + d;
    assert(p.drop_first() =~= d);
    assert(unsigned_digits(p) == d);
    assert forall|i: int| 0 <= i < d.len() implies is_digit(#[trigger] d[i]) by {}
}

/// A text is read as a number only where it is one or more digits, with or without a
/// plus sign, that denote the number, and the number is not above the bound.
pub proof fn only_digits_are_read(s: Seq<char>, max: nat)
    requires
        parsed_unsigned(s, max) is Some,
    ensures
        parsed_unsigned(s, max)->0 <= max,
        s.len() > 0,
        s[0] == '+' ==> s.len() > 1 && digits_value(s.skip(1)) == parsed_unsigned(s, max)->0,
        s[0] != '+' ==> '0' <= s[0] <= '9' && digits_value(s) == parsed_unsigned(s, max)->0,
        forall|i: int| 0 < i < s.len() ==> '0' <= #[trigger] s[i] <= '9',
{
    let d = unsigned_digits(s);
    if s.len() > 0 && s[0] == '+' {
        assert(s.drop_first() =~= s.skip(1));
        assert forall|i: int| 0 < i < s.len() implies '0' <= #[trigger] s[i] <= '9' by {
            assert(is_digit(d[i - 1]));
        }
    } else {
        assert(d == s);
        assert(is_digit(d[0]));
        assert forall|i: int| 0 < i < s.len() implies '0' <= #[trigger] s[i] <= '9' by {
            assert(is_digit(d[i]));
        }
    }
}

} // verus!
