//! Single values in JSON texts.
use vstd::prelude::*;

use crate::text::decimal;

verus! {

/// A character that JSON allows around a value.
pub open spec fn is_json_space(c: char) -> bool {
    c == ' ' || c == '\n' || c == '\t' || c == '\r'
}

/// `s` without the space of JSON at its start.
pub open spec fn json_trimmed_start(s: Seq<char>) -> Seq<char>
    decreases s.len(),
{
    if s.len() > 0 && is_json_space(s.first()) {
        json_trimmed_start(s.drop_first())
    } else {
        s
    }
}

/// `s` without the space of JSON at its end.
pub open spec fn json_trimmed_end(s: Seq<char>) -> Seq<char>
    decreases s.len(),
{
    if s.len() > 0 && is_json_space(s.last()) {
        json_trimmed_end(s.drop_last())
    } else {
        s
    }
}

/// `s` without the space of JSON at either end.
pub open spec fn json_trimmed(s: Seq<char>) -> Seq<char> {
    json_trimmed_end(json_trimmed_start(s))
}

/// The truth value that a JSON text holds.
pub open spec fn json_bool(text: Seq<char>) -> Option<bool> {
    if json_trimmed(text) == "true"@ {
        Some(true)
    } else if json_trimmed(text) == "false"@ {
        Some(false)
    } else {
        None
    }
}

/// The JSON text holds the whole number `n`, in decimal digits without a leading
/// zero, a sign, a fraction or an exponent.
pub open spec fn json_holds(text: Seq<char>, n: u64) -> bool {
    json_trimmed(text) == decimal(n as nat)
}

/// `serde_json::Value::as_bool`, of the value that `serde_json::from_str` reads out of
/// the text; none where it reads none. It finds a truth value in the words true and
/// false, with or without the space of JSON around them, and in no other text.
#[verifier::external_body]
pub(crate) fn bool_in_json(text: &str) -> (r: Option<bool>)
    ensures
        r == json_bool(text@),
{
    match serde_json::from_str::<serde_json::Value>(text) {
        Ok(value) => value.as_bool(),
        Err(_) => None,
    }
}

/// `serde_json::Value::as_u64`, of the value that `serde_json::from_str` reads out of
/// the text; none where it reads none. It finds each number of 64 bits in its decimal
/// digits, with or without the space of JSON around them, and none in any other text.
#[verifier::external_body]
pub(crate) fn unsigned_in_json(text: &str) -> (r: Option<u64>)
    ensures
        r matches Some(n) ==> json_holds(text@, n),
        forall|n: u64| #[trigger] json_holds(text@, n) ==> r == Some(n),
{
    match serde_json::from_str::<serde_json::Value>(text) {
        Ok(value) => value.as_u64(),
        Err(_) => None,
    }
}

} // verus!
