//! Text helpers shared by the services: comparison, decimal numbers,
//! substring search and replacement.

use vstd::prelude::*;
use vstd::string::*;

verus! {

/// The decimal glyph of a digit value `0..=9`.
pub open spec fn digit_glyph(d: int) -> char {
    ('0' as int + d) as char
}

/// Whether `c` is one of `0` to `9`.
pub open spec fn is_digit(c: char) -> bool {
    '0' <= c <= '9'
}

/// The value of the decimal glyph `c`.
pub open spec fn digit_value(c: char) -> int {
    c as int - '0' as int
}

/// The decimal digits of `n`, most significant first, without leading zeros.
pub open spec fn decimal_digits(n: nat) -> Seq<char>
    decreases n,
{
    if n < 10 {
        seq![digit_glyph(n as int)]
    } else {
        decimal_digits(n / 10).push(digit_glyph((n % 10) as int))
    }
}

/// The decimal text of `v`: a minus sign for a negative value, then its digits.
pub open spec fn decimal_text(v: int) -> Seq<char> {
    if v < 0 {
        seq!['-'] + decimal_digits((-v) as nat)
    } else {
        decimal_digits(v as nat)
    }
}

/// The number that a run of decimal digits denotes.
pub open spec fn digits_value(s: Seq<char>) -> int
    decreases s.len(),
{
    if s.len() == 0 {
        0
    } else {
        digits_value(s.drop_last()) * 10 + digit_value(s.last())
    }
}

/// Whether every character of `s` is a decimal digit.
pub open spec fn all_digits(s: Seq<char>) -> bool {
    forall|i: int| 0 <= i < s.len() ==> is_digit(#[trigger] s[i])
}

/// What reading `s` as a decimal integer within `lo..=hi` gives: an optional
/// `+` (or `-`, where `signed`), then one or more digits and nothing else.
pub open spec fn parse_decimal(s: Seq<char>, signed: bool, lo: int, hi: int) -> Option<int> {
    let negative = signed && s.len() > 0 && s[0] == '-';
    let body = if s.len() > 0 && (s[0] == '+' || negative) {
        s.skip(1)
    } else {
        s
    };
    let value = if negative {
        -digits_value(body)
    } else {
        digits_value(body)
    };
    if body.len() > 0 && all_digits(body) && lo <= value <= hi {
        Some(value)
    } else {
        None
    }
}

/// Whether `needle` occurs in `s` at position `at`.
pub open spec fn occurs_at(s: Seq<char>, needle: Seq<char>, at: int) -> bool {
    0 <= at && at + needle.len() <= s.len() && s.subrange(at, at + needle.len()) == needle
}

/// Whether `needle` occurs somewhere in `s`.
pub open spec fn contains_text(s: Seq<char>, needle: Seq<char>) -> bool {
    exists|at: int| occurs_at(s, needle, at)
}

/// `s` with every occurrence of `from`, found left to right without overlap,
/// replaced by `to`.
pub open spec fn replaced(s: Seq<char>, from: Seq<char>, to: Seq<char>) -> Seq<char>
    decreases s.len(),
{
    if from.len() == 0 || s.len() < from.len() {
        s
    } else if occurs_at(s, from, 0) {
        to + replaced(s.skip(from.len() as int), from, to)
    } else {
        seq![s[0]] + replaced(s.skip(1), from, to)
    }
}

/// Whether two texts hold the same characters.
pub fn str_eq(a: &str, b: &str) -> (same: bool)
    ensures
        same == (a@ == b@),
{
    let left = String::from_str(a);
    let right = String::from_str(b);
    left == right
}

/// `i64::to_string`: the decimal text of `v`, with a leading `-` for a
/// negative value and no other sign, padding or separator.
#[verifier::external_body]
pub(crate) fn i64_to_text(v: i64) -> (text: String)
    ensures
        text@ == decimal_text(v as int),
{
    v.to_string()
}

/// `str::parse::<i64>`: accepts an optional sign followed by decimal digits
/// only, and fails on anything else or on a value outside `i64`.
#[verifier::external_body]
pub(crate) fn parse_i64(s: &str) -> (value: Option<i64>)
    ensures
        match parse_decimal(s@, true, i64::MIN as int, i64::MAX as int) {
            Some(v) => value == Some(v as i64),
            None => value is None,
        },
{
    s.parse::<i64>().ok()
}

/// `str::parse::<u64>`: accepts an optional `+` followed by decimal digits
/// only, and fails on anything else or on a value outside `u64`.
#[verifier::external_body]
pub(crate) fn parse_u64(s: &str) -> (value: Option<u64>)
    ensures
        match parse_decimal(s@, false, 0, u64::MAX as int) {
            Some(v) => value == Some(v as u64),
            None => value is None,
        },
{
    s.parse::<u64>().ok()
}

/// `str::contains` with a text pattern: whether `needle` occurs in `s`.
#[verifier::external_body]
pub(crate) fn text_contains(s: &str, needle: &str) -> (found: bool)
    ensures
        found == contains_text(s@, needle@),
{
    s.contains(needle)
}

/// `str::replace` with a text pattern that is not empty: every match of
/// `from`, taken left to right without overlap, becomes `to`.
#[verifier::external_body]
pub(crate) fn text_replace(s: &str, from: &str, to: &str) -> (out: String)
    requires
        from@.len() > 0,
    ensures
        out@ == replaced(s@, from@, to@),
{
    s.replace(from, to)
}

} // verus!
