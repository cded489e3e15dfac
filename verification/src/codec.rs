//! Short codes: identifiers written in base 62 at a fixed width.

use vstd::arithmetic::div_mod::{lemma_basic_div, lemma_div_denominator, lemma_mod_breakdown};
use vstd::prelude::*;
use vstd::string::*;

verus! {

/// The glyph of a base-62 digit: `0` to `9`, then `A` to `Z`, then `a` to `z`.
pub open spec fn base62_glyph(d: int) -> char {
    if d < 10 {
        ('0' as int + d) as char
    } else if d < 36 {
        ('A' as int + (d - 10)) as char
    } else {
        ('a' as int + (d - 36)) as char
    }
}

/// Whether `c` is a glyph of the base-62 alphabet.
pub open spec fn is_base62_glyph(c: char) -> bool {
    ('0' <= c <= '9') || ('A' <= c <= 'Z') || ('a' <= c <= 'z')
}

/// 62 to the power `k`.
pub open spec fn pow62(k: nat) -> nat
    decreases k,
{
    if k == 0 {
        1
    } else {
        62 * pow62((k - 1) as nat)
    }
}

/// The base-62 digit of `n` at place `k`, place 0 being the least significant.
pub open spec fn digit_at(n: nat, k: nat) -> int {
    (n as int / pow62(k) as int) % 62
}

/// `n` in base 62, most significant digit first, without leading zeros.
pub open spec fn base62_digits(n: nat) -> Seq<char>
    decreases n,
{
    if n < 62 {
        seq![base62_glyph(n as int)]
    } else {
        base62_digits(n / 62).push(base62_glyph((n % 62) as int))
    }
}

/// The short code of `id` at width `length`: the `length` least significant
/// base-62 digits of `id`, most significant first.
pub open spec fn short_code_of(id: nat, length: nat) -> Seq<char> {
    Seq::new(length, |i: int| base62_glyph(digit_at(id, (length - 1 - i) as nat)))
}

/// Why an identifier has no short code.
#[derive(Debug, Clone, Copy, PartialEq, Eq, Structural)]
pub enum EncodeError {
    /// The identifier is below zero.
    NegativeId,
}

impl EncodeError {
    /// The reason in words.
    pub fn message(&self) -> (text: &'static str)
        ensures
            text@ == "id must be non-negative"@,
    {
        "id must be non-negative"
    }
}

/// `base62::encode` on a `u64`: the number in positional base 62 over the
/// alphabet `0-9A-Za-z`, most significant digit first, `0` for zero and no
/// leading zero otherwise.
#[verifier::external_body]
fn base62_encode(n: u64) -> (text: String)
    ensures
        text@ == base62_digits(n as nat),
{
    base62::encode(n)
}

proof fn lemma_pow62_positive(k: nat)
    ensures
        pow62(k) > 0,
    decreases k,
{
    if k > 0 {
        lemma_pow62_positive((k - 1) as nat);
    }
}

proof fn lemma_pow62_monotonic(j: nat, k: nat)
    requires
        j <= k,
    ensures
        pow62(j) <= pow62(k),
    decreases k,
{
    if j < k {
        lemma_pow62_monotonic(j, (k - 1) as nat);
        lemma_pow62_positive((k - 1) as nat);
    }
}

/// The digit of `n` at place `k + 1` is the digit of `n / 62` at place `k`.
proof fn lemma_digit_at_shift(n: nat, k: nat)
    ensures
        digit_at(n, k + 1) == digit_at(n / 62, k),
{
    lemma_pow62_positive(k);
    lemma_div_denominator(n as int, 62, pow62(k) as int);
}

/// The digits of `n` are its base-62 places from the top one down, and `n`
/// has no place beyond them.
proof fn lemma_base62_digits_places(n: nat)
    ensures
        base62_digits(n).len() >= 1,
        n < pow62(base62_digits(n).len()),
        forall|i: int|
            0 <= i < base62_digits(n).len() ==> #[trigger] base62_digits(n)[i] == base62_glyph(
                digit_at(n, (base62_digits(n).len() - 1 - i) as nat),
            ),
    decreases n,
{
    reveal_with_fuel(pow62, 2);
    assert(digit_at(n, 0) == n % 62) by {
        let unit = pow62(0) as int;
        assert(unit == 1);
        assert(n as int / unit == n as int) by (nonlinear_arith)
            requires
                unit == 1,
        ;
    }
    if n >= 62 {
        let high = n / 62;
        let digits = base62_digits(n);
        let upper = base62_digits(high);
        lemma_base62_digits_places(high);
        assert(digits.len() == upper.len() + 1);
        assert forall|i: int| 0 <= i < digits.len() implies #[trigger] digits[i] == base62_glyph(
            digit_at(n, (digits.len() - 1 - i) as nat),
        ) by {
            if i < upper.len() {
                let place = (upper.len() - 1 - i) as nat;
                lemma_digit_at_shift(n, place);
                assert(digits[i] == upper[i]);
                assert((digits.len() - 1 - i) as nat == place + 1);
            } else {
                assert(digits[i] == base62_glyph((n % 62) as int));
            }
        }
    } else {
        assert(base62_digits(n)[0] == base62_glyph(n as int));
    }
}

/// A place at or beyond the number of digits of `n` holds zero.
proof fn lemma_digit_at_beyond(n: nat, k: nat)
    requires
        n < pow62(k),
    ensures
        digit_at(n, k) == 0,
{
    lemma_basic_div(n as int, pow62(k) as int);
}

/// Every short code has exactly the asked width and holds base-62 glyphs only.
pub proof fn lemma_short_code_shape(id: nat, length: nat)
    ensures
        short_code_of(id, length).len() == length,
        forall|i: int|
            0 <= i < length ==> is_base62_glyph(#[trigger] short_code_of(id, length)[i]),
{
    lemma_pow62_positive(0);
    assert forall|i: int| 0 <= i < length implies is_base62_glyph(
        #[trigger] short_code_of(id, length)[i],
    ) by {
        let d = digit_at(id, (length - 1 - i) as nat);
        assert(0 <= d < 62);
    }
}

/// Two base-62 digits with the same glyph are the same digit.
proof fn lemma_glyph_injective(a: int, b: int)
    requires
        0 <= a < 62,
        0 <= b < 62,
        base62_glyph(a) == base62_glyph(b),
    ensures
        a == b,
{
}

/// Numbers that agree on their `k` lowest places agree modulo `62^k`.
proof fn lemma_low_places_determine(a: nat, b: nat, k: nat)
    requires
        forall|j: nat| j < k ==> digit_at(a, j) == digit_at(b, j),
    ensures
        a % pow62(k) == b % pow62(k),
    decreases k,
{
    if k > 0 {
        let below = (k - 1) as nat;
        lemma_low_places_determine(a, b, below);
        lemma_pow62_positive(below);
        lemma_mod_breakdown(a as int, pow62(below) as int, 62);
        lemma_mod_breakdown(b as int, pow62(below) as int, 62);
        assert(digit_at(a, below) == digit_at(b, below));
        assert(pow62(k) as int == pow62(below) as int * 62) by (nonlinear_arith)
            requires
                pow62(k) == 62 * pow62(below),
        ;
    }
}

/// Identifiers below `62^length` have different short codes of width
/// `length`: no two of them are written alike.
pub proof fn lemma_short_code_injective(a: nat, b: nat, length: nat)
    requires
        a < pow62(length),
        b < pow62(length),
        short_code_of(a, length) == short_code_of(b, length),
    ensures
        a == b,
{
    assert forall|j: nat| j < length implies digit_at(a, j) == digit_at(b, j) by {
        let i = length - 1 - j;
        assert((length - 1 - i) as nat == j);
        assert(short_code_of(a, length)[i] == base62_glyph(digit_at(a, j)));
        assert(short_code_of(b, length)[i] == base62_glyph(digit_at(b, j)));
        lemma_pow62_positive(j);
        lemma_glyph_injective(digit_at(a, j), digit_at(b, j));
    }
    lemma_low_places_determine(a, b, length);
    vstd::arithmetic::div_mod::lemma_small_mod(a, pow62(length));
    vstd::arithmetic::div_mod::lemma_small_mod(b, pow62(length));
}

/// Padding the digits of `id` with zeros on the left, or keeping their
/// rightmost `length`, gives the short code of `id`.
proof fn lemma_fit_is_short_code(id: nat, length: nat, fitted: Seq<char>)
    requires
        ({
            let digits = base62_digits(id);
            if digits.len() < length {
                fitted == Seq::new((length - digits.len()) as nat, |i: int| '0') + digits
            } else {
                fitted == digits.subrange(digits.len() - length, digits.len() as int)
            }
        }),
    ensures
        fitted == short_code_of(id, length),
{
    let digits = base62_digits(id);
    let code = short_code_of(id, length);
    lemma_base62_digits_places(id);
    assert forall|i: int| 0 <= i < length implies fitted[i] == code[i] by {
        let place = (length - 1 - i) as nat;
        if place >= digits.len() {
            lemma_pow62_monotonic(digits.len(), place);
            lemma_digit_at_beyond(id, place);
        } else {
            assert(digits[digits.len() - 1 - place] == base62_glyph(digit_at(id, place)));
        }
    }
    assert(fitted =~= code);
}

/// The short code of `id` at width `length`: `id` in base 62, padded on the
/// left with the zero glyph where it is shorter and cut to its rightmost
/// `length` glyphs where it is longer. An identifier below zero has none.
pub fn encode_id(id: i64, length: usize) -> (result: Result<String, EncodeError>)
    ensures
        id < 0 ==> result == Err::<String, EncodeError>(EncodeError::NegativeId),
        id >= 0 ==> result is Ok && result->Ok_0@ == short_code_of(id as nat, length as nat),
{
    if id < 0 {
        return Err(EncodeError::NegativeId);
    }
    let encoded = base62_encode(id as u64);
    let count: usize = encoded.as_str().unicode_len();
    proof {
        lemma_base62_digits_places(id as nat);
    }
    if count < length {
        let mut padded = String::new();
        let mut width: usize = count;
        while width < length
            invariant
                count <= width <= length,
                padded@ == Seq::new((width - count) as nat, |i: int| '0'),
            decreases length - width,
        {
            proof {
                reveal_strlit("0");
            }
            padded.append("0");
            width = width + 1;
            assert(padded@ =~= Seq::new((width - count) as nat, |i: int| '0'));
        }
        padded.append(encoded.as_str());
        proof {
            lemma_fit_is_short_code(id as nat, length as nat, padded@);
        }
        Ok(padded)
    } else {
        let tail = String::from_str(encoded.as_str().substring_char(count - length, count));
        proof {
            lemma_fit_is_short_code(id as nat, length as nat, tail@);
        }
        Ok(tail)
    }
}

} // verus!
