//! Numbers of the language are IEEE-754 single-precision values, held as
//! their 32-bit pattern. Arithmetic, comparison, parsing and printing go
//! through rustc_apfloat, a software implementation of IEEE-754 whose calls
//! work on bit patterns; the spec names below stand for its results, which
//! depend on the bit patterns alone.

use vstd::prelude::*;

use rustc_apfloat::ieee::Single;
use rustc_apfloat::Float;
use rustc_apfloat::Round;

verus! {

/// The IEEE-754 single-precision sum of the values with bit patterns `a` and `b`.
pub uninterp spec fn single_add(a: u32, b: u32) -> u32;

/// The IEEE-754 single-precision difference of the values with bit patterns `a` and `b`.
pub uninterp spec fn single_sub(a: u32, b: u32) -> u32;

/// The IEEE-754 single-precision product of the values with bit patterns `a` and `b`.
pub uninterp spec fn single_mul(a: u32, b: u32) -> u32;

/// The IEEE-754 single-precision quotient of the values with bit patterns `a` and `b`.
pub uninterp spec fn single_div(a: u32, b: u32) -> u32;

/// The negation of the single-precision value with bit pattern `a`.
pub uninterp spec fn single_neg(a: u32) -> u32;

/// Whether the single-precision value with bit pattern `a` is strictly below
/// the one with bit pattern `b` (false whenever either is a NaN).
pub uninterp spec fn single_lt(a: u32, b: u32) -> bool;

/// Whether the single-precision value with bit pattern `a` is below or equal
/// to the one with bit pattern `b` (false whenever either is a NaN).
pub uninterp spec fn single_le(a: u32, b: u32) -> bool;

/// IEEE-754 equality of the values with bit patterns `a` and `b`: not bit
/// equality (a NaN equals nothing, and the two zeroes equal each other).
pub uninterp spec fn single_eq(a: u32, b: u32) -> bool;

/// What the decimal reader yields for the text `s`: the single-precision
/// value, correctly rounded to nearest (ties to even), or nothing where the
/// text is not a number.
pub uninterp spec fn single_of_text(s: Seq<char>) -> Option<u32>;

/// The single-precision value of a decimal text (a text of number shape
/// always reads as a value).
pub open spec fn single_of_decimal(s: Seq<char>) -> u32 {
    match single_of_text(s) {
        Some(v) => v,
        None => 0,
    }
}

/// The text the printer yields for the value with bit pattern `a` when held
/// to at most `digits` significant decimal digits.
pub uninterp spec fn single_text_digits(a: u32, digits: usize) -> Seq<char>;

/// How many significant digits first read back to the same value, scanning
/// upward from `d`; nine digits suffice for every single-precision value,
/// so the scan is capped there.
pub open spec fn first_roundtrip_digits(a: u32, d: int) -> int
    decreases 9 - d,
{
    if d >= 9 {
        9
    } else if single_of_text(single_text_digits(a, d as usize)) == Some(a) {
        d
    } else {
        first_roundtrip_digits(a, d + 1)
    }
}

/// The printable text of the value with bit pattern `a`: the fewest
/// significant digits that read back to the same value (wide magnitudes
/// come out in exponent notation).
pub open spec fn single_text(a: u32) -> Seq<char> {
    single_text_digits(a, first_roundtrip_digits(a, 1) as usize)
}

/// A decimal digit.
pub open spec fn is_digit(c: char) -> bool {
    '0' <= c && c <= '9'
}

/// Every character of `s` is a decimal digit.
pub open spec fn all_digits(s: Seq<char>) -> bool {
    forall|i: int| 0 <= i < s.len() ==> is_digit(#[trigger] s[i])
}

/// The shape of a number literal: a run of digits, or two runs of digits
/// joined by a single point.
pub open spec fn decimal_shaped(s: Seq<char>) -> bool {
    ||| (s.len() >= 1 && all_digits(s))
    ||| (exists|k: int|
        1 <= k < s.len() - 1 && s[k] == '.' && all_digits(#[trigger] s.subrange(0, k))
            && all_digits(s.subrange(k + 1, s.len() as int)))
}

/// Relies on rustc_apfloat: `Single::add_r` with round to nearest, ties to
/// even (the `+` operator); the result depends on the two bit patterns alone.
#[verifier::external_body]
pub(crate) fn num_add(a: u32, b: u32) -> (r: u32)
    ensures
        r == single_add(a, b),
{
    (Single::from_bits(a as u128) + Single::from_bits(b as u128)).value.to_bits() as u32
}

/// Relies on rustc_apfloat: `Single::sub_r` with round to nearest, ties to
/// even (the `-` operator); the result depends on the two bit patterns alone.
#[verifier::external_body]
pub(crate) fn num_sub(a: u32, b: u32) -> (r: u32)
    ensures
        r == single_sub(a, b),
{
    (Single::from_bits(a as u128) - Single::from_bits(b as u128)).value.to_bits() as u32
}

/// Relies on rustc_apfloat: `Single::mul_r` with round to nearest, ties to
/// even (the `*` operator); the result depends on the two bit patterns alone.
#[verifier::external_body]
pub(crate) fn num_mul(a: u32, b: u32) -> (r: u32)
    ensures
        r == single_mul(a, b),
{
    (Single::from_bits(a as u128) * Single::from_bits(b as u128)).value.to_bits() as u32
}

/// Relies on rustc_apfloat: `Single::div_r` with round to nearest, ties to
/// even (the `/` operator); division by zero gives an infinity or a NaN, per
/// IEEE-754, never a fault.
#[verifier::external_body]
pub(crate) fn num_div(a: u32, b: u32) -> (r: u32)
    ensures
        r == single_div(a, b),
{
    (Single::from_bits(a as u128) / Single::from_bits(b as u128)).value.to_bits() as u32
}

/// Relies on rustc_apfloat: `Neg` for `Single` flips the sign bit.
#[verifier::external_body]
pub(crate) fn num_neg(a: u32) -> (r: u32)
    ensures
        r == single_neg(a),
{
    (-Single::from_bits(a as u128)).to_bits() as u32
}

/// Relies on rustc_apfloat: `PartialOrd` for `Single` orders by IEEE-754
/// comparison, leaving NaN unordered.
#[verifier::external_body]
pub(crate) fn num_lt(a: u32, b: u32) -> (r: bool)
    ensures
        r == single_lt(a, b),
{
    Single::from_bits(a as u128) < Single::from_bits(b as u128)
}

/// Relies on rustc_apfloat: `PartialOrd` for `Single` orders by IEEE-754
/// comparison, leaving NaN unordered.
#[verifier::external_body]
pub(crate) fn num_le(a: u32, b: u32) -> (r: bool)
    ensures
        r == single_le(a, b),
{
    Single::from_bits(a as u128) <= Single::from_bits(b as u128)
}

/// Relies on rustc_apfloat: `PartialEq` for `Single` is IEEE-754 equality.
#[verifier::external_body]
pub(crate) fn num_eq(a: u32, b: u32) -> (r: bool)
    ensures
        r == single_eq(a, b),
{
    Single::from_bits(a as u128) == Single::from_bits(b as u128)
}

/// Relies on rustc_apfloat: `Single::from_str_r` rounds a decimal text to
/// the nearest single-precision value (ties to even), fails only on a text
/// that is not a number, and so accepts every text made of digit runs with
/// at most one interior point. The result depends on the text alone.
#[verifier::external_body]
pub(crate) fn num_from_decimal(s: &str) -> (r: Option<u32>)
    ensures
        r == single_of_text(s@),
        decimal_shaped(s@) ==> r is Some,
{
    match Single::from_str_r(s, Round::NearestTiesToEven) {
        Ok(x) => Some(x.value.to_bits() as u32),
        Err(e) => None,
    }
}

/// Relies on rustc_apfloat: `Display` for `Single` with a precision flag
/// prints at most that many significant decimal digits; the text depends on
/// the bit pattern and the digit count alone.
#[verifier::external_body]
pub(crate) fn num_to_text_digits(a: u32, digits: usize) -> (r: String)
    ensures
        r@ == single_text_digits(a, digits),
{
    format!("{:.1$}", Single::from_bits(a as u128), digits)
}

/// The printable text of the value with bit pattern `a`: print with one
/// significant digit, two, and so on, and keep the first text that reads
/// back to the same value, so the text is the shortest that does.
pub fn num_to_text(a: u32) -> (r: String)
    ensures
        r@ == single_text(a),
{
    let mut d: usize = 1;
    while d < 9
        invariant
            1 <= d <= 9,
            first_roundtrip_digits(a, 1) == first_roundtrip_digits(a, d as int),
        decreases 9 - d,
    {
        let t = num_to_text_digits(a, d);
        match num_from_decimal(t.as_str()) {
            Some(v) => {
                if v == a {
                    proof {
                        assert(first_roundtrip_digits(a, d as int) == d);
                    }
                    return t;
                }
            },
            None => {},
        }
        proof {
            assert(first_roundtrip_digits(a, d as int) == first_roundtrip_digits(a, d + 1));
        }
        d = d + 1;
    }
    num_to_text_digits(a, 9)
}

} // verus!
