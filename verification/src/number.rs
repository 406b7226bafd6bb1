//! Numbers of the language: IEEE 754 double-precision values, held as their
//! 64 bits. Arithmetic and the reading of decimal literals are done by
//! `rustc_apfloat`, behind the private functions of this module.

use vstd::prelude::*;
use rustc_apfloat::ieee::Double;
use rustc_apfloat::Float;

verus! {

/// The bits of `a + b`, rounded to nearest, ties to even.
pub uninterp spec fn number_sum(a: u64, b: u64) -> u64;

/// The bits of `a - b`, rounded to nearest, ties to even.
pub uninterp spec fn number_difference(a: u64, b: u64) -> u64;

/// The bits of `a * b`, rounded to nearest, ties to even.
pub uninterp spec fn number_product(a: u64, b: u64) -> u64;

/// The bits of `a / b`, rounded to nearest, ties to even.
pub uninterp spec fn number_quotient(a: u64, b: u64) -> u64;

/// The bits of the remainder of `a` divided by `b`, with the sign of `a`.
pub uninterp spec fn number_remainder(a: u64, b: u64) -> u64;

/// The bits of the double nearest to the decimal numeral `text`, or `None`
/// where `text` is not read as a numeral.
pub uninterp spec fn decimal_value(text: Seq<char>) -> Option<u64>;

/// The text of the number with these bits, as `rustc_apfloat` prints it.
pub uninterp spec fn number_text(bits: u64) -> Seq<char>;

/// The bits of zero.
pub const ZERO: u64 = 0;

/// The bits of one.
pub const ONE: u64 = 0x3ff0_0000_0000_0000;

/// The bits of positive infinity.
pub const INFINITY: u64 = 0x7ff0_0000_0000_0000;

/// The bits of the quiet not-a-number value without payload.
pub const NAN: u64 = 0x7ff8_0000_0000_0000;

/// The bit that holds the sign.
pub const SIGN_MASK: u64 = 0x8000_0000_0000_0000;

/// Whether `bits` is a not-a-number value: all exponent bits set and a
/// fraction other than zero.
pub open spec fn is_nan(bits: u64) -> bool {
    (bits & !SIGN_MASK) > INFINITY
}

/// Whether `bits` is positive or negative zero.
pub open spec fn is_zero(bits: u64) -> bool {
    (bits & !SIGN_MASK) == 0
}

/// Numeric equality: no not-a-number value equals anything, the two zeros
/// equal each other, and otherwise the bits decide.
pub open spec fn number_eq(a: u64, b: u64) -> bool {
    !is_nan(a) && !is_nan(b) && (a == b || (is_zero(a) && is_zero(b)))
}

/// Decides `number_eq`.
pub fn numbers_equal(a: u64, b: u64) -> (r: bool)
    ensures
        r == number_eq(a, b),
{
    let abs_a: u64 = a & !SIGN_MASK;
    let abs_b: u64 = b & !SIGN_MASK;
    if abs_a > INFINITY || abs_b > INFINITY {
        false
    } else {
        a == b || (abs_a == 0 && abs_b == 0)
    }
}

/// Calls `Add::add` of `rustc_apfloat::ieee::Double` on the two values with
/// these bits, which rounds to nearest, ties to even. The result's bits are
/// named `number_sum`.
#[verifier::external_body]
pub(crate) fn sum_bits(a: u64, b: u64) -> (r: u64)
    ensures
        r == number_sum(a, b),
{
    (Double::from_bits(a as u128) + Double::from_bits(b as u128)).value.to_bits() as u64
}

/// Calls `Sub::sub` of `rustc_apfloat::ieee::Double`. The result's bits are
/// named `number_difference`.
#[verifier::external_body]
pub(crate) fn difference_bits(a: u64, b: u64) -> (r: u64)
    ensures
        r == number_difference(a, b),
{
    (Double::from_bits(a as u128) - Double::from_bits(b as u128)).value.to_bits() as u64
}

/// Calls `Mul::mul` of `rustc_apfloat::ieee::Double`. The result's bits are
/// named `number_product`.
#[verifier::external_body]
pub(crate) fn product_bits(a: u64, b: u64) -> (r: u64)
    ensures
        r == number_product(a, b),
{
    (Double::from_bits(a as u128) * Double::from_bits(b as u128)).value.to_bits() as u64
}

/// Calls `Div::div` of `rustc_apfloat::ieee::Double`. The result's bits are
/// named `number_quotient`.
#[verifier::external_body]
pub(crate) fn quotient_bits(a: u64, b: u64) -> (r: u64)
    ensures
        r == number_quotient(a, b),
{
    (Double::from_bits(a as u128) / Double::from_bits(b as u128)).value.to_bits() as u64
}

/// Calls `Rem::rem` of `rustc_apfloat::ieee::Double`, which is the C `fmod`.
/// The result's bits are named `number_remainder`.
#[verifier::external_body]
pub(crate) fn remainder_bits(a: u64, b: u64) -> (r: u64)
    ensures
        r == number_remainder(a, b),
{
    (Double::from_bits(a as u128) % Double::from_bits(b as u128)).value.to_bits() as u64
}

/// Calls `FromStr::from_str` of `rustc_apfloat::ieee::Double` on `text`. The
/// bits of what it reads, or `None` where it refuses the text, are named
/// `decimal_value`.
#[verifier::external_body]
pub(crate) fn decimal_bits(text: &str) -> (r: Option<u64>)
    ensures
        r == decimal_value(text@),
{
    text.parse::<Double>().ok().map(|d| d.to_bits() as u64)
}

/// Formats the value with these bits through the `Display` impl of
/// `rustc_apfloat::ieee::Double`. The text is named `number_text`.
#[verifier::external_body]
pub(crate) fn text_of_bits(bits: u64) -> (r: String)
    ensures
        r@ == number_text(bits),
{
    format!("{}", Double::from_bits(bits as u128))
}

} // verus!
