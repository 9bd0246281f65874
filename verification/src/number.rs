//! Numbers of the language: IEEE-754 binary64 values, held by their bit
//! pattern. Sign handling and ordering are decided here on the bits;
//! rounding arithmetic and the reading of decimal numerals are done by
//! `rustc_apfloat`.

use vstd::prelude::*;
use std::str::FromStr;
use rustc_apfloat::ieee::Double;
use rustc_apfloat::Float;

verus! {

/// The bit pattern of `a + b`, rounded to nearest, ties to even.
pub uninterp spec fn number_sum(a: u64, b: u64) -> u64;

/// The bit pattern of `a - b`, rounded to nearest, ties to even.
pub uninterp spec fn number_difference(a: u64, b: u64) -> u64;

/// The bit pattern of `a * b`, rounded to nearest, ties to even.
pub uninterp spec fn number_product(a: u64, b: u64) -> u64;

/// The bit pattern of `a / b`, rounded to nearest, ties to even.
pub uninterp spec fn number_quotient(a: u64, b: u64) -> u64;

/// The bit pattern of the remainder of `a / b` that has the sign of `a`.
pub uninterp spec fn number_remainder(a: u64, b: u64) -> u64;

/// The bit pattern of the double nearest to a decimal numeral, where the
/// text is one.
pub uninterp spec fn number_from_decimal(text: Seq<char>) -> Option<u64>;

/// Calls `Add::add` of `rustc_apfloat::ieee::Double` on the two doubles with
/// these bit patterns and hands back the bit pattern of the value it gives.
/// The contract only names that value.
#[verifier::external_body]
pub(crate) fn sum(a: u64, b: u64) -> (r: u64)
    ensures
        r == number_sum(a, b),
{
    (Double::from_bits(a as u128) + Double::from_bits(b as u128)).value.to_bits() as u64
}

/// Calls `Sub::sub` of `rustc_apfloat::ieee::Double`; the contract only
/// names the bit pattern of the value it gives.
#[verifier::external_body]
pub(crate) fn difference(a: u64, b: u64) -> (r: u64)
    ensures
        r == number_difference(a, b),
{
    (Double::from_bits(a as u128) - Double::from_bits(b as u128)).value.to_bits() as u64
}

/// Calls `Mul::mul` of `rustc_apfloat::ieee::Double`; the contract only
/// names the bit pattern of the value it gives.
#[verifier::external_body]
pub(crate) fn product(a: u64, b: u64) -> (r: u64)
    ensures
        r == number_product(a, b),
{
    (Double::from_bits(a as u128) * Double::from_bits(b as u128)).value.to_bits() as u64
}

/// Calls `Div::div` of `rustc_apfloat::ieee::Double`; the contract only
/// names the bit pattern of the value it gives. Division by zero gives an
/// infinity or a NaN, never a failure.
#[verifier::external_body]
pub(crate) fn quotient(a: u64, b: u64) -> (r: u64)
    ensures
        r == number_quotient(a, b),
{
    (Double::from_bits(a as u128) / Double::from_bits(b as u128)).value.to_bits() as u64
}

/// Calls `Rem::rem` of `rustc_apfloat::ieee::Double`; the contract only
/// names the bit pattern of the value it gives.
#[verifier::external_body]
pub(crate) fn remainder(a: u64, b: u64) -> (r: u64)
    ensures
        r == number_remainder(a, b),
{
    (Double::from_bits(a as u128) % Double::from_bits(b as u128)).value.to_bits() as u64
}

/// Calls `FromStr::from_str` of `rustc_apfloat::ieee::Double` and hands back
/// the bit pattern of the double it read, or `None` where it refused the
/// text. The contract only names that outcome.
#[verifier::external_body]
pub(crate) fn from_decimal(text: &str) -> (r: Option<u64>)
    ensures
        r == number_from_decimal(text@),
{
    match Double::from_str(text) {
        Ok(d) => Some(d.to_bits() as u64),
        Err(_) => None,
    }
}

/// The weight of the sign bit.
pub const SIGN: u64 = 0x8000_0000_0000_0000u64;

/// The bit pattern of positive infinity.
pub const INFINITY: u64 = 0x7ff0_0000_0000_0000u64;

/// Whether the sign bit is set.
pub open spec fn is_negative(bits: u64) -> bool {
    bits >= SIGN
}

/// The bit pattern with the sign bit cleared.
pub open spec fn magnitude(bits: u64) -> int {
    if bits >= SIGN {
        bits - SIGN
    } else {
        bits as int
    }
}

/// Whether the bit pattern is one of the NaNs: all exponent bits set and a
/// fraction other than zero.
pub open spec fn is_nan(bits: u64) -> bool {
    magnitude(bits) > INFINITY
}

/// An integer that orders the doubles other than NaN as their values do;
/// the two zeros share the key 0.
pub open spec fn order_key(bits: u64) -> int {
    if is_negative(bits) {
        -magnitude(bits)
    } else {
        magnitude(bits)
    }
}

/// `a < b` on doubles: false as soon as one side is a NaN.
pub open spec fn number_less(a: u64, b: u64) -> bool {
    !is_nan(a) && !is_nan(b) && order_key(a) < order_key(b)
}

/// `a == b` on doubles: a NaN equals nothing, the two zeros are equal.
pub open spec fn number_equal(a: u64, b: u64) -> bool {
    !is_nan(a) && !is_nan(b) && order_key(a) == order_key(b)
}

/// `-a` on doubles: the same bits with the sign flipped.
pub open spec fn number_negated(a: u64) -> u64 {
    if a >= SIGN {
        (a - SIGN) as u64
    } else {
        (a + SIGN) as u64
    }
}

/// Tells whether a bit pattern is a NaN.
pub fn nan(bits: u64) -> (r: bool)
    ensures
        r == is_nan(bits),
{
    let m: u64 = if bits >= SIGN {
        bits - SIGN
    } else {
        bits
    };
    m > INFINITY
}

fn key(bits: u64) -> (k: i128)
    ensures
        k == order_key(bits),
{
    if bits >= SIGN {
        -((bits - SIGN) as i128)
    } else {
        bits as i128
    }
}

/// Flips the sign of a double.
pub fn negated(a: u64) -> (r: u64)
    ensures
        r == number_negated(a),
{
    if a >= SIGN {
        a - SIGN
    } else {
        a + SIGN
    }
}

/// Compares two doubles with `<`.
pub fn less(a: u64, b: u64) -> (r: bool)
    ensures
        r == number_less(a, b),
{
    !nan(a) && !nan(b) && key(a) < key(b)
}

/// Compares two doubles with `<=`.
pub fn less_equal(a: u64, b: u64) -> (r: bool)
    ensures
        r == (number_less(a, b) || number_equal(a, b)),
{
    !nan(a) && !nan(b) && key(a) <= key(b)
}

/// Compares two doubles with `==`.
pub fn equal(a: u64, b: u64) -> (r: bool)
    ensures
        r == number_equal(a, b),
{
    !nan(a) && !nan(b) && key(a) == key(b)
}

} // verus!
