//! Arithmetic and comparison on IEEE 754 binary64 values, represented
//! throughout the library by their 64-bit pattern. The operations themselves
//! are carried out by `rustc_apfloat`, a pure-integer implementation of IEEE
//! 754; each result is given a name that the contracts of the evaluator speak
//! of exactly.

use core::str::FromStr;
use rustc_apfloat::Float;
use vstd::prelude::*;

verus! {

/// The binary64 value a decimal lexeme denotes, rounded to nearest-even, or
/// `None` where the text is not a number.
pub uninterp spec fn spec_parse_double(s: Seq<char>) -> Option<u64>;

/// The IEEE 754 sum of the two values the bit patterns denote.
pub uninterp spec fn num_add(a: u64, b: u64) -> u64;

/// The IEEE 754 difference of the two values the bit patterns denote.
pub uninterp spec fn num_sub(a: u64, b: u64) -> u64;

/// The IEEE 754 product of the two values the bit patterns denote.
pub uninterp spec fn num_mul(a: u64, b: u64) -> u64;

/// The IEEE 754 quotient of the two values the bit patterns denote.
pub uninterp spec fn num_div(a: u64, b: u64) -> u64;

/// The IEEE 754 negation of the value the bit pattern denotes.
pub uninterp spec fn num_neg(a: u64) -> u64;

/// IEEE 754 `<` on the values the bit patterns denote.
pub uninterp spec fn num_lt(a: u64, b: u64) -> bool;

/// IEEE 754 `<=` on the values the bit patterns denote.
pub uninterp spec fn num_le(a: u64, b: u64) -> bool;

/// IEEE 754 `>` on the values the bit patterns denote.
pub uninterp spec fn num_gt(a: u64, b: u64) -> bool;

/// IEEE 754 `>=` on the values the bit patterns denote.
pub uninterp spec fn num_ge(a: u64, b: u64) -> bool;

/// IEEE 754 equality on the values the bit patterns denote.
pub uninterp spec fn num_eq(a: u64, b: u64) -> bool;

/// Relies on `rustc_apfloat::ieee::Double`'s `FromStr`: a correctly rounded
/// (nearest-even) IEEE binary64 reading of a decimal lexeme, `Err` where the
/// text is not a number.
#[verifier::external_body]
pub fn parse_double(s: &str) -> (r: Option<u64>)
    ensures
        r == spec_parse_double(s@),
{
    match rustc_apfloat::ieee::Double::from_str(s) {
        Ok(d) => Some(d.to_bits() as u64),
        Err(_) => None,
    }
}

/// Relies on `Add for rustc_apfloat::ieee::Double`: IEEE 754 addition,
/// rounded to nearest-even.
#[verifier::external_body]
pub fn add_numbers(a: u64, b: u64) -> (r: u64)
    ensures
        r == num_add(a, b),
{
    let x = rustc_apfloat::ieee::Double::from_bits(a as u128);
    let y = rustc_apfloat::ieee::Double::from_bits(b as u128);
    (x + y).value.to_bits() as u64
}

/// Relies on `Sub for rustc_apfloat::ieee::Double`: IEEE 754 subtraction,
/// rounded to nearest-even.
#[verifier::external_body]
pub fn sub_numbers(a: u64, b: u64) -> (r: u64)
    ensures
        r == num_sub(a, b),
{
    let x = rustc_apfloat::ieee::Double::from_bits(a as u128);
    let y = rustc_apfloat::ieee::Double::from_bits(b as u128);
    (x - y).value.to_bits() as u64
}

/// Relies on `Mul for rustc_apfloat::ieee::Double`: IEEE 754 multiplication,
/// rounded to nearest-even.
#[verifier::external_body]
pub fn mul_numbers(a: u64, b: u64) -> (r: u64)
    ensures
        r == num_mul(a, b),
{
    let x = rustc_apfloat::ieee::Double::from_bits(a as u128);
    let y = rustc_apfloat::ieee::Double::from_bits(b as u128);
    (x * y).value.to_bits() as u64
}

/// Relies on `Div for rustc_apfloat::ieee::Double`: IEEE 754 division,
/// rounded to nearest-even; division by zero gives a signed infinity.
#[verifier::external_body]
pub fn div_numbers(a: u64, b: u64) -> (r: u64)
    ensures
        r == num_div(a, b),
{
    let x = rustc_apfloat::ieee::Double::from_bits(a as u128);
    let y = rustc_apfloat::ieee::Double::from_bits(b as u128);
    (x / y).value.to_bits() as u64
}

/// Relies on `Neg for rustc_apfloat::ieee::Double`: IEEE 754 negation, a sign
/// flip.
#[verifier::external_body]
pub fn neg_number(a: u64) -> (r: u64)
    ensures
        r == num_neg(a),
{
    let x = rustc_apfloat::ieee::Double::from_bits(a as u128);
    (-x).to_bits() as u64
}

/// Relies on `PartialOrd::lt for rustc_apfloat::ieee::Double`: IEEE 754 `<`,
/// false on any NaN operand.
#[verifier::external_body]
pub fn lt_numbers(a: u64, b: u64) -> (r: bool)
    ensures
        r == num_lt(a, b),
{
    let x = rustc_apfloat::ieee::Double::from_bits(a as u128);
    let y = rustc_apfloat::ieee::Double::from_bits(b as u128);
    x < y
}

/// Relies on `PartialOrd::le for rustc_apfloat::ieee::Double`: IEEE 754 `<=`,
/// false on any NaN operand.
#[verifier::external_body]
pub fn le_numbers(a: u64, b: u64) -> (r: bool)
    ensures
        r == num_le(a, b),
{
    let x = rustc_apfloat::ieee::Double::from_bits(a as u128);
    let y = rustc_apfloat::ieee::Double::from_bits(b as u128);
    x <= y
}

/// Relies on `PartialOrd::gt for rustc_apfloat::ieee::Double`: IEEE 754 `>`,
/// false on any NaN operand.
#[verifier::external_body]
pub fn gt_numbers(a: u64, b: u64) -> (r: bool)
    ensures
        r == num_gt(a, b),
{
    let x = rustc_apfloat::ieee::Double::from_bits(a as u128);
    let y = rustc_apfloat::ieee::Double::from_bits(b as u128);
    x > y
}

/// Relies on `PartialOrd::ge for rustc_apfloat::ieee::Double`: IEEE 754 `>=`,
/// false on any NaN operand.
#[verifier::external_body]
pub fn ge_numbers(a: u64, b: u64) -> (r: bool)
    ensures
        r == num_ge(a, b),
{
    let x = rustc_apfloat::ieee::Double::from_bits(a as u128);
    let y = rustc_apfloat::ieee::Double::from_bits(b as u128);
    x >= y
}

/// Relies on `PartialEq for rustc_apfloat::ieee::Double`: IEEE 754 equality,
/// under which the two zeroes are equal and a NaN equals nothing.
#[verifier::external_body]
pub fn eq_numbers(a: u64, b: u64) -> (r: bool)
    ensures
        r == num_eq(a, b),
{
    let x = rustc_apfloat::ieee::Double::from_bits(a as u128);
    let y = rustc_apfloat::ieee::Double::from_bits(b as u128);
    x == y
}

} // verus!
