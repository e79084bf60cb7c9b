//! Floating-point element kernels.
//!
//! The engine stores every element as a bit pattern, so the arithmetic on
//! floating-point elements works on IEEE bit patterns.  The computations
//! themselves are done by `rustc_apfloat`, a software implementation of IEEE
//! binary arithmetic that takes and returns bit patterns; each result is
//! named by an uninterpreted spec function of the operand bits alone.

use vstd::prelude::*;
use rustc_apfloat::Float;
use rustc_apfloat::FloatConvert;
use rustc_apfloat::ieee::Double;
use rustc_apfloat::ieee::Single;

verus! {

/// Bit pattern of the IEEE binary64 sum of two binary64 bit patterns.
pub uninterp spec fn f64_add_bits(a: u64, b: u64) -> u64;

/// Bit pattern of the IEEE binary64 difference of two binary64 bit patterns.
pub uninterp spec fn f64_sub_bits(a: u64, b: u64) -> u64;

/// Bit pattern of the IEEE binary64 product of two binary64 bit patterns.
pub uninterp spec fn f64_mul_bits(a: u64, b: u64) -> u64;

/// Bit pattern of the IEEE binary64 quotient of two binary64 bit patterns.
pub uninterp spec fn f64_div_bits(a: u64, b: u64) -> u64;

/// IEEE equality of two binary64 bit patterns (NaN equals nothing,
/// the two zeros are equal).
pub uninterp spec fn f64_eq_bits(a: u64, b: u64) -> bool;

/// IEEE less-than of two binary64 bit patterns (false whenever an
/// operand is NaN).
pub uninterp spec fn f64_lt_bits(a: u64, b: u64) -> bool;

/// Bit pattern of the binary64 value nearest to a 64-bit integer.
pub uninterp spec fn f64_of_i64_bits(v: i64) -> u64;

/// The 64-bit integer a binary64 bit pattern converts to, rounding
/// toward zero and saturating; NaN converts to zero.
pub uninterp spec fn f64_to_i64_val(b: u64) -> i64;

/// Bit pattern of the IEEE binary32 sum of two binary32 bit patterns.
pub uninterp spec fn f32_add_bits(a: u32, b: u32) -> u32;

/// Bit pattern of the IEEE binary32 difference of two binary32 bit patterns.
pub uninterp spec fn f32_sub_bits(a: u32, b: u32) -> u32;

/// Bit pattern of the IEEE binary32 product of two binary32 bit patterns.
pub uninterp spec fn f32_mul_bits(a: u32, b: u32) -> u32;

/// Bit pattern of the IEEE binary32 quotient of two binary32 bit patterns.
pub uninterp spec fn f32_div_bits(a: u32, b: u32) -> u32;

/// IEEE equality of two binary32 bit patterns.
pub uninterp spec fn f32_eq_bits(a: u32, b: u32) -> bool;

/// IEEE less-than of two binary32 bit patterns.
pub uninterp spec fn f32_lt_bits(a: u32, b: u32) -> bool;

/// Bit pattern of the binary32 value nearest to a 64-bit integer.
pub uninterp spec fn f32_of_i64_bits(v: i64) -> u32;

/// The 64-bit integer a binary32 bit pattern converts to, rounding
/// toward zero and saturating; NaN converts to zero.
pub uninterp spec fn f32_to_i64_val(b: u32) -> i64;

/// Bit pattern of the binary32 value nearest to a binary64 bit pattern.
pub uninterp spec fn f32_of_f64_bits(b: u64) -> u32;

/// Bit pattern of the binary64 value equal to a binary32 bit pattern.
pub uninterp spec fn f64_of_f32_bits(b: u32) -> u64;

/// Relies on rustc_apfloat's `Double` addition: the IEEE binary64 sum,
/// rounded to nearest-even, a function of the operand bits alone.
#[verifier::external_body]
pub(crate) fn f64_add(a: u64, b: u64) -> (r: u64)
    ensures
        r == f64_add_bits(a, b),
{
    (Double::from_bits(a as u128) + Double::from_bits(b as u128)).value.to_bits() as u64
}

/// Relies on rustc_apfloat's `Double` subtraction.
#[verifier::external_body]
pub(crate) fn f64_sub(a: u64, b: u64) -> (r: u64)
    ensures
        r == f64_sub_bits(a, b),
{
    (Double::from_bits(a as u128) - Double::from_bits(b as u128)).value.to_bits() as u64
}

/// Relies on rustc_apfloat's `Double` multiplication.
#[verifier::external_body]
pub(crate) fn f64_mul(a: u64, b: u64) -> (r: u64)
    ensures
        r == f64_mul_bits(a, b),
{
    (Double::from_bits(a as u128) * Double::from_bits(b as u128)).value.to_bits() as u64
}

/// Relies on rustc_apfloat's `Double` division.
#[verifier::external_body]
pub(crate) fn f64_div(a: u64, b: u64) -> (r: u64)
    ensures
        r == f64_div_bits(a, b),
{
    (Double::from_bits(a as u128) / Double::from_bits(b as u128)).value.to_bits() as u64
}

/// Relies on rustc_apfloat's `PartialEq` for `Double`, which implements the
/// IEEE comparison: NaN equals nothing and the two zeros are equal.
#[verifier::external_body]
pub(crate) fn f64_eq(a: u64, b: u64) -> (r: bool)
    ensures
        r == f64_eq_bits(a, b),
{
    Double::from_bits(a as u128) == Double::from_bits(b as u128)
}

/// Relies on rustc_apfloat's `PartialOrd` for `Double`: the IEEE ordering,
/// under which NaN is unordered.
#[verifier::external_body]
pub(crate) fn f64_lt(a: u64, b: u64) -> (r: bool)
    ensures
        r == f64_lt_bits(a, b),
{
    Double::from_bits(a as u128) < Double::from_bits(b as u128)
}

/// Relies on rustc_apfloat's `Float::from_i128` for `Double`, rounding
/// to nearest-even.
#[verifier::external_body]
pub(crate) fn f64_of_i64(v: i64) -> (r: u64)
    ensures
        r == f64_of_i64_bits(v),
{
    Double::from_i128(v as i128).value.to_bits() as u64
}

/// Relies on rustc_apfloat's `Float::to_i128` for `Double`: rounds toward
/// zero, saturates at the 64-bit range, and sends NaN to zero.
#[verifier::external_body]
pub(crate) fn f64_to_i64(b: u64) -> (r: i64)
    ensures
        r == f64_to_i64_val(b),
{
    Double::from_bits(b as u128).to_i128(64).value as i64
}

/// Relies on rustc_apfloat's `Single` addition.
#[verifier::external_body]
pub(crate) fn f32_add(a: u32, b: u32) -> (r: u32)
    ensures
        r == f32_add_bits(a, b),
{
    (Single::from_bits(a as u128) + Single::from_bits(b as u128)).value.to_bits() as u32
}

/// Relies on rustc_apfloat's `Single` subtraction.
#[verifier::external_body]
pub(crate) fn f32_sub(a: u32, b: u32) -> (r: u32)
    ensures
        r == f32_sub_bits(a, b),
{
    (Single::from_bits(a as u128) - Single::from_bits(b as u128)).value.to_bits() as u32
}

/// Relies on rustc_apfloat's `Single` multiplication.
#[verifier::external_body]
pub(crate) fn f32_mul(a: u32, b: u32) -> (r: u32)
    ensures
        r == f32_mul_bits(a, b),
{
    (Single::from_bits(a as u128) * Single::from_bits(b as u128)).value.to_bits() as u32
}

/// Relies on rustc_apfloat's `Single` division.
#[verifier::external_body]
pub(crate) fn f32_div(a: u32, b: u32) -> (r: u32)
    ensures
        r == f32_div_bits(a, b),
{
    (Single::from_bits(a as u128) / Single::from_bits(b as u128)).value.to_bits() as u32
}

/// Relies on rustc_apfloat's `PartialEq` for `Single`.
#[verifier::external_body]
pub(crate) fn f32_eq(a: u32, b: u32) -> (r: bool)
    ensures
        r == f32_eq_bits(a, b),
{
    Single::from_bits(a as u128) == Single::from_bits(b as u128)
}

/// Relies on rustc_apfloat's `PartialOrd` for `Single`.
#[verifier::external_body]
pub(crate) fn f32_lt(a: u32, b: u32) -> (r: bool)
    ensures
        r == f32_lt_bits(a, b),
{
    Single::from_bits(a as u128) < Single::from_bits(b as u128)
}

/// Relies on rustc_apfloat's `Float::from_i128` for `Single`.
#[verifier::external_body]
pub(crate) fn f32_of_i64(v: i64) -> (r: u32)
    ensures
        r == f32_of_i64_bits(v),
{
    Single::from_i128(v as i128).value.to_bits() as u32
}

/// Relies on rustc_apfloat's `Float::to_i128` for `Single`.
#[verifier::external_body]
pub(crate) fn f32_to_i64(b: u32) -> (r: i64)
    ensures
        r == f32_to_i64_val(b),
{
    Single::from_bits(b as u128).to_i128(64).value as i64
}

/// Relies on rustc_apfloat's `FloatConvert` from `Double` to `Single`,
/// rounding to nearest-even.
#[verifier::external_body]
pub(crate) fn f64_to_f32(b: u64) -> (r: u32)
    ensures
        r == f32_of_f64_bits(b),
{
    let mut loses_info = false;
    let narrowed: Single = Double::from_bits(b as u128).convert(&mut loses_info).value;
    narrowed.to_bits() as u32
}

/// Relies on rustc_apfloat's `FloatConvert` from `Single` to `Double`;
/// every binary32 value is exactly representable in binary64.
#[verifier::external_body]
pub(crate) fn f32_to_f64(b: u32) -> (r: u64)
    ensures
        r == f64_of_f32_bits(b),
{
    let mut loses_info = false;
    let widened: Double = Single::from_bits(b as u128).convert(&mut loses_info).value;
    widened.to_bits() as u64
}

} // verus!
