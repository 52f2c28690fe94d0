//! Trusted software floating-point arithmetic on bit patterns.
//!
//! Every rounding operation of the engine goes through exactly one wrapper
//! here.  Each result is a deterministic function of the argument bit
//! patterns alone, so it is given a name (an uninterpreted spec function)
//! that the contracts of the engine speak of; beside the name stand only the
//! short sign/NaN facts that the callers' proofs need, each plainly given by
//! IEEE 754 semantics of the operation.

use vstd::prelude::*;
use const_soft_float::soft_f64::SoftF64;
use rustc_apfloat::Float;
use rustc_apfloat::FloatConvert;

verus! {

/// The binary64 pattern that widening a binary32 pattern yields.
pub uninterp spec fn widen_of(x: u32) -> u64;

/// The rounded binary64 sum of two binary64 patterns.
pub uninterp spec fn add64_of(a: u64, b: u64) -> u64;

/// The rounded binary64 difference of two binary64 patterns.
pub uninterp spec fn sub64_of(a: u64, b: u64) -> u64;

/// The rounded binary64 product of two binary64 patterns.
pub uninterp spec fn mul64_of(a: u64, b: u64) -> u64;

/// The rounded binary64 quotient of two binary64 patterns.
pub uninterp spec fn div64_of(a: u64, b: u64) -> u64;

/// The correctly rounded binary64 square root of a binary64 pattern.
pub uninterp spec fn sqrt64_of(x: u64) -> u64;

/// The binary32 pattern that rounding a binary64 pattern yields.
pub uninterp spec fn narrow_of(x: u64) -> u32;

/// Relies on rustc_apfloat's Single-to-Double conversion: the exact IEEE 754
/// widening, which keeps NaN-ness and the sign.
#[verifier::external_body]
pub fn widen_f32(x: u32) -> (r: u64)
    ensures
        r == widen_of(x),
        !crate::bits::f32_is_nan(x) ==> !crate::bits::f64_is_nan(r),
        crate::bits::f32_ge_zero(x) ==> crate::bits::f64_ge_zero(r),
{
    let single = rustc_apfloat::ieee::Single::from_bits(x as u128);
    let mut loses_info = false;
    let double: rustc_apfloat::StatusAnd<rustc_apfloat::ieee::Double> =
        single.convert(&mut loses_info);
    double.value.to_bits() as u64
}

/// Relies on rustc_apfloat's Double-to-Single conversion: IEEE 754 rounding
/// to nearest, which keeps the sign and maps no number to NaN.
#[verifier::external_body]
pub fn narrow_f64(x: u64) -> (r: u32)
    ensures
        r == narrow_of(x),
        crate::bits::f64_ge_zero(x) ==> crate::bits::f32_ge_zero(r),
{
    let double = rustc_apfloat::ieee::Double::from_bits(x as u128);
    let mut loses_info = false;
    let single: rustc_apfloat::StatusAnd<rustc_apfloat::ieee::Single> =
        double.convert(&mut loses_info);
    single.value.to_bits() as u32
}

/// Relies on const_soft_float's binary64 addition: the sum of two
/// non-negative values is non-negative and never NaN.
#[verifier::external_body]
pub fn add_f64(a: u64, b: u64) -> (r: u64)
    ensures
        r == add64_of(a, b),
        crate::bits::f64_ge_zero(a) && crate::bits::f64_ge_zero(b)
            ==> crate::bits::f64_ge_zero(r),
{
    SoftF64::from_bits(a).add(SoftF64::from_bits(b)).to_bits()
}

/// Relies on const_soft_float's binary64 subtraction.
#[verifier::external_body]
pub fn sub_f64(a: u64, b: u64) -> (r: u64)
    ensures
        r == sub64_of(a, b),
{
    SoftF64::from_bits(a).sub(SoftF64::from_bits(b)).to_bits()
}

/// Relies on const_soft_float's binary64 multiplication.
#[verifier::external_body]
pub fn mul_f64(a: u64, b: u64) -> (r: u64)
    ensures
        r == mul64_of(a, b),
{
    SoftF64::from_bits(a).mul(SoftF64::from_bits(b)).to_bits()
}

/// Relies on const_soft_float's binary64 division: a non-negative finite
/// value divided by a non-negative nonzero value is non-negative and never
/// NaN.
#[verifier::external_body]
pub fn div_f64(a: u64, b: u64) -> (r: u64)
    ensures
        r == div64_of(a, b),
        crate::bits::f64_ge_zero(a) && crate::bits::f64_is_finite(a)
            && crate::bits::f64_ge_zero(b) && !crate::bits::f64_is_zero(b)
            ==> crate::bits::f64_ge_zero(r),
{
    SoftF64::from_bits(a).div(SoftF64::from_bits(b)).to_bits()
}

/// Relies on const_soft_float's binary64 square root: on a non-negative
/// value it is non-negative and never NaN.
#[verifier::external_body]
pub fn sqrt_f64(x: u64) -> (r: u64)
    ensures
        r == sqrt64_of(x),
        crate::bits::f64_ge_zero(x) ==> crate::bits::f64_ge_zero(r),
{
    SoftF64::from_bits(x).sqrt().to_bits()
}

} // verus!
