//! Scalar arithmetic for the simulation.
//!
//! Every scalar of the simulation is an IEEE 754 binary64 value carried as
//! its 64-bit pattern.  The arithmetic itself is done by the `softfp` crate,
//! a software implementation of IEEE 754 that works directly on bit
//! patterns, always rounding to nearest, ties to even.  Each operation is a
//! pure function of the operand bit patterns, so each result is given a name
//! here, and the contracts of the simulation are stated over those names.

use vstd::prelude::*;

verus! {

/// The bit pattern of the IEEE 754 binary64 sum of two binary64 values.
pub uninterp spec fn add_bits(a: u64, b: u64) -> u64;

/// The bit pattern of the IEEE 754 binary64 difference of two binary64 values.
pub uninterp spec fn sub_bits(a: u64, b: u64) -> u64;

/// The bit pattern of the IEEE 754 binary64 product of two binary64 values.
pub uninterp spec fn mul_bits(a: u64, b: u64) -> u64;

/// The bit pattern of the IEEE 754 binary64 quotient of two binary64 values.
pub uninterp spec fn div_bits(a: u64, b: u64) -> u64;

/// The bit pattern of the IEEE 754 binary64 square root of a binary64 value.
pub uninterp spec fn sqrt_bits(a: u64) -> u64;

#[verifier::external_type_specification]
#[verifier::external_body]
pub struct ExRoundingMode(softfp::RoundingMode);

#[verifier::external_type_specification]
#[verifier::external_body]
pub struct ExExceptionFlags(softfp::ExceptionFlags);

/// Relies on `softfp::RoundingMode`: the rounding mode handed to every
/// operation below, rounding to nearest, ties to even.
#[verifier::external_body]
fn ties_to_even() -> softfp::RoundingMode {
    softfp::RoundingMode::TiesToEven
}

/// Relies on `softfp::ExceptionFlags`: the exception flags an operation
/// raises are discarded; no result depends on them.
#[verifier::external_body]
fn discard_flags(_flags: softfp::ExceptionFlags) {
}

/// Relies on `softfp`: binary64 addition (`Add` on `softfp::F64`), rounded
/// to nearest, ties to even.  The result bits depend on the operand bits
/// alone; the two registrations fix the rounding mode and discard the
/// exception flags, which the result does not depend on.
#[verifier::external_body]
pub(crate) fn fp_add(a: u64, b: u64) -> (r: u64)
    ensures
        r == add_bits(a, b),
{
    softfp::register_get_rounding_mode(ties_to_even);
    softfp::register_set_exception_flags(discard_flags);
    (softfp::F64::new(a) + softfp::F64::new(b)).0
}

/// Relies on `softfp`: binary64 subtraction (`Sub` on `softfp::F64`),
/// rounded to nearest, ties to even.
#[verifier::external_body]
pub(crate) fn fp_sub(a: u64, b: u64) -> (r: u64)
    ensures
        r == sub_bits(a, b),
{
    softfp::register_get_rounding_mode(ties_to_even);
    softfp::register_set_exception_flags(discard_flags);
    (softfp::F64::new(a) - softfp::F64::new(b)).0
}

/// Relies on `softfp`: binary64 multiplication (`Mul` on `softfp::F64`),
/// rounded to nearest, ties to even.
#[verifier::external_body]
pub(crate) fn fp_mul(a: u64, b: u64) -> (r: u64)
    ensures
        r == mul_bits(a, b),
{
    softfp::register_get_rounding_mode(ties_to_even);
    softfp::register_set_exception_flags(discard_flags);
    (softfp::F64::new(a) * softfp::F64::new(b)).0
}

/// Relies on `softfp`: binary64 division (`Div` on `softfp::F64`), rounded
/// to nearest, ties to even.
#[verifier::external_body]
pub(crate) fn fp_div(a: u64, b: u64) -> (r: u64)
    ensures
        r == div_bits(a, b),
{
    softfp::register_get_rounding_mode(ties_to_even);
    softfp::register_set_exception_flags(discard_flags);
    (softfp::F64::new(a) / softfp::F64::new(b)).0
}

/// Relies on `softfp`: binary64 square root (`softfp::F64::square_root`),
/// rounded to nearest, ties to even.
#[verifier::external_body]
pub(crate) fn fp_sqrt(a: u64) -> (r: u64)
    ensures
        r == sqrt_bits(a),
{
    softfp::register_get_rounding_mode(ties_to_even);
    softfp::register_set_exception_flags(discard_flags);
    softfp::F64::new(a).square_root().0
}

} // verus!
