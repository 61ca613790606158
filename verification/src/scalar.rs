//! IEEE 754 binary32 scalars, carried as raw bit patterns (`u32`).
//!
//! The evaluator never touches a native float: a scalar is its bit pattern,
//! and the two rounding operations it needs — addition and multiplication —
//! are performed by the `rustc_apfloat` software implementation of IEEE 754
//! behind the two trusted wrappers below. The ReLU activation needs no
//! rounding at all: on a bit pattern it is a test of the sign bit.

use rustc_apfloat::ieee::Single;
use rustc_apfloat::Float;
use vstd::prelude::*;

verus! {

/// Mask of the sign bit of a binary32 bit pattern.
pub const SIGN_BIT: u32 = 0x8000_0000;

/// The bit pattern of the binary32 sum `a + b`, rounded to nearest with
/// ties to even. Uninterpreted: contracts carry the exact accumulation
/// structure of a computation, while the numerics of a single addition
/// stay with IEEE 754.
pub uninterp spec fn f32_add_bits(a: u32, b: u32) -> u32;

/// The bit pattern of the binary32 product `a * b`, rounded to nearest
/// with ties to even.
pub uninterp spec fn f32_mul_bits(a: u32, b: u32) -> u32;

/// Relies on `rustc_apfloat::ieee::Single` and its `Add` impl: IEEE 754
/// binary32 addition with the default rounding (nearest, ties to even),
/// a pure function of the two argument bit patterns.
#[verifier::external_body]
pub(crate) fn add_bits(a: u32, b: u32) -> (r: u32)
    ensures
        r == f32_add_bits(a, b),
{
    let x = Single::from_bits(a as u128);
    let y = Single::from_bits(b as u128);
    (x + y).value.to_bits() as u32
}

/// Relies on `rustc_apfloat::ieee::Single` and its `Mul` impl: IEEE 754
/// binary32 multiplication with the default rounding (nearest, ties to
/// even), a pure function of the two argument bit patterns.
#[verifier::external_body]
pub(crate) fn mul_bits(a: u32, b: u32) -> (r: u32)
    ensures
        r == f32_mul_bits(a, b),
{
    let x = Single::from_bits(a as u128);
    let y = Single::from_bits(b as u128);
    (x * y).value.to_bits() as u32
}

/// ReLU on a binary32 bit pattern. A pattern with the sign bit set — a
/// negative value, a negative zero, or a negative NaN — clamps to `+0.0`;
/// every other pattern passes through unchanged.
pub open spec fn relu_bits(x: u32) -> u32 {
    if x >= SIGN_BIT {
        0u32
    } else {
        x
    }
}

/// The ReLU activation, exactly `relu_bits`.
pub fn relu(x: u32) -> (r: u32)
    ensures
        r == relu_bits(x),
{
    if x >= SIGN_BIT {
        0
    } else {
        x
    }
}

} // verus!
