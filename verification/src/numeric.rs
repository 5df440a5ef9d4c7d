//! Software IEEE-754 binary64 arithmetic on bit patterns.
//!
//! The engine carries every numeric value as the 64-bit pattern of an
//! IEEE-754 binary64 number. The three operations that actually interpret
//! those bits — addition, multiplication, and truncation to a memory
//! address — are performed by the `rustc_apfloat` software implementation
//! behind the trusted wrappers below; each result is given a name that the
//! rest of the library reasons with.

use rustc_apfloat::Float;
use vstd::prelude::*;

verus! {

/// The bit pattern of the IEEE-754 binary64 sum (rounded to nearest, ties to
/// even) of the two values with the given bit patterns.
pub uninterp spec fn add_bits_of(a: u64, b: u64) -> u64;

/// The bit pattern of the IEEE-754 binary64 product (rounded to nearest,
/// ties to even) of the two values with the given bit patterns.
pub uninterp spec fn mul_bits_of(a: u64, b: u64) -> u64;

/// The value with the given bit pattern, truncated toward zero and clamped
/// to `usize` (zero for NaN and for negative values).
pub uninterp spec fn addr_of_bits(b: u64) -> usize;

/// Relies on rustc_apfloat: `Double::from_bits`, `+` (which rounds to
/// nearest, ties to even) and `to_bits`. The result depends on the operand
/// bits alone.
#[verifier::external_body]
pub(crate) fn add_bits(a: u64, b: u64) -> (r: u64)
    ensures
        r == add_bits_of(a, b),
{
    let x = rustc_apfloat::ieee::Double::from_bits(a as u128);
    let y = rustc_apfloat::ieee::Double::from_bits(b as u128);
    (x + y).value.to_bits() as u64
}

/// Relies on rustc_apfloat: `Double::from_bits`, `*` (which rounds to
/// nearest, ties to even) and `to_bits`. The result depends on the operand
/// bits alone.
#[verifier::external_body]
pub(crate) fn mul_bits(a: u64, b: u64) -> (r: u64)
    ensures
        r == mul_bits_of(a, b),
{
    let x = rustc_apfloat::ieee::Double::from_bits(a as u128);
    let y = rustc_apfloat::ieee::Double::from_bits(b as u128);
    (x * y).value.to_bits() as u64
}

/// Relies on rustc_apfloat: `Double::from_bits` and `to_u128`, which rounds
/// toward zero and returns deterministic values on invalid operations (zero
/// for NaN, the minimal or maximal integer on under- or overflow). The
/// result depends on the bits alone.
#[verifier::external_body]
pub(crate) fn bits_to_addr(b: u64) -> (r: usize)
    ensures
        r == addr_of_bits(b),
{
    let d = rustc_apfloat::ieee::Double::from_bits(b as u128);
    d.to_u128(64).value as usize
}

} // verus!
