//! The float interpreter.
//!
//! Floating-point arithmetic cannot be carried out in this crate, so every
//! float is handled as its raw IEEE-754 binary64 bit pattern, and each
//! operation on such patterns is delegated to an implementation of
//! [`FloatOps`] supplied by the caller.  The trait carries no contract:
//! nothing proved here depends on what an implementation answers, only on
//! where the answers are put, and every all-integer computation is pinned
//! exactly whatever the interpreter does.
use vstd::prelude::*;

verus! {

/// Operations on IEEE-754 binary64 values, given and taken as raw bit
/// patterns.  The intended implementation maps each method to the matching
/// hardware double operation; the library asks no proof of that.
pub trait FloatOps {
    /// The value denoted by float literal text: decimal digits, one dot,
    /// decimal digits.
    fn bits_of_dec(&self, text: &[u8]) -> u64;

    /// The value nearest the given signed 64-bit integer.
    fn bits_of_int(&self, i: i64) -> u64;

    /// The value truncated toward zero as a signed 64-bit integer,
    /// saturating at the type's bounds, zero for a non-number.
    fn int_of_bits(&self, a: u64) -> i64;

    /// The sum of the two values.
    fn add_bits(&self, a: u64, b: u64) -> u64;

    /// The difference of the two values.
    fn sub_bits(&self, a: u64, b: u64) -> u64;

    /// The product of the two values.
    fn mul_bits(&self, a: u64, b: u64) -> u64;

    /// The quotient of the two values.
    fn div_bits(&self, a: u64, b: u64) -> u64;

    /// The remainder of the two values.
    fn rem_bits(&self, a: u64, b: u64) -> u64;

    /// The first value raised to the second.
    fn pow_bits(&self, a: u64, b: u64) -> u64;
}

} // verus!
