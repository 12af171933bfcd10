//! Binary64 values as bit patterns.
//!
//! The library never rounds. It carries a double as the 64 bits of its
//! IEEE-754 encoding, decides on those bits what the encoding alone decides
//! (sign, zero, not-a-number, order), and asks its caller's arithmetic unit
//! for every operation that rounds.

use vstd::prelude::*;

verus! {

/// The sign bit of a binary64 value.
pub const SIGN_BIT: u64 = 0x8000_0000_0000_0000;

/// The encoding of positive infinity: all exponent bits set, fraction zero.
pub const POSITIVE_INFINITY: u64 = 0x7FF0_0000_0000_0000;

/// The encoding of `1.0`.
pub const ONE: u64 = 0x3FF0_0000_0000_0000;

/// One rounding operation for the caller's arithmetic unit. Operands and
/// results are binary64 bit patterns.
#[derive(Clone, Copy, PartialEq, Eq, Structural, Debug)]
pub enum FloatTask {
    /// The double nearest to an integer.
    FromInt(i128),
    /// The rounded sum.
    Add(u64, u64),
    /// The rounded product.
    Mul(u64, u64),
    /// The rounded quotient of the first by the second.
    Div(u64, u64),
}

/// What an arithmetic unit computes, as a mathematical function.
pub type FloatFn = spec_fn(FloatTask) -> u64;

/// The unit accepts every task.
pub open spec fn accepts_all<F: Fn(FloatTask) -> u64>(unit: &F) -> bool {
    forall|task: FloatTask| unit.requires((task,))
}

/// The unit returns `fl(task)` for every task, and nothing else.
pub open spec fn computes<F: Fn(FloatTask) -> u64>(unit: &F, fl: FloatFn) -> bool {
    forall|task: FloatTask, bits: u64| unit.ensures((task,), bits) ==> bits == fl(task)
}

/// The bits below the sign bit: exponent and fraction.
pub open spec fn float_magnitude(bits: u64) -> int {
    if bits >= SIGN_BIT {
        bits - SIGN_BIT
    } else {
        bits as int
    }
}

pub open spec fn float_is_negative(bits: u64) -> bool {
    bits >= SIGN_BIT
}

/// Not a number: the exponent bits are all set and the fraction is not zero.
pub open spec fn float_is_nan(bits: u64) -> bool {
    float_magnitude(bits) > POSITIVE_INFINITY
}

/// Positive or negative zero.
pub open spec fn float_is_zero(bits: u64) -> bool {
    float_magnitude(bits) == 0
}

/// The value with the opposite sign: the sign bit flipped, also for zero,
/// infinity and not-a-number.
pub open spec fn float_negated(bits: u64) -> u64 {
    if bits >= SIGN_BIT {
        (bits - SIGN_BIT) as u64
    } else {
        (bits + SIGN_BIT) as u64
    }
}

/// Strictly below zero: negative, and neither zero nor not-a-number.
pub open spec fn float_below_zero(bits: u64) -> bool {
    float_is_negative(bits) && !float_is_zero(bits) && !float_is_nan(bits)
}

/// Strictly above zero: not negative, and neither zero nor not-a-number.
pub open spec fn float_above_zero(bits: u64) -> bool {
    !float_is_negative(bits) && !float_is_zero(bits) && !float_is_nan(bits)
}

/// An integer that orders the numbers among the doubles as their values are
/// ordered: the magnitude, with the sign in front. Both zeros have rank 0.
pub open spec fn float_rank(bits: u64) -> int {
    if float_is_negative(bits) {
        -float_magnitude(bits)
    } else {
        float_magnitude(bits)
    }
}

/// Equality of doubles: not-a-number equals nothing, the two zeros are equal.
pub open spec fn float_equal(a: u64, b: u64) -> bool {
    !float_is_nan(a) && !float_is_nan(b) && float_rank(a) == float_rank(b)
}

pub fn is_nan(bits: u64) -> (r: bool)
    ensures
        r == float_is_nan(bits),
{
    if bits >= SIGN_BIT {
        bits - SIGN_BIT > POSITIVE_INFINITY
    } else {
        bits > POSITIVE_INFINITY
    }
}

pub fn is_zero(bits: u64) -> (r: bool)
    ensures
        r == float_is_zero(bits),
{
    bits == 0 || bits == SIGN_BIT
}

pub fn is_negative(bits: u64) -> (r: bool)
    ensures
        r == float_is_negative(bits),
{
    bits >= SIGN_BIT
}

pub fn negate(bits: u64) -> (r: u64)
    ensures
        r == float_negated(bits),
{
    if bits >= SIGN_BIT {
        bits - SIGN_BIT
    } else {
        bits + SIGN_BIT
    }
}

/// The rank of a double that is a number.
pub fn rank(bits: u64) -> (r: i128)
    ensures
        r == float_rank(bits),
{
    if bits >= SIGN_BIT {
        -((bits - SIGN_BIT) as i128)
    } else {
        bits as i128
    }
}

pub fn equal(a: u64, b: u64) -> (r: bool)
    ensures
        r == float_equal(a, b),
{
    !is_nan(a) && !is_nan(b) && rank(a) == rank(b)
}

} // verus!
