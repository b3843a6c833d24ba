//! Numbers of the language.
//!
//! A number is a double-precision value, carried as its IEEE 754 bit pattern
//! together with its decimal rendering. This module reads the bit pattern
//! (sign, zero, not-a-number, order); it performs no arithmetic. Values that
//! take rounding to compute, and their renderings, are made by the host that
//! runs the library and are handed in as `Number`s.

use vstd::prelude::*;

verus! {

/// The sign bit of a double.
pub const SIGN_BIT: u64 = 0x8000_0000_0000_0000;

/// The bit pattern of positive infinity; every larger magnitude is not a number.
pub const INFINITY_BITS: u64 = 0x7ff0_0000_0000_0000;

/// A double-precision number: bit pattern and decimal rendering.
#[derive(Debug, PartialEq)]
pub struct Number {
    pub bits: u64,
    pub text: String,
}

/// What a `Number` stands for in contracts.
pub struct NumberView {
    pub bits: u64,
    pub text: Seq<char>,
}

impl View for Number {
    type V = NumberView;

    open spec fn view(&self) -> NumberView {
        NumberView { bits: self.bits, text: self.text@ }
    }
}

impl Clone for Number {
    fn clone(&self) -> (copy: Self)
        ensures
            copy == *self,
    {
        Number { bits: self.bits, text: self.text.clone() }
    }
}

/// The bit pattern without its sign.
pub open spec fn magnitude(bits: u64) -> u64 {
    if bits >= SIGN_BIT {
        (bits - SIGN_BIT) as u64
    } else {
        bits
    }
}

/// Whether the sign bit is set.
pub open spec fn is_negative(bits: u64) -> bool {
    bits >= SIGN_BIT
}

/// Whether the pattern is not a number.
pub open spec fn is_nan(bits: u64) -> bool {
    magnitude(bits) > INFINITY_BITS
}

/// Whether the pattern is positive or negative zero.
pub open spec fn is_zero(bits: u64) -> bool {
    magnitude(bits) == 0
}

/// Numeric equality: nothing equals a not-a-number, the two zeros are equal,
/// and otherwise the patterns must agree.
pub open spec fn numbers_equal(a: u64, b: u64) -> bool {
    &&& !is_nan(a)
    &&& !is_nan(b)
    &&& (a == b || (is_zero(a) && is_zero(b)))
}

/// Numeric order: nothing is ordered with a not-a-number, the two zeros are
/// not ordered with each other, a negative precedes a non-negative, and
/// within one sign the magnitudes decide.
pub open spec fn number_less(a: u64, b: u64) -> bool {
    &&& !is_nan(a)
    &&& !is_nan(b)
    &&& !(is_zero(a) && is_zero(b))
    &&& if is_negative(a) {
        !is_negative(b) || magnitude(a) > magnitude(b)
    } else {
        !is_negative(b) && magnitude(a) < magnitude(b)
    }
}

/// Less than or equal.
pub open spec fn number_at_most(a: u64, b: u64) -> bool {
    number_less(a, b) || numbers_equal(a, b)
}

fn magnitude_of(bits: u64) -> (m: u64)
    ensures
        m == magnitude(bits),
{
    if bits >= SIGN_BIT {
        bits - SIGN_BIT
    } else {
        bits
    }
}

impl Number {
    /// Whether this number is not a number.
    pub fn is_nan(&self) -> (r: bool)
        ensures
            r == is_nan(self.bits),
    {
        magnitude_of(self.bits) > INFINITY_BITS
    }

    /// Whether this number is a zero of either sign.
    pub fn is_zero(&self) -> (r: bool)
        ensures
            r == is_zero(self.bits),
    {
        magnitude_of(self.bits) == 0
    }

    /// Numeric equality with `other`.
    pub fn equals(&self, other: &Number) -> (r: bool)
        ensures
            r == numbers_equal(self.bits, other.bits),
    {
        !self.is_nan() && !other.is_nan() && (self.bits == other.bits || (self.is_zero()
            && other.is_zero()))
    }

    /// Whether this number is less than `other`.
    pub fn less_than(&self, other: &Number) -> (r: bool)
        ensures
            r == number_less(self.bits, other.bits),
    {
        if self.is_nan() || other.is_nan() || (self.is_zero() && other.is_zero()) {
            false
        } else if self.bits >= SIGN_BIT {
            other.bits < SIGN_BIT || magnitude_of(self.bits) > magnitude_of(other.bits)
        } else {
            other.bits < SIGN_BIT && magnitude_of(self.bits) < magnitude_of(other.bits)
        }
    }

    /// Whether this number is less than or equal to `other`.
    pub fn at_most(&self, other: &Number) -> (r: bool)
        ensures
            r == number_at_most(self.bits, other.bits),
    {
        self.less_than(other) || self.equals(other)
    }
}

} // verus!
