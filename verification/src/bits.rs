//! Bit-exact predicates, comparisons and selections on IEEE-754 binary64
//! values carried as `u64` bit patterns.
//!
//! Everything here is ordinary integer logic, verified against spec
//! functions that state the IEEE-754 classification and total comparison
//! rules directly over the bit layout: one sign bit, eleven exponent bits,
//! fifty-two fraction bits.

use vstd::prelude::*;

verus! {

/// Mask of the eleven exponent bits.
pub const EXP_MASK: u64 = 0x7FF0_0000_0000_0000;
/// Mask of the fifty-two fraction bits.
pub const FRAC_MASK: u64 = 0x000F_FFFF_FFFF_FFFF;
/// Mask of everything but the sign bit.
pub const ABS_MASK: u64 = 0x7FFF_FFFF_FFFF_FFFF;
/// The sign bit.
pub const SIGN_MASK: u64 = 0x8000_0000_0000_0000;

/// Bit pattern of positive zero.
pub const ZERO_BITS: u64 = 0x0;
/// Bit pattern of 1.0.
pub const ONE_BITS: u64 = 0x3FF0_0000_0000_0000;
/// Bit pattern of 2.0.
pub const TWO_BITS: u64 = 0x4000_0000_0000_0000;
/// Bit pattern of 0.5.
pub const HALF_BITS: u64 = 0x3FE0_0000_0000_0000;

/// A NaN: exponent all ones, fraction non-zero.
pub open spec fn is_nan_bits(x: u64) -> bool {
    (x & EXP_MASK) == EXP_MASK && (x & FRAC_MASK) != 0
}

/// An infinity of either sign: exponent all ones, fraction zero.
pub open spec fn is_infinite_bits(x: u64) -> bool {
    (x & EXP_MASK) == EXP_MASK && (x & FRAC_MASK) == 0
}

/// A finite value: exponent not all ones.
pub open spec fn is_finite_bits(x: u64) -> bool {
    (x & EXP_MASK) != EXP_MASK
}

/// A zero of either sign.
pub open spec fn is_zero_bits(x: u64) -> bool {
    (x & ABS_MASK) == 0
}

/// The sign bit is set (the value is negative, a negative zero, or a NaN
/// with sign set).
pub open spec fn sign_bits(x: u64) -> bool {
    (x & SIGN_MASK) != 0
}

/// The value with its sign bit cleared: IEEE-754 `abs`.
pub open spec fn abs_bits(x: u64) -> u64 {
    x & ABS_MASK
}

/// The IEEE-754 ordered comparison `a < b` on binary64 bit patterns:
/// false whenever either operand is NaN, the two zeros are equal, and
/// otherwise the order is by sign, then by magnitude.
pub open spec fn lt_bits(a: u64, b: u64) -> bool {
    if is_nan_bits(a) || is_nan_bits(b) {
        false
    } else if is_zero_bits(a) && is_zero_bits(b) {
        false
    } else if sign_bits(a) != sign_bits(b) {
        sign_bits(a)
    } else if !sign_bits(a) {
        a < b
    } else {
        a > b
    }
}

/// The IEEE-754 equality `a == b`: false on NaN, true on the two zeros,
/// bitwise equality otherwise.
pub open spec fn eq_bits(a: u64, b: u64) -> bool {
    &&& !is_nan_bits(a)
    &&& !is_nan_bits(b)
    &&& (a == b || (is_zero_bits(a) && is_zero_bits(b)))
}

/// The IEEE-754 ordered comparison `a <= b`.
pub open spec fn le_bits(a: u64, b: u64) -> bool {
    lt_bits(a, b) || eq_bits(a, b)
}

/// The lesser of two values by `lt_bits`, taking the first on ties or NaN.
pub open spec fn min_bits(a: u64, b: u64) -> u64 {
    if lt_bits(b, a) {
        b
    } else {
        a
    }
}

/// The greater of two values by `lt_bits`, taking the first on ties or NaN.
pub open spec fn max_bits(a: u64, b: u64) -> u64 {
    if lt_bits(a, b) {
        b
    } else {
        a
    }
}

/// The ordered comparison is irreflexive: no value is less than
/// itself.
pub proof fn lemma_lt_bits_irrefl(x: u64)
    ensures
        !lt_bits(x, x),
{
}

/// Whether `x` is a NaN.
pub fn is_nan(x: u64) -> (r: bool)
    ensures
        r == is_nan_bits(x),
{
    (x & EXP_MASK) == EXP_MASK && (x & FRAC_MASK) != 0
}

/// Whether `x` is an infinity of either sign.
pub fn is_infinite(x: u64) -> (r: bool)
    ensures
        r == is_infinite_bits(x),
{
    (x & EXP_MASK) == EXP_MASK && (x & FRAC_MASK) == 0
}

/// Whether `x` is finite (neither an infinity nor a NaN).
pub fn is_finite(x: u64) -> (r: bool)
    ensures
        r == is_finite_bits(x),
{
    (x & EXP_MASK) != EXP_MASK
}

/// `x` with the sign bit cleared: the absolute value.
pub fn abs(x: u64) -> (r: u64)
    ensures
        r == abs_bits(x),
{
    x & ABS_MASK
}

/// The IEEE-754 ordered comparison `a < b`.
pub fn lt(a: u64, b: u64) -> (r: bool)
    ensures
        r == lt_bits(a, b),
{
    let a_abs = a & ABS_MASK;
    let b_abs = b & ABS_MASK;
    if (a & EXP_MASK) == EXP_MASK && (a & FRAC_MASK) != 0 {
        false
    } else if (b & EXP_MASK) == EXP_MASK && (b & FRAC_MASK) != 0 {
        false
    } else if a_abs == 0 && b_abs == 0 {
        false
    } else if ((a & SIGN_MASK) != 0) != ((b & SIGN_MASK) != 0) {
        (a & SIGN_MASK) != 0
    } else if (a & SIGN_MASK) == 0 {
        a < b
    } else {
        a > b
    }
}

/// The IEEE-754 ordered comparison `a <= b`.
pub fn le(a: u64, b: u64) -> (r: bool)
    ensures
        r == le_bits(a, b),
{
    if (a & EXP_MASK) == EXP_MASK && (a & FRAC_MASK) != 0 {
        return false;
    }
    if (b & EXP_MASK) == EXP_MASK && (b & FRAC_MASK) != 0 {
        return false;
    }
    if a == b || ((a & ABS_MASK) == 0 && (b & ABS_MASK) == 0) {
        return true;
    }
    lt(a, b)
}

/// The lesser of two values by the ordered comparison, the first on ties
/// or when a NaN is involved.
pub fn min(a: u64, b: u64) -> (r: u64)
    ensures
        r == min_bits(a, b),
{
    if lt(b, a) {
        b
    } else {
        a
    }
}

/// The greater of two values by the ordered comparison, the first on ties
/// or when a NaN is involved.
pub fn max(a: u64, b: u64) -> (r: u64)
    ensures
        r == max_bits(a, b),
{
    if lt(a, b) {
        b
    } else {
        a
    }
}

} // verus!
