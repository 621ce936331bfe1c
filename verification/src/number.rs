//! Numbers are IEEE 754 double precision values, held by their bit patterns.
//!
//! Arithmetic on them, and turning them to and from decimal text, is the
//! host's work. What can be read off the bits is decided here: whether a
//! number is zero, how two numbers compare, and which array index a number
//! stands for.
use vstd::prelude::*;

verus! {

/// The bit of the sign.
pub const SIGN: u64 = 0x8000_0000_0000_0000;

/// Positive infinity. Every pattern with a larger magnitude is not a number.
pub const INFINITY: u64 = 0x7FF0_0000_0000_0000;

/// The number 0.
pub const ZERO: u64 = 0;

/// The number 1.
pub const ONE: u64 = 0x3FF0_0000_0000_0000;

/// The weight of the hidden bit of a significand.
pub const HIDDEN: u64 = 0x0010_0000_0000_0000;

/// The largest whole number up to which every whole number is a double.
pub const EXACT: u64 = 0x0020_0000_0000_0000;

/// The bits of a significand `s`, which stands for the whole number
/// `s * 2^(e - 52)`, once it is scaled up to the hidden bit.
pub open spec fn scaled(s: nat, e: nat) -> nat
    decreases e,
{
    if s >= HIDDEN || e == 0 {
        ((1023 + e) * HIDDEN + s - HIDDEN) as nat
    } else {
        scaled(2 * s, (e - 1) as nat)
    }
}

/// The bits of the double that is the whole number `n`, which is at most
/// [`EXACT`].
pub open spec fn whole_bits(n: nat) -> u64 {
    if n == 0 {
        0
    } else if n >= EXACT {
        ((1023 + 53) * HIDDEN) as u64
    } else {
        scaled(n, 52) as u64
    }
}

/// The bits without the sign.
pub open spec fn magnitude(bits: u64) -> u64 {
    bits % SIGN
}

/// Whether the sign bit is set.
pub open spec fn negative(bits: u64) -> bool {
    bits >= SIGN
}

/// Whether the bits stand for no number.
pub open spec fn is_nan(bits: u64) -> bool {
    magnitude(bits) > INFINITY
}

/// Whether the bits stand for zero, of either sign.
pub open spec fn is_zero(bits: u64) -> bool {
    magnitude(bits) == 0
}

/// An integer that orders the numbers as their values do: among patterns
/// that stand for numbers, a larger value has a larger rank, and the two
/// zeros share one.
pub open spec fn rank(bits: u64) -> int {
    if negative(bits) {
        -(magnitude(bits) as int)
    } else {
        magnitude(bits) as int
    }
}

/// Whether two numbers are equal. What is not a number equals nothing.
pub open spec fn equal(a: u64, b: u64) -> bool {
    !is_nan(a) && !is_nan(b) && rank(a) == rank(b)
}

/// Whether `a` is greater than `b`. What is not a number compares with
/// nothing.
pub open spec fn greater(a: u64, b: u64) -> bool {
    !is_nan(a) && !is_nan(b) && rank(a) > rank(b)
}

/// The whole part of a number, as far as 64 bits hold it: 0 for what is
/// negative, below 1 or not a number, and the largest value for what is too
/// large.
pub open spec fn whole(bits: u64) -> u64 {
    let exponent = magnitude(bits) / HIDDEN;
    let significand = (HIDDEN + magnitude(bits) % HIDDEN) as u64;
    if negative(bits) || is_nan(bits) || exponent < 1023 {
        0
    } else if exponent >= 1087 {
        u64::MAX
    } else if exponent >= 1075 {
        significand << ((exponent - 1075) as u64)
    } else {
        significand >> ((1075 - exponent) as u64)
    }
}

/// The array index that a number stands for: its whole part, as far as an
/// index can hold it.
pub open spec fn index_of(bits: u64) -> usize {
    if whole(bits) > usize::MAX {
        usize::MAX
    } else {
        whole(bits) as usize
    }
}

/// The bits of the double that is the whole number `n`.
pub fn of_whole(n: u64) -> (r: u64)
    requires
        n <= EXACT,
    ensures
        r == whole_bits(n as nat),
{
    if n == 0 {
        return 0;
    }
    if n >= EXACT {
        return (1023 + 53) * HIDDEN;
    }
    let mut s: u64 = n;
    let mut e: u64 = 52;
    while s < HIDDEN && e > 0
        invariant
            0 < s < EXACT,
            e <= 52,
            scaled(s as nat, e as nat) == scaled(n as nat, 52),
        decreases e,
    {
        s = 2 * s;
        e = e - 1;
    }
    (1023 + e) * HIDDEN + s - HIDDEN
}

/// Whether the number is zero.
pub fn zero(bits: u64) -> (r: bool)
    ensures
        r == is_zero(bits),
{
    bits % SIGN == 0
}

/// Whether the bits stand for no number.
fn nan(bits: u64) -> (r: bool)
    ensures
        r == is_nan(bits),
{
    bits % SIGN > INFINITY
}

/// The rank of the bits.
fn order(bits: u64) -> (r: i128)
    ensures
        r == rank(bits),
{
    let m: u64 = bits % SIGN;
    if bits >= SIGN {
        -(m as i128)
    } else {
        m as i128
    }
}

/// Whether the two numbers are equal.
pub fn same(a: u64, b: u64) -> (r: bool)
    ensures
        r == equal(a, b),
{
    !nan(a) && !nan(b) && order(a) == order(b)
}

/// Whether `a` is greater than `b`.
pub fn above(a: u64, b: u64) -> (r: bool)
    ensures
        r == greater(a, b),
{
    !nan(a) && !nan(b) && order(a) > order(b)
}

/// The array index that the number stands for.
pub fn index(bits: u64) -> (r: usize)
    ensures
        r == index_of(bits),
{
    let m: u64 = bits % SIGN;
    let exponent: u64 = m / HIDDEN;
    let significand: u64 = HIDDEN + m % HIDDEN;
    let w: u64 = if bits >= SIGN || m > INFINITY || exponent < 1023 {
        0
    } else if exponent >= 1087 {
        u64::MAX
    } else if exponent >= 1075 {
        significand << (exponent - 1075)
    } else {
        significand >> (1075 - exponent)
    };
    if w > usize::MAX as u64 {
        usize::MAX
    } else {
        w as usize
    }
}

} // verus!
