//! Single-precision values read through their bit patterns.
//!
//! The density field and the viewer are computed in floating point outside
//! this library. What crosses the boundary is the 32-bit pattern of each
//! value; the comparisons that the scanner's decisions rest on are made here,
//! on integers, with the meaning that IEEE 754 gives them.

use vstd::prelude::*;

verus! {

/// The bit that holds the sign; also the pattern of negative zero.
pub const SIGN_BIT: u32 = 0x8000_0000;

/// Bit pattern of positive infinity. Larger patterns below `SIGN_BIT` are
/// not numbers.
pub const POSITIVE_INFINITY: u32 = 0x7F80_0000;

/// Bit pattern of negative infinity. Larger patterns are not numbers.
pub const NEGATIVE_INFINITY: u32 = 0xFF80_0000;

/// Bit pattern of one.
pub const ONE: u32 = 0x3F80_0000;

/// Bit pattern of minus one.
pub const MINUS_ONE: u32 = 0xBF80_0000;

/// Bit pattern of one half.
pub const HALF: u32 = 0x3F00_0000;

/// The sign of a quantity.
#[derive(Clone, Copy, Debug, PartialEq, Eq, Structural)]
pub enum Sign {
    Negative,
    Zero,
    Positive,
}

impl Sign {
    /// The sign as a number: -1, 0 or 1.
    pub open spec fn value(self) -> int {
        match self {
            Sign::Negative => -1,
            Sign::Zero => 0,
            Sign::Positive => 1,
        }
    }

    /// The sign as a number.
    pub fn number(self) -> (n: i8)
        ensures
            n == self.value(),
    {
        match self {
            Sign::Negative => -1,
            Sign::Zero => 0,
            Sign::Positive => 1,
        }
    }
}

/// Whether `bits` is the pattern of a number, infinities included.
pub open spec fn is_number(bits: u32) -> bool {
    bits <= POSITIVE_INFINITY || SIGN_BIT <= bits <= NEGATIVE_INFINITY
}

/// The pattern of the absolute value: `bits` with the sign cleared.
pub open spec fn magnitude(bits: u32) -> u32 {
    if bits >= SIGN_BIT {
        (bits - SIGN_BIT) as u32
    } else {
        bits
    }
}

/// The pattern of the negated value: `bits` with the sign inverted.
pub open spec fn negated(bits: u32) -> u32 {
    if bits >= SIGN_BIT {
        (bits - SIGN_BIT) as u32
    } else {
        (bits + SIGN_BIT) as u32
    }
}

/// An integer that orders the numbers as their values do: of two numbers
/// the smaller has the smaller rank, and both zeros have rank zero.
pub open spec fn rank(bits: u32) -> int {
    if bits >= SIGN_BIT {
        -(bits - SIGN_BIT)
    } else {
        bits as int
    }
}

/// `a < b` as IEEE 754 has it: both are numbers and `a` is the smaller.
pub open spec fn less(a: u32, b: u32) -> bool {
    is_number(a) && is_number(b) && rank(a) < rank(b)
}

/// `a <= b` as IEEE 754 has it.
pub open spec fn at_most(a: u32, b: u32) -> bool {
    is_number(a) && is_number(b) && rank(a) <= rank(b)
}

/// The sign that the pattern carries: positive or negative for a number, a
/// zero by the sign it was given, and `Zero` for what is not a number.
pub open spec fn signum(bits: u32) -> Sign {
    if !is_number(bits) {
        Sign::Zero
    } else if bits >= SIGN_BIT {
        Sign::Negative
    } else {
        Sign::Positive
    }
}

/// Whether `bits` is the pattern of a number.
pub fn number(bits: u32) -> (ok: bool)
    ensures
        ok == is_number(bits),
{
    bits <= POSITIVE_INFINITY || (SIGN_BIT <= bits && bits <= NEGATIVE_INFINITY)
}

/// The pattern of the absolute value.
pub fn abs(bits: u32) -> (m: u32)
    ensures
        m == magnitude(bits),
        m < SIGN_BIT,
        is_number(m) == is_number(bits),
{
    if bits >= SIGN_BIT {
        bits - SIGN_BIT
    } else {
        bits
    }
}

/// The pattern of the negated value.
pub fn neg(bits: u32) -> (n: u32)
    ensures
        n == negated(bits),
        negated(n) == bits,
{
    if bits >= SIGN_BIT {
        bits - SIGN_BIT
    } else {
        bits + SIGN_BIT
    }
}

/// The rank of `bits`.
pub fn rank_of(bits: u32) -> (r: i64)
    ensures
        r == rank(bits),
{
    if bits >= SIGN_BIT {
        -((bits - SIGN_BIT) as i64)
    } else {
        bits as i64
    }
}

/// Whether `a < b`.
pub fn lt(a: u32, b: u32) -> (r: bool)
    ensures
        r == less(a, b),
{
    number(a) && number(b) && rank_of(a) < rank_of(b)
}

/// Whether `a <= b`.
pub fn le(a: u32, b: u32) -> (r: bool)
    ensures
        r == at_most(a, b),
{
    number(a) && number(b) && rank_of(a) <= rank_of(b)
}

/// The sign that `bits` carries.
pub fn sign(bits: u32) -> (s: Sign)
    ensures
        s == signum(bits),
{
    if !number(bits) {
        Sign::Zero
    } else if bits >= SIGN_BIT {
        Sign::Negative
    } else {
        Sign::Positive
    }
}

} // verus!
