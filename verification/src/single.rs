//! Single-precision numbers, held by their IEEE 754 bit patterns.
//!
//! The widgets that show a number in single precision keep its 32 bits; the
//! caller turns a number into its bits before it hands it in and back when it
//! reads it. Two patterns are compared as the numbers that they stand for.

use vstd::prelude::*;

verus! {

/// The bits of `0.0`.
pub const ZERO: u32 = 0x0000_0000;

/// The bits of `1.0`.
pub const ONE: u32 = 0x3F80_0000;

/// The bits of `-1.0`.
pub const MINUS_ONE: u32 = 0xBF80_0000;

/// The bits of `100.0`.
pub const HUNDRED: u32 = 0x42C8_0000;

/// The bits of the single-precision number nearest to `0.3`.
pub const THREE_TENTHS: u32 = 0x3E99_999A;

/// The pattern without its sign bit.
pub open spec fn magnitude(bits: u32) -> u32 {
    bits & 0x7FFF_FFFF
}

/// The pattern stands for no number: all exponent bits are set and the
/// fraction is not zero.
pub open spec fn is_nan(bits: u32) -> bool {
    magnitude(bits) > 0x7F80_0000
}

/// The pattern stands for zero, of either sign.
pub open spec fn is_zero(bits: u32) -> bool {
    magnitude(bits) == 0
}

/// The two patterns stand for unequal numbers. A pattern that stands for no
/// number is unequal to every pattern, itself included; the two zeros are
/// equal; any other two patterns are equal only where their bits are.
pub open spec fn differs(a: u32, b: u32) -> bool {
    is_nan(a) || is_nan(b) || (a != b && !(is_zero(a) && is_zero(b)))
}

/// Whether `a` and `b` stand for unequal numbers.
pub fn ne(a: u32, b: u32) -> (unequal: bool)
    ensures
        unequal == differs(a, b),
{
    let ma: u32 = a & 0x7FFF_FFFF;
    let mb: u32 = b & 0x7FFF_FFFF;
    ma > 0x7F80_0000 || mb > 0x7F80_0000 || (a != b && !(ma == 0 && mb == 0))
}

} // verus!
