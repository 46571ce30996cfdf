//! The alpha channel: an IEEE 754 binary64 number, held by its bit pattern.
//!
//! Bit 63 is the sign; the other 63 bits, read as an integer, grow with the
//! absolute value, up to the infinities. Above the infinities lie the NaNs.

use vstd::prelude::*;

verus! {

/// The bit pattern of `+0.0`.
pub const ZERO: u64 = 0;

/// The bit pattern of `1.0`.
pub const ONE: u64 = 0x3ff0_0000_0000_0000;

/// The sign bit, which is also the bit pattern of `-0.0`.
pub const SIGN: u64 = 0x8000_0000_0000_0000;

/// The bit pattern of positive infinity.
pub const INFINITY: u64 = 0x7ff0_0000_0000_0000;

/// Whether the sign bit is set.
pub open spec fn is_negative(bits: u64) -> bool {
    bits >= SIGN
}

/// The pattern without its sign bit.
pub open spec fn magnitude(bits: u64) -> int {
    if bits >= SIGN {
        bits - SIGN
    } else {
        bits as int
    }
}

/// Whether the pattern denotes no number.
pub open spec fn is_nan(bits: u64) -> bool {
    magnitude(bits) > INFINITY
}

/// The place of a number on the number line: for patterns that denote
/// numbers, `rank` is smaller exactly where the number is smaller, and both
/// zeros have rank 0.
pub open spec fn rank(bits: u64) -> int {
    if is_negative(bits) {
        -magnitude(bits)
    } else {
        magnitude(bits)
    }
}

/// The comparison `a < b` of binary64: false whenever a NaN takes part.
pub open spec fn less_than(a: u64, b: u64) -> bool {
    !is_nan(a) && !is_nan(b) && rank(a) < rank(b)
}

/// The comparison `a == b` of binary64: the two zeros are equal, and a NaN
/// equals nothing.
pub open spec fn equal(a: u64, b: u64) -> bool {
    !is_nan(a) && !is_nan(b) && rank(a) == rank(b)
}

/// Whether the pattern denotes a number between 0 and 1, bounds included.
pub open spec fn in_unit_interval(bits: u64) -> bool {
    !is_nan(bits) && rank(ZERO) <= rank(bits) <= rank(ONE)
}

/// A value brought into the unit interval: 0 for what is below 0, 1 for what
/// is above 1, and the value itself otherwise. A NaN is below nothing and
/// above nothing, so it stays.
pub open spec fn clamped(bits: u64) -> u64 {
    if less_than(bits, ZERO) {
        ZERO
    } else if less_than(ONE, bits) {
        ONE
    } else {
        bits
    }
}

/// Tests `a < b`.
pub fn lt(a: u64, b: u64) -> (out: bool)
    ensures
        out == less_than(a, b),
{
    let a_neg: bool = a >= SIGN;
    let b_neg: bool = b >= SIGN;
    let a_mag: u64 = if a_neg { a - SIGN } else { a };
    let b_mag: u64 = if b_neg { b - SIGN } else { b };
    if a_mag > INFINITY || b_mag > INFINITY {
        false
    } else if a_neg && b_neg {
        b_mag < a_mag
    } else if a_neg {
        a_mag > 0 || b_mag > 0
    } else if b_neg {
        false
    } else {
        a_mag < b_mag
    }
}

/// Tests `bits == 0.0`.
pub fn is_zero(bits: u64) -> (out: bool)
    ensures
        out == equal(bits, ZERO),
        out == (bits == ZERO || bits == SIGN),
{
    bits == ZERO || bits == SIGN
}

/// Brings a value into the unit interval.
pub fn clamp(bits: u64) -> (out: u64)
    ensures
        out == clamped(bits),
        !is_nan(bits) ==> in_unit_interval(out),
        in_unit_interval(bits) ==> out == bits,
{
    if lt(bits, ZERO) {
        ZERO
    } else if lt(ONE, bits) {
        ONE
    } else {
        bits
    }
}

/// Clamping a number gives a number of the unit interval, and leaves every
/// number of the unit interval as it is.
pub proof fn lemma_clamped_in_unit_interval(bits: u64)
    requires
        !is_nan(bits),
    ensures
        in_unit_interval(clamped(bits)),
        in_unit_interval(bits) ==> clamped(bits) == bits,
{
}

} // verus!
