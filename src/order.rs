//! Ordering of IEEE-754 single-precision values, carried as their bit patterns.
//!
//! The renderer's arithmetic happens outside this crate; every decision it
//! takes on a distance or a dot product is a comparison, and these are made
//! here on the raw bits (as produced by `f32::to_bits`).
use vstd::prelude::*;

verus! {

/// Bit pattern of positive zero.
pub const ZERO: u32 = 0x0000_0000;

/// Bit pattern of one.
pub const ONE: u32 = 0x3f80_0000;

/// Bit pattern of positive infinity.
pub const INFINITY: u32 = 0x7f80_0000;

/// The sign bit is set.
pub open spec fn is_negative(b: u32) -> bool {
    b & 0x8000_0000u32 != 0
}

/// Exponent and mantissa bits: the absolute value's pattern.
pub open spec fn magnitude(b: u32) -> u32 {
    b & 0x7fff_ffffu32
}

/// Not a number: all exponent bits set and a non-zero mantissa.
pub open spec fn is_nan(b: u32) -> bool {
    magnitude(b) > 0x7f80_0000u32
}

/// Position of a non-NaN value on the number line. Among values of one sign,
/// the order of the magnitudes' bit patterns is the order of their absolute
/// values; both zeros sit at 0.
pub open spec fn rank(b: u32) -> int {
    if is_negative(b) {
        -(magnitude(b) as int)
    } else {
        magnitude(b) as int
    }
}

/// IEEE-754 `a < b`: false whenever either side is NaN.
pub open spec fn float_lt(a: u32, b: u32) -> bool {
    !is_nan(a) && !is_nan(b) && rank(a) < rank(b)
}

/// Computes `rank` without leaving machine integers.
fn rank_of(b: u32) -> (r: i64)
    ensures
        r as int == rank(b),
{
    let m = b & 0x7fff_ffffu32;
    if b & 0x8000_0000u32 != 0 {
        -(m as i64)
    } else {
        m as i64
    }
}

/// IEEE-754 comparison `a < b` on the bit patterns of two values.
pub fn less_than(a: u32, b: u32) -> (r: bool)
    ensures
        r == float_lt(a, b),
{
    let ma = a & 0x7fff_ffffu32;
    let mb = b & 0x7fff_ffffu32;
    if ma > 0x7f80_0000u32 || mb > 0x7f80_0000u32 {
        return false;
    }
    rank_of(a) < rank_of(b)
}

/// `input` held to `[min, max]`: `min` below it, `max` above it.
pub open spec fn clamped(input: u32, min: u32, max: u32) -> u32 {
    if float_lt(input, min) {
        min
    } else if float_lt(max, input) {
        max
    } else {
        input
    }
}

/// Clamps a value to an interval. For a non-NaN input and ordered non-NaN
/// bounds the result lies within them.
pub fn clamp(input: u32, min: u32, max: u32) -> (r: u32)
    ensures
        r == clamped(input, min, max),
        !is_nan(input) && !is_nan(min) && !is_nan(max) && !float_lt(max, min) ==> !float_lt(r, min)
            && !float_lt(max, r),
{
    if less_than(input, min) {
        return min;
    }
    if less_than(max, input) {
        return max;
    }
    input
}

} // verus!
