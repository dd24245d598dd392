//! Scalar helpers for the distance bookkeeping.

use vstd::prelude::*;

verus! {

/// What `clamp` computes: `x` held between `min` and `max`, the upper bound
/// winning where the two bounds cross.
pub open spec fn clamped(x: int, min: int, max: int) -> int {
    if x > max {
        max
    } else if x < min {
        min
    } else {
        x
    }
}

/// The larger of `x` and `y`.
pub fn maxf(x: i64, y: i64) -> (r: i64)
    ensures
        r == vstd::math::max(x as int, y as int),
{
    if x > y {
        x
    } else {
        y
    }
}

/// The smaller of `x` and `y`.
pub fn minf(x: i64, y: i64) -> (r: i64)
    ensures
        r == vstd::math::min(x as int, y as int),
{
    if x > y {
        y
    } else {
        x
    }
}

/// `x` limited to the range from `min` to `max`.
pub fn clamp(x: i64, min: i64, max: i64) -> (r: i64)
    ensures
        r == clamped(x as int, min as int, max as int),
{
    if x > max {
        max
    } else if x < min {
        min
    } else {
        x
    }
}

} // verus!
