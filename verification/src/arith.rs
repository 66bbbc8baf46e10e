//! Saturating integer helpers.

use vstd::prelude::*;

verus! {

/// `x` clamped to at most `max`.
pub open spec fn clamp_max(x: int, max: int) -> int {
    if x > max {
        max
    } else {
        x
    }
}

/// `a * b`, saturating at `u32::MAX`.
pub fn sat_mul_u32(a: u32, b: u32) -> (r: u32)
    ensures
        r == clamp_max(a * b, u32::MAX as int),
{
    match a.checked_mul(b) {
        Some(v) => v,
        None => u32::MAX,
    }
}

/// `a * b`, saturating at `u64::MAX`.
pub fn sat_mul_u64(a: u64, b: u64) -> (r: u64)
    ensures
        r == clamp_max(a * b, u64::MAX as int),
{
    match a.checked_mul(b) {
        Some(v) => v,
        None => u64::MAX,
    }
}

} // verus!
