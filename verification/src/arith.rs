//! Sums that stop at the ends of the machine integers.

use vstd::prelude::*;

verus! {

/// The value cut down to the range from `low` to `high`.
pub open spec fn clamp(value: int, low: int, high: int) -> int {
    if value < low {
        low
    } else if value > high {
        high
    } else {
        value
    }
}

/// The sum of two 64-bit numbers, stopping at the ends of the 64-bit range.
pub fn saturating_sum_i64(a: i64, b: i64) -> (sum: i64)
    ensures
        sum == clamp(a + b, i64::MIN as int, i64::MAX as int),
{
    let wide: i128 = a as i128 + b as i128;
    if wide > i64::MAX as i128 {
        i64::MAX
    } else if wide < i64::MIN as i128 {
        i64::MIN
    } else {
        wide as i64
    }
}

/// The sum of two 32-bit numbers, stopping at the ends of the 32-bit range.
pub fn saturating_sum_i32(a: i32, b: i32) -> (sum: i32)
    ensures
        sum == clamp(a + b, i32::MIN as int, i32::MAX as int),
{
    let wide: i64 = a as i64 + b as i64;
    if wide > i32::MAX as i64 {
        i32::MAX
    } else if wide < i32::MIN as i64 {
        i32::MIN
    } else {
        wide as i32
    }
}

} // verus!
