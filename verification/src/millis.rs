//! Millisecond arithmetic that never overflows.

use vstd::prelude::*;

verus! {

/// `x`, or the nearest number that an `i64` can hold.
pub open spec fn clamp(x: int) -> i64 {
    if x > i64::MAX {
        i64::MAX
    } else if x < i64::MIN {
        i64::MIN
    } else {
        x as i64
    }
}

/// The signed number with the same 64 bits as `d`.
pub open spec fn signed(d: u64) -> int {
    if d <= i64::MAX {
        d as int
    } else {
        d - 0x1_0000_0000_0000_0000
    }
}

/// `a + b`, clamped to the range of `i64`.
pub fn sat_add(a: i64, b: i64) -> (r: i64)
    ensures
        r == clamp(a + b),
{
    let x: i128 = a as i128 + b as i128;
    if x > i64::MAX as i128 {
        i64::MAX
    } else if x < i64::MIN as i128 {
        i64::MIN
    } else {
        x as i64
    }
}

/// `a - b`, clamped to the range of `i64`.
pub fn sat_sub(a: i64, b: i64) -> (r: i64)
    ensures
        r == clamp(a - b),
{
    let x: i128 = a as i128 - b as i128;
    if x > i64::MAX as i128 {
        i64::MAX
    } else if x < i64::MIN as i128 {
        i64::MIN
    } else {
        x as i64
    }
}

/// The signed number with the same 64 bits as `d`.
pub fn to_signed(d: u64) -> (r: i64)
    ensures
        r == signed(d),
{
    if d <= i64::MAX as u64 {
        d as i64
    } else {
        -((u64::MAX - d) as i64) - 1
    }
}

} // verus!
