//! Integer conversions shared by the geometry code.
use vstd::prelude::*;

verus! {

/// `v` brought into the range of `i32`.
pub open spec fn to_i32_range(v: int) -> int {
    if v < i32::MIN {
        i32::MIN as int
    } else if v > i32::MAX {
        i32::MAX as int
    } else {
        v
    }
}

/// The nearest `i32` to `v`.
pub fn saturate_i32(v: i64) -> (r: i32)
    ensures
        r == to_i32_range(v as int),
{
    if v < -0x8000_0000 {
        i32::MIN
    } else if v > 0x7fff_ffff {
        i32::MAX
    } else {
        v as i32
    }
}

/// `v` brought into the range of `u32`.
pub open spec fn to_u32_range(v: int) -> int {
    if v < 0 {
        0
    } else if v > u32::MAX {
        u32::MAX as int
    } else {
        v
    }
}

/// The nearest `u32` to `v`.
pub fn saturate_u32(v: i64) -> (r: u32)
    ensures
        r == to_u32_range(v as int),
{
    if v < 0 {
        0
    } else if v > 0xffff_ffff {
        u32::MAX
    } else {
        v as u32
    }
}

/// Division of integers that rounds towards zero, for a positive divisor.
pub open spec fn div_toward_zero(a: int, b: int) -> int {
    if a >= 0 {
        a / b
    } else {
        -((-a) / b)
    }
}

/// Remainder that goes with [`div_toward_zero`]: it has the sign of `a`.
pub open spec fn rem_toward_zero(a: int, b: int) -> int {
    if a >= 0 {
        a % b
    } else {
        -((-a) % b)
    }
}

/// The remainder of `a` by the positive `b`, with the sign of `a`.
pub fn remainder_toward_zero(a: i64, b: i64) -> (r: i64)
    requires
        b > 0,
        a > i64::MIN,
    ensures
        r == rem_toward_zero(a as int, b as int),
{
    if a >= 0 {
        a % b
    } else {
        let n: i64 = -a;
        -(n % b)
    }
}

/// The value of `v` read as a two's-complement 32-bit number.
pub open spec fn as_signed(v: u32) -> int {
    if v <= i32::MAX {
        v as int
    } else {
        v - 0x1_0000_0000
    }
}

/// Reads `v` as a two's-complement 32-bit number.
pub fn read_signed(v: u32) -> (r: i64)
    ensures
        r == as_signed(v),
{
    if v <= 0x7fff_ffff {
        v as i64
    } else {
        v as i64 - 0x1_0000_0000
    }
}

} // verus!
