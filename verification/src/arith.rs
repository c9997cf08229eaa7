use vstd::prelude::*;

verus! {

/// `a / b` truncated toward zero, for a positive divisor (Rust's `/` on signed integers).
pub open spec fn div_trunc(a: int, b: int) -> int
    recommends
        b > 0,
{
    if a >= 0 { a / b } else { -((-a) / b) }
}

/// `x` clamped into the range of `i128`.
pub open spec fn clamp_i128(x: int) -> int {
    if x > i128::MAX { i128::MAX as int } else if x < i128::MIN { i128::MIN as int } else { x }
}

/// `x` clamped into the range of `u64`.
pub open spec fn clamp_u64(x: int) -> int {
    if x > u64::MAX { u64::MAX as int } else if x < 0 { 0 } else { x }
}

/// `x` clamped into the range of `u32`.
pub open spec fn clamp_u32(x: int) -> int {
    if x > u32::MAX { u32::MAX as int } else if x < 0 { 0 } else { x }
}

pub open spec fn min_int(a: int, b: int) -> int {
    if a <= b { a } else { b }
}

pub open spec fn max_int(a: int, b: int) -> int {
    if a >= b { a } else { b }
}

/// Saturating `i128` addition.
pub fn sat_add_i128(a: i128, b: i128) -> (r: i128)
    ensures
        r == clamp_i128(a + b),
{
    match a.checked_add(b) {
        Some(s) => s,
        None => if b > 0 { i128::MAX } else { i128::MIN },
    }
}

/// Saturating `i128` subtraction.
pub fn sat_sub_i128(a: i128, b: i128) -> (r: i128)
    ensures
        r == clamp_i128(a - b),
{
    match a.checked_sub(b) {
        Some(s) => s,
        None => if b < 0 { i128::MAX } else { i128::MIN },
    }
}

/// Saturating `i128` multiplication.
pub fn sat_mul_i128(a: i128, b: i128) -> (r: i128)
    ensures
        r == clamp_i128(a * b),
{
    match a.checked_mul(b) {
        Some(p) => p,
        None => {
            if (a > 0) == (b > 0) {
                assert(a * b > 0) by (nonlinear_arith)
                    requires
                        (a > 0) == (b > 0),
                        a * b > i128::MAX || a * b < i128::MIN,
                ;
                i128::MAX
            } else {
                assert(a * b < 0) by (nonlinear_arith)
                    requires
                        (a > 0) != (b > 0),
                        a * b > i128::MAX || a * b < i128::MIN,
                ;
                i128::MIN
            }
        },
    }
}

/// Saturating `u64` multiplication.
pub fn sat_mul_u64(a: u64, b: u64) -> (r: u64)
    ensures
        r == clamp_u64(a * b),
{
    match a.checked_mul(b) {
        Some(p) => p,
        None => u64::MAX,
    }
}

/// Saturating `u32` multiplication.
pub fn sat_mul_u32(a: u32, b: u32) -> (r: u32)
    ensures
        r == clamp_u32(a * b),
{
    match a.checked_mul(b) {
        Some(p) => p,
        None => u32::MAX,
    }
}

pub fn min_i128(a: i128, b: i128) -> (r: i128)
    ensures
        r == min_int(a as int, b as int),
{
    if a <= b { a } else { b }
}

pub fn max_i128(a: i128, b: i128) -> (r: i128)
    ensures
        r == max_int(a as int, b as int),
{
    if a >= b { a } else { b }
}

} // verus!

verus! {

/// `a / b` truncated toward zero for any non-zero divisor, and 0 where `i128` division
/// overflows (`i128::MIN / -1`), as `checked_div(..).unwrap_or(0)` computes.
pub open spec fn div_trunc_signed(a: int, b: int) -> int {
    let q = if a == 0 {
        0
    } else if a > 0 && b > 0 {
        a / b
    } else if a < 0 && b < 0 {
        (-a) / (-b)
    } else if a < 0 {
        -((-a) / b)
    } else {
        -(a / (-b))
    };
    if b == 0 || q > i128::MAX { 0 } else { q }
}

} // verus!
