//! Saturating and rounding integer helpers with their mathematical meaning.

use vstd::prelude::*;

verus! {

/// `a * b`, capped at `u64::MAX`.
pub open spec fn sat_mul(a: int, b: int) -> int {
    if a * b > u64::MAX { u64::MAX as int } else { a * b }
}

/// `a + b`, capped at `u64::MAX`.
pub open spec fn sat_add(a: int, b: int) -> int {
    if a + b > u64::MAX { u64::MAX as int } else { a + b }
}

/// `a - b`, floored at zero.
pub open spec fn sat_sub(a: int, b: int) -> int {
    if a - b < 0 { 0 } else { a - b }
}

/// `a + b` clamped into the range of `i64`.
pub open spec fn sat_add_i64(a: int, b: int) -> int {
    if a + b > i64::MAX { i64::MAX as int } else if a + b < i64::MIN { i64::MIN as int } else { a + b }
}

/// `a - b` clamped into the range of `i64`.
pub open spec fn sat_sub_i64(a: int, b: int) -> int {
    sat_add_i64(a, -b)
}

/// `a * b` clamped into the range of `i64`.
pub open spec fn sat_mul_i64(a: int, b: int) -> int {
    if a * b > i64::MAX { i64::MAX as int } else if a * b < i64::MIN { i64::MIN as int } else { a * b }
}

/// The quotient of `a / b`, rounded up.
pub open spec fn ceil_div(a: int, b: int) -> int
    recommends
        b > 0,
{
    (a + b - 1) / b
}

pub open spec fn max_int(a: int, b: int) -> int {
    if a >= b { a } else { b }
}

pub open spec fn min_int(a: int, b: int) -> int {
    if a <= b { a } else { b }
}

/// `lo.max(hi.min(v))`, the value of `v.clamp(lo, hi)` when `lo <= hi`.
pub open spec fn clamp_int(v: int, lo: int, hi: int) -> int {
    if v < lo { lo } else if v > hi { hi } else { v }
}

pub fn u64_sat_mul(a: u64, b: u64) -> (r: u64)
    ensures
        r == sat_mul(a as int, b as int),
{
    match a.checked_mul(b) {
        Some(v) => v,
        None => u64::MAX,
    }
}

pub fn u64_sat_add(a: u64, b: u64) -> (r: u64)
    ensures
        r == sat_add(a as int, b as int),
{
    a.saturating_add(b)
}

pub fn u64_sat_sub(a: u64, b: u64) -> (r: u64)
    ensures
        r == sat_sub(a as int, b as int),
{
    a.saturating_sub(b)
}

pub fn u32_sat_add(a: u32, b: u32) -> (r: u32)
    ensures
        r == (if a + b > u32::MAX { u32::MAX as int } else { a + b }),
{
    a.saturating_add(b)
}

pub fn u32_sat_sub(a: u32, b: u32) -> (r: u32)
    ensures
        r == sat_sub(a as int, b as int),
{
    a.saturating_sub(b)
}

pub fn u32_sat_mul(a: u32, b: u32) -> (r: u32)
    ensures
        r == (if a * b > u32::MAX { u32::MAX as int } else { a * b }),
{
    match a.checked_mul(b) {
        Some(v) => v,
        None => u32::MAX,
    }
}

pub fn i64_sat_add(a: i64, b: i64) -> (r: i64)
    ensures
        r == sat_add_i64(a as int, b as int),
{
    match a.checked_add(b) {
        Some(v) => v,
        None => if b > 0 { i64::MAX } else { i64::MIN },
    }
}

pub fn i64_sat_sub(a: i64, b: i64) -> (r: i64)
    ensures
        r == sat_sub_i64(a as int, b as int),
{
    match a.checked_sub(b) {
        Some(v) => v,
        None => if b < 0 { i64::MAX } else { i64::MIN },
    }
}

pub fn i64_sat_mul(a: i64, b: i64) -> (r: i64)
    ensures
        r == sat_mul_i64(a as int, b as int),
{
    match a.checked_mul(b) {
        Some(v) => v,
        None => {
            if (a > 0) == (b > 0) {
                assert(a * b > 0) by (nonlinear_arith)
                    requires a != 0, b != 0, (a > 0) == (b > 0);
                i64::MAX
            } else {
                assert(a != 0 && b != 0);
                assert(a * b < 0) by (nonlinear_arith)
                    requires a != 0, b != 0, (a > 0) != (b > 0);
                i64::MIN
            }
        },
    }
}

/// `a.div_ceil(b)` for a positive divisor.
pub fn u64_div_ceil(a: u64, b: u64) -> (r: u64)
    requires
        b > 0,
    ensures
        r == ceil_div(a as int, b as int),
{
    let q = a / b;
    if a % b == 0 {
        assert(ceil_div(a as int, b as int) == q) by (nonlinear_arith)
            requires a % b == 0, b > 0, q == a / b;
        q
    } else {
        assert(ceil_div(a as int, b as int) == q + 1 && q + 1 <= u64::MAX) by (nonlinear_arith)
            requires a % b != 0, b > 0, q == a / b, a <= u64::MAX;
        q + 1
    }
}

pub fn u64_max(a: u64, b: u64) -> (r: u64)
    ensures
        r == max_int(a as int, b as int),
{
    if a >= b { a } else { b }
}

pub fn u64_min(a: u64, b: u64) -> (r: u64)
    ensures
        r == min_int(a as int, b as int),
{
    if a <= b { a } else { b }
}

pub fn u32_max(a: u32, b: u32) -> (r: u32)
    ensures
        r == max_int(a as int, b as int),
{
    if a >= b { a } else { b }
}

pub fn u32_min(a: u32, b: u32) -> (r: u32)
    ensures
        r == min_int(a as int, b as int),
{
    if a <= b { a } else { b }
}

pub fn i64_max(a: i64, b: i64) -> (r: i64)
    ensures
        r == max_int(a as int, b as int),
{
    if a >= b { a } else { b }
}

pub fn i64_min(a: i64, b: i64) -> (r: i64)
    ensures
        r == min_int(a as int, b as int),
{
    if a <= b { a } else { b }
}

} // verus!
