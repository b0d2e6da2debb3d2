//! Saturating fixed-point scalars.
//!
//! A scalar is an `i64` holding a real number times `SCALE`. Every
//! operation clips its mathematical result into the `i64` range, so the
//! executable functions are total and never overflow; division truncates
//! toward zero, as Rust's integer division does.

use vstd::prelude::*;

verus! {

/// Number of integer units per 1.0.
pub const SCALE: i64 = 1_000_000;

/// Clip an unbounded integer into the `i64` range.
pub open spec fn sat(x: int) -> i64 {
    if x > i64::MAX as int {
        i64::MAX
    } else if x < i64::MIN as int {
        i64::MIN
    } else {
        x as i64
    }
}

/// Integer division truncated toward zero (the rounding of Rust's `/`),
/// for a positive divisor.
pub open spec fn tdiv(a: int, b: int) -> int {
    if a >= 0 {
        a / b
    } else {
        -((-a) / b)
    }
}

/// Saturating fixed-point addition.
pub open spec fn fx_add_s(a: i64, b: i64) -> i64 {
    sat(a + b)
}

/// Saturating fixed-point subtraction.
pub open spec fn fx_sub_s(a: i64, b: i64) -> i64 {
    sat(a - b)
}

/// Saturating fixed-point negation.
pub open spec fn fx_neg_s(a: i64) -> i64 {
    sat(-a)
}

/// Saturating fixed-point multiplication: `a * b / SCALE`, truncated
/// toward zero.
pub open spec fn fx_mul_s(a: i64, b: i64) -> i64 {
    sat(tdiv(a * b, SCALE as int))
}

/// Saturating division of a fixed-point value by a positive integer
/// count (not itself scaled), truncated toward zero.
pub open spec fn fx_div_int_s(a: i64, n: i64) -> i64 {
    sat(tdiv(a as int, n as int))
}

/// Saturating fixed-point division: `a * SCALE / b`, truncated toward
/// zero, for a positive divisor.
pub open spec fn fx_div_s(a: i64, b: i64) -> i64 {
    sat(tdiv(a * SCALE, b as int))
}

/// Clip an `i128` into the `i64` range.
pub fn clamp64(q: i128) -> (r: i64)
    ensures
        r == sat(q as int),
{
    if q > i64::MAX as i128 {
        i64::MAX
    } else if q < i64::MIN as i128 {
        i64::MIN
    } else {
        q as i64
    }
}

/// Division of `i128` values truncated toward zero, for a positive
/// divisor; the dividend must not be the extreme negative value.
fn div_trunc(a: i128, b: i128) -> (q: i128)
    requires
        b > 0,
        a > i128::MIN,
    ensures
        q == tdiv(a as int, b as int),
{
    if a >= 0 {
        let m: u128 = a as u128;
        let d: u128 = b as u128;
        let r: u128 = m / d;
        assert(r <= m);
        r as i128
    } else {
        let m: u128 = (-a) as u128;
        let d: u128 = b as u128;
        let r: u128 = m / d;
        assert(r <= m);
        -(r as i128)
    }
}

/// Saturating addition.
pub fn fx_add(a: i64, b: i64) -> (r: i64)
    ensures
        r == fx_add_s(a, b),
{
    clamp64(a as i128 + b as i128)
}

/// Saturating subtraction.
pub fn fx_sub(a: i64, b: i64) -> (r: i64)
    ensures
        r == fx_sub_s(a, b),
{
    clamp64(a as i128 - b as i128)
}

/// Saturating negation.
pub fn fx_neg(a: i64) -> (r: i64)
    ensures
        r == fx_neg_s(a),
{
    clamp64(-(a as i128))
}

/// Saturating fixed-point multiplication.
pub fn fx_mul(a: i64, b: i64) -> (r: i64)
    ensures
        r == fx_mul_s(a, b),
{
    proof {
        lemma_i64_product_bounds(a as int, b as int);
    }
    let p: i128 = (a as i128) * (b as i128);
    let q = div_trunc(p, SCALE as i128);
    clamp64(q)
}

/// Saturating division by a positive integer count.
pub fn fx_div_int(a: i64, n: i64) -> (r: i64)
    requires
        n > 0,
    ensures
        r == fx_div_int_s(a, n),
{
    let q = div_trunc(a as i128, n as i128);
    clamp64(q)
}

/// Saturating fixed-point division by a positive value.
pub fn fx_div(a: i64, b: i64) -> (r: i64)
    requires
        b > 0,
    ensures
        r == fx_div_s(a, b),
{
    proof {
        lemma_i64_product_bounds(a as int, SCALE as int);
    }
    let p: i128 = (a as i128) * (SCALE as i128);
    let q = div_trunc(p, b as i128);
    clamp64(q)
}

/// The product of two `i64` values stays strictly inside the `i128`
/// range.
pub proof fn lemma_i64_product_bounds(a: int, b: int)
    by (nonlinear_arith)
    requires
        i64::MIN <= a <= i64::MAX,
        i64::MIN <= b <= i64::MAX,
    ensures
        i128::MIN < a * b,
        a * b < i128::MAX,
{
}

/// The product of an `i64` value with a value of small magnitude is
/// itself of bounded magnitude.
pub proof fn lemma_i64_mul_small(a: int, b: int, bound: int)
    by (nonlinear_arith)
    requires
        i64::MIN <= a <= i64::MAX,
        -bound <= b <= bound,
        bound >= 0,
    ensures
        a * b <= bound * 0x8000_0000_0000_0000,
        a * b >= -(bound * 0x8000_0000_0000_0000),
{
}

/// Multiplying by the fixed-point one is exact.
pub proof fn lemma_fx_mul_one(a: i64)
    ensures
        fx_mul_s(a, SCALE) == a,
        fx_mul_s(SCALE, a) == a,
{
    let s = SCALE as int;
    if a >= 0 {
        vstd::arithmetic::div_mod::lemma_div_multiples_vanish(a as int, s);
    } else {
        vstd::arithmetic::div_mod::lemma_div_multiples_vanish(-(a as int), s);
        assert(-(a * s) == (-a) * s) by (nonlinear_arith);
    }
    assert(a * s == s * a) by (nonlinear_arith);
}

} // verus!
