//! Elementary functions on fixed-point scalars: the exponential, the
//! natural logarithm, the logistic sigmoid, the hyperbolic tangent and
//! softplus.
//!
//! Each function is a fixed, exactly specified approximation: the
//! exponential splits its argument into an integer part (handled by
//! repeated multiplication with a fixed constant for `e`) and a
//! fractional part (handled by a truncated Taylor series); the
//! logarithm normalizes its argument into `[1, 2)` by halving or
//! doubling and then sums a truncated artanh series. Arguments beyond
//! the ranges the representation can express are clamped, and a
//! non-positive logarithm argument saturates to the smallest scalar.

use vstd::prelude::*;

use crate::fixed::{
    fx_add, fx_add_s, fx_div, fx_div_int, fx_div_int_s, fx_div_s, fx_mul, fx_mul_s, fx_neg,
    fx_neg_s, sat, tdiv, SCALE,
};

verus! {

/// Euler's number, scaled.
pub const E_FX: i64 = 2_718_282;

/// The reciprocal of Euler's number, scaled.
pub const E_INV_FX: i64 = 367_879;

/// The natural logarithm of two, scaled.
pub const LN2_FX: i64 = 693_147;

/// Arguments below this value have exponential zero (the true value
/// would round to less than one unit).
pub const EXP_ARG_MIN: i64 = -14_000_000;

/// Arguments above this value are clamped before exponentiation.
pub const EXP_ARG_MAX: i64 = 21_000_000;

/// Number of Taylor terms used for the fractional exponential.
pub const EXP_TERMS: u64 = 13;

/// Number of artanh series terms used for the mantissa logarithm.
pub const LN_TERMS: u64 = 7;

/// Integer powers of `e`, by repeated fixed-point multiplication.
pub open spec fn epow_s(k: int) -> i64
    decreases (if k >= 0 { k } else { -k }),
{
    if k == 0 {
        SCALE
    } else if k > 0 {
        fx_mul_s(epow_s(k - 1), E_FX)
    } else {
        fx_mul_s(epow_s(k + 1), E_INV_FX)
    }
}

/// Taylor term `f^i / i!`, built by the recurrence
/// `term(i) = term(i-1) * f / i`.
pub open spec fn exp_term_s(f: i64, i: nat) -> i64
    decreases i,
{
    if i == 0 {
        SCALE
    } else {
        fx_div_int_s(fx_mul_s(exp_term_s(f, (i - 1) as nat), f), i as i64)
    }
}

/// Sum of the first `n` Taylor terms of the exponential at `f`.
pub open spec fn exp_taylor_s(f: i64, n: nat) -> i64
    decreases n,
{
    if n == 0 {
        0
    } else {
        fx_add_s(exp_taylor_s(f, (n - 1) as nat), exp_term_s(f, (n - 1) as nat))
    }
}

/// The fixed-point exponential.
#[verifier::opaque]
pub open spec fn fx_exp_s(x: i64) -> i64 {
    if x < EXP_ARG_MIN {
        0
    } else {
        let a: i64 = if x > EXP_ARG_MAX {
            EXP_ARG_MAX
        } else {
            x
        };
        let shifted = a - EXP_ARG_MIN;
        let k = shifted / (SCALE as int) - 14;
        let f = (shifted % (SCALE as int)) as i64;
        fx_mul_s(epow_s(k), exp_taylor_s(f, EXP_TERMS as nat))
    }
}

/// Double a mantissa until it reaches `SCALE`, counting the doublings;
/// the result pairs the mantissa with the (negative) binary exponent.
pub open spec fn ln_shift_up(y: int) -> (int, int)
    decreases SCALE - y,
{
    if y <= 0 {
        (SCALE as int, 0)
    } else if y >= SCALE {
        (y, 0)
    } else if y * 2 >= SCALE {
        (y * 2, -1)
    } else {
        let (m, k) = ln_shift_up(y * 2);
        (m, k - 1)
    }
}

/// Halve a value until it falls below `2 * SCALE`, counting the
/// halvings; the result pairs the mantissa with the binary exponent.
pub open spec fn ln_shift_down(y: int) -> (int, int)
    decreases y,
{
    if y < 2 * SCALE {
        (y, 0)
    } else {
        let (m, k) = ln_shift_down(y / 2);
        (m, k + 1)
    }
}

/// Normalize a positive value to a mantissa in `[SCALE, 2 * SCALE)`
/// and a binary exponent.
pub open spec fn ln_norm(y: int) -> (int, int) {
    if y < SCALE {
        ln_shift_up(y)
    } else {
        ln_shift_down(y)
    }
}

/// Odd-power term `t^(2i+1)` of the artanh series, built by the
/// recurrence `term(i) = term(i-1) * t^2`.
pub open spec fn ln_term_s(t: i64, tsq: i64, i: nat) -> i64
    decreases i,
{
    if i == 0 {
        t
    } else {
        fx_mul_s(ln_term_s(t, tsq, (i - 1) as nat), tsq)
    }
}

/// Sum of the first `n` artanh series terms: `t^(2i+1) / (2i+1)`.
pub open spec fn ln_series_s(t: i64, n: nat) -> i64
    decreases n,
{
    if n == 0 {
        0
    } else {
        let i = (n - 1) as nat;
        fx_add_s(
            ln_series_s(t, i),
            fx_div_int_s(ln_term_s(t, fx_mul_s(t, t), i), (2 * i + 1) as i64),
        )
    }
}

/// The fixed-point natural logarithm; non-positive arguments saturate
/// to the smallest scalar.
#[verifier::opaque]
pub open spec fn fx_ln_s(y: i64) -> i64 {
    if y < 1 {
        i64::MIN
    } else {
        let (m, k) = ln_norm(y as int);
        let t = sat(tdiv((m - SCALE) * SCALE, m + SCALE));
        let half_ln_m = ln_series_s(t, LN_TERMS as nat);
        let ln_m = fx_add_s(half_ln_m, half_ln_m);
        sat(k * LN2_FX + ln_m)
    }
}

/// The fixed-point logistic sigmoid `1 / (1 + e^(-x))`.
pub open spec fn fx_sigmoid_s(x: i64) -> i64 {
    fx_div_s(SCALE, fx_add_s(SCALE, fx_exp_s(fx_neg_s(x))))
}

/// The fixed-point hyperbolic tangent `2 * sigmoid(2x) - 1`.
pub open spec fn fx_tanh_s(x: i64) -> i64 {
    let s = fx_sigmoid_s(fx_add_s(x, x));
    fx_sub_one_scaled(s)
}

/// `2 * s - 1` on scalars, used by the hyperbolic tangent.
pub open spec fn fx_sub_one_scaled(s: i64) -> i64 {
    fx_add_s(s, fx_add_s(s, fx_neg_s(SCALE)))
}

/// The fixed-point softplus `ln(1 + e^x)`.
pub open spec fn fx_softplus_s(x: i64) -> i64 {
    fx_ln_s(fx_add_s(SCALE, fx_exp_s(x)))
}

/// A product of non-negative scalars is non-negative.
pub proof fn lemma_fx_mul_s_nonneg(a: i64, b: i64)
    requires
        a >= 0,
        b >= 0,
    ensures
        fx_mul_s(a, b) >= 0,
{
    assert(a * b >= 0) by (nonlinear_arith)
        requires
            a >= 0,
            b >= 0,
    ;
    if a * b > 0 {
        vstd::arithmetic::div_mod::lemma_div_pos_is_pos(a * b, SCALE as int);
    }
}

/// Dividing a non-negative scalar by a positive count stays
/// non-negative.
pub proof fn lemma_fx_div_int_s_nonneg(a: i64, n: i64)
    requires
        a >= 0,
        n > 0,
    ensures
        fx_div_int_s(a, n) >= 0,
{
    if a > 0 {
        vstd::arithmetic::div_mod::lemma_div_pos_is_pos(a as int, n as int);
    }
}

/// Integer powers of `e` are non-negative.
pub proof fn lemma_epow_s_nonneg(k: int)
    ensures
        epow_s(k) >= 0,
    decreases (if k >= 0 { k } else { -k }),
{
    if k == 0 {
    } else if k > 0 {
        lemma_epow_s_nonneg(k - 1);
        lemma_fx_mul_s_nonneg(epow_s(k - 1), E_FX);
    } else {
        lemma_epow_s_nonneg(k + 1);
        lemma_fx_mul_s_nonneg(epow_s(k + 1), E_INV_FX);
    }
}

/// Taylor terms of the exponential at a non-negative point are
/// non-negative.
pub proof fn lemma_exp_term_s_nonneg(f: i64, i: nat)
    requires
        f >= 0,
        i <= EXP_TERMS,
    ensures
        exp_term_s(f, i) >= 0,
    decreases i,
{
    if i > 0 {
        lemma_exp_term_s_nonneg(f, (i - 1) as nat);
        lemma_fx_mul_s_nonneg(exp_term_s(f, (i - 1) as nat), f);
        lemma_fx_div_int_s_nonneg(fx_mul_s(exp_term_s(f, (i - 1) as nat), f), i as i64);
    }
}

/// Partial Taylor sums of the exponential at a non-negative point are
/// non-negative.
pub proof fn lemma_exp_taylor_s_nonneg(f: i64, n: nat)
    requires
        f >= 0,
        n <= EXP_TERMS,
    ensures
        exp_taylor_s(f, n) >= 0,
    decreases n,
{
    if n > 0 {
        lemma_exp_taylor_s_nonneg(f, (n - 1) as nat);
        lemma_exp_term_s_nonneg(f, (n - 1) as nat);
    }
}

/// The fixed-point exponential never goes negative.
pub proof fn lemma_fx_exp_s_nonneg(x: i64)
    ensures
        fx_exp_s(x) >= 0,
{
    reveal(fx_exp_s);
    if x >= EXP_ARG_MIN {
        let a: i64 = if x > EXP_ARG_MAX {
            EXP_ARG_MAX
        } else {
            x
        };
        let shifted = a - EXP_ARG_MIN;
        let k = shifted / (SCALE as int) - 14;
        let f = (shifted % (SCALE as int)) as i64;
        lemma_epow_s_nonneg(k);
        lemma_exp_taylor_s_nonneg(f, EXP_TERMS as nat);
        lemma_fx_mul_s_nonneg(epow_s(k), exp_taylor_s(f, EXP_TERMS as nat));
    }
}

/// Integer power of `e` for exponents between -14 and 21.
fn epow(k: i64) -> (r: i64)
    requires
        -14 <= k <= 21,
    ensures
        r == epow_s(k as int),
{
    let mut acc: i64 = SCALE;
    if k >= 0 {
        let mut i: i64 = 0;
        while i < k
            invariant
                0 <= i <= k,
                acc == epow_s(i as int),
            decreases k - i,
        {
            acc = fx_mul(acc, E_FX);
            i = i + 1;
        }
    } else {
        let mut i: i64 = 0;
        while i > k
            invariant
                k <= i <= 0,
                acc == epow_s(i as int),
            decreases i - k,
        {
            acc = fx_mul(acc, E_INV_FX);
            i = i - 1;
        }
    }
    acc
}

/// Truncated Taylor series of the exponential on `[0, 1)`.
fn exp_taylor(f: i64) -> (r: i64)
    requires
        0 <= f < SCALE,
    ensures
        r == exp_taylor_s(f, EXP_TERMS as nat),
{
    let mut acc: i64 = 0;
    let mut term: i64 = SCALE;
    let mut i: u64 = 0;
    while i < EXP_TERMS
        invariant
            0 <= i <= EXP_TERMS,
            term == exp_term_s(f, i as nat),
            acc == exp_taylor_s(f, i as nat),
        decreases EXP_TERMS - i,
    {
        acc = fx_add(acc, term);
        i = i + 1;
        term = fx_div_int(fx_mul(term, f), i as i64);
    }
    acc
}

/// The fixed-point exponential.
pub fn fx_exp(x: i64) -> (r: i64)
    ensures
        r == fx_exp_s(x),
{
    proof {
        reveal(fx_exp_s);
    }
    if x < EXP_ARG_MIN {
        return 0;
    }
    let a: i64 = if x > EXP_ARG_MAX {
        EXP_ARG_MAX
    } else {
        x
    };
    let shifted: u64 = (a - EXP_ARG_MIN) as u64;
    let k: i64 = (shifted / (SCALE as u64)) as i64 - 14;
    let f: i64 = (shifted % (SCALE as u64)) as i64;
    let p = epow(k);
    let t = exp_taylor(f);
    fx_mul(p, t)
}

/// The fixed-point natural logarithm; arguments below one unit
/// saturate to the smallest scalar.
pub fn fx_ln(y: i64) -> (r: i64)
    ensures
        r == fx_ln_s(y),
{
    proof {
        reveal(fx_ln_s);
    }
    if y < 1 {
        return i64::MIN;
    }
    let mut m: i64 = y;
    let mut k: i64 = 0;
    if m < SCALE {
        while m < SCALE
            invariant
                1 <= m < SCALE * 2,
                k <= 0,
                m >= -k,
                ln_norm(y as int) == (ln_shift_up(m as int).0, ln_shift_up(m as int).1 + k),
            decreases SCALE * 2 - m,
        {
            m = m * 2;
            k = k - 1;
        }
    } else {
        while m >= 2 * SCALE
            invariant
                SCALE <= m,
                0 <= k,
                k <= y - m,
                ln_norm(y as int) == (ln_shift_down(m as int).0, ln_shift_down(m as int).1 + k),
            decreases m,
        {
            m = ((m as u64) / 2) as i64;
            k = k + 1;
        }
    }
    assert(SCALE <= m < 2 * SCALE);
    assert(ln_norm(y as int) == (m as int, k as int));

    let u: i64 = m - SCALE;
    let num: i64 = u * SCALE;
    let den: i64 = m + SCALE;
    proof {
        vstd::arithmetic::div_mod::lemma_div_pos_is_pos(num as int, den as int);
        vstd::arithmetic::div_mod::lemma_div_nonincreasing(num as int, den as int);
    }
    let t: i64 = ((num as u64) / (den as u64)) as i64;
    assert(t == sat(tdiv(num as int, den as int)));

    let tsq = fx_mul(t, t);
    let mut series: i64 = 0;
    let mut term: i64 = t;
    let mut i: u64 = 0;
    while i < LN_TERMS
        invariant
            0 <= i <= LN_TERMS,
            term == ln_term_s(t, fx_mul_s(t, t), i as nat),
            series == ln_series_s(t, i as nat),
            tsq == fx_mul_s(t, t),
        decreases LN_TERMS - i,
    {
        series = fx_add(series, fx_div_int(term, 2 * (i as i64) + 1));
        term = fx_mul(term, tsq);
        i = i + 1;
    }
    let ln_m = fx_add(series, series);
    proof {
        crate::fixed::lemma_i64_mul_small(k as int, LN2_FX as int, 700_000);
    }
    crate::fixed::clamp64((k as i128) * (LN2_FX as i128) + (ln_m as i128))
}

/// The fixed-point logistic sigmoid.
pub fn fx_sigmoid(x: i64) -> (r: i64)
    ensures
        r == fx_sigmoid_s(x),
{
    let e = fx_exp(fx_neg(x));
    proof {
        lemma_fx_exp_s_nonneg(fx_neg_s(x));
    }
    let den = fx_add(SCALE, e);
    fx_div(SCALE, den)
}

/// The fixed-point hyperbolic tangent.
pub fn fx_tanh(x: i64) -> (r: i64)
    ensures
        r == fx_tanh_s(x),
{
    let s = fx_sigmoid(fx_add(x, x));
    fx_add(s, fx_add(s, fx_neg(SCALE)))
}

/// The fixed-point softplus.
pub fn fx_softplus(x: i64) -> (r: i64)
    ensures
        r == fx_softplus_s(x),
{
    let e = fx_exp(x);
    fx_ln(fx_add(SCALE, e))
}

} // verus!
