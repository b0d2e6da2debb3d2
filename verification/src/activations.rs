//! The activation family: scalar-wise nonlinearities and their
//! derivatives, applied to a vector, plus the vector-wise stabilized
//! softmax.
//!
//! The family is a closed set of variants sharing one functional
//! contract. Derivatives are evaluated on the pre-activation value;
//! softmax has no pointwise derivative here and is excluded from
//! `derive` by precondition, matching its role as a pure output
//! activation.

use vstd::prelude::*;

use crate::fixed::{fx_add_s, fx_div, fx_div_s, fx_mul_s, fx_sub_s, SCALE};
use crate::linalg::{vec_max, vec_max_s, vec_sum, vec_sum_s};
use crate::transcend::{
    fx_exp, fx_exp_s, fx_sigmoid, fx_sigmoid_s, fx_softplus, fx_softplus_s, fx_tanh, fx_tanh_s,
    lemma_fx_exp_s_nonneg,
};

verus! {

/// The slope of the leaky rectifier on negative inputs (0.01).
pub const LEAK_FX: i64 = 10_000;

/// A scalar-wise nonlinearity (softmax acting on the whole vector).
#[derive(Clone, Copy, Debug, PartialEq, Eq, Structural)]
pub enum Activation {
    Linear,
    ReLU,
    LeakyReLU,
    Sigmoid,
    Softmax,
    Softplus,
    Tanh,
}

/// The scalar activation value of each variant except softmax.
pub open spec fn act1_s(a: Activation, x: i64) -> i64 {
    match a {
        Activation::Linear => x,
        Activation::ReLU => if x > 0 {
            x
        } else {
            0
        },
        Activation::LeakyReLU => if x > 0 {
            x
        } else {
            fx_mul_s(LEAK_FX, x)
        },
        Activation::Sigmoid => fx_sigmoid_s(x),
        Activation::Softmax => x,
        Activation::Softplus => fx_softplus_s(x),
        Activation::Tanh => fx_tanh_s(x),
    }
}

/// The scalar derivative of each variant except softmax, evaluated on
/// the pre-activation value.
pub open spec fn deriv1_s(a: Activation, x: i64) -> i64 {
    match a {
        Activation::Linear => SCALE,
        Activation::ReLU => if x > 0 {
            SCALE
        } else {
            0
        },
        Activation::LeakyReLU => if x > 0 {
            SCALE
        } else {
            LEAK_FX
        },
        Activation::Sigmoid => fx_mul_s(fx_sigmoid_s(x), fx_sub_s(SCALE, fx_sigmoid_s(x))),
        Activation::Softmax => x,
        Activation::Softplus => fx_sigmoid_s(x),
        Activation::Tanh => fx_sub_s(SCALE, fx_mul_s(fx_tanh_s(x), fx_tanh_s(x))),
    }
}

/// The exponentials of a vector shifted down by its maximum.
pub open spec fn softmax_exps_s(x: Seq<i64>) -> Seq<i64> {
    Seq::new(x.len(), |i: int| fx_exp_s(fx_sub_s(x[i], vec_max_s(x))))
}

/// Numerically stabilized softmax: subtract the maximum, exponentiate,
/// normalize by the sum.
pub open spec fn softmax_s(x: Seq<i64>) -> Seq<i64> {
    Seq::new(x.len(), |i: int| fx_div_s(softmax_exps_s(x)[i], vec_sum_s(softmax_exps_s(x))))
}

/// The activation of a whole vector.
pub open spec fn activate_s(a: Activation, x: Seq<i64>) -> Seq<i64> {
    if a is Softmax {
        softmax_s(x)
    } else {
        Seq::new(x.len(), |i: int| act1_s(a, x[i]))
    }
}

/// The derivative of a whole vector, for every variant but softmax.
pub open spec fn derive_s(a: Activation, x: Seq<i64>) -> Seq<i64> {
    Seq::new(x.len(), |i: int| deriv1_s(a, x[i]))
}

impl Activation {
    /// Apply the activation to a pre-activation vector.
    pub fn activate(&self, transfer: &Vec<i64>) -> (r: Vec<i64>)
        requires
            *self is Softmax ==> transfer@.len() >= 1,
        ensures
            r@ == activate_s(*self, transfer@),
            r@.len() == transfer@.len(),
    {
        match self {
            Activation::Softmax => softmax_activation(transfer),
            _ => {
                let mut r: Vec<i64> = Vec::new();
                let n = transfer.len();
                for i in 0..n
                    invariant
                        n == transfer@.len(),
                        !(*self is Softmax),
                        r@.len() == i,
                        forall|j: int| 0 <= j < i ==> r@[j] == act1_s(*self, transfer@[j]),
                {
                    r.push(act1(*self, transfer[i]));
                }
                assert(r@ =~= activate_s(*self, transfer@));
                r
            },
        }
    }

    /// Apply the derivative of the activation to a pre-activation
    /// vector. Softmax has no pointwise derivative and is excluded.
    pub fn derive(&self, transfer: &Vec<i64>) -> (r: Vec<i64>)
        requires
            !(*self is Softmax),
        ensures
            r@ == derive_s(*self, transfer@),
            r@.len() == transfer@.len(),
    {
        let mut r: Vec<i64> = Vec::new();
        let n = transfer.len();
        for i in 0..n
            invariant
                n == transfer@.len(),
                !(*self is Softmax),
                r@.len() == i,
                forall|j: int| 0 <= j < i ==> r@[j] == deriv1_s(*self, transfer@[j]),
        {
            r.push(deriv1(*self, transfer[i]));
        }
        assert(r@ =~= derive_s(*self, transfer@));
        r
    }
}

/// Scalar activation of a non-softmax variant.
fn act1(a: Activation, x: i64) -> (r: i64)
    requires
        !(a is Softmax),
    ensures
        r == act1_s(a, x),
{
    match a {
        Activation::Linear => x,
        Activation::ReLU => if x > 0 {
            x
        } else {
            0
        },
        Activation::LeakyReLU => if x > 0 {
            x
        } else {
            crate::fixed::fx_mul(LEAK_FX, x)
        },
        Activation::Sigmoid => fx_sigmoid(x),
        Activation::Softmax => x,
        Activation::Softplus => fx_softplus(x),
        Activation::Tanh => fx_tanh(x),
    }
}

/// Scalar derivative of a non-softmax variant.
fn deriv1(a: Activation, x: i64) -> (r: i64)
    requires
        !(a is Softmax),
    ensures
        r == deriv1_s(a, x),
{
    match a {
        Activation::Linear => SCALE,
        Activation::ReLU => if x > 0 {
            SCALE
        } else {
            0
        },
        Activation::LeakyReLU => if x > 0 {
            SCALE
        } else {
            LEAK_FX
        },
        Activation::Sigmoid => {
            let s = fx_sigmoid(x);
            crate::fixed::fx_mul(s, crate::fixed::fx_sub(SCALE, s))
        },
        Activation::Softmax => x,
        Activation::Softplus => fx_sigmoid(x),
        Activation::Tanh => {
            let t = fx_tanh(x);
            crate::fixed::fx_sub(SCALE, crate::fixed::fx_mul(t, t))
        },
    }
}

/// A Taylor term of the exponential at zero is zero past the constant
/// term.
proof fn lemma_exp_term_zero(i: nat)
    requires
        i <= crate::transcend::EXP_TERMS,
    ensures
        i >= 1 ==> crate::transcend::exp_term_s(0, i) == 0,
    decreases i,
{
    vstd::arithmetic::div_mod::lemma_div_of0(SCALE as int);
    if i == 1 {
        assert(fx_mul_s(crate::transcend::exp_term_s(0, 0), 0) == 0);
        vstd::arithmetic::div_mod::lemma_div_of0(1);
        assert(crate::transcend::exp_term_s(0, 1) == 0);
    } else if i > 1 {
        lemma_exp_term_zero((i - 1) as nat);
        assert(fx_mul_s(crate::transcend::exp_term_s(0, (i - 1) as nat), 0) == 0);
        vstd::arithmetic::div_mod::lemma_div_of0(i as int);
        assert(crate::transcend::exp_term_s(0, i) == 0);
    }
}

/// The Taylor sum of the exponential at zero is exactly one.
proof fn lemma_exp_taylor_zero(n: nat)
    requires
        1 <= n <= crate::transcend::EXP_TERMS,
    ensures
        crate::transcend::exp_taylor_s(0, n) == SCALE,
    decreases n,
{
    if n == 1 {
        assert(crate::transcend::exp_taylor_s(0, 0) == 0);
        assert(crate::transcend::exp_term_s(0, 0) == SCALE);
        assert(crate::transcend::exp_taylor_s(0, 1) == fx_add_s(0, SCALE));
    } else {
        lemma_exp_taylor_zero((n - 1) as nat);
        lemma_exp_term_zero((n - 1) as nat);
        assert(crate::transcend::exp_taylor_s(0, n) == fx_add_s(SCALE, 0));
    }
}

/// The fixed-point exponential of zero is exactly one.
pub proof fn lemma_fx_exp_zero()
    ensures
        fx_exp_s(0) == SCALE,
{
    reveal(crate::transcend::fx_exp_s);
    lemma_exp_taylor_zero(crate::transcend::EXP_TERMS as nat);
    vstd::arithmetic::div_mod::lemma_div_multiples_vanish(SCALE as int, SCALE as int);
    assert((SCALE as int) * (SCALE as int) == (SCALE as int) * (SCALE as int));
    assert(fx_mul_s(SCALE, SCALE) == SCALE);
}

/// A saturating sum of non-negative entries is non-negative.
proof fn lemma_sum_prefix_nonneg(e: Seq<i64>, n: nat)
    requires
        n <= e.len(),
        forall|i: int| 0 <= i < n ==> e[i] >= 0,
    ensures
        crate::linalg::sum_prefix_s(e, n) >= 0,
    decreases n,
{
    if n > 0 {
        lemma_sum_prefix_nonneg(e, (n - 1) as nat);
    }
}

/// A saturating sum of non-negative entries is at least any single
/// entry.
proof fn lemma_sum_prefix_lower(e: Seq<i64>, n: nat, idx: int)
    requires
        n <= e.len(),
        0 <= idx < n,
        forall|i: int| 0 <= i < n ==> e[i] >= 0,
    ensures
        crate::linalg::sum_prefix_s(e, n) >= e[idx],
    decreases n,
{
    if idx == n - 1 {
        lemma_sum_prefix_nonneg(e, (n - 1) as nat);
    } else {
        lemma_sum_prefix_lower(e, (n - 1) as nat, idx);
    }
}

/// The maximum of a prefix is attained at some index.
proof fn lemma_max_prefix_attained(a: Seq<i64>, n: nat)
    requires
        1 <= n <= a.len(),
    ensures
        exists|i: int| 0 <= i < n && a[i] == crate::linalg::max_prefix_s(a, n),
    decreases n,
{
    if n == 1 {
        assert(a[0] == crate::linalg::max_prefix_s(a, n));
    } else {
        lemma_max_prefix_attained(a, (n - 1) as nat);
        if a[n - 1] > crate::linalg::max_prefix_s(a, (n - 1) as nat) {
            assert(a[n - 1] == crate::linalg::max_prefix_s(a, n));
        } else {
            let i = choose|i: int|
                0 <= i < n - 1 && a[i] == crate::linalg::max_prefix_s(a, (n - 1) as nat);
            assert(a[i] == crate::linalg::max_prefix_s(a, n));
        }
    }
}

/// The softmax denominator is at least one: the entry at the maximum
/// exponentiates to exactly one and no entry is negative.
pub proof fn lemma_softmax_denominator(x: Seq<i64>)
    requires
        x.len() >= 1,
    ensures
        vec_sum_s(softmax_exps_s(x)) >= SCALE,
{
    let e = softmax_exps_s(x);
    let mx = vec_max_s(x);
    assert forall|i: int| 0 <= i < e.len() implies e[i] >= 0 by {
        lemma_fx_exp_s_nonneg(fx_sub_s(x[i], mx));
    }
    lemma_max_prefix_attained(x, x.len());
    let imax = choose|i: int| 0 <= i < x.len() && x[i] == mx;
    lemma_fx_exp_zero();
    assert(e[imax] == SCALE);
    lemma_sum_prefix_lower(e, e.len(), imax);
}

/// Stabilized softmax of a non-empty vector: subtract the maximum,
/// exponentiate, normalize by the saturating sum.
pub fn softmax_activation(x: &Vec<i64>) -> (r: Vec<i64>)
    requires
        x@.len() >= 1,
    ensures
        r@ == softmax_s(x@),
{
    let mx = vec_max(x);
    let mut exps: Vec<i64> = Vec::new();
    let n = x.len();
    for i in 0..n
        invariant
            n == x@.len() >= 1,
            mx == vec_max_s(x@),
            exps@.len() == i,
            forall|j: int| 0 <= j < i ==> exps@[j] == fx_exp_s(fx_sub_s(x@[j], mx)),
    {
        exps.push(fx_exp(crate::fixed::fx_sub(x[i], mx)));
    }
    assert(exps@ =~= softmax_exps_s(x@));
    let total = vec_sum(&exps);
    proof {
        lemma_softmax_denominator(x@);
    }
    let mut r: Vec<i64> = Vec::new();
    for i in 0..n
        invariant
            n == x@.len(),
            exps@ == softmax_exps_s(x@),
            total == vec_sum_s(softmax_exps_s(x@)),
            total >= SCALE,
            r@.len() == i,
            forall|j: int| 0 <= j < i ==> r@[j] == fx_div_s(softmax_exps_s(x@)[j], total),
    {
        r.push(fx_div(exps[i], total));
    }
    assert(r@ =~= softmax_s(x@));
    r
}

/// The linear (identity) activation.
pub fn linear() -> (r: Activation)
    ensures
        r == Activation::Linear,
{
    Activation::Linear
}

/// The rectified linear activation.
pub fn relu() -> (r: Activation)
    ensures
        r == Activation::ReLU,
{
    Activation::ReLU
}

/// The leaky rectified linear activation.
pub fn leaky_relu() -> (r: Activation)
    ensures
        r == Activation::LeakyReLU,
{
    Activation::LeakyReLU
}

/// The logistic sigmoid activation.
pub fn sigmoid() -> (r: Activation)
    ensures
        r == Activation::Sigmoid,
{
    Activation::Sigmoid
}

/// The stabilized softmax activation.
pub fn softmax() -> (r: Activation)
    ensures
        r == Activation::Softmax,
{
    Activation::Softmax
}

/// The softplus activation.
pub fn softplus() -> (r: Activation)
    ensures
        r == Activation::Softplus,
{
    Activation::Softplus
}

/// The hyperbolic tangent activation.
pub fn tanh() -> (r: Activation)
    ensures
        r == Activation::Tanh,
{
    Activation::Tanh
}

} // verus!
