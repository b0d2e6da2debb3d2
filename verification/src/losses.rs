//! The loss family: elementwise loss values and their derivatives with
//! respect to the prediction.
//!
//! Sum-squared error, mean-squared error, and categorical
//! cross-entropy fused with an internal stabilized softmax (the
//! numerically sound pairing; it must not be combined with an explicit
//! softmax output layer).

use vstd::prelude::*;

use crate::activations::{softmax_activation, softmax_s};
use crate::fixed::{
    fx_div_int, fx_div_int_s, fx_mul, fx_mul_s, fx_neg, fx_neg_s, fx_sub, fx_sub_s,
};
use crate::linalg::{vec_sub, vec_sub_s};
use crate::transcend::{fx_ln, fx_ln_s};

verus! {

/// The fixed-point constant two, for the sum-squared-error derivative.
pub const TWO_FX: i64 = 2_000_000;

/// A loss function together with its derivative.
#[derive(Clone, Copy, Debug, PartialEq, Eq, Structural)]
pub enum Loss {
    SumSquared,
    MeanSquared,
    CategoricalCrossEntropy,
}

/// Elementwise sum-squared-error loss: `(p - t)^2`.
pub open spec fn sse_loss_s(p: Seq<i64>, t: Seq<i64>) -> Seq<i64> {
    Seq::new(p.len(), |i: int| fx_mul_s(fx_sub_s(p[i], t[i]), fx_sub_s(p[i], t[i])))
}

/// Sum-squared-error derivative: `2 * (p - t)`.
pub open spec fn sse_derivative_s(p: Seq<i64>, t: Seq<i64>) -> Seq<i64> {
    Seq::new(p.len(), |i: int| fx_mul_s(TWO_FX, fx_sub_s(p[i], t[i])))
}

/// Elementwise mean-squared-error loss: `(p - t)^2 / n`.
pub open spec fn mse_loss_s(p: Seq<i64>, t: Seq<i64>) -> Seq<i64> {
    Seq::new(
        p.len(),
        |i: int| fx_div_int_s(fx_mul_s(fx_sub_s(p[i], t[i]), fx_sub_s(p[i], t[i])), p.len() as i64),
    )
}

/// Mean-squared-error derivative: `(p - t) / n`.
pub open spec fn mse_derivative_s(p: Seq<i64>, t: Seq<i64>) -> Seq<i64> {
    Seq::new(p.len(), |i: int| fx_div_int_s(fx_sub_s(p[i], t[i]), p.len() as i64))
}

/// Categorical cross-entropy loss with internal softmax:
/// `-ln(softmax(p)) ⊙ t`.
pub open spec fn cce_loss_s(p: Seq<i64>, t: Seq<i64>) -> Seq<i64> {
    Seq::new(p.len(), |i: int| fx_mul_s(fx_neg_s(fx_ln_s(softmax_s(p)[i])), t[i]))
}

/// Categorical cross-entropy derivative with internal softmax:
/// `softmax(p) - t`.
pub open spec fn cce_derivative_s(p: Seq<i64>, t: Seq<i64>) -> Seq<i64> {
    vec_sub_s(softmax_s(p), t)
}

/// The loss value of each variant.
pub open spec fn loss_s(l: Loss, p: Seq<i64>, t: Seq<i64>) -> Seq<i64> {
    match l {
        Loss::SumSquared => sse_loss_s(p, t),
        Loss::MeanSquared => mse_loss_s(p, t),
        Loss::CategoricalCrossEntropy => cce_loss_s(p, t),
    }
}

/// The loss derivative of each variant.
pub open spec fn derivative_s(l: Loss, p: Seq<i64>, t: Seq<i64>) -> Seq<i64> {
    match l {
        Loss::SumSquared => sse_derivative_s(p, t),
        Loss::MeanSquared => mse_derivative_s(p, t),
        Loss::CategoricalCrossEntropy => cce_derivative_s(p, t),
    }
}

impl Loss {
    /// The elementwise loss of a prediction against an expected
    /// vector.
    pub fn loss(&self, prediction: &Vec<i64>, expected: &Vec<i64>) -> (r: Vec<i64>)
        requires
            prediction@.len() == expected@.len(),
            !(*self is SumSquared) ==> 1 <= prediction@.len() <= i64::MAX,
        ensures
            r@ == loss_s(*self, prediction@, expected@),
            r@.len() == prediction@.len(),
    {
        let n = prediction.len();
        match self {
            Loss::SumSquared => {
                let mut r: Vec<i64> = Vec::new();
                for i in 0..n
                    invariant
                        n == prediction@.len() == expected@.len(),
                        r@.len() == i,
                        forall|j: int| 0 <= j < i ==> r@[j] == fx_mul_s(
                            fx_sub_s(prediction@[j], expected@[j]),
                            fx_sub_s(prediction@[j], expected@[j]),
                        ),
                {
                    let d = fx_sub(prediction[i], expected[i]);
                    r.push(fx_mul(d, d));
                }
                assert(r@ =~= sse_loss_s(prediction@, expected@));
                r
            },
            Loss::MeanSquared => {
                let mut r: Vec<i64> = Vec::new();
                for i in 0..n
                    invariant
                        n == prediction@.len() == expected@.len(),
                        1 <= n <= i64::MAX,
                        r@.len() == i,
                        forall|j: int| 0 <= j < i ==> r@[j] == fx_div_int_s(
                            fx_mul_s(
                                fx_sub_s(prediction@[j], expected@[j]),
                                fx_sub_s(prediction@[j], expected@[j]),
                            ),
                            n as i64,
                        ),
                {
                    let d = fx_sub(prediction[i], expected[i]);
                    r.push(fx_div_int(fx_mul(d, d), n as i64));
                }
                assert(r@ =~= mse_loss_s(prediction@, expected@));
                r
            },
            Loss::CategoricalCrossEntropy => {
                let sm = softmax_activation(prediction);
                let mut r: Vec<i64> = Vec::new();
                for i in 0..n
                    invariant
                        n == prediction@.len() == expected@.len(),
                        sm@ == softmax_s(prediction@),
                        sm@.len() == n,
                        r@.len() == i,
                        forall|j: int| 0 <= j < i ==> r@[j] == fx_mul_s(
                            fx_neg_s(fx_ln_s(softmax_s(prediction@)[j])),
                            expected@[j],
                        ),
                {
                    r.push(fx_mul(fx_neg(fx_ln(sm[i])), expected[i]));
                }
                assert(r@ =~= cce_loss_s(prediction@, expected@));
                r
            },
        }
    }

    /// The derivative of the loss with respect to the prediction.
    pub fn derivative(&self, prediction: &Vec<i64>, expected: &Vec<i64>) -> (r: Vec<i64>)
        requires
            prediction@.len() == expected@.len(),
            !(*self is SumSquared) ==> 1 <= prediction@.len() <= i64::MAX,
        ensures
            r@ == derivative_s(*self, prediction@, expected@),
            r@.len() == prediction@.len(),
    {
        let n = prediction.len();
        match self {
            Loss::SumSquared => {
                let mut r: Vec<i64> = Vec::new();
                for i in 0..n
                    invariant
                        n == prediction@.len() == expected@.len(),
                        r@.len() == i,
                        forall|j: int| 0 <= j < i ==> r@[j] == fx_mul_s(
                            TWO_FX,
                            fx_sub_s(prediction@[j], expected@[j]),
                        ),
                {
                    r.push(fx_mul(TWO_FX, fx_sub(prediction[i], expected[i])));
                }
                assert(r@ =~= sse_derivative_s(prediction@, expected@));
                r
            },
            Loss::MeanSquared => {
                let mut r: Vec<i64> = Vec::new();
                for i in 0..n
                    invariant
                        n == prediction@.len() == expected@.len(),
                        1 <= n <= i64::MAX,
                        r@.len() == i,
                        forall|j: int| 0 <= j < i ==> r@[j] == fx_div_int_s(
                            fx_sub_s(prediction@[j], expected@[j]),
                            n as i64,
                        ),
                {
                    r.push(fx_div_int(fx_sub(prediction[i], expected[i]), n as i64));
                }
                assert(r@ =~= mse_derivative_s(prediction@, expected@));
                r
            },
            Loss::CategoricalCrossEntropy => {
                let sm = softmax_activation(prediction);
                vec_sub(&sm, expected)
            },
        }
    }
}

/// The sum-squared-error loss.
pub fn sse() -> (r: Loss)
    ensures
        r == Loss::SumSquared,
{
    Loss::SumSquared
}

/// The mean-squared-error loss.
pub fn mse() -> (r: Loss)
    ensures
        r == Loss::MeanSquared,
{
    Loss::MeanSquared
}

/// The categorical cross-entropy loss with internal softmax.
pub fn cce() -> (r: Loss)
    ensures
        r == Loss::CategoricalCrossEntropy,
{
    Loss::CategoricalCrossEntropy
}

} // verus!
