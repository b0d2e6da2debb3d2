//! The transfer family: the affine map from weights, biases and input
//! to the pre-activation vector.
//!
//! The dense transfer computes `W·x + b`. The dropout variant carries
//! a keep rate in `(0, 1]`; in training mode it draws a fresh
//! Bernoulli mask from the generator and zeroes dropped input entries
//! before the affine map, while in inference mode it deterministically
//! scales the weights by the keep rate instead.

use vstd::prelude::*;

use crate::fixed::SCALE;
use crate::linalg::{
    is_matrix, mat_scale, mat_scale_s, mat_view, matvec, matvec_s, vec_add, vec_add_s,
    vec_hadamard, vec_hadamard_s,
};
use crate::rng::{next_state_s, state_after_s, Rng};

verus! {

/// A transfer function; the dropout variant stores its keep rate as a
/// fixed-point fraction of one.
#[derive(Clone, Copy, Debug, PartialEq, Eq, Structural)]
pub enum Transfer {
    Dense,
    Dropout { keep: i64 },
}

/// A well-formed transfer: a dropout keep rate lies in `(0, 1]`.
pub open spec fn transfer_wf_s(t: Transfer) -> bool {
    match t {
        Transfer::Dense => true,
        Transfer::Dropout { keep } => 0 < keep <= SCALE,
    }
}

/// The dense affine map `W·x + b`.
pub open spec fn dense_s(w: Seq<Seq<i64>>, b: Seq<i64>, x: Seq<i64>) -> Seq<i64> {
    vec_add_s(matvec_s(w, x), b)
}

/// The Bernoulli dropout mask of length `n` drawn from generator
/// state `s0`: entry `i` is one exactly when the `i + 1`-th draw,
/// reduced modulo `SCALE`, falls below the keep rate.
pub open spec fn mask_s(s0: u64, n: nat, keep: i64) -> Seq<i64> {
    Seq::new(
        n,
        |i: int|
            if (next_state_s(state_after_s(s0, i as nat)) % (SCALE as u64)) < (keep as u64) {
                SCALE
            } else {
                0
            },
    )
}

/// The deterministic inference-mode transfer: dense, or dense with
/// the weights scaled by the keep rate.
pub open spec fn transfer_test_s(t: Transfer, w: Seq<Seq<i64>>, b: Seq<i64>, x: Seq<i64>) -> Seq<
    i64,
> {
    match t {
        Transfer::Dense => dense_s(w, b, x),
        Transfer::Dropout { keep } => dense_s(mat_scale_s(w, keep), b, x),
    }
}

/// The training-mode transfer: dense, or dense on the input masked by
/// a fresh Bernoulli mask drawn from generator state `s0`.
pub open spec fn transfer_train_s(
    t: Transfer,
    w: Seq<Seq<i64>>,
    b: Seq<i64>,
    x: Seq<i64>,
    s0: u64,
) -> Seq<i64> {
    match t {
        Transfer::Dense => dense_s(w, b, x),
        Transfer::Dropout { keep } => dense_s(w, b, vec_hadamard_s(mask_s(s0, x.len(), keep), x)),
    }
}

/// The generator state after one training-mode transfer on an input
/// of length `n`: dropout consumes one draw per input entry.
pub open spec fn train_state_s(t: Transfer, s0: u64, n: nat) -> u64 {
    match t {
        Transfer::Dense => s0,
        Transfer::Dropout { keep } => state_after_s(s0, n),
    }
}

/// Draw a Bernoulli dropout mask: one entry per input element, each a
/// fresh draw compared against the keep rate.
fn dropout_mask(rng: &mut Rng, size: usize, keep: i64) -> (r: Vec<i64>)
    requires
        0 < keep <= SCALE,
    ensures
        r@ == mask_s(old(rng).state, size as nat, keep),
        final(rng).state == state_after_s(old(rng).state, size as nat),
{
    let ghost s0 = rng.state;
    let mut r: Vec<i64> = Vec::new();
    for i in 0..size
        invariant
            0 < keep <= SCALE,
            rng.state == state_after_s(s0, i as nat),
            r@.len() == i,
            forall|j: int| 0 <= j < i ==> r@[j] == mask_s(s0, size as nat, keep)[j],
    {
        let draw = rng.below(SCALE as u64);
        if draw < keep as u64 {
            r.push(SCALE);
        } else {
            r.push(0);
        }
    }
    assert(r@ =~= mask_s(s0, size as nat, keep));
    r
}

impl Transfer {
    /// The stochastic training-mode transfer: a dropout transfer
    /// draws a fresh mask per call.
    pub fn transfer_train(
        &self,
        weights: &Vec<Vec<i64>>,
        biases: &Vec<i64>,
        inputs: &Vec<i64>,
        rng: &mut Rng,
    ) -> (r: Vec<i64>)
        requires
            transfer_wf_s(*self),
            is_matrix(mat_view(*weights), biases@.len(), inputs@.len()),
        ensures
            r@ == transfer_train_s(*self, mat_view(*weights), biases@, inputs@, old(rng).state),
            final(rng).state == train_state_s(*self, old(rng).state, inputs@.len()),
            r@.len() == biases@.len(),
    {
        match self {
            Transfer::Dense => {
                let t = matvec(weights, inputs);
                vec_add(&t, biases)
            },
            Transfer::Dropout { keep } => {
                let mask = dropout_mask(rng, inputs.len(), *keep);
                let masked = vec_hadamard(&mask, inputs);
                let t = matvec(weights, &masked);
                vec_add(&t, biases)
            },
        }
    }

    /// The deterministic inference-mode transfer.
    pub fn transfer_test(
        &self,
        weights: &Vec<Vec<i64>>,
        biases: &Vec<i64>,
        inputs: &Vec<i64>,
    ) -> (r: Vec<i64>)
        requires
            is_matrix(mat_view(*weights), biases@.len(), inputs@.len()),
        ensures
            r@ == transfer_test_s(*self, mat_view(*weights), biases@, inputs@),
            r@.len() == biases@.len(),
    {
        match self {
            Transfer::Dense => {
                let t = matvec(weights, inputs);
                vec_add(&t, biases)
            },
            Transfer::Dropout { keep } => {
                let scaled = mat_scale(weights, *keep);
                assert forall|j: int| 0 <= j < mat_view(scaled).len() implies (#[trigger] mat_view(
                    scaled,
                )[j]).len() == inputs@.len() by {
                    assert(mat_view(scaled)[j] == mat_scale_s(mat_view(*weights), *keep)[j]);
                    assert(mat_view(*weights)[j].len() == inputs@.len());
                }
                let t = matvec(&scaled, inputs);
                vec_add(&t, biases)
            },
        }
    }
}

/// The dense (fully connected) transfer.
pub fn dense() -> (r: Transfer)
    ensures
        r == Transfer::Dense,
{
    Transfer::Dense
}

/// A dropout transfer dropping the given fixed-point fraction of the
/// input; the stored keep rate is its complement.
pub fn dropout(drop_rate: i64) -> (r: Transfer)
    requires
        0 <= drop_rate < SCALE,
    ensures
        r == (Transfer::Dropout { keep: (SCALE - drop_rate) as i64 }),
        transfer_wf_s(r),
{
    Transfer::Dropout { keep: SCALE - drop_rate }
}

} // verus!
