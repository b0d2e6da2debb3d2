//! A network layer: a weight matrix and a bias vector composed with a
//! transfer and an activation, plus three optional cache slots filled
//! by a cached forward pass.
//!
//! Invariants: the weight matrix has shape `(outputs, inputs)`, the
//! bias vector has length `outputs`, and any cached vector has the
//! matching length. The caches are `None` until a cached forward pass
//! runs; a cached pass sets all three together.

use vstd::prelude::*;

use crate::activations::{activate_s, derive_s, Activation};
use crate::linalg::{is_matrix, mat_view, vec_copy};
use crate::rng::{next_state_s, state_after_s, Rng};
use crate::transfers::{
    train_state_s, transfer_test_s, transfer_train_s, transfer_wf_s, Transfer,
};

verus! {

/// Half-width of the uniform weight-initialization range (0.01).
pub const INIT_RADIUS: i64 = 10_000;

/// Number of distinct initialization values, `2 * INIT_RADIUS + 1`.
pub const INIT_SPAN: u64 = 20_001;

/// A single feed-forward layer.
#[derive(Clone, Debug)]
pub struct Layer {
    pub outputs: usize,
    pub inputs: usize,
    pub transfer_fn: Transfer,
    pub activation_fn: Activation,
    pub weights: Vec<Vec<i64>>,
    pub biases: Vec<i64>,
    pub input_value: Option<Vec<i64>>,
    pub transfer_value: Option<Vec<i64>>,
    pub activation_value: Option<Vec<i64>>,
}

/// A well-formed layer: positive sizes, weights of shape
/// `(outputs, inputs)`, biases of length `outputs`, a well-formed
/// transfer, and caches (when present) of the matching lengths.
pub open spec fn layer_wf_s(l: Layer) -> bool {
    &&& l.inputs >= 1
    &&& l.outputs >= 1
    &&& l.inputs <= 0x7fff_ffff_ffff_ffff
    &&& l.outputs <= 0x7fff_ffff_ffff_ffff
    &&& is_matrix(mat_view(l.weights), l.outputs as nat, l.inputs as nat)
    &&& l.biases@.len() == l.outputs
    &&& transfer_wf_s(l.transfer_fn)
    &&& (l.input_value matches Some(v) ==> v@.len() == l.inputs)
    &&& (l.transfer_value matches Some(v) ==> v@.len() == l.outputs)
    &&& (l.activation_value matches Some(v) ==> v@.len() == l.outputs)
}

/// All three cache slots are filled.
pub open spec fn layer_cached_s(l: Layer) -> bool {
    &&& l.input_value is Some
    &&& l.transfer_value is Some
    &&& l.activation_value is Some
}

/// The layer's structural fields agree between two values (everything
/// but the caches).
pub open spec fn layer_same_structure_s(a: Layer, b: Layer) -> bool {
    &&& a.outputs == b.outputs
    &&& a.inputs == b.inputs
    &&& a.transfer_fn == b.transfer_fn
    &&& a.activation_fn == b.activation_fn
    &&& mat_view(a.weights) == mat_view(b.weights)
    &&& a.biases@ == b.biases@
}

/// The inference-mode output of a layer on an input.
pub open spec fn layer_forward_s(l: Layer, x: Seq<i64>) -> Seq<i64> {
    activate_s(l.activation_fn, transfer_test_s(l.transfer_fn, mat_view(l.weights), l.biases@, x))
}

/// The training-mode pre-activation of a layer on an input, with
/// generator state `s0`.
pub open spec fn layer_train_transfer_s(l: Layer, x: Seq<i64>, s0: u64) -> Seq<i64> {
    transfer_train_s(l.transfer_fn, mat_view(l.weights), l.biases@, x, s0)
}

/// The training-mode output of a layer on an input, with generator
/// state `s0`.
pub open spec fn layer_train_out_s(l: Layer, x: Seq<i64>, s0: u64) -> Seq<i64> {
    activate_s(l.activation_fn, layer_train_transfer_s(l, x, s0))
}

/// One value of the uniform small-weight initialization stream: draw
/// `idx` reduced into `[-INIT_RADIUS, INIT_RADIUS]`.
pub open spec fn init_entry_s(s0: u64, idx: nat) -> i64 {
    (((next_state_s(state_after_s(s0, idx)) % INIT_SPAN) as i64) - INIT_RADIUS) as i64
}

impl Layer {
    /// A fresh layer with the given shape, transfer and activation;
    /// weights and biases are drawn uniformly from
    /// `[-INIT_RADIUS, INIT_RADIUS]` (that is, ±0.01), weights first
    /// in row-major order, and the caches start empty.
    pub fn new(
        outputs: usize,
        inputs: usize,
        transfer_fn: Transfer,
        activation_fn: Activation,
        rng: &mut Rng,
    ) -> (r: Layer)
        requires
            1 <= outputs,
            1 <= inputs,
            inputs <= 0x7fff_ffff_ffff_ffff,
            outputs <= 0x7fff_ffff_ffff_ffff,
            outputs * inputs + outputs <= usize::MAX,
            transfer_wf_s(transfer_fn),
        ensures
            r.outputs == outputs,
            r.inputs == inputs,
            r.transfer_fn == transfer_fn,
            r.activation_fn == activation_fn,
            layer_wf_s(r),
            r.input_value is None,
            r.transfer_value is None,
            r.activation_value is None,
            forall|j: int, k: int|
                0 <= j < outputs && 0 <= k < inputs ==> mat_view(r.weights)[j][k] == init_entry_s(
                    old(rng).state,
                    (j * inputs + k) as nat,
                ),
            forall|j: int|
                0 <= j < outputs ==> r.biases@[j] == init_entry_s(
                    old(rng).state,
                    (outputs * inputs + j) as nat,
                ),
            final(rng).state == state_after_s(
                old(rng).state,
                (outputs * inputs + outputs) as nat,
            ),
    {
        let ghost s0 = rng.state;
        let mut weights: Vec<Vec<i64>> = Vec::new();
        for j in 0..outputs
            invariant
                1 <= inputs,
                outputs * inputs + outputs <= usize::MAX,
                j <= outputs,
                weights@.len() == j,
                rng.state == state_after_s(s0, (j * inputs) as nat),
                forall|jj: int|
                    0 <= jj < j ==> (#[trigger] weights@[jj])@.len() == inputs,
                forall|jj: int, k: int|
                    0 <= jj < j && 0 <= k < inputs ==> weights@[jj]@[k] == init_entry_s(
                        s0,
                        (jj * inputs + k) as nat,
                    ),
        {
            proof {
                lemma_row_bounds(j as int, outputs as int, inputs as int);
            }
            let mut row: Vec<i64> = Vec::new();
            for k in 0..inputs
                invariant
                    1 <= inputs,
                    j < outputs,
                    outputs * inputs + outputs <= usize::MAX,
                    j * inputs + inputs <= outputs * inputs,
                    k <= inputs,
                    row@.len() == k,
                    rng.state == state_after_s(s0, (j * inputs + k) as nat),
                    forall|kk: int|
                        0 <= kk < k ==> row@[kk] == init_entry_s(s0, (j * inputs + kk) as nat),
            {
                let draw = rng.below(INIT_SPAN);
                row.push(draw as i64 - INIT_RADIUS);
            }
            weights.push(row);
            proof {
                lemma_row_step(j as int, inputs as int);
            }
        }
        let mut biases: Vec<i64> = Vec::new();
        for j in 0..outputs
            invariant
                outputs * inputs + outputs <= usize::MAX,
                j <= outputs,
                biases@.len() == j,
                rng.state == state_after_s(s0, (outputs * inputs + j) as nat),
                forall|jj: int|
                    0 <= jj < j ==> biases@[jj] == init_entry_s(
                        s0,
                        (outputs * inputs + jj) as nat,
                    ),
        {
            let draw = rng.below(INIT_SPAN);
            biases.push(draw as i64 - INIT_RADIUS);
        }
        let r = Layer {
            outputs,
            inputs,
            transfer_fn,
            activation_fn,
            weights,
            biases,
            input_value: None,
            transfer_value: None,
            activation_value: None,
        };
        assert(is_matrix(mat_view(r.weights), outputs as nat, inputs as nat));
        r
    }

    /// The declared input length.
    pub fn input_size(&self) -> (r: usize)
        ensures
            r == self.inputs,
    {
        self.inputs
    }

    /// The declared output length.
    pub fn output_size(&self) -> (r: usize)
        ensures
            r == self.outputs,
    {
        self.outputs
    }

    /// The weight matrix.
    pub fn get_weights(&self) -> (r: &Vec<Vec<i64>>)
        ensures
            r == &self.weights,
    {
        &self.weights
    }

    /// Mutable access to the weight matrix.
    pub fn get_weights_mut(&mut self) -> (r: &mut Vec<Vec<i64>>)
        ensures
            *r == old(self).weights,
            final(self).weights == *final(r),
            final(self).outputs == old(self).outputs,
            final(self).inputs == old(self).inputs,
            final(self).transfer_fn == old(self).transfer_fn,
            final(self).activation_fn == old(self).activation_fn,
            final(self).biases == old(self).biases,
            final(self).input_value == old(self).input_value,
            final(self).transfer_value == old(self).transfer_value,
            final(self).activation_value == old(self).activation_value,
    {
        &mut self.weights
    }

    /// The bias vector.
    pub fn get_biases(&self) -> (r: &Vec<i64>)
        ensures
            r == &self.biases,
    {
        &self.biases
    }

    /// Mutable access to the bias vector.
    pub fn get_biases_mut(&mut self) -> (r: &mut Vec<i64>)
        ensures
            *r == old(self).biases,
            final(self).biases == *final(r),
            final(self).outputs == old(self).outputs,
            final(self).inputs == old(self).inputs,
            final(self).transfer_fn == old(self).transfer_fn,
            final(self).activation_fn == old(self).activation_fn,
            final(self).weights == old(self).weights,
            final(self).input_value == old(self).input_value,
            final(self).transfer_value == old(self).transfer_value,
            final(self).activation_value == old(self).activation_value,
    {
        &mut self.biases
    }

    /// The cached input, if a cached pass has run.
    pub fn get_input(&self) -> (r: Option<&Vec<i64>>)
        ensures
            (r is Some <==> self.input_value is Some),
            (r matches Some(v) ==> self.input_value matches Some(w) && w == *v),
    {
        self.input_value.as_ref()
    }

    /// Store a cached input.
    pub fn set_input(&mut self, input: Vec<i64>)
        ensures
            *final(self) == (Layer { input_value: Some(input), ..*old(self) }),
    {
        self.input_value = Some(input);
    }

    /// The cached pre-activation, if a cached pass has run.
    pub fn get_transfer(&self) -> (r: Option<&Vec<i64>>)
        ensures
            (r is Some <==> self.transfer_value is Some),
            (r matches Some(v) ==> self.transfer_value matches Some(w) && w == *v),
    {
        self.transfer_value.as_ref()
    }

    /// Store a cached pre-activation.
    pub fn set_transfer(&mut self, transfer: Vec<i64>)
        ensures
            *final(self) == (Layer { transfer_value: Some(transfer), ..*old(self) }),
    {
        self.transfer_value = Some(transfer);
    }

    /// The cached activation, if a cached pass has run.
    pub fn get_activation(&self) -> (r: Option<&Vec<i64>>)
        ensures
            (r is Some <==> self.activation_value is Some),
            (r matches Some(v) ==> self.activation_value matches Some(w) && w == *v),
    {
        self.activation_value.as_ref()
    }

    /// Store a cached activation.
    pub fn set_activation(&mut self, activation: Vec<i64>)
        ensures
            *final(self) == (Layer { activation_value: Some(activation), ..*old(self) }),
    {
        self.activation_value = Some(activation);
    }

    /// The deterministic (inference-mode) transfer of this layer.
    pub fn apply_transfer(&self, inputs: &Vec<i64>) -> (r: Vec<i64>)
        requires
            layer_wf_s(*self),
            inputs@.len() == self.inputs,
        ensures
            r@ == transfer_test_s(self.transfer_fn, mat_view(self.weights), self.biases@, inputs@),
            r@.len() == self.outputs,
    {
        self.transfer_fn.transfer_test(&self.weights, &self.biases, inputs)
    }

    /// The training-mode transfer of this layer, drawing any dropout
    /// mask from the generator.
    pub fn apply_transfer_train(&self, inputs: &Vec<i64>, rng: &mut Rng) -> (r: Vec<i64>)
        requires
            layer_wf_s(*self),
            inputs@.len() == self.inputs,
        ensures
            r@ == layer_train_transfer_s(*self, inputs@, old(rng).state),
            final(rng).state == train_state_s(self.transfer_fn, old(rng).state, inputs@.len()),
            r@.len() == self.outputs,
    {
        self.transfer_fn.transfer_train(&self.weights, &self.biases, inputs, rng)
    }

    /// The activation applied to a pre-activation vector.
    pub fn apply_activation(&self, transfer: &Vec<i64>) -> (r: Vec<i64>)
        requires
            self.activation_fn is Softmax ==> transfer@.len() >= 1,
        ensures
            r@ == activate_s(self.activation_fn, transfer@),
            r@.len() == transfer@.len(),
    {
        self.activation_fn.activate(transfer)
    }

    /// The activation derivative applied to a pre-activation vector.
    pub fn apply_derivation(&self, transfer: &Vec<i64>) -> (r: Vec<i64>)
        requires
            !(self.activation_fn is Softmax),
        ensures
            r@ == derive_s(self.activation_fn, transfer@),
            r@.len() == transfer@.len(),
    {
        self.activation_fn.derive(transfer)
    }

    /// The inference-mode forward pass; stores nothing.
    pub fn forward(&self, inputs: &Vec<i64>) -> (r: Vec<i64>)
        requires
            layer_wf_s(*self),
            inputs@.len() == self.inputs,
        ensures
            r@ == layer_forward_s(*self, inputs@),
            r@.len() == self.outputs,
    {
        let t = self.apply_transfer(inputs);
        self.apply_activation(&t)
    }

    /// The training-mode forward pass: computes the transfer and
    /// activation and stores the input, pre-activation and activation
    /// in the cache slots.
    pub fn forward_cached(&mut self, input: &Vec<i64>, rng: &mut Rng) -> (r: Vec<i64>)
        requires
            layer_wf_s(*old(self)),
            input@.len() == old(self).inputs,
        ensures
            r@ == layer_train_out_s(*old(self), input@, old(rng).state),
            r@.len() == old(self).outputs,
            final(rng).state == train_state_s(
                old(self).transfer_fn,
                old(rng).state,
                input@.len(),
            ),
            layer_same_structure_s(*final(self), *old(self)),
            final(self).weights == old(self).weights,
            final(self).biases == old(self).biases,
            layer_wf_s(*final(self)),
            layer_cached_s(*final(self)),
            (final(self).input_value matches Some(v) && v@ == input@),
            (final(self).transfer_value matches Some(v) && v@ == layer_train_transfer_s(
                *old(self),
                input@,
                old(rng).state,
            )),
            (final(self).activation_value matches Some(v) && v@ == layer_train_out_s(
                *old(self),
                input@,
                old(rng).state,
            )),
    {
        let transfer = self.apply_transfer_train(input, rng);
        let activation = self.apply_activation(&transfer);

        self.input_value = Some(vec_copy(input));
        self.transfer_value = Some(transfer);
        self.activation_value = Some(vec_copy(&activation));

        activation
    }
}

/// Row-major index bounds: a full row of draws stays within the
/// total weight count.
proof fn lemma_row_bounds(j: int, outputs: int, inputs: int)
    by (nonlinear_arith)
    requires
        0 <= j < outputs,
        1 <= inputs,
    ensures
        j * inputs + inputs <= outputs * inputs,
        j * inputs >= 0,
{
}

/// Stepping to the next row advances the row-major index by one row.
proof fn lemma_row_step(j: int, inputs: int)
    by (nonlinear_arith)
    requires
        0 <= j,
        1 <= inputs,
    ensures
        j * inputs + inputs == (j + 1) * inputs,
{
}

} // verus!
