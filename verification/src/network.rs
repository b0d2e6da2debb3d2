//! A network: an ordered, non-empty sequence of layers whose shapes
//! chain (each layer's input length equals the previous layer's
//! output length).
//!
//! `predict` folds the input through each layer's inference-mode
//! forward pass; `predict_cached` does the same with the
//! training-mode pass, leaving every layer's cache populated for the
//! optimizer's immediately following gradient computation.

use vstd::prelude::*;

use crate::layer::{
    layer_cached_s, layer_forward_s, layer_same_structure_s, layer_train_out_s,
    layer_train_transfer_s, layer_wf_s, Layer,
};
use crate::linalg::{mat_copy, mat_view, vec_copy};
use crate::rng::Rng;
use crate::transfers::train_state_s;

verus! {

/// A feed-forward network.
#[derive(Clone, Debug)]
pub struct Network {
    pub layers: Vec<Layer>,
}

/// Every layer is well formed and consecutive shapes chain.
pub open spec fn layers_wf_s(ls: Seq<Layer>) -> bool {
    &&& (forall|i: int| 0 <= i < ls.len() ==> layer_wf_s(#[trigger] ls[i]))
    &&& (forall|i: int| 1 <= i < ls.len() ==> (#[trigger] ls[i]).inputs == ls[i - 1].outputs)
}

/// A well-formed network: non-empty and with chained layer shapes.
#[verifier::opaque]
pub open spec fn network_wf_s(n: Network) -> bool {
    &&& n.layers@.len() >= 1
    &&& layers_wf_s(n.layers@)
}

/// The inference-mode value after folding the input through the
/// first `n` layers.
#[verifier::opaque]
pub open spec fn predict_prefix_s(ls: Seq<Layer>, x: Seq<i64>, n: nat) -> Seq<i64>
    decreases n,
{
    if n == 0 {
        x
    } else {
        layer_forward_s(ls[n - 1], predict_prefix_s(ls, x, (n - 1) as nat))
    }
}

/// The inference-mode prediction of the whole network.
pub open spec fn predict_s(ls: Seq<Layer>, x: Seq<i64>) -> Seq<i64> {
    predict_prefix_s(ls, x, ls.len())
}

/// The training-mode value and generator state after folding the
/// input through the first `n` layers.
#[verifier::opaque]
pub open spec fn train_prefix_s(ls: Seq<Layer>, x: Seq<i64>, s0: u64, n: nat) -> (Seq<i64>, u64)
    decreases n,
{
    if n == 0 {
        (x, s0)
    } else {
        let prev = train_prefix_s(ls, x, s0, (n - 1) as nat);
        (
            layer_train_out_s(ls[n - 1], prev.0, prev.1),
            train_state_s(ls[n - 1].transfer_fn, prev.1, prev.0.len()),
        )
    }
}

/// The training-mode prediction of the whole network.
pub open spec fn predict_train_s(ls: Seq<Layer>, x: Seq<i64>, s0: u64) -> Seq<i64> {
    train_prefix_s(ls, x, s0, ls.len()).0
}

/// The generator state left by a training-mode prediction.
pub open spec fn predict_train_state_s(ls: Seq<Layer>, x: Seq<i64>, s0: u64) -> u64 {
    train_prefix_s(ls, x, s0, ls.len()).1
}

/// The layers after a cached (training-mode) prediction: structure
/// kept, caches filled with the per-layer input, pre-activation and
/// activation of that pass.
#[verifier::opaque]
pub open spec fn trained_layers_s(
    before: Seq<Layer>,
    after: Seq<Layer>,
    x: Seq<i64>,
    s0: u64,
) -> bool {
    &&& after.len() == before.len()
    &&& (forall|i: int|
        0 <= i < before.len() ==> layer_same_structure_s(#[trigger] after[i], before[i]))
    &&& (forall|i: int|
        0 <= i < before.len() ==> ((#[trigger] after[i]).input_value matches Some(v)
            && v@ == train_prefix_s(before, x, s0, i as nat).0))
    &&& (forall|i: int|
        0 <= i < before.len() ==> ((#[trigger] after[i]).transfer_value matches Some(v)
            && v@ == layer_train_transfer_s(
            before[i],
            train_prefix_s(before, x, s0, i as nat).0,
            train_prefix_s(before, x, s0, i as nat).1,
        )))
    &&& (forall|i: int|
        0 <= i < before.len() ==> ((#[trigger] after[i]).activation_value matches Some(v)
            && v@ == train_prefix_s(before, x, s0, (i + 1) as nat).0))
}

impl Network {
    /// A network from a non-empty, shape-chained list of layers.
    pub fn new(layers: Vec<Layer>) -> (r: Network)
        requires
            layers@.len() >= 1,
            layers_wf_s(layers@),
        ensures
            r.layers == layers,
            network_wf_s(r),
    {
        proof {
            reveal(network_wf_s);
        }
        Network { layers }
    }

    /// The number of layers.
    pub fn len(&self) -> (r: usize)
        ensures
            r == self.layers@.len(),
    {
        self.layers.len()
    }

    /// The full dimension vector: the first layer's input length
    /// followed by every layer's output length.
    pub fn shape(&self) -> (r: Vec<usize>)
        requires
            network_wf_s(*self),
        ensures
            r@.len() == self.layers@.len() + 1,
            r@[0] == self.layers@[0].inputs,
            forall|i: int| 0 <= i < self.layers@.len() ==> r@[i + 1] == self.layers@[i].outputs,
    {
        proof {
            reveal(network_wf_s);
        }
        let mut r: Vec<usize> = Vec::new();
        r.push(self.layers[0].input_size());
        let n = self.layers.len();
        for i in 0..n
            invariant
                n == self.layers@.len(),
                r@.len() == i + 1,
                r@[0] == self.layers@[0].inputs,
                forall|ii: int| 0 <= ii < i ==> r@[ii + 1] == self.layers@[ii].outputs,
        {
            r.push(self.layers[i].output_size());
        }
        r
    }

    /// Copies of every layer's weight matrix, in layer order.
    pub fn get_weights(&self) -> (r: Vec<Vec<Vec<i64>>>)
        ensures
            r@.len() == self.layers@.len(),
            forall|i: int|
                0 <= i < self.layers@.len() ==> mat_view(#[trigger] r@[i]) == mat_view(
                    self.layers@[i].weights,
                ),
    {
        let mut r: Vec<Vec<Vec<i64>>> = Vec::new();
        let n = self.layers.len();
        for i in 0..n
            invariant
                n == self.layers@.len(),
                r@.len() == i,
                forall|ii: int|
                    0 <= ii < i ==> mat_view(#[trigger] r@[ii]) == mat_view(
                        self.layers@[ii].weights,
                    ),
        {
            r.push(mat_copy(&self.layers[i].weights));
        }
        r
    }

    /// Copies of every layer's bias vector, in layer order.
    pub fn get_biases(&self) -> (r: Vec<Vec<i64>>)
        ensures
            r@.len() == self.layers@.len(),
            forall|i: int|
                0 <= i < self.layers@.len() ==> (#[trigger] r@[i])@ == self.layers@[i].biases@,
    {
        let mut r: Vec<Vec<i64>> = Vec::new();
        let n = self.layers.len();
        for i in 0..n
            invariant
                n == self.layers@.len(),
                r@.len() == i,
                forall|ii: int| 0 <= ii < i ==> (#[trigger] r@[ii])@ == self.layers@[ii].biases@,
        {
            r.push(vec_copy(&self.layers[i].biases));
        }
        r
    }

    /// The layer list.
    pub fn get_layers(&self) -> (r: &Vec<Layer>)
        ensures
            r == &self.layers,
    {
        &self.layers
    }

    /// Mutable access to the layer list.
    pub fn get_layers_mut(&mut self) -> (r: &mut Vec<Layer>)
        ensures
            *r == old(self).layers,
            final(self).layers == *final(r),
    {
        &mut self.layers
    }

    /// The inference-mode prediction: fold the input through every
    /// layer's forward pass. Stores nothing.
    pub fn predict(&self, input: &Vec<i64>) -> (r: Vec<i64>)
        requires
            network_wf_s(*self),
            input@.len() == self.layers@[0].inputs,
        ensures
            r@ == predict_s(self.layers@, input@),
            r@.len() == self.layers@[self.layers@.len() - 1].outputs,
    {
        proof {
            reveal(network_wf_s);
            reveal(predict_prefix_s);
        }
        let mut cur = vec_copy(input);
        let n = self.layers.len();
        for i in 0..n
            invariant
                n == self.layers@.len(),
                network_wf_s(*self),
                input@.len() == self.layers@[0].inputs,
                cur@ == predict_prefix_s(self.layers@, input@, i as nat),
                i == 0 ==> cur@ == input@,
                i >= 1 ==> cur@.len() == self.layers@[i - 1].outputs,
        {
            proof {
                reveal(network_wf_s);
            }
            let l = &self.layers[i];
            cur = l.forward(&cur);
            proof {
                reveal(predict_prefix_s);
            }
        }
        cur
    }

    /// The training-mode prediction: fold the input through every
    /// layer's cached forward pass, leaving every layer's cache
    /// populated.
    #[verifier::rlimit(100)]
    pub fn predict_cached(&mut self, input: &Vec<i64>, rng: &mut Rng) -> (r: Vec<i64>)
        requires
            network_wf_s(*old(self)),
            input@.len() == old(self).layers@[0].inputs,
        ensures
            r@ == predict_train_s(old(self).layers@, input@, old(rng).state),
            r@.len() == old(self).layers@[old(self).layers@.len() - 1].outputs,
            final(rng).state == predict_train_state_s(
                old(self).layers@,
                input@,
                old(rng).state,
            ),
            final(self).layers@.len() == old(self).layers@.len(),
            trained_layers_s(old(self).layers@, final(self).layers@, input@, old(rng).state),
            forall|i: int|
                0 <= i < final(self).layers@.len() ==> layer_cached_s(
                    #[trigger] final(self).layers@[i],
                ),
            network_wf_s(*final(self)),
    {
        proof {
            reveal(network_wf_s);
            reveal(trained_layers_s);
            reveal(train_prefix_s);
        }
        let ghost before = self.layers@;
        let ghost s0 = rng.state;
        let mut cur = vec_copy(input);
        let n = self.layers.len();
        for i in 0..n
            invariant
                n == before.len(),
                layers_wf_s(before),
                before.len() >= 1,
                input@.len() == before[0].inputs,
                self.layers@.len() == n,
                forall|ii: int| i <= ii < n ==> #[trigger] self.layers@[ii] == before[ii],
                cur@ == train_prefix_s(before, input@, s0, i as nat).0,
                rng.state == train_prefix_s(before, input@, s0, i as nat).1,
                i == 0 ==> cur@ == input@,
                i >= 1 ==> cur@.len() == before[i - 1].outputs,
                forall|ii: int|
                    0 <= ii < i ==> layer_same_structure_s(
                        #[trigger] self.layers@[ii],
                        before[ii],
                    ),
                forall|ii: int|
                    0 <= ii < i ==> layer_wf_s(#[trigger] self.layers@[ii]) && layer_cached_s(
                        self.layers@[ii],
                    ),
                forall|ii: int|
                    0 <= ii < i ==> ((#[trigger] self.layers@[ii]).input_value matches Some(v)
                        && v@ == train_prefix_s(before, input@, s0, ii as nat).0),
                forall|ii: int|
                    0 <= ii < i ==> ((#[trigger] self.layers@[ii]).transfer_value matches Some(v)
                        && v@ == layer_train_transfer_s(
                        before[ii],
                        train_prefix_s(before, input@, s0, ii as nat).0,
                        train_prefix_s(before, input@, s0, ii as nat).1,
                    )),
                forall|ii: int|
                    0 <= ii < i ==> ((#[trigger] self.layers@[ii]).activation_value matches Some(v)
                        && v@ == train_prefix_s(before, input@, s0, (ii + 1) as nat).0),
        {
            proof {
                reveal(network_wf_s);
            }
            let mut l = self.layers.remove(i);
            let out = l.forward_cached(&cur, rng);
            self.layers.insert(i, l);
            cur = out;
            proof {
                reveal(network_wf_s);
                reveal(trained_layers_s);
                reveal(train_prefix_s);
            }
        }
        proof {
            reveal(network_wf_s);
        }
        assert(trained_layers_s(before, self.layers@, input@, s0));
        assert(network_wf_s(*self));
        cur
    }
}

} // verus!
