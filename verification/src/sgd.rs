//! Stochastic gradient descent: the backward-pass gradient engine and
//! the weight/bias update rule.
//!
//! Given a cached forward pass, the engine derives per-parameter
//! gradients layer by layer from last to first via the chain rule:
//! the bias gradient is the loss derivative times the activation
//! derivative, the weight gradient is its outer product with the
//! cached layer input, and the propagated derivative is its
//! vector-matrix product with the weight matrix. Batch training sums
//! the per-example gradients and divides by the batch length (a
//! deterministic sum-then-divide reduction), and an empty batch is a
//! no-op. The update subtracts the learning-rate-scaled gradient.
//!
//! The gradient computation always performs its own cached forward
//! pass, so gradients can never be read from a stale cache. After an
//! update the caches still hold the last forward pass of the old
//! parameters: they are stale by design until the next cached pass.

use vstd::prelude::*;

use crate::activations::derive_s;
use crate::layer::{layer_train_transfer_s, layer_wf_s, Layer};
use crate::linalg::{
    is_matrix, mat_add, mat_add_s, mat_div_int, mat_div_int_s, mat_scale, mat_scale_s, mat_sub,
    mat_sub_s, mat_view, outer, outer_s, vec_add, vec_add_s, vec_div_int, vec_div_int_s,
    vec_hadamard, vec_hadamard_s, vec_scale, vec_scale_s, vec_sub, vec_sub_s, vecmat, vecmat_s,
};
use crate::losses::{derivative_s, Loss};
use crate::network::{
    layers_wf_s, network_wf_s, predict_train_s, predict_train_state_s, train_prefix_s,
    trained_layers_s, Network,
};
use crate::rng::Rng;

verus! {

/// A stochastic-gradient-descent optimizer: one loss and a scalar
/// learning rate. Stateless across calls except for the mutation it
/// performs on the network it is given.
#[derive(Clone, Copy, Debug)]
pub struct SGD {
    pub learning_rate: i64,
    pub loss: Loss,
}

/// No layer uses the softmax activation (softmax has no pointwise
/// derivative; categorical cross-entropy embeds its own softmax).
pub open spec fn no_softmax_s(ls: Seq<Layer>) -> bool {
    forall|i: int| 0 <= i < ls.len() ==> !((#[trigger] ls[i]).activation_fn is Softmax)
}

/// The input that reaches layer `j` during a cached pass from
/// generator state `s0`.
#[verifier::opaque]
pub open spec fn train_in_s(ls: Seq<Layer>, x: Seq<i64>, s0: u64, j: int) -> Seq<i64> {
    train_prefix_s(ls, x, s0, j as nat).0
}

/// The generator state when layer `j` runs its training transfer.
#[verifier::opaque]
pub open spec fn train_st_s(ls: Seq<Layer>, x: Seq<i64>, s0: u64, j: int) -> u64 {
    train_prefix_s(ls, x, s0, j as nat).1
}

/// The pre-activation cached at layer `j` by that pass.
#[verifier::opaque]
pub open spec fn cached_transfer_s(ls: Seq<Layer>, x: Seq<i64>, s0: u64, j: int) -> Seq<i64> {
    layer_train_transfer_s(ls[j], train_in_s(ls, x, s0, j), train_st_s(ls, x, s0, j))
}

/// The activation derivative evaluated on layer `j`'s cached
/// pre-activation.
#[verifier::opaque]
pub open spec fn da_dt_s(ls: Seq<Layer>, x: Seq<i64>, s0: u64, j: int) -> Seq<i64> {
    derive_s(ls[j].activation_fn, cached_transfer_s(ls, x, s0, j))
}

/// The derivative of the loss with respect to layer `j`'s activation
/// output: the loss derivative at the last layer, propagated
/// backwards through `dl_da ⊙ da_dt · W` for earlier layers.
#[verifier::opaque]
pub open spec fn dl_da_s(
    ls: Seq<Layer>,
    x: Seq<i64>,
    s0: u64,
    lo: Loss,
    tgt: Seq<i64>,
    j: int,
) -> Seq<i64>
    decreases ls.len() - j,
{
    if j >= ls.len() - 1 {
        derivative_s(lo, predict_train_s(ls, x, s0), tgt)
    } else {
        vecmat_s(
            vec_hadamard_s(dl_da_s(ls, x, s0, lo, tgt, j + 1), da_dt_s(ls, x, s0, j + 1)),
            mat_view(ls[j + 1].weights),
            ls[j + 1].inputs as nat,
        )
    }
}

/// The bias gradient of layer `j`: `dl_da ⊙ da_dt` (the transfer's
/// derivative with respect to the biases is identically one).
#[verifier::opaque]
pub open spec fn grad_b_s(
    ls: Seq<Layer>,
    x: Seq<i64>,
    s0: u64,
    lo: Loss,
    tgt: Seq<i64>,
    j: int,
) -> Seq<i64> {
    vec_hadamard_s(dl_da_s(ls, x, s0, lo, tgt, j), da_dt_s(ls, x, s0, j))
}

/// The weight gradient of layer `j`: the outer product of
/// `dl_da ⊙ da_dt` with the cached layer input.
#[verifier::opaque]
pub open spec fn grad_w_s(
    ls: Seq<Layer>,
    x: Seq<i64>,
    s0: u64,
    lo: Loss,
    tgt: Seq<i64>,
    j: int,
) -> Seq<Seq<i64>> {
    outer_s(grad_b_s(ls, x, s0, lo, tgt, j), train_in_s(ls, x, s0, j))
}

/// All weight gradients, in layer order.
pub open spec fn gradients_w_s(ls: Seq<Layer>, x: Seq<i64>, s0: u64, lo: Loss, tgt: Seq<i64>) -> Seq<
    Seq<Seq<i64>>,
> {
    Seq::new(ls.len(), |j: int| grad_w_s(ls, x, s0, lo, tgt, j))
}

/// All bias gradients, in layer order.
pub open spec fn gradients_b_s(ls: Seq<Layer>, x: Seq<i64>, s0: u64, lo: Loss, tgt: Seq<i64>) -> Seq<
    Seq<i64>,
> {
    Seq::new(ls.len(), |j: int| grad_b_s(ls, x, s0, lo, tgt, j))
}

/// The generator state before batch example `i` (examples run in
/// order, each consuming the state its cached pass needs).
pub open spec fn batch_state_s(ls: Seq<Layer>, xs: Seq<Seq<i64>>, s0: u64, i: nat) -> u64
    decreases i,
{
    if i == 0 {
        s0
    } else {
        predict_train_state_s(ls, xs[i - 1], batch_state_s(ls, xs, s0, (i - 1) as nat))
    }
}

/// The elementwise sum of the first `n >= 1` examples' weight
/// gradients.
pub open spec fn batch_sum_w_s(
    ls: Seq<Layer>,
    xs: Seq<Seq<i64>>,
    ts: Seq<Seq<i64>>,
    s0: u64,
    lo: Loss,
    n: nat,
) -> Seq<Seq<Seq<i64>>>
    decreases n,
{
    if n <= 1 {
        gradients_w_s(ls, xs[0], s0, lo, ts[0])
    } else {
        let prev = batch_sum_w_s(ls, xs, ts, s0, lo, (n - 1) as nat);
        let cur = gradients_w_s(
            ls,
            xs[n - 1],
            batch_state_s(ls, xs, s0, (n - 1) as nat),
            lo,
            ts[n - 1],
        );
        Seq::new(ls.len(), |j: int| mat_add_s(prev[j], cur[j]))
    }
}

/// The elementwise sum of the first `n >= 1` examples' bias
/// gradients.
pub open spec fn batch_sum_b_s(
    ls: Seq<Layer>,
    xs: Seq<Seq<i64>>,
    ts: Seq<Seq<i64>>,
    s0: u64,
    lo: Loss,
    n: nat,
) -> Seq<Seq<i64>>
    decreases n,
{
    if n <= 1 {
        gradients_b_s(ls, xs[0], s0, lo, ts[0])
    } else {
        let prev = batch_sum_b_s(ls, xs, ts, s0, lo, (n - 1) as nat);
        let cur = gradients_b_s(
            ls,
            xs[n - 1],
            batch_state_s(ls, xs, s0, (n - 1) as nat),
            lo,
            ts[n - 1],
        );
        Seq::new(ls.len(), |j: int| vec_add_s(prev[j], cur[j]))
    }
}

/// The batch-averaged weight gradients: sum, then divide by the
/// batch length.
pub open spec fn batch_avg_w_s(
    ls: Seq<Layer>,
    xs: Seq<Seq<i64>>,
    ts: Seq<Seq<i64>>,
    s0: u64,
    lo: Loss,
) -> Seq<Seq<Seq<i64>>> {
    Seq::new(
        ls.len(),
        |j: int| mat_div_int_s(batch_sum_w_s(ls, xs, ts, s0, lo, xs.len())[j], xs.len() as i64),
    )
}

/// The batch-averaged bias gradients: sum, then divide by the batch
/// length.
pub open spec fn batch_avg_b_s(
    ls: Seq<Layer>,
    xs: Seq<Seq<i64>>,
    ts: Seq<Seq<i64>>,
    s0: u64,
    lo: Loss,
) -> Seq<Seq<i64>> {
    Seq::new(
        ls.len(),
        |j: int| vec_div_int_s(batch_sum_b_s(ls, xs, ts, s0, lo, xs.len())[j], xs.len() as i64),
    )
}

/// Preconditions shared by the gradient-producing calls: a
/// well-formed network without softmax activations, an input of the
/// first layer's input length, and a target of the last layer's
/// output length.
#[verifier::opaque]
pub open spec fn gradient_pre_s(ls: Seq<Layer>, x: Seq<i64>, tgt: Seq<i64>) -> bool {
    &&& ls.len() >= 1
    &&& layers_wf_s(ls)
    &&& no_softmax_s(ls)
    &&& x.len() == ls[0].inputs
    &&& tgt.len() == ls[ls.len() - 1].outputs
}

/// The length of the value reaching layer `n` (the input for the
/// first layer, the previous output after).
pub proof fn lemma_train_prefix_len(ls: Seq<Layer>, x: Seq<i64>, s0: u64, n: nat)
    requires
        layers_wf_s(ls),
        n <= ls.len(),
        ls.len() >= 1,
        x.len() == ls[0].inputs,
    ensures
        n == 0 ==> train_prefix_s(ls, x, s0, n).0.len() == x.len(),
        n >= 1 ==> train_prefix_s(ls, x, s0, n).0.len() == ls[n - 1].outputs,
        n < ls.len() ==> train_prefix_s(ls, x, s0, n).0.len() == ls[n as int].inputs,
    decreases n,
{
    reveal(train_prefix_s);
    if n >= 1 {
        lemma_train_prefix_len(ls, x, s0, (n - 1) as nat);
        let prev = train_prefix_s(ls, x, s0, (n - 1) as nat);
        let l = ls[n - 1];
        assert(layer_wf_s(l));
        assert(train_prefix_s(ls, x, s0, n).0 == crate::layer::layer_train_out_s(
            l,
            prev.0,
            prev.1,
        ));
        assert(crate::layer::layer_train_out_s(l, prev.0, prev.1).len() == l.biases@.len());
    }
}

/// Unpack, for one layer index, what a cached pass left behind:
/// unchanged structure, well-formedness, and caches holding that
/// layer's input and pre-activation.
pub proof fn lemma_trained_cache_facts(
    ls: Seq<Layer>,
    after: Seq<Layer>,
    x: Seq<i64>,
    s0: u64,
    tgt: Seq<i64>,
    j: int,
)
    requires
        gradient_pre_s(ls, x, tgt),
        trained_layers_s(ls, after, x, s0),
        0 <= j < ls.len(),
    ensures
        crate::layer::layer_same_structure_s(after[j], ls[j]),
        layer_wf_s(after[j]),
        (after[j].transfer_value matches Some(v) && v@ == cached_transfer_s(ls, x, s0, j)),
        (after[j].input_value matches Some(v) && v@ == train_in_s(ls, x, s0, j)),
{
    reveal(gradient_pre_s);
    reveal(trained_layers_s);
    reveal(cached_transfer_s);
    reveal(train_in_s);
    reveal(train_st_s);
    lemma_train_prefix_len(ls, x, s0, j as nat);
    lemma_train_prefix_len(ls, x, s0, (j + 1) as nat);
    assert(layer_wf_s(ls[j]));
    let l = after[j];
    assert(l.input_value matches Some(v) ==> v@.len() == l.inputs);
    assert(l.transfer_value matches Some(v) ==> v@.len() == l.outputs) by {
        assert(cached_transfer_s(ls, x, s0, j).len() == ls[j].biases@.len());
    }
    assert(l.activation_value matches Some(v) ==> v@.len() == l.outputs);
}


/// Two layer lists that agree on structure (weights, biases,
/// transfer, activation, sizes) produce the same cached pass,
/// whatever their cache slots hold.
pub proof fn lemma_structure_train_prefix(
    ls1: Seq<Layer>,
    ls2: Seq<Layer>,
    x: Seq<i64>,
    s0: u64,
    n: nat,
)
    requires
        ls1.len() == ls2.len(),
        forall|i: int|
            0 <= i < ls1.len() ==> crate::layer::layer_same_structure_s(
                #[trigger] ls1[i],
                ls2[i],
            ),
        n <= ls1.len(),
    ensures
        train_prefix_s(ls1, x, s0, n) == train_prefix_s(ls2, x, s0, n),
    decreases n,
{
    reveal(train_prefix_s);
    if n >= 1 {
        lemma_structure_train_prefix(ls1, ls2, x, s0, (n - 1) as nat);
        let prev = train_prefix_s(ls1, x, s0, (n - 1) as nat);
        assert(crate::layer::layer_same_structure_s(ls1[n - 1], ls2[n - 1]));
        assert(crate::layer::layer_train_out_s(ls1[n - 1], prev.0, prev.1)
            == crate::layer::layer_train_out_s(ls2[n - 1], prev.0, prev.1));
        assert(crate::transfers::train_state_s(ls1[n - 1].transfer_fn, prev.1, prev.0.len())
            == crate::transfers::train_state_s(ls2[n - 1].transfer_fn, prev.1, prev.0.len()));
    }
}

/// Structure-equal layer lists cache the same per-layer input,
/// pre-activation, and activation derivative.
pub proof fn lemma_structure_cached(
    ls1: Seq<Layer>,
    ls2: Seq<Layer>,
    x: Seq<i64>,
    s0: u64,
    j: int,
)
    requires
        ls1.len() == ls2.len(),
        forall|i: int|
            0 <= i < ls1.len() ==> crate::layer::layer_same_structure_s(
                #[trigger] ls1[i],
                ls2[i],
            ),
        0 <= j < ls1.len(),
    ensures
        cached_transfer_s(ls1, x, s0, j) == cached_transfer_s(ls2, x, s0, j),
        da_dt_s(ls1, x, s0, j) == da_dt_s(ls2, x, s0, j),
        train_in_s(ls1, x, s0, j) == train_in_s(ls2, x, s0, j),
        train_st_s(ls1, x, s0, j) == train_st_s(ls2, x, s0, j),
{
    lemma_structure_train_prefix(ls1, ls2, x, s0, j as nat);
    assert(crate::layer::layer_same_structure_s(ls1[j], ls2[j]));
    assert(train_in_s(ls1, x, s0, j) == train_in_s(ls2, x, s0, j)) by {
        reveal(train_in_s);
    }
    assert(train_st_s(ls1, x, s0, j) == train_st_s(ls2, x, s0, j)) by {
        reveal(train_st_s);
    }
    assert(cached_transfer_s(ls1, x, s0, j) == cached_transfer_s(ls2, x, s0, j)) by {
        reveal(cached_transfer_s);
        reveal(train_in_s);
        reveal(train_st_s);
    }
    assert(da_dt_s(ls1, x, s0, j) == da_dt_s(ls2, x, s0, j)) by {
        reveal(da_dt_s);
    }
}

/// Structure-equal layer lists propagate the same loss derivative at
/// every layer.
pub proof fn lemma_structure_dl_da(
    ls1: Seq<Layer>,
    ls2: Seq<Layer>,
    x: Seq<i64>,
    s0: u64,
    lo: Loss,
    tgt: Seq<i64>,
    j: int,
)
    requires
        ls1.len() == ls2.len(),
        ls1.len() >= 1,
        forall|i: int|
            0 <= i < ls1.len() ==> crate::layer::layer_same_structure_s(
                #[trigger] ls1[i],
                ls2[i],
            ),
        0 <= j < ls1.len(),
    ensures
        dl_da_s(ls1, x, s0, lo, tgt, j) == dl_da_s(ls2, x, s0, lo, tgt, j),
    decreases ls1.len() - j,
{
    if j >= ls1.len() - 1 {
        lemma_structure_train_prefix(ls1, ls2, x, s0, ls1.len());
        assert(dl_da_s(ls1, x, s0, lo, tgt, j) == dl_da_s(ls2, x, s0, lo, tgt, j)) by {
            reveal(dl_da_s);
            assert(predict_train_s(ls1, x, s0) == predict_train_s(ls2, x, s0));
        }
    } else {
        lemma_structure_dl_da(ls1, ls2, x, s0, lo, tgt, j + 1);
        lemma_structure_cached(ls1, ls2, x, s0, j + 1);
        assert(crate::layer::layer_same_structure_s(ls1[j + 1], ls2[j + 1]));
        assert(dl_da_s(ls1, x, s0, lo, tgt, j) == dl_da_s(ls2, x, s0, lo, tgt, j)) by {
            reveal(dl_da_s);
            assert(dl_da_s(ls1, x, s0, lo, tgt, j + 1) == dl_da_s(ls2, x, s0, lo, tgt, j + 1));
            assert(da_dt_s(ls1, x, s0, j + 1) == da_dt_s(ls2, x, s0, j + 1));
            assert(mat_view(ls1[j + 1].weights) == mat_view(ls2[j + 1].weights));
            assert(ls1[j + 1].inputs == ls2[j + 1].inputs);
        }
    }
}

/// Structure-equal layer lists produce identical gradients and leave
/// the generator in the same state: the gradient computation reads
/// nothing from the cache slots the lists may differ in.
pub proof fn lemma_structure_gradients(
    ls1: Seq<Layer>,
    ls2: Seq<Layer>,
    x: Seq<i64>,
    s0: u64,
    lo: Loss,
    tgt: Seq<i64>,
)
    requires
        ls1.len() == ls2.len(),
        ls1.len() >= 1,
        forall|i: int|
            0 <= i < ls1.len() ==> crate::layer::layer_same_structure_s(
                #[trigger] ls1[i],
                ls2[i],
            ),
    ensures
        forall|j: int|
            0 <= j < ls1.len() ==> #[trigger] grad_w_s(ls1, x, s0, lo, tgt, j) == grad_w_s(
                ls2,
                x,
                s0,
                lo,
                tgt,
                j,
            ),
        forall|j: int|
            0 <= j < ls1.len() ==> #[trigger] grad_b_s(ls1, x, s0, lo, tgt, j) == grad_b_s(
                ls2,
                x,
                s0,
                lo,
                tgt,
                j,
            ),
{
    assert forall|j: int| 0 <= j < ls1.len() implies #[trigger] grad_b_s(ls1, x, s0, lo, tgt, j)
        == grad_b_s(ls2, x, s0, lo, tgt, j) by {
        reveal(grad_b_s);
        lemma_structure_dl_da(ls1, ls2, x, s0, lo, tgt, j);
        lemma_structure_cached(ls1, ls2, x, s0, j);
    }
    assert forall|j: int| 0 <= j < ls1.len() implies #[trigger] grad_w_s(ls1, x, s0, lo, tgt, j)
        == grad_w_s(ls2, x, s0, lo, tgt, j) by {
        reveal(grad_w_s);
        lemma_structure_cached(ls1, ls2, x, s0, j);
        assert(grad_b_s(ls1, x, s0, lo, tgt, j) == grad_b_s(ls2, x, s0, lo, tgt, j));
    }
}

/// Structure-equal layer lists leave the generator in the same state
/// after a cached pass.
pub proof fn lemma_structure_train_state(ls1: Seq<Layer>, ls2: Seq<Layer>, x: Seq<i64>, s0: u64)
    requires
        ls1.len() == ls2.len(),
        forall|i: int|
            0 <= i < ls1.len() ==> crate::layer::layer_same_structure_s(
                #[trigger] ls1[i],
                ls2[i],
            ),
    ensures
        predict_train_state_s(ls1, x, s0) == predict_train_state_s(ls2, x, s0),
{
    lemma_structure_train_prefix(ls1, ls2, x, s0, ls1.len());
}


/// Preconditions of batch training: a well-formed softmax-free
/// network and equally long input and target lists with the right
/// vector lengths (the batch length must also fit a signed count for
/// the averaging division).
#[verifier::opaque]
pub open spec fn batch_pre_s(ls: Seq<Layer>, xs: Seq<Seq<i64>>, ts: Seq<Seq<i64>>) -> bool {
    &&& ls.len() >= 1
    &&& layers_wf_s(ls)
    &&& no_softmax_s(ls)
    &&& xs.len() == ts.len()
    &&& xs.len() <= 0x7fff_ffff_ffff_ffff
    &&& (forall|i: int| 0 <= i < xs.len() ==> (#[trigger] xs[i]).len() == ls[0].inputs)
    &&& (forall|i: int| 0 <= i < ts.len() ==> (#[trigger] ts[i]).len() == ls[ls.len() - 1].outputs)
}

/// The weight matrix after one update step:
/// `weights - learning_rate * gradient`.
#[verifier::opaque]
pub open spec fn updated_weights_s(w: Seq<Seq<i64>>, g: Seq<Seq<i64>>, lr: i64) -> Seq<Seq<i64>> {
    mat_sub_s(w, mat_scale_s(g, lr))
}

/// The bias vector after one update step:
/// `biases - learning_rate * gradient`.
#[verifier::opaque]
pub open spec fn updated_biases_s(b: Seq<i64>, g: Seq<i64>, lr: i64) -> Seq<i64> {
    vec_sub_s(b, vec_scale_s(g, lr))
}

/// A non-empty batch allows a gradient pass on its first example.
pub proof fn lemma_batch_first(ls: Seq<Layer>, xs: Seq<Seq<i64>>, ts: Seq<Seq<i64>>)
    requires
        batch_pre_s(ls, xs, ts),
        xs.len() >= 1,
    ensures
        gradient_pre_s(ls, xs[0], ts[0]),
        ts.len() == xs.len(),
        ls.len() >= 1,
{
    reveal(batch_pre_s);
    reveal(gradient_pre_s);
}

/// After training on example `i - 1`, the network still admits a
/// gradient pass on example `i`: the caches changed but nothing
/// structural did.
pub proof fn lemma_batch_next(
    ls: Seq<Layer>,
    cur: Seq<Layer>,
    xs: Seq<Seq<i64>>,
    ts: Seq<Seq<i64>>,
    s0: u64,
    i: int,
)
    requires
        batch_pre_s(ls, xs, ts),
        1 <= i < xs.len(),
        cur.len() == ls.len(),
        trained_layers_s(ls, cur, xs[i - 1], batch_state_s(ls, xs, s0, (i - 1) as nat)),
    ensures
        gradient_pre_s(cur, xs[i], ts[i]),
        forall|k: int|
            0 <= k < ls.len() ==> (#[trigger] cur[k]).outputs == ls[k].outputs && cur[k].inputs
                == ls[k].inputs,
{
    reveal(batch_pre_s);
    reveal(gradient_pre_s);
    let xp = xs[i - 1];
    let sp = batch_state_s(ls, xs, s0, (i - 1) as nat);
    assert(gradient_pre_s(ls, xp, ts[i - 1]));
    assert forall|k: int| 0 <= k < ls.len() implies layer_wf_s(#[trigger] cur[k])
        && crate::layer::layer_same_structure_s(cur[k], ls[k]) by {
        lemma_trained_cache_facts(ls, cur, xp, sp, ts[i - 1], k);
    }
    assert(layers_wf_s(cur));
    assert(no_softmax_s(cur));
}

/// A second cached pass relates to the starting structure just as it
/// relates to the intermediate one.
pub proof fn lemma_trained_congruence(
    ls: Seq<Layer>,
    cur: Seq<Layer>,
    after: Seq<Layer>,
    xp: Seq<i64>,
    sp: u64,
    x: Seq<i64>,
    s: u64,
)
    requires
        cur.len() == ls.len(),
        trained_layers_s(ls, cur, xp, sp),
        trained_layers_s(cur, after, x, s),
    ensures
        trained_layers_s(ls, after, x, s),
{
    reveal(trained_layers_s);
    assert forall|i: int| 0 <= i < ls.len() implies #[trigger] train_prefix_s(cur, x, s, i as nat)
        == train_prefix_s(ls, x, s, i as nat) by {
        lemma_structure_train_prefix(cur, ls, x, s, i as nat);
    }
    assert(train_prefix_s(cur, x, s, ls.len()) == train_prefix_s(ls, x, s, ls.len())) by {
        lemma_structure_train_prefix(cur, ls, x, s, ls.len());
    }
    assert forall|i: int| 0 <= i < ls.len() implies ((#[trigger] after[i]).transfer_value
        matches Some(v) && v@ == crate::layer::layer_train_transfer_s(
        ls[i],
        train_prefix_s(ls, x, s, i as nat).0,
        train_prefix_s(ls, x, s, i as nat).1,
    )) by {
        assert(crate::layer::layer_same_structure_s(cur[i], ls[i]));
        assert(after[i].transfer_value matches Some(v) && v@
            == crate::layer::layer_train_transfer_s(
            cur[i],
            train_prefix_s(cur, x, s, i as nat).0,
            train_prefix_s(cur, x, s, i as nat).1,
        ));
    }
}

/// Gradients of the intermediate structure equal gradients of the
/// starting structure.
pub proof fn lemma_grads_translate(
    ls: Seq<Layer>,
    cur: Seq<Layer>,
    xp: Seq<i64>,
    sp: u64,
    x: Seq<i64>,
    s: u64,
    lo: Loss,
    tgt: Seq<i64>,
)
    requires
        cur.len() == ls.len(),
        ls.len() >= 1,
        trained_layers_s(ls, cur, xp, sp),
    ensures
        forall|j: int|
            0 <= j < ls.len() ==> #[trigger] grad_w_s(cur, x, s, lo, tgt, j) == grad_w_s(
                ls,
                x,
                s,
                lo,
                tgt,
                j,
            ),
        forall|j: int|
            0 <= j < ls.len() ==> #[trigger] grad_b_s(cur, x, s, lo, tgt, j) == grad_b_s(
                ls,
                x,
                s,
                lo,
                tgt,
                j,
            ),
        predict_train_state_s(cur, x, s) == predict_train_state_s(ls, x, s),
{
    assert forall|i: int| 0 <= i < cur.len() implies crate::layer::layer_same_structure_s(
        #[trigger] cur[i],
        ls[i],
    ) by {
        reveal(trained_layers_s);
    }
    lemma_structure_gradients(cur, ls, x, s, lo, tgt);
    lemma_structure_train_state(cur, ls, x, s);
}


/// Apply one update step to a single layer in place:
/// `weights -= lr * w_grad`, `biases -= lr * b_grad`; everything
/// else, the caches included, is untouched.
fn update_layer(l: &mut Layer, w_grad: &Vec<Vec<i64>>, b_grad: &Vec<i64>, lr: i64)
    requires
        layer_wf_s(*old(l)),
        is_matrix(mat_view(*w_grad), old(l).outputs as nat, old(l).inputs as nat),
        b_grad@.len() == old(l).outputs,
    ensures
        mat_view(final(l).weights) == updated_weights_s(
            mat_view(old(l).weights),
            mat_view(*w_grad),
            lr,
        ),
        final(l).biases@ == updated_biases_s(old(l).biases@, b_grad@, lr),
        final(l).outputs == old(l).outputs,
        final(l).inputs == old(l).inputs,
        final(l).transfer_fn == old(l).transfer_fn,
        final(l).activation_fn == old(l).activation_fn,
        final(l).input_value == old(l).input_value,
        final(l).transfer_value == old(l).transfer_value,
        final(l).activation_value == old(l).activation_value,
        layer_wf_s(*final(l)),
{
    proof {
        reveal(updated_weights_s);
        reveal(updated_biases_s);
    }
    let scaled_w = mat_scale(w_grad, lr);
    proof {
        assert(mat_view(scaled_w).len() == mat_view(*w_grad).len());
        assert forall|q: int| 0 <= q < mat_view(l.weights).len() implies (#[trigger] mat_view(
            l.weights,
        )[q]).len() == mat_view(scaled_w)[q].len() by {
            assert(mat_view(l.weights)[q].len() == l.inputs);
            assert(mat_view(scaled_w)[q] == mat_scale_s(mat_view(*w_grad), lr)[q]);
            assert(mat_view(*w_grad)[q].len() == l.inputs);
        }
    }
    let new_weights = mat_sub(&l.weights, &scaled_w);
    let scaled_b = vec_scale(b_grad, lr);
    let new_biases = vec_sub(&l.biases, &scaled_b);
    l.weights = new_weights;
    l.biases = new_biases;
    proof {
        assert forall|q: int| 0 <= q < mat_view(l.weights).len() implies (#[trigger] mat_view(
            l.weights,
        )[q]).len() == l.inputs by {
            assert(mat_view(l.weights)[q] == vec_sub_s(
                mat_view(old(l).weights)[q],
                mat_view(scaled_w)[q],
            ));
            assert(mat_view(old(l).weights)[q].len() == l.inputs);
            assert(mat_view(scaled_w)[q] == mat_scale_s(mat_view(*w_grad), lr)[q]);
        }
        assert(layer_wf_s(*l));
    }
}


/// Any batch example admits a gradient pass.
pub proof fn lemma_batch_at(ls: Seq<Layer>, xs: Seq<Seq<i64>>, ts: Seq<Seq<i64>>, i: int)
    requires
        batch_pre_s(ls, xs, ts),
        0 <= i < xs.len(),
    ensures
        gradient_pre_s(ls, xs[i], ts[i]),
{
    reveal(batch_pre_s);
    reveal(gradient_pre_s);
}

/// A network that just ran a cached pass is still well formed.
pub proof fn lemma_trained_network_wf(
    ls: Seq<Layer>,
    nw: Network,
    x: Seq<i64>,
    s0: u64,
    tgt: Seq<i64>,
)
    requires
        gradient_pre_s(ls, x, tgt),
        nw.layers@.len() == ls.len(),
        trained_layers_s(ls, nw.layers@, x, s0),
    ensures
        network_wf_s(nw),
{
    reveal(gradient_pre_s);
    reveal(network_wf_s);
    let cur = nw.layers@;
    assert forall|k: int| 0 <= k < ls.len() implies layer_wf_s(#[trigger] cur[k])
        && crate::layer::layer_same_structure_s(cur[k], ls[k]) by {
        lemma_trained_cache_facts(ls, cur, x, s0, tgt, k);
    }
    assert(layers_wf_s(cur));
}

impl SGD {
    /// An optimizer with the given learning rate and loss.
    pub fn new(learning_rate: i64, loss: Loss) -> (r: SGD)
        ensures
            r.learning_rate == learning_rate,
            r.loss == loss,
    {
        SGD { learning_rate, loss }
    }

    /// The owned loss.
    pub fn get_loss(&self) -> (r: &Loss)
        ensures
            r == &self.loss,
    {
        &self.loss
    }

    /// The weight gradient of one layer: the outer product of
    /// `dl_da ⊙ da_dt` with the cached layer input.
    pub fn chain_rule_weights(
        &self,
        dl_da: &Vec<i64>,
        da_dt: &Vec<i64>,
        dt_dw: &Vec<i64>,
    ) -> (r: Vec<Vec<i64>>)
        requires
            dl_da@.len() == da_dt@.len(),
        ensures
            mat_view(r) == outer_s(vec_hadamard_s(dl_da@, da_dt@), dt_dw@),
    {
        let dl_dt = vec_hadamard(dl_da, da_dt);
        outer(&dl_dt, dt_dw)
    }

    /// The bias gradient of one layer: `dl_da ⊙ da_dt`, since the
    /// transfer's derivative with respect to the biases is one.
    pub fn chain_rule_biases(&self, dl_da: &Vec<i64>, da_dt: &Vec<i64>) -> (r: Vec<i64>)
        requires
            dl_da@.len() == da_dt@.len(),
        ensures
            r@ == vec_hadamard_s(dl_da@, da_dt@),
    {
        vec_hadamard(dl_da, da_dt)
    }

    /// The derivative propagated to the previous layer's activations:
    /// for each previous unit, the sum of `dl_da[j] * da_dt[j] *
    /// W[j][k]` over every unit `j` it feeds.
    pub fn chain_rule_previous_activations(
        &self,
        dl_da: &Vec<i64>,
        da_dt: &Vec<i64>,
        dt_dap: &Vec<Vec<i64>>,
        cols: usize,
    ) -> (r: Vec<i64>)
        requires
            dl_da@.len() == da_dt@.len(),
            is_matrix(mat_view(*dt_dap), dl_da@.len() as nat, cols as nat),
        ensures
            r@ == vecmat_s(vec_hadamard_s(dl_da@, da_dt@), mat_view(*dt_dap), cols as nat),
            r@.len() == cols,
    {
        let dl_dt = vec_hadamard(dl_da, da_dt);
        vecmat(&dl_dt, dt_dap, cols)
    }

    /// Run a cached forward pass and derive every layer's weight and
    /// bias gradients by reverse-order chain-rule propagation.
    #[verifier::rlimit(100)]
    pub fn get_gradients(
        &self,
        network: &mut Network,
        input: &Vec<i64>,
        expected: &Vec<i64>,
        rng: &mut Rng,
    ) -> (r: (Vec<Vec<Vec<i64>>>, Vec<Vec<i64>>))
        requires
            gradient_pre_s(old(network).layers@, input@, expected@),
        ensures
            ({
                let ls = old(network).layers@;
                let s0 = old(rng).state;
                &&& r.0@.len() == ls.len()
                &&& r.1@.len() == ls.len()
                &&& (forall|j: int|
                    0 <= j < ls.len() ==> mat_view(#[trigger] r.0@[j]) == grad_w_s(
                        ls,
                        input@,
                        s0,
                        self.loss,
                        expected@,
                        j,
                    ))
                &&& (forall|j: int|
                    0 <= j < ls.len() ==> (#[trigger] r.1@[j])@ == grad_b_s(
                        ls,
                        input@,
                        s0,
                        self.loss,
                        expected@,
                        j,
                    ))
                &&& (forall|j: int|
                    0 <= j < ls.len() ==> is_matrix(
                        mat_view(#[trigger] r.0@[j]),
                        ls[j].outputs as nat,
                        ls[j].inputs as nat,
                    ))
                &&& (forall|j: int| 0 <= j < ls.len() ==> (#[trigger] r.1@[j])@.len() == ls[j].outputs)
                &&& final(network).layers@.len() == ls.len()
                &&& trained_layers_s(ls, final(network).layers@, input@, s0)
                &&& network_wf_s(*final(network))
                &&& final(rng).state == predict_train_state_s(ls, input@, s0)
            }),
    {
        let ghost ls = network.layers@;
        let ghost s0 = rng.state;
        proof {
            reveal(gradient_pre_s);
            reveal(network_wf_s);
        }
        let prediction = network.predict_cached(input, rng);
        proof {
            lemma_train_prefix_len(ls, input@, s0, ls.len());
        }
        let dl_da = self.loss.derivative(&prediction, expected);
        proof {
            reveal(dl_da_s);
            assert(dl_da@ == dl_da_s(ls, input@, s0, self.loss, expected@, ls.len() - 1));
            assert(dl_da@.len() == ls[ls.len() - 1].outputs);
        }
        self.backward(network, dl_da, Ghost(ls), Ghost(input@), Ghost(s0), Ghost(expected@))
    }


    /// Per-example gradients summed over a batch and divided by the
    /// batch length (sum-then-divide, a deterministic reduction). An
    /// empty batch produces empty gradient lists and touches nothing.
    #[verifier::rlimit(100)]
    pub fn get_batch_gradients(
        &self,
        network: &mut Network,
        batch_inputs: &Vec<Vec<i64>>,
        batch_expected: &Vec<Vec<i64>>,
        rng: &mut Rng,
    ) -> (r: (Vec<Vec<Vec<i64>>>, Vec<Vec<i64>>))
        requires
            batch_pre_s(
                old(network).layers@,
                mat_view(*batch_inputs),
                mat_view(*batch_expected),
            ),
            batch_inputs@.len() == batch_expected@.len(),
            batch_inputs@.len() <= 0x7fff_ffff_ffff_ffff,
        ensures
            batch_inputs@.len() == 0 ==> *final(network) == *old(network) && *final(rng) == *old(
                rng,
            ) && r.0@.len() == 0 && r.1@.len() == 0,
            batch_inputs@.len() >= 1 ==> ({
                let ls = old(network).layers@;
                let xs = mat_view(*batch_inputs);
                let ts = mat_view(*batch_expected);
                let s0 = old(rng).state;
                &&& r.0@.len() == ls.len()
                &&& r.1@.len() == ls.len()
                &&& (forall|j: int|
                    0 <= j < ls.len() ==> mat_view(#[trigger] r.0@[j]) == batch_avg_w_s(
                        ls,
                        xs,
                        ts,
                        s0,
                        self.loss,
                    )[j])
                &&& (forall|j: int|
                    0 <= j < ls.len() ==> (#[trigger] r.1@[j])@ == batch_avg_b_s(
                        ls,
                        xs,
                        ts,
                        s0,
                        self.loss,
                    )[j])
                &&& (forall|j: int|
                    0 <= j < ls.len() ==> is_matrix(
                        mat_view(#[trigger] r.0@[j]),
                        ls[j].outputs as nat,
                        ls[j].inputs as nat,
                    ))
                &&& (forall|j: int| 0 <= j < ls.len() ==> (#[trigger] r.1@[j])@.len() == ls[j].outputs)
                &&& final(network).layers@.len() == ls.len()
                &&& trained_layers_s(
                    ls,
                    final(network).layers@,
                    xs[xs.len() - 1],
                    batch_state_s(ls, xs, s0, (xs.len() - 1) as nat),
                )
                &&& network_wf_s(*final(network))
                &&& final(rng).state == batch_state_s(ls, xs, s0, xs.len())
            }),
    {
        let ghost ls = network.layers@;
        let ghost xs = mat_view(*batch_inputs);
        let ghost ts = mat_view(*batch_expected);
        let ghost s0 = rng.state;
        let n_batch = batch_inputs.len();
        if n_batch == 0 {
            return (Vec::new(), Vec::new());
        }
        proof {
            lemma_batch_first(ls, xs, ts);
            assert(batch_inputs@[0]@ == xs[0]);
            assert(batch_expected@[0]@ == ts[0]);
        }
        let (mut sum_w, mut sum_b) = self.get_gradients(
            network,
            &batch_inputs[0],
            &batch_expected[0],
            rng,
        );
        proof {
            assert(batch_state_s(ls, xs, s0, 0) == s0);
            assert(batch_state_s(ls, xs, s0, 1) == predict_train_state_s(ls, xs[0], s0));
            assert forall|j: int| 0 <= j < ls.len() implies mat_view(#[trigger] sum_w@[j])
                == batch_sum_w_s(ls, xs, ts, s0, self.loss, 1nat)[j] by {
                assert(batch_sum_w_s(ls, xs, ts, s0, self.loss, 1nat) == gradients_w_s(
                    ls,
                    xs[0],
                    s0,
                    self.loss,
                    ts[0],
                ));
            }
            assert forall|j: int| 0 <= j < ls.len() implies (#[trigger] sum_b@[j])@
                == batch_sum_b_s(ls, xs, ts, s0, self.loss, 1nat)[j] by {
                assert(batch_sum_b_s(ls, xs, ts, s0, self.loss, 1nat) == gradients_b_s(
                    ls,
                    xs[0],
                    s0,
                    self.loss,
                    ts[0],
                ));
            }
        }
        let layer_count = sum_w.len();
        let mut i: usize = 1;
        while i < n_batch
            invariant
                n_batch == xs.len(),
                ts.len() == xs.len(),
                xs == mat_view(*batch_inputs),
                ts == mat_view(*batch_expected),
                batch_pre_s(ls, xs, ts),
                ls.len() >= 1,
                layer_count == ls.len(),
                1 <= i <= n_batch,
                network.layers@.len() == ls.len(),
                trained_layers_s(
                    ls,
                    network.layers@,
                    xs[i - 1],
                    batch_state_s(ls, xs, s0, (i - 1) as nat),
                ),
                rng.state == batch_state_s(ls, xs, s0, i as nat),
                sum_w@.len() == ls.len(),
                sum_b@.len() == ls.len(),
                forall|j: int|
                    0 <= j < ls.len() ==> mat_view(#[trigger] sum_w@[j]) == batch_sum_w_s(
                        ls,
                        xs,
                        ts,
                        s0,
                        self.loss,
                        i as nat,
                    )[j],
                forall|j: int|
                    0 <= j < ls.len() ==> (#[trigger] sum_b@[j])@ == batch_sum_b_s(
                        ls,
                        xs,
                        ts,
                        s0,
                        self.loss,
                        i as nat,
                    )[j],
                forall|j: int|
                    0 <= j < ls.len() ==> is_matrix(
                        mat_view(#[trigger] sum_w@[j]),
                        ls[j].outputs as nat,
                        ls[j].inputs as nat,
                    ),
                forall|j: int| 0 <= j < ls.len() ==> (#[trigger] sum_b@[j])@.len() == ls[j].outputs,
            decreases n_batch - i,
        {
            let ghost cur = network.layers@;
            let ghost st_i = batch_state_s(ls, xs, s0, i as nat);
            proof {
                lemma_batch_next(ls, cur, xs, ts, s0, i as int);
                assert(batch_inputs@[i as int]@ == xs[i as int]);
                assert(batch_expected@[i as int]@ == ts[i as int]);
            }
            let (gw, gb) = self.get_gradients(network, &batch_inputs[i], &batch_expected[i], rng);
            proof {
                lemma_grads_translate(ls, cur, xs[i - 1], batch_state_s(ls, xs, s0, (i - 1) as nat), xs[i as int], st_i, self.loss, ts[i as int]);
                lemma_trained_congruence(
                    ls,
                    cur,
                    network.layers@,
                    xs[i - 1],
                    batch_state_s(ls, xs, s0, (i - 1) as nat),
                    xs[i as int],
                    st_i,
                );
                assert(batch_state_s(ls, xs, s0, (i + 1) as nat) == predict_train_state_s(
                    ls,
                    xs[i as int],
                    st_i,
                ));
            }
            let mut new_w: Vec<Vec<Vec<i64>>> = Vec::new();
            let mut new_b: Vec<Vec<i64>> = Vec::new();
            for j in 0..layer_count
                invariant
                    layer_count == ls.len(),
                    i < n_batch == xs.len(),
                    ts.len() == xs.len(),
                    sum_w@.len() == ls.len(),
                    sum_b@.len() == ls.len(),
                    gw@.len() == ls.len(),
                    gb@.len() == ls.len(),
                    forall|k: int|
                        0 <= k < ls.len() ==> is_matrix(
                            mat_view(#[trigger] sum_w@[k]),
                            ls[k].outputs as nat,
                            ls[k].inputs as nat,
                        ),
                    forall|k: int| 0 <= k < ls.len() ==> (#[trigger] sum_b@[k])@.len() == ls[k].outputs,
                    forall|k: int|
                        0 <= k < ls.len() ==> is_matrix(
                            mat_view(#[trigger] gw@[k]),
                            ls[k].outputs as nat,
                            ls[k].inputs as nat,
                        ),
                    forall|k: int| 0 <= k < ls.len() ==> (#[trigger] gb@[k])@.len() == ls[k].outputs,
                    new_w@.len() == j,
                    new_b@.len() == j,
                    forall|k: int|
                        0 <= k < j ==> mat_view(#[trigger] new_w@[k]) == mat_add_s(
                            mat_view(sum_w@[k]),
                            mat_view(gw@[k]),
                        ),
                    forall|k: int|
                        0 <= k < j ==> (#[trigger] new_b@[k])@ == vec_add_s(
                            sum_b@[k]@,
                            gb@[k]@,
                        ),
            {
                proof {
                    assert(is_matrix(mat_view(sum_w@[j as int]), ls[j as int].outputs as nat, ls[j as int].inputs as nat));
                    assert(is_matrix(mat_view(gw@[j as int]), ls[j as int].outputs as nat, ls[j as int].inputs as nat));
                    assert forall|q: int| 0 <= q < sum_w@[j as int]@.len() implies (#[trigger] sum_w@[j as int]@[q])@.len() == gw@[j as int]@[q]@.len() by {
                        assert(mat_view(sum_w@[j as int])[q] == sum_w@[j as int]@[q]@);
                        assert(mat_view(gw@[j as int])[q] == gw@[j as int]@[q]@);
                    }
                }
                new_w.push(mat_add(&sum_w[j], &gw[j]));
                new_b.push(vec_add(&sum_b[j], &gb[j]));
            }
            sum_w = new_w;
            sum_b = new_b;
            i = i + 1;
            proof {
                assert forall|j: int| 0 <= j < ls.len() implies mat_view(#[trigger] sum_w@[j])
                    == batch_sum_w_s(ls, xs, ts, s0, self.loss, i as nat)[j] by {
                    assert(batch_sum_w_s(ls, xs, ts, s0, self.loss, i as nat)[j] == mat_add_s(
                        batch_sum_w_s(ls, xs, ts, s0, self.loss, (i - 1) as nat)[j],
                        gradients_w_s(
                            ls,
                            xs[i - 1],
                            batch_state_s(ls, xs, s0, (i - 1) as nat),
                            self.loss,
                            ts[i - 1],
                        )[j],
                    ));
                }
                assert forall|j: int| 0 <= j < ls.len() implies (#[trigger] sum_b@[j])@
                    == batch_sum_b_s(ls, xs, ts, s0, self.loss, i as nat)[j] by {
                    assert(batch_sum_b_s(ls, xs, ts, s0, self.loss, i as nat)[j] == vec_add_s(
                        batch_sum_b_s(ls, xs, ts, s0, self.loss, (i - 1) as nat)[j],
                        gradients_b_s(
                            ls,
                            xs[i - 1],
                            batch_state_s(ls, xs, s0, (i - 1) as nat),
                            self.loss,
                            ts[i - 1],
                        )[j],
                    ));
                }
            }
        }
        proof {
            lemma_batch_at(ls, xs, ts, (xs.len() - 1) as int);
            lemma_trained_network_wf(
                ls,
                *network,
                xs[xs.len() - 1],
                batch_state_s(ls, xs, s0, (xs.len() - 1) as nat),
                ts[xs.len() - 1],
            );
        }
        let mut avg_w: Vec<Vec<Vec<i64>>> = Vec::new();
        let mut avg_b: Vec<Vec<i64>> = Vec::new();
        for j in 0..layer_count
            invariant
                layer_count == ls.len(),
                n_batch == xs.len(),
                ts.len() == xs.len(),
                1 <= n_batch <= 0x7fff_ffff_ffff_ffff,
                sum_w@.len() == ls.len(),
                sum_b@.len() == ls.len(),
                forall|k: int|
                    0 <= k < ls.len() ==> mat_view(#[trigger] sum_w@[k]) == batch_sum_w_s(
                        ls,
                        xs,
                        ts,
                        s0,
                        self.loss,
                        xs.len(),
                    )[k],
                forall|k: int|
                    0 <= k < ls.len() ==> (#[trigger] sum_b@[k])@ == batch_sum_b_s(
                        ls,
                        xs,
                        ts,
                        s0,
                        self.loss,
                        xs.len(),
                    )[k],
                forall|k: int|
                    0 <= k < ls.len() ==> is_matrix(
                        mat_view(#[trigger] sum_w@[k]),
                        ls[k].outputs as nat,
                        ls[k].inputs as nat,
                    ),
                forall|k: int| 0 <= k < ls.len() ==> (#[trigger] sum_b@[k])@.len() == ls[k].outputs,
                avg_w@.len() == j,
                avg_b@.len() == j,
                forall|k: int|
                    0 <= k < j ==> mat_view(#[trigger] avg_w@[k]) == batch_avg_w_s(
                        ls,
                        xs,
                        ts,
                        s0,
                        self.loss,
                    )[k],
                forall|k: int|
                    0 <= k < j ==> (#[trigger] avg_b@[k])@ == batch_avg_b_s(
                        ls,
                        xs,
                        ts,
                        s0,
                        self.loss,
                    )[k],
                forall|k: int|
                    0 <= k < j ==> is_matrix(
                        mat_view(#[trigger] avg_w@[k]),
                        ls[k].outputs as nat,
                        ls[k].inputs as nat,
                    ),
                forall|k: int| 0 <= k < j ==> (#[trigger] avg_b@[k])@.len() == ls[k].outputs,
        {
            avg_w.push(mat_div_int(&sum_w[j], n_batch as i64));
            avg_b.push(vec_div_int(&sum_b[j], n_batch as i64));
        }
        (avg_w, avg_b)
    }

    /// Subtract the learning-rate-scaled gradients from every layer's
    /// weights and biases, leaving everything else (the caches
    /// included) untouched.
    #[verifier::rlimit(100)]
    fn apply_updates(
        &self,
        network: &mut Network,
        w_grads: &Vec<Vec<Vec<i64>>>,
        b_grads: &Vec<Vec<i64>>,
    )
        requires
            network_wf_s(*old(network)),
            w_grads@.len() == old(network).layers@.len(),
            b_grads@.len() == old(network).layers@.len(),
            forall|j: int|
                0 <= j < w_grads@.len() ==> is_matrix(
                    mat_view(#[trigger] w_grads@[j]),
                    old(network).layers@[j].outputs as nat,
                    old(network).layers@[j].inputs as nat,
                ),
            forall|j: int|
                0 <= j < b_grads@.len() ==> (#[trigger] b_grads@[j])@.len() == old(
                    network,
                ).layers@[j].outputs,
        ensures
            final(network).layers@.len() == old(network).layers@.len(),
            forall|j: int|
                0 <= j < old(network).layers@.len() ==> mat_view(
                    (#[trigger] final(network).layers@[j]).weights,
                ) == updated_weights_s(
                    mat_view(old(network).layers@[j].weights),
                    mat_view(w_grads@[j]),
                    self.learning_rate,
                ),
            forall|j: int|
                0 <= j < old(network).layers@.len() ==> (#[trigger] final(network).layers@[j]).biases@ == updated_biases_s(
                    old(network).layers@[j].biases@,
                    b_grads@[j]@,
                    self.learning_rate,
                ),
            forall|j: int|
                0 <= j < old(network).layers@.len() ==> ({
                    let a = #[trigger] final(network).layers@[j];
                    let b = old(network).layers@[j];
                    &&& a.outputs == b.outputs
                    &&& a.inputs == b.inputs
                    &&& a.transfer_fn == b.transfer_fn
                    &&& a.activation_fn == b.activation_fn
                    &&& a.input_value == b.input_value
                    &&& a.transfer_value == b.transfer_value
                    &&& a.activation_value == b.activation_value
                }),
            network_wf_s(*final(network)),
    {
        proof {
            reveal(network_wf_s);
        }
        let ghost before = network.layers@;
        let len = network.len();
        for j in 0..len
            invariant
                len == before.len(),
                network_wf_s(*old(network)),
                network.layers@.len() == len,
                w_grads@.len() == len,
                b_grads@.len() == len,
                forall|k: int|
                    0 <= k < len ==> is_matrix(
                        mat_view(#[trigger] w_grads@[k]),
                        before[k].outputs as nat,
                        before[k].inputs as nat,
                    ),
                forall|k: int| 0 <= k < len ==> (#[trigger] b_grads@[k])@.len() == before[k].outputs,
                before == old(network).layers@,
                forall|k: int| j <= k < len ==> #[trigger] network.layers@[k] == before[k],
                forall|k: int|
                    0 <= k < j ==> mat_view((#[trigger] network.layers@[k]).weights)
                        == updated_weights_s(
                        mat_view(before[k].weights),
                        mat_view(w_grads@[k]),
                        self.learning_rate,
                    ),
                forall|k: int|
                    0 <= k < j ==> (#[trigger] network.layers@[k]).biases@ == updated_biases_s(
                        before[k].biases@,
                        b_grads@[k]@,
                        self.learning_rate,
                    ),
                forall|k: int|
                    0 <= k < j ==> ({
                        let a = #[trigger] network.layers@[k];
                        let b = before[k];
                        &&& a.outputs == b.outputs
                        &&& a.inputs == b.inputs
                        &&& a.transfer_fn == b.transfer_fn
                        &&& a.activation_fn == b.activation_fn
                        &&& a.input_value == b.input_value
                        &&& a.transfer_value == b.transfer_value
                        &&& a.activation_value == b.activation_value
                    }),
                forall|k: int| 0 <= k < j ==> layer_wf_s(#[trigger] network.layers@[k]),
        {
            proof {
                reveal(network_wf_s);
                assert(network.layers@[j as int] == before[j as int]);
                assert(layer_wf_s(before[j as int]));
            }
            let mut l = network.layers.remove(j);
            update_layer(&mut l, &w_grads[j], &b_grads[j], self.learning_rate);
            network.layers.insert(j, l);
        }
        proof {
            reveal(network_wf_s);
        }
        assert(network_wf_s(*network));
    }

    /// One full training step on a single example: a cached forward
    /// pass, the backward gradient sweep, and the update
    /// `weights -= lr * dW`, `biases -= lr * db`. The caches are left
    /// holding the forward pass of the pre-update parameters: they
    /// are stale until the next cached pass.
    #[verifier::rlimit(100)]
    pub fn optimize_once(
        &self,
        network: &mut Network,
        input: &Vec<i64>,
        expected: &Vec<i64>,
        rng: &mut Rng,
    )
        requires
            gradient_pre_s(old(network).layers@, input@, expected@),
        ensures
            ({
                let ls = old(network).layers@;
                let s0 = old(rng).state;
                &&& final(network).layers@.len() == ls.len()
                &&& (forall|j: int|
                    0 <= j < ls.len() ==> mat_view(
                        (#[trigger] final(network).layers@[j]).weights,
                    ) == updated_weights_s(
                        mat_view(ls[j].weights),
                        grad_w_s(ls, input@, s0, self.loss, expected@, j),
                        self.learning_rate,
                    ))
                &&& (forall|j: int|
                    0 <= j < ls.len() ==> (#[trigger] final(network).layers@[j]).biases@
                        == updated_biases_s(
                        ls[j].biases@,
                        grad_b_s(ls, input@, s0, self.loss, expected@, j),
                        self.learning_rate,
                    ))
                &&& (forall|j: int|
                    0 <= j < ls.len() ==> ({
                        let a = #[trigger] final(network).layers@[j];
                        &&& a.outputs == ls[j].outputs
                        &&& a.inputs == ls[j].inputs
                        &&& a.transfer_fn == ls[j].transfer_fn
                        &&& a.activation_fn == ls[j].activation_fn
                    }))
                &&& network_wf_s(*final(network))
                &&& final(rng).state == predict_train_state_s(ls, input@, s0)
            }),
    {
        let ghost ls = network.layers@;
        let ghost s0 = rng.state;
        let (w_grads, b_grads) = self.get_gradients(network, input, expected, rng);
        let ghost cur = network.layers@;
        proof {
            assert forall|j: int| 0 <= j < ls.len() implies crate::layer::layer_same_structure_s(
                cur[j],
                ls[j],
            ) && layer_wf_s(cur[j]) by {
                lemma_trained_cache_facts(ls, cur, input@, s0, expected@, j);
            }
        }
        self.apply_updates(network, &w_grads, &b_grads);
        proof {
            assert forall|j: int| 0 <= j < ls.len() implies mat_view(
                (#[trigger] network.layers@[j]).weights,
            ) == updated_weights_s(
                mat_view(ls[j].weights),
                grad_w_s(ls, input@, s0, self.loss, expected@, j),
                self.learning_rate,
            ) by {
                assert(mat_view(cur[j].weights) == mat_view(ls[j].weights));
                assert(mat_view(w_grads@[j]) == grad_w_s(ls, input@, s0, self.loss, expected@, j));
            }
            assert forall|j: int| 0 <= j < ls.len() implies (#[trigger] network.layers@[j]).biases@
                == updated_biases_s(
                ls[j].biases@,
                grad_b_s(ls, input@, s0, self.loss, expected@, j),
                self.learning_rate,
            ) by {
                assert(cur[j].biases@ == ls[j].biases@);
                assert((b_grads@[j])@ == grad_b_s(ls, input@, s0, self.loss, expected@, j));
            }
        }
    }

    /// One full training step on a batch: per-example gradients are
    /// averaged (summed, then divided by the batch length) and
    /// applied once. An empty batch is a no-op.
    #[verifier::rlimit(100)]
    pub fn optimize_batch(
        &self,
        network: &mut Network,
        batch_inputs: &Vec<Vec<i64>>,
        batch_expected: &Vec<Vec<i64>>,
        rng: &mut Rng,
    )
        requires
            batch_pre_s(
                old(network).layers@,
                mat_view(*batch_inputs),
                mat_view(*batch_expected),
            ),
            batch_inputs@.len() == batch_expected@.len(),
            batch_inputs@.len() <= 0x7fff_ffff_ffff_ffff,
        ensures
            batch_inputs@.len() == 0 ==> *final(network) == *old(network) && *final(rng) == *old(
                rng,
            ),
            batch_inputs@.len() >= 1 ==> ({
                let ls = old(network).layers@;
                let xs = mat_view(*batch_inputs);
                let ts = mat_view(*batch_expected);
                let s0 = old(rng).state;
                &&& final(network).layers@.len() == ls.len()
                &&& (forall|j: int|
                    0 <= j < ls.len() ==> mat_view(
                        (#[trigger] final(network).layers@[j]).weights,
                    ) == updated_weights_s(
                        mat_view(ls[j].weights),
                        batch_avg_w_s(ls, xs, ts, s0, self.loss)[j],
                        self.learning_rate,
                    ))
                &&& (forall|j: int|
                    0 <= j < ls.len() ==> (#[trigger] final(network).layers@[j]).biases@
                        == updated_biases_s(
                        ls[j].biases@,
                        batch_avg_b_s(ls, xs, ts, s0, self.loss)[j],
                        self.learning_rate,
                    ))
                &&& (forall|j: int|
                    0 <= j < ls.len() ==> ({
                        let a = #[trigger] final(network).layers@[j];
                        &&& a.outputs == ls[j].outputs
                        &&& a.inputs == ls[j].inputs
                        &&& a.transfer_fn == ls[j].transfer_fn
                        &&& a.activation_fn == ls[j].activation_fn
                    }))
                &&& network_wf_s(*final(network))
                &&& final(rng).state == batch_state_s(ls, xs, s0, xs.len())
            }),
    {
        let ghost ls = network.layers@;
        let ghost xs = mat_view(*batch_inputs);
        let ghost ts = mat_view(*batch_expected);
        let ghost s0 = rng.state;
        let n_batch = batch_inputs.len();
        if n_batch == 0 {
            return ;
        }
        let (w_grads, b_grads) = self.get_batch_gradients(
            network,
            batch_inputs,
            batch_expected,
            rng,
        );
        let ghost cur = network.layers@;
        proof {
            assert forall|j: int| 0 <= j < ls.len() implies crate::layer::layer_same_structure_s(
                cur[j],
                ls[j],
            ) && layer_wf_s(cur[j]) by {
                lemma_batch_at(ls, xs, ts, (xs.len() - 1) as int);
                lemma_trained_cache_facts(
                    ls,
                    cur,
                    xs[xs.len() - 1],
                    batch_state_s(ls, xs, s0, (xs.len() - 1) as nat),
                    ts[xs.len() - 1],
                    j,
                );
            }
        }
        self.apply_updates(network, &w_grads, &b_grads);
        proof {
            assert forall|j: int| 0 <= j < ls.len() implies mat_view(
                (#[trigger] network.layers@[j]).weights,
            ) == updated_weights_s(
                mat_view(ls[j].weights),
                batch_avg_w_s(ls, xs, ts, s0, self.loss)[j],
                self.learning_rate,
            ) by {
                assert(mat_view(cur[j].weights) == mat_view(ls[j].weights));
                assert(mat_view(w_grads@[j]) == batch_avg_w_s(ls, xs, ts, s0, self.loss)[j]);
            }
            assert forall|j: int| 0 <= j < ls.len() implies (#[trigger] network.layers@[j]).biases@
                == updated_biases_s(
                ls[j].biases@,
                batch_avg_b_s(ls, xs, ts, s0, self.loss)[j],
                self.learning_rate,
            ) by {
                assert(cur[j].biases@ == ls[j].biases@);
                assert((b_grads@[j])@ == batch_avg_b_s(ls, xs, ts, s0, self.loss)[j]);
            }
        }
    }

    /// The reverse-order chain-rule sweep over a network whose caches
    /// were just filled by a cached pass: produces every layer's
    /// weight and bias gradients.
    fn backward(
        &self,
        network: &Network,
        dl_da_last: Vec<i64>,
        Ghost(ls): Ghost<Seq<Layer>>,
        Ghost(x): Ghost<Seq<i64>>,
        Ghost(s0): Ghost<u64>,
        Ghost(tgt): Ghost<Seq<i64>>,
    ) -> (r: (Vec<Vec<Vec<i64>>>, Vec<Vec<i64>>))
        requires
            gradient_pre_s(ls, x, tgt),
            ls.len() >= 1,
            network.layers@.len() == ls.len(),
            trained_layers_s(ls, network.layers@, x, s0),
            dl_da_last@ == dl_da_s(ls, x, s0, self.loss, tgt, ls.len() - 1),
            dl_da_last@.len() == ls[ls.len() - 1].outputs,
        ensures
            r.0@.len() == ls.len(),
            r.1@.len() == ls.len(),
            forall|j: int|
                0 <= j < ls.len() ==> mat_view(#[trigger] r.0@[j]) == grad_w_s(
                    ls,
                    x,
                    s0,
                    self.loss,
                    tgt,
                    j,
                ),
            forall|j: int|
                0 <= j < ls.len() ==> (#[trigger] r.1@[j])@ == grad_b_s(
                    ls,
                    x,
                    s0,
                    self.loss,
                    tgt,
                    j,
                ),
            forall|j: int|
                0 <= j < ls.len() ==> is_matrix(
                    mat_view(#[trigger] r.0@[j]),
                    ls[j].outputs as nat,
                    ls[j].inputs as nat,
                ),
            forall|j: int| 0 <= j < ls.len() ==> (#[trigger] r.1@[j])@.len() == ls[j].outputs,
    {
        let mut dl_da = dl_da_last;
        let mut w_grads: Vec<Vec<Vec<i64>>> = Vec::new();
        let mut b_grads: Vec<Vec<i64>> = Vec::new();
        let n = network.len();
        let mut j = n;
        while j > 0
            invariant
                n == ls.len(),
                gradient_pre_s(ls, x, tgt),
                network.layers@.len() == n,
                trained_layers_s(ls, network.layers@, x, s0),
                0 <= j <= n,
                j >= 1 ==> dl_da@ == dl_da_s(ls, x, s0, self.loss, tgt, j - 1),
                j >= 1 ==> dl_da@.len() == ls[j - 1].outputs,
                w_grads@.len() == n - j,
                b_grads@.len() == n - j,
                forall|idx: int|
                    0 <= idx < n - j ==> mat_view(#[trigger] w_grads@[idx]) == grad_w_s(
                        ls,
                        x,
                        s0,
                        self.loss,
                        tgt,
                        j + idx,
                    ),
                forall|idx: int|
                    0 <= idx < n - j ==> (#[trigger] b_grads@[idx])@ == grad_b_s(
                        ls,
                        x,
                        s0,
                        self.loss,
                        tgt,
                        j + idx,
                    ),
                forall|idx: int|
                    0 <= idx < n - j ==> is_matrix(
                        mat_view(#[trigger] w_grads@[idx]),
                        ls[j + idx].outputs as nat,
                        ls[j + idx].inputs as nat,
                    ),
                forall|idx: int|
                    0 <= idx < n - j ==> (#[trigger] b_grads@[idx])@.len() == ls[j + idx].outputs,
            decreases j,
        {
            j = j - 1;
            proof {
                lemma_trained_cache_facts(ls, network.layers@, x, s0, tgt, j as int);
            }
            let l = &network.layers[j];
            let (dl_db, dl_dw, dl_dap) = self.backward_step(
                l,
                &dl_da,
                Ghost(ls),
                Ghost(x),
                Ghost(s0),
                Ghost(tgt),
                Ghost(j as int),
            );

            let ghost prev_w = w_grads@;
            let ghost prev_b = b_grads@;
            w_grads.insert(0, dl_dw);
            b_grads.insert(0, dl_db);
            proof {
                let jj = j as int;
                assert forall|idx: int| 0 <= idx < n - jj implies mat_view(
                    #[trigger] w_grads@[idx],
                ) == grad_w_s(ls, x, s0, self.loss, tgt, jj + idx) by {
                    if idx == 0 {
                        assert(w_grads@[0] == dl_dw);
                    } else {
                        assert(w_grads@[idx] == prev_w[idx - 1]);
                    }
                }
                assert forall|idx: int| 0 <= idx < n - jj implies (#[trigger] b_grads@[idx])@
                    == grad_b_s(ls, x, s0, self.loss, tgt, jj + idx) by {
                    if idx == 0 {
                        assert(b_grads@[0] == dl_db);
                    } else {
                        assert(b_grads@[idx] == prev_b[idx - 1]);
                    }
                }
                assert forall|idx: int| 0 <= idx < n - jj implies is_matrix(
                    mat_view(#[trigger] w_grads@[idx]),
                    ls[jj + idx].outputs as nat,
                    ls[jj + idx].inputs as nat,
                ) by {
                    if idx == 0 {
                        assert(w_grads@[0] == dl_dw);
                    } else {
                        assert(w_grads@[idx] == prev_w[idx - 1]);
                    }
                }
                assert forall|idx: int| 0 <= idx < n - jj implies (#[trigger] b_grads@[idx])@.len()
                    == ls[jj + idx].outputs by {
                    if idx == 0 {
                        assert(b_grads@[0] == dl_db);
                    } else {
                        assert(b_grads@[idx] == prev_b[idx - 1]);
                    }
                }
            }
            dl_da = dl_dap;
        }
        (w_grads, b_grads)
    }

    /// One step of the backward sweep at layer `j`: the bias
    /// gradient, the weight gradient, and the derivative propagated
    /// to the previous layer.
    #[verifier::rlimit(100)]
    fn backward_step(
        &self,
        l: &Layer,
        dl_da: &Vec<i64>,
        Ghost(ls): Ghost<Seq<Layer>>,
        Ghost(x): Ghost<Seq<i64>>,
        Ghost(s0): Ghost<u64>,
        Ghost(tgt): Ghost<Seq<i64>>,
        Ghost(j): Ghost<int>,
    ) -> (r: (Vec<i64>, Vec<Vec<i64>>, Vec<i64>))
        requires
            gradient_pre_s(ls, x, tgt),
            0 <= j < ls.len(),
            crate::layer::layer_same_structure_s(*l, ls[j]),
            layer_wf_s(*l),
            (l.transfer_value matches Some(v) && v@ == cached_transfer_s(ls, x, s0, j)),
            (l.input_value matches Some(v) && v@ == train_in_s(ls, x, s0, j)),
            dl_da@ == dl_da_s(ls, x, s0, self.loss, tgt, j),
            dl_da@.len() == ls[j].outputs,
        ensures
            r.0@ == grad_b_s(ls, x, s0, self.loss, tgt, j),
            mat_view(r.1) == grad_w_s(ls, x, s0, self.loss, tgt, j),
            r.0@.len() == ls[j].outputs,
            is_matrix(mat_view(r.1), ls[j].outputs as nat, ls[j].inputs as nat),
            j >= 1 ==> r.2@ == dl_da_s(ls, x, s0, self.loss, tgt, j - 1),
            j >= 1 ==> r.2@.len() == ls[j - 1].outputs,
    {
        proof {
            reveal(gradient_pre_s);
            reveal(train_in_s);
            reveal(train_st_s);
            reveal(cached_transfer_s);
            reveal(da_dt_s);
            reveal(dl_da_s);
            reveal(grad_b_s);
            reveal(grad_w_s);
        }
        let transfer = l.get_transfer().unwrap();
        proof {
            assert(transfer@ == cached_transfer_s(ls, x, s0, j));
        }
        let da_dt = l.apply_derivation(transfer);
        proof {
            assert(da_dt@ == da_dt_s(ls, x, s0, j));
        }
        let dt_dw = l.get_input().unwrap();
        proof {
            assert(dt_dw@ == train_in_s(ls, x, s0, j));
        }

        let dl_db = self.chain_rule_biases(dl_da, &da_dt);
        proof {
            assert(dl_db@ == grad_b_s(ls, x, s0, self.loss, tgt, j));
        }
        let dl_dw = self.chain_rule_weights(dl_da, &da_dt, dt_dw);
        proof {
            assert(mat_view(dl_dw) == grad_w_s(ls, x, s0, self.loss, tgt, j));
        }

        let dl_dap = self.chain_rule_previous_activations(dl_da, &da_dt, &l.weights, l.input_size());
        proof {
            if j >= 1 {
                assert(dl_dap@ == dl_da_s(ls, x, s0, self.loss, tgt, j - 1));
                assert(dl_dap@.len() == ls[j - 1].outputs);
            }
        }
        (dl_db, dl_dw, dl_dap)
    }

}

} // verus!
