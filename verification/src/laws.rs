//! Laws the library guarantees, stated and proved over the same
//! specifications its contracts use.

use vstd::prelude::*;

use crate::activations::activate_s;
use crate::fixed::{fx_add_s, fx_div_int_s, lemma_fx_mul_one, sat, tdiv, SCALE};
use crate::layer::{layer_train_out_s, layer_train_transfer_s, layer_wf_s, Layer};
use crate::linalg::{mat_view, matvec_s, outer_s, vec_add_s, vec_hadamard_s};
use crate::losses::{sse_derivative_s, Loss};
use crate::network::{
    predict_prefix_s, predict_s, predict_train_s, predict_train_state_s, train_prefix_s,
};
use crate::sgd::{
    batch_avg_b_s, batch_avg_w_s, batch_state_s, batch_sum_b_s, batch_sum_w_s, cached_transfer_s,
    da_dt_s, dl_da_s, grad_b_s, grad_w_s, gradients_b_s, gradients_w_s, train_in_s, train_st_s,
};
use crate::transfers::{dense_s, train_state_s, transfer_test_s};

verus! {

/// Every layer uses the deterministic dense transfer (no dropout).
pub open spec fn all_dense_s(ls: Seq<Layer>) -> bool {
    forall|i: int| 0 <= i < ls.len() ==> (#[trigger] ls[i]).transfer_fn is Dense
}

/// On a dropout-free network the training-mode fold equals the
/// inference-mode fold and never touches the generator.
proof fn lemma_dense_prefix(ls: Seq<Layer>, x: Seq<i64>, s0: u64, n: nat)
    requires
        all_dense_s(ls),
        n <= ls.len(),
    ensures
        train_prefix_s(ls, x, s0, n).0 == predict_prefix_s(ls, x, n),
        train_prefix_s(ls, x, s0, n).1 == s0,
    decreases n,
{
    reveal(train_prefix_s);
    reveal(predict_prefix_s);
    if n >= 1 {
        lemma_dense_prefix(ls, x, s0, (n - 1) as nat);
        let l = ls[n - 1];
        assert(l.transfer_fn is Dense);
        let v = predict_prefix_s(ls, x, (n - 1) as nat);
        assert(layer_train_transfer_s(l, v, s0) == transfer_test_s(
            l.transfer_fn,
            mat_view(l.weights),
            l.biases@,
            v,
        ));
        assert(train_state_s(l.transfer_fn, s0, v.len()) == s0);
    }
}

/// Determinism without dropout: on a network whose transfers are all
/// dense, a cached (training-mode) prediction returns exactly the
/// plain prediction and leaves the generator state untouched. (That
/// the cached pass populates every layer's cache is part of
/// `Network::predict_cached`'s own contract.)
pub proof fn lemma_predict_cached_matches_predict(ls: Seq<Layer>, x: Seq<i64>, s0: u64)
    requires
        all_dense_s(ls),
    ensures
        predict_train_s(ls, x, s0) == predict_s(ls, x),
        predict_train_state_s(ls, x, s0) == s0,
{
    lemma_dense_prefix(ls, x, s0, ls.len());
}

/// Gradient sanity: for a single dense layer with the identity
/// activation and sum-squared-error loss, the engine's bias gradient
/// is exactly the loss derivative `2 * (W·x + b - t)` and its weight
/// gradient is exactly the outer product of that derivative with the
/// input.
pub proof fn lemma_linear_layer_gradients(l: Layer, x: Seq<i64>, tgt: Seq<i64>, s0: u64)
    requires
        layer_wf_s(l),
        l.transfer_fn is Dense,
        l.activation_fn is Linear,
        x.len() == l.inputs,
        tgt.len() == l.outputs,
    ensures
        ({
            let ls = seq![l];
            let p = vec_add_s(matvec_s(mat_view(l.weights), x), l.biases@);
            let d = sse_derivative_s(p, tgt);
            &&& grad_b_s(ls, x, s0, Loss::SumSquared, tgt, 0) == d
            &&& grad_w_s(ls, x, s0, Loss::SumSquared, tgt, 0) == outer_s(d, x)
        }),
{
    reveal(grad_b_s);
    reveal(grad_w_s);
    reveal(dl_da_s);
    reveal(da_dt_s);
    reveal(cached_transfer_s);
    reveal(train_in_s);
    reveal(train_st_s);
    reveal(train_prefix_s);
    let ls = seq![l];
    let t = dense_s(mat_view(l.weights), l.biases@, x);
    let p = vec_add_s(matvec_s(mat_view(l.weights), x), l.biases@);
    assert(t == p);

    assert(train_prefix_s(ls, x, s0, 0).0 == x);
    assert(train_in_s(ls, x, s0, 0) == x);
    assert(layer_train_transfer_s(l, x, s0) == t);
    assert(cached_transfer_s(ls, x, s0, 0) == t);
    assert(train_prefix_s(ls, x, s0, 1).0 == layer_train_out_s(l, x, s0));
    assert(activate_s(l.activation_fn, t) =~= t);
    assert(predict_train_s(ls, x, s0) == t);

    let d = sse_derivative_s(p, tgt);
    assert(dl_da_s(ls, x, s0, Loss::SumSquared, tgt, 0) == d);
    assert(da_dt_s(ls, x, s0, 0) =~= Seq::new(t.len(), |i: int| SCALE as i64));

    assert forall|i: int| 0 <= i < d.len() implies #[trigger] vec_hadamard_s(
        d,
        da_dt_s(ls, x, s0, 0),
    )[i] == d[i] by {
        lemma_fx_mul_one(d[i]);
    }
    assert(vec_hadamard_s(d, da_dt_s(ls, x, s0, 0)) =~= d);
    assert(grad_b_s(ls, x, s0, Loss::SumSquared, tgt, 0) == d);
    assert(grad_w_s(ls, x, s0, Loss::SumSquared, tgt, 0) == outer_s(d, x));
}

/// On a dropout-free network the generator state never moves across
/// a batch.
proof fn lemma_dense_batch_state(ls: Seq<Layer>, xs: Seq<Seq<i64>>, s0: u64, i: nat)
    requires
        all_dense_s(ls),
        i <= xs.len(),
    ensures
        batch_state_s(ls, xs, s0, i) == s0,
    decreases i,
{
    if i >= 1 {
        lemma_dense_batch_state(ls, xs, s0, (i - 1) as nat);
        lemma_dense_prefix(ls, xs[i - 1], s0, ls.len());
    }
}

/// Summing `i` copies of the same gradients accumulates exact
/// integer multiples as long as the full sum stays in range.
proof fn lemma_identical_batch_sum(
    ls: Seq<Layer>,
    xs: Seq<Seq<i64>>,
    ts: Seq<Seq<i64>>,
    s0: u64,
    lo: Loss,
    i: nat,
)
    requires
        all_dense_s(ls),
        1 <= i <= xs.len(),
        xs.len() <= 0x7fff_ffff_ffff_ffff,
        forall|k: int| 0 <= k < xs.len() ==> #[trigger] xs[k] == xs[0],
        forall|k: int| 0 <= k < ts.len() ==> #[trigger] ts[k] == ts[0],
        ts.len() == xs.len(),
        forall|j: int, a: int, b: int|
            0 <= j < ls.len() && 0 <= a < grad_w_s(ls, xs[0], s0, lo, ts[0], j).len() && 0 <= b
                < grad_w_s(ls, xs[0], s0, lo, ts[0], j)[a].len() ==> i64::MIN <= xs.len() * (
            #[trigger] grad_w_s(ls, xs[0], s0, lo, ts[0], j)[a][b]) <= i64::MAX,
        forall|j: int, a: int|
            0 <= j < ls.len() && 0 <= a < grad_b_s(ls, xs[0], s0, lo, ts[0], j).len()
                ==> i64::MIN <= xs.len() * (#[trigger] grad_b_s(ls, xs[0], s0, lo, ts[0], j)[a])
                <= i64::MAX,
    ensures
        batch_sum_w_s(ls, xs, ts, s0, lo, i).len() == ls.len(),
        batch_sum_b_s(ls, xs, ts, s0, lo, i).len() == ls.len(),
        forall|j: int|
            0 <= j < ls.len() ==> (#[trigger] batch_sum_w_s(ls, xs, ts, s0, lo, i)[j]).len()
                == grad_w_s(ls, xs[0], s0, lo, ts[0], j).len(),
        forall|j: int, a: int|
            0 <= j < ls.len() && 0 <= a < grad_w_s(ls, xs[0], s0, lo, ts[0], j).len()
                ==> (#[trigger] batch_sum_w_s(ls, xs, ts, s0, lo, i)[j][a]).len() == grad_w_s(
                ls,
                xs[0],
                s0,
                lo,
                ts[0],
                j,
            )[a].len(),
        forall|j: int, a: int, b: int|
            0 <= j < ls.len() && 0 <= a < grad_w_s(ls, xs[0], s0, lo, ts[0], j).len() && 0 <= b
                < grad_w_s(ls, xs[0], s0, lo, ts[0], j)[a].len()
                ==> #[trigger] batch_sum_w_s(ls, xs, ts, s0, lo, i)[j][a][b] == i * grad_w_s(
                ls,
                xs[0],
                s0,
                lo,
                ts[0],
                j,
            )[a][b],
        forall|j: int|
            0 <= j < ls.len() ==> (#[trigger] batch_sum_b_s(ls, xs, ts, s0, lo, i)[j]).len()
                == grad_b_s(ls, xs[0], s0, lo, ts[0], j).len(),
        forall|j: int, a: int|
            0 <= j < ls.len() && 0 <= a < grad_b_s(ls, xs[0], s0, lo, ts[0], j).len()
                ==> #[trigger] batch_sum_b_s(ls, xs, ts, s0, lo, i)[j][a] == i * grad_b_s(
                ls,
                xs[0],
                s0,
                lo,
                ts[0],
                j,
            )[a],
    decreases i,
{
    let n = xs.len() as int;
    if i == 1 {
        assert(batch_sum_w_s(ls, xs, ts, s0, lo, 1) == gradients_w_s(ls, xs[0], s0, lo, ts[0]));
        assert(batch_sum_b_s(ls, xs, ts, s0, lo, 1) == gradients_b_s(ls, xs[0], s0, lo, ts[0]));
    } else {
        lemma_identical_batch_sum(ls, xs, ts, s0, lo, (i - 1) as nat);
        lemma_dense_batch_state(ls, xs, s0, (i - 1) as nat);
        assert(xs[i - 1] == xs[0]);
        assert(ts[i - 1] == ts[0]);
        let prev_w = batch_sum_w_s(ls, xs, ts, s0, lo, (i - 1) as nat);
        let prev_b = batch_sum_b_s(ls, xs, ts, s0, lo, (i - 1) as nat);
        let cur_w = gradients_w_s(ls, xs[i - 1], batch_state_s(ls, xs, s0, (i - 1) as nat), lo, ts[i - 1]);
        let cur_b = gradients_b_s(ls, xs[i - 1], batch_state_s(ls, xs, s0, (i - 1) as nat), lo, ts[i - 1]);
        assert(cur_w == gradients_w_s(ls, xs[0], s0, lo, ts[0]));
        assert(cur_b == gradients_b_s(ls, xs[0], s0, lo, ts[0]));
        assert forall|j: int, a: int, b: int|
            0 <= j < ls.len() && 0 <= a < grad_w_s(ls, xs[0], s0, lo, ts[0], j).len() && 0 <= b
                < grad_w_s(ls, xs[0], s0, lo, ts[0], j)[a].len() implies #[trigger] batch_sum_w_s(
            ls,
            xs,
            ts,
            s0,
            lo,
            i,
        )[j][a][b] == i * grad_w_s(ls, xs[0], s0, lo, ts[0], j)[a][b] by {
            let g = grad_w_s(ls, xs[0], s0, lo, ts[0], j)[a][b];
            assert(prev_w[j][a][b] == (i - 1) * g);
            assert(batch_sum_w_s(ls, xs, ts, s0, lo, i)[j][a][b] == fx_add_s(
                prev_w[j][a][b],
                g,
            ));
            assert((i - 1) * g + g == i * g) by (nonlinear_arith);
            assert(i64::MIN <= i * g <= i64::MAX) by (nonlinear_arith)
                requires
                    1 <= i <= n,
                    i64::MIN <= n * g <= i64::MAX,
                    i64::MIN <= g <= i64::MAX,
            ;
        }
        assert forall|j: int, a: int|
            0 <= j < ls.len() && 0 <= a < grad_b_s(ls, xs[0], s0, lo, ts[0], j).len() implies
            #[trigger] batch_sum_b_s(ls, xs, ts, s0, lo, i)[j][a] == i * grad_b_s(
            ls,
            xs[0],
            s0,
            lo,
            ts[0],
            j,
        )[a] by {
            let g = grad_b_s(ls, xs[0], s0, lo, ts[0], j)[a];
            assert(prev_b[j][a] == (i - 1) * g);
            assert(batch_sum_b_s(ls, xs, ts, s0, lo, i)[j][a] == fx_add_s(prev_b[j][a], g));
            assert((i - 1) * g + g == i * g) by (nonlinear_arith);
            assert(i64::MIN <= i * g <= i64::MAX) by (nonlinear_arith)
                requires
                    1 <= i <= n,
                    i64::MIN <= n * g <= i64::MAX,
                    i64::MIN <= g <= i64::MAX,
            ;
        }
    }
}

/// An exact multiple divides back to its base value.
proof fn lemma_multiple_div(g: i64, n: int)
    requires
        1 <= n <= i64::MAX,
        i64::MIN <= n * g <= i64::MAX,
    ensures
        fx_div_int_s(sat(n * g) as i64, n as i64) == g,
{
    assert(sat(n * g) == n * g);
    assert((n as i64) as int == n);
    if g >= 0 {
        vstd::arithmetic::div_mod::lemma_div_multiples_vanish(g as int, n);
        assert(tdiv(n * g, n) == g);
    } else {
        vstd::arithmetic::div_mod::lemma_div_multiples_vanish(-(g as int), n);
        assert(-(n * g) == n * (-(g as int))) by (nonlinear_arith);
        assert(n * g < 0) by (nonlinear_arith)
            requires
                n >= 1,
                g < 0,
        ;
        assert(tdiv(n * g, n) == g);
    }
}

/// Batch averaging: on a dropout-free network, the averaged
/// gradients of a batch of identical examples equal the gradients of
/// that single example, provided the intermediate sums stay within
/// the scalar range (summing `n` identical gradients and dividing by
/// `n` reproduces the value exactly).
pub proof fn lemma_batch_of_identical_examples(
    ls: Seq<Layer>,
    xs: Seq<Seq<i64>>,
    ts: Seq<Seq<i64>>,
    s0: u64,
    lo: Loss,
)
    requires
        all_dense_s(ls),
        1 <= xs.len() <= 0x7fff_ffff_ffff_ffff,
        ts.len() == xs.len(),
        forall|k: int| 0 <= k < xs.len() ==> #[trigger] xs[k] == xs[0],
        forall|k: int| 0 <= k < ts.len() ==> #[trigger] ts[k] == ts[0],
        forall|j: int, a: int, b: int|
            0 <= j < ls.len() && 0 <= a < grad_w_s(ls, xs[0], s0, lo, ts[0], j).len() && 0 <= b
                < grad_w_s(ls, xs[0], s0, lo, ts[0], j)[a].len() ==> i64::MIN <= xs.len() * (
            #[trigger] grad_w_s(ls, xs[0], s0, lo, ts[0], j)[a][b]) <= i64::MAX,
        forall|j: int, a: int|
            0 <= j < ls.len() && 0 <= a < grad_b_s(ls, xs[0], s0, lo, ts[0], j).len()
                ==> i64::MIN <= xs.len() * (#[trigger] grad_b_s(ls, xs[0], s0, lo, ts[0], j)[a])
                <= i64::MAX,
    ensures
        forall|j: int|
            0 <= j < ls.len() ==> #[trigger] batch_avg_w_s(ls, xs, ts, s0, lo)[j] == grad_w_s(
                ls,
                xs[0],
                s0,
                lo,
                ts[0],
                j,
            ),
        forall|j: int|
            0 <= j < ls.len() ==> #[trigger] batch_avg_b_s(ls, xs, ts, s0, lo)[j] == grad_b_s(
                ls,
                xs[0],
                s0,
                lo,
                ts[0],
                j,
            ),
{
    let n = xs.len();
    lemma_identical_batch_sum(ls, xs, ts, s0, lo, n);
    assert forall|j: int| 0 <= j < ls.len() implies #[trigger] batch_avg_w_s(
        ls,
        xs,
        ts,
        s0,
        lo,
    )[j] == grad_w_s(ls, xs[0], s0, lo, ts[0], j) by {
        let g = grad_w_s(ls, xs[0], s0, lo, ts[0], j);
        let summed = batch_sum_w_s(ls, xs, ts, s0, lo, n)[j];
        assert forall|a: int, b: int| 0 <= a < g.len() && 0 <= b < g[a].len() implies
            #[trigger] batch_avg_w_s(ls, xs, ts, s0, lo)[j][a][b] == g[a][b] by {
            assert(summed[a][b] == n * g[a][b]);
            assert(sat(n * g[a][b]) == n * g[a][b]);
            lemma_multiple_div(g[a][b], n as int);
            assert(fx_div_int_s(summed[a][b], n as i64) == g[a][b]);
        }
        assert(batch_avg_w_s(ls, xs, ts, s0, lo)[j] =~~= g);
    }
    assert forall|j: int| 0 <= j < ls.len() implies #[trigger] batch_avg_b_s(
        ls,
        xs,
        ts,
        s0,
        lo,
    )[j] == grad_b_s(ls, xs[0], s0, lo, ts[0], j) by {
        let g = grad_b_s(ls, xs[0], s0, lo, ts[0], j);
        let summed = batch_sum_b_s(ls, xs, ts, s0, lo, n)[j];
        assert forall|a: int| 0 <= a < g.len() implies #[trigger] batch_avg_b_s(
            ls,
            xs,
            ts,
            s0,
            lo,
        )[j][a] == g[a] by {
            assert(summed[a] == n * g[a]);
            lemma_multiple_div(g[a], n as int);
            assert(fx_div_int_s(summed[a], n as i64) == g[a]);
        }
        assert(batch_avg_b_s(ls, xs, ts, s0, lo)[j] =~= g);
    }
}

} // verus!
