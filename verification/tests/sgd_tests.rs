use neuron::activations::{leaky_relu, linear, relu, sigmoid, softplus};
use neuron::fixed::{fx_mul, fx_sub, SCALE};
use neuron::layer::Layer;
use neuron::losses::{mse, sse, TWO_FX};
use neuron::network::Network;
use neuron::rng::Rng;
use neuron::sgd::SGD;
use neuron::transfers::dense;

fn fx(x: f64) -> i64 {
    (x * SCALE as f64).round() as i64
}

fn single_linear_layer(weights: Vec<Vec<i64>>, biases: Vec<i64>) -> Network {
    let mut rng = Rng::new(1);
    let outputs = biases.len();
    let inputs = weights[0].len();
    let mut layer = Layer::new(outputs, inputs, dense(), linear(), &mut rng);
    *layer.get_weights_mut() = weights;
    *layer.get_biases_mut() = biases;
    Network::new(vec![layer])
}

#[test]
fn test_gradient_matches_closed_form() {
    // a single dense layer with identity activation and SSE loss:
    // dW = 2(Wx + b - t) xt and db = 2(Wx + b - t)
    let w = vec![vec![fx(0.5), fx(-0.25)], vec![fx(1.0), fx(0.75)]];
    let b = vec![fx(0.1), fx(-0.2)];
    let x = vec![fx(0.4), fx(0.8)];
    let t = vec![fx(1.0), fx(0.0)];
    let mut network = single_linear_layer(w.clone(), b.clone());

    let optimizer = SGD::new(fx(0.1), sse());
    let mut rng = Rng::new(3);
    let (w_grads, b_grads) = optimizer.get_gradients(&mut network, &x, &t, &mut rng);

    // closed form, computed with the same fixed-point primitives
    let mut expected_db: Vec<i64> = Vec::new();
    for j in 0..2 {
        let mut p = b[j];
        for k in 0..2 {
            p = p + fx_mul(w[j][k], x[k]);
        }
        expected_db.push(fx_mul(TWO_FX, fx_sub(p, t[j])));
    }
    let mut expected_dw: Vec<Vec<i64>> = Vec::new();
    for j in 0..2 {
        let mut row = Vec::new();
        for k in 0..2 {
            row.push(fx_mul(expected_db[j], x[k]));
        }
        expected_dw.push(row);
    }
    assert_eq!(b_grads, vec![expected_db.clone()]);
    assert_eq!(w_grads, vec![expected_dw.clone()]);
}

#[test]
fn test_batch_of_identical_pairs_matches_single_gradient() {
    // averaging n identical gradients reproduces the single gradient
    let w = vec![vec![fx(0.3), fx(0.6)], vec![fx(-0.4), fx(0.2)]];
    let b = vec![fx(0.05), fx(-0.05)];
    let x = vec![fx(0.7), fx(-0.3)];
    let t = vec![fx(0.2), fx(0.9)];

    let optimizer = SGD::new(fx(0.1), sse());

    let mut network1 = single_linear_layer(w.clone(), b.clone());
    let mut rng1 = Rng::new(4);
    let (w_single, b_single) = optimizer.get_gradients(&mut network1, &x, &t, &mut rng1);

    let mut network2 = single_linear_layer(w.clone(), b.clone());
    let mut rng2 = Rng::new(4);
    let batch_x = vec![x.clone(), x.clone(), x.clone()];
    let batch_t = vec![t.clone(), t.clone(), t.clone()];
    let (w_batch, b_batch) = optimizer.get_batch_gradients(
        &mut network2,
        &batch_x,
        &batch_t,
        &mut rng2,
    );
    assert_eq!(w_batch, w_single);
    assert_eq!(b_batch, b_single);
}

#[test]
fn test_empty_batch_is_a_no_op() {
    let w = vec![vec![fx(0.3)]];
    let b = vec![fx(0.1)];
    let mut network = single_linear_layer(w.clone(), b.clone());
    let optimizer = SGD::new(fx(0.5), sse());
    let mut rng = Rng::new(9);
    optimizer.optimize_batch(&mut network, &vec![], &vec![], &mut rng);
    assert_eq!(network.get_weights(), vec![w]);
    assert_eq!(network.get_biases(), vec![b]);
    assert_eq!(rng.state, 9);
}

#[test]
fn test_optimize_once_applies_scaled_gradient() {
    let w = vec![vec![SCALE]];
    let b = vec![0];
    let x = vec![SCALE];
    let t = vec![0];
    // prediction is 1.0, SSE derivative is 2.0, input is 1.0:
    // dW = db = 2.0, and with lr = 0.25 both parameters drop by 0.5
    let mut network = single_linear_layer(w, b);
    let optimizer = SGD::new(fx(0.25), sse());
    let mut rng = Rng::new(2);
    optimizer.optimize_once(&mut network, &x, &t, &mut rng);
    assert_eq!(network.get_weights(), vec![vec![vec![fx(0.5)]]]);
    assert_eq!(network.get_biases(), vec![vec![fx(-0.5)]]);
}

#[test]
fn test_sgd_optimize_batch_sin_convergence() {
    let mut rng = Rng::new(2021);
    let network_layers = vec![
        Layer::new(3, 1, dense(), sigmoid(), &mut rng),
        Layer::new(1, 3, dense(), sigmoid(), &mut rng),
    ];
    let mut network = Network::new(network_layers);

    let mut batch_inputs: Vec<Vec<i64>> = Vec::new();
    let mut batch_expected: Vec<Vec<i64>> = Vec::new();
    for i in 0..100 {
        let x = 0.1 + 0.8 * (i as f64) / 99.0;
        batch_inputs.push(vec![fx(x)]);
        batch_expected.push(vec![fx(x.sin())]);
    }

    let optimizer = SGD::new(fx(5.0), sse());
    for _ in 0..1_000 {
        optimizer.optimize_batch(&mut network, &batch_inputs, &batch_expected, &mut rng);
    }

    let mut total_cost: i64 = 0;
    for (input, expected) in batch_inputs.iter().zip(batch_expected.iter()) {
        let prediction = network.predict(input);
        let cost: i64 = optimizer.get_loss().loss(&prediction, expected).iter().sum();
        total_cost += cost / 100;
    }
    assert!(
        total_cost <= fx(0.001),
        "optimizer failed to converge (cost: {}>0.001)",
        total_cost
    );
}

#[test]
fn test_sgd_optimize_once_convergence() {
    let mut rng = Rng::new(7);
    let layers = vec![
        Layer::new(3, 2, dense(), softplus(), &mut rng),
        Layer::new(4, 3, dense(), relu(), &mut rng),
        Layer::new(5, 4, dense(), sigmoid(), &mut rng),
        Layer::new(6, 5, dense(), leaky_relu(), &mut rng),
    ];
    let mut network = Network::new(layers);
    let optimizer = SGD::new(fx(0.1), mse());

    let input = vec![fx(1.0), fx(0.0)];
    let expected = vec![fx(0.0), fx(0.2), fx(0.4), fx(0.6), fx(0.8), fx(1.0)];
    for _ in 0..2_000 {
        optimizer.optimize_once(&mut network, &input, &expected, &mut rng);
    }

    let prediction = network.predict(&input);
    let cost: i64 = optimizer.get_loss().loss(&prediction, &expected).iter().sum();
    assert!(
        cost < fx(0.0001),
        "optimizer failed to converge (cost: {}>=0.0001)",
        cost
    );
}
