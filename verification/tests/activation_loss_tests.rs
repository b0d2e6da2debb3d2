use neuron::activations::{
    leaky_relu, linear, relu, sigmoid, softmax, softmax_activation, softplus, tanh, Activation,
    LEAK_FX,
};
use neuron::fixed::SCALE;
use neuron::losses::{cce, mse, sse, Loss};
use neuron::transcend::{fx_sigmoid, LN2_FX};

fn fx(x: f64) -> i64 {
    (x * SCALE as f64).round() as i64
}

#[test]
fn test_constructors() {
    assert_eq!(linear(), Activation::Linear);
    assert_eq!(relu(), Activation::ReLU);
    assert_eq!(leaky_relu(), Activation::LeakyReLU);
    assert_eq!(sigmoid(), Activation::Sigmoid);
    assert_eq!(softmax(), Activation::Softmax);
    assert_eq!(softplus(), Activation::Softplus);
    assert_eq!(tanh(), Activation::Tanh);
    assert_eq!(sse(), Loss::SumSquared);
    assert_eq!(mse(), Loss::MeanSquared);
    assert_eq!(cce(), Loss::CategoricalCrossEntropy);
}

#[test]
fn test_relu_activation_values() {
    let a = relu();
    let out = a.activate(&vec![fx(-5.0), 0, fx(2.5)]);
    assert_eq!(out, vec![0, 0, fx(2.5)]);
    let d = a.derive(&vec![fx(-5.0), fx(2.5)]);
    assert_eq!(d, vec![0, SCALE]);
}

#[test]
fn test_leaky_relu_activation_values() {
    let a = leaky_relu();
    let out = a.activate(&vec![fx(-1.0), fx(2.0)]);
    assert_eq!(out, vec![-LEAK_FX, fx(2.0)]);
    let d = a.derive(&vec![fx(-1.0), fx(2.0)]);
    assert_eq!(d, vec![LEAK_FX, SCALE]);
}

#[test]
fn test_linear_activation_values() {
    let a = linear();
    let out = a.activate(&vec![fx(-1.25), fx(0.5)]);
    assert_eq!(out, vec![fx(-1.25), fx(0.5)]);
    assert_eq!(a.derive(&vec![fx(7.0)]), vec![SCALE]);
}

#[test]
fn test_sigmoid_activation_matches_scalar() {
    let a = sigmoid();
    let out = a.activate(&vec![0, fx(1.0)]);
    assert_eq!(out, vec![fx_sigmoid(0), fx_sigmoid(fx(1.0))]);
    // derivative at 0 is 0.25
    let d = a.derive(&vec![0]);
    assert_eq!(d, vec![fx(0.25)]);
}

#[test]
fn test_softmax_stability_on_large_equal_inputs() {
    // softmax of [1000, 1000, 1000] must stay finite and sum to one
    let big = fx(1000.0);
    let out = softmax_activation(&vec![big, big, big]);
    assert_eq!(out, vec![333_333, 333_333, 333_333]);
    let total: i64 = out.iter().sum();
    assert!((total - SCALE).abs() <= 3, "softmax sum = {}", total);
}

#[test]
fn test_softmax_sums_to_one() {
    let out = softmax_activation(&vec![0, fx(1.0), fx(-2.0)]);
    let total: i64 = out.iter().sum();
    assert!(SCALE - 3 <= total && total <= SCALE, "softmax sum = {}", total);
    // larger input gets larger probability
    assert!(out[1] > out[0] && out[0] > out[2]);
}

#[test]
fn test_sse_loss_values() {
    let l = sse();
    // p = [1, -1], t = [0, 1]: losses (p - t)^2 = [1, 4]
    let loss = l.loss(&vec![fx(1.0), fx(-1.0)], &vec![0, fx(1.0)]);
    assert_eq!(loss, vec![fx(1.0), fx(4.0)]);
    let d = l.derivative(&vec![fx(1.0), fx(-1.0)], &vec![0, fx(1.0)]);
    assert_eq!(d, vec![fx(2.0), fx(-4.0)]);
}

#[test]
fn test_mse_loss_values() {
    let l = mse();
    let loss = l.loss(&vec![fx(1.0), fx(-1.0)], &vec![0, fx(1.0)]);
    assert_eq!(loss, vec![fx(0.5), fx(2.0)]);
    let d = l.derivative(&vec![fx(1.0), fx(-1.0)], &vec![0, fx(1.0)]);
    assert_eq!(d, vec![fx(0.5), fx(-1.0)]);
}

#[test]
fn test_cce_loss_values() {
    let l = cce();
    // softmax([0, 0]) = [0.5, 0.5]; -ln(0.5) = ln 2
    let loss = l.loss(&vec![0, 0], &vec![SCALE, 0]);
    assert_eq!(loss, vec![LN2_FX, 0]);
    let d = l.derivative(&vec![0, 0], &vec![SCALE, 0]);
    assert_eq!(d, vec![fx(0.5) - SCALE, fx(0.5)]);
}
