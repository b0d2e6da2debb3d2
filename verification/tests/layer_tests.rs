use neuron::activations::{linear, relu};
use neuron::fixed::SCALE;
use neuron::layer::{Layer, INIT_RADIUS};
use neuron::rng::Rng;
use neuron::transfers::{dense, dropout, Transfer};

fn fx(x: f64) -> i64 {
    (x * SCALE as f64).round() as i64
}

#[test]
fn test_layer() {
    let mut rng = Rng::new(7);
    let layer = Layer::new(3, 2, dense(), linear(), &mut rng);
    let output = layer.forward(&vec![fx(1.0), fx(0.0)]);
    assert_eq!(output.len(), 3);
}

#[test]
fn test_sizes() {
    let mut rng = Rng::new(7);
    let layer = Layer::new(3, 2, dense(), linear(), &mut rng);
    assert_eq!(layer.input_size(), 2);
    assert_eq!(layer.output_size(), 3);
}

#[test]
fn layer_test_relu_layer() {
    let mut rng = Rng::new(11);
    let layer = Layer::new(3, 2, dense(), relu(), &mut rng);
    let output = layer.forward(&vec![fx(1.0), fx(0.0)]);
    assert_eq!(output.len(), 3);
}

#[test]
fn layer_size_test() {
    let mut rng = Rng::new(11);
    let layer = Layer::new(3, 2, dense(), relu(), &mut rng);
    assert_eq!(layer.input_size(), 2);
    assert_eq!(layer.output_size(), 3);
}

#[test]
fn neuron_layer_test_relu_layer() {
    let mut rng = Rng::new(13);
    let layer = Layer::new(3, 2, dense(), relu(), &mut rng);
    let output = layer.forward(&vec![fx(1.0), fx(0.0)]);
    assert_eq!(output.len(), 3);
}

#[test]
fn neuron_layer_size_test() {
    let mut rng = Rng::new(13);
    let layer = Layer::new(3, 2, dense(), relu(), &mut rng);
    assert_eq!(layer.input_size(), 2);
    assert_eq!(layer.output_size(), 3);
}

#[test]
fn test_initialization_is_small_and_seeded() {
    let mut rng1 = Rng::new(99);
    let l1 = Layer::new(4, 3, dense(), linear(), &mut rng1);
    for row in l1.get_weights() {
        for &w in row {
            assert!(-INIT_RADIUS <= w && w <= INIT_RADIUS);
        }
    }
    for &b in l1.get_biases() {
        assert!(-INIT_RADIUS <= b && b <= INIT_RADIUS);
    }
    // the same seed reproduces the same parameters
    let mut rng2 = Rng::new(99);
    let l2 = Layer::new(4, 3, dense(), linear(), &mut rng2);
    assert_eq!(l1.get_weights(), l2.get_weights());
    assert_eq!(l1.get_biases(), l2.get_biases());
}

#[test]
fn test_forward_cached_fills_caches() {
    let mut rng = Rng::new(5);
    let mut layer = Layer::new(2, 2, dense(), linear(), &mut rng);
    assert!(layer.get_input().is_none());
    assert!(layer.get_transfer().is_none());
    assert!(layer.get_activation().is_none());
    let input = vec![fx(0.5), fx(-0.5)];
    let out = layer.forward_cached(&input, &mut rng);
    assert_eq!(layer.get_input().unwrap(), &input);
    assert_eq!(layer.get_activation().unwrap(), &out);
    assert!(layer.get_transfer().is_some());
}

#[test]
fn test_dropout_train_test_divergence() {
    // keep rate one half, fixed seed
    let t = dropout(fx(0.5));
    assert_eq!(t, Transfer::Dropout { keep: fx(0.5) });
    let weights = vec![vec![SCALE, SCALE, SCALE, SCALE, SCALE, SCALE, SCALE, SCALE]];
    let biases = vec![0];
    // distinct inputs, so different masks give different sums
    let inputs: Vec<i64> = (1..=8).map(|i| i * SCALE).collect();

    // inference mode is deterministic and scales weights by the keep
    // rate: the single output is (1 + 2 + ... + 8) * 0.5 = 18
    let o1 = t.transfer_test(&weights, &biases, &inputs);
    let o2 = t.transfer_test(&weights, &biases, &inputs);
    assert_eq!(o1, o2);
    assert_eq!(o1, vec![fx(18.0)]);

    // training mode draws a fresh Bernoulli mask per call
    let mut rng = Rng::new(2024);
    let a = t.transfer_train(&weights, &biases, &inputs, &mut rng);
    let b = t.transfer_train(&weights, &biases, &inputs, &mut rng);
    let c = t.transfer_train(&weights, &biases, &inputs, &mut rng);
    assert!(a != b || b != c, "masks never varied: {:?} {:?} {:?}", a, b, c);
    // every masked output sums whole kept inputs
    for o in [&a, &b, &c] {
        assert_eq!(o.len(), 1);
        assert!(o[0] % SCALE == 0 && 0 <= o[0] && o[0] <= fx(36.0));
    }
}
