use neuron::activations::{linear, relu, sigmoid};
use neuron::fixed::SCALE;
use neuron::layer::Layer;
use neuron::network::Network;
use neuron::rng::Rng;
use neuron::transfers::dense;

fn fx(x: f64) -> i64 {
    (x * SCALE as f64).round() as i64
}

fn small_network(seed: u64) -> Network {
    let mut rng = Rng::new(seed);
    let l1 = Layer::new(3, 2, dense(), relu(), &mut rng);
    let l2 = Layer::new(4, 3, dense(), sigmoid(), &mut rng);
    let l3 = Layer::new(1, 4, dense(), linear(), &mut rng);
    Network::new(vec![l1, l2, l3])
}

#[test]
fn test_network_predict() {
    let network = small_network(21);
    let output = network.predict(&vec![fx(0.0), fx(1.0)]);
    assert_eq!(output.len(), 1);
}

#[test]
fn test_network_is_cloneable() {
    let network1 = small_network(22);
    let network2 = network1.clone();
    let input = vec![fx(0.0), fx(1.0)];
    let output1 = network1.predict(&input);
    let output2 = network2.predict(&input);
    assert_eq!(output1, output2, "cloned networks returns different outputs");
}

#[test]
fn test_network_len_and_shape() {
    let network = small_network(23);
    assert_eq!(network.len(), 3);
    assert_eq!(network.shape(), vec![2, 3, 4, 1]);
}

#[test]
fn test_network_accessors() {
    let network = small_network(24);
    let weights = network.get_weights();
    let biases = network.get_biases();
    assert_eq!(weights.len(), 3);
    assert_eq!(biases.len(), 3);
    assert_eq!(weights[0].len(), 3);
    assert_eq!(weights[0][0].len(), 2);
    assert_eq!(biases[2].len(), 1);
    assert_eq!(network.get_layers().len(), 3);
}

#[test]
fn test_predict_cached_matches_predict_without_dropout() {
    // determinism: on a dropout-free network the cached pass returns
    // the same vector as the plain prediction, and fills every cache
    let mut network = small_network(25);
    let input = vec![fx(0.25), fx(-0.75)];
    let plain = network.predict(&input);
    let mut rng = Rng::new(1);
    let cached = network.predict_cached(&input, &mut rng);
    assert_eq!(plain, cached);
    assert_eq!(rng.state, 1, "dense transfers must not draw from the generator");
    for layer in network.get_layers() {
        assert!(layer.get_input().is_some());
        assert!(layer.get_transfer().is_some());
        assert!(layer.get_activation().is_some());
    }
    // a second cached pass on the same input reproduces the result
    let cached2 = network.predict_cached(&input, &mut rng);
    assert_eq!(cached, cached2);
}
