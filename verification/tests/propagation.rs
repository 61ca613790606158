//! Forward-pass behaviour: single neurons, layers, and whole networks.
//! Scalars cross the API as binary32 bit patterns, so the tests build them
//! with `f32::to_bits` and read them back with `f32::from_bits`.

use neural_network::layer::Layer;
use neural_network::network::Network;
use neural_network::neuron::Neuron;
use neural_network::scalar::relu;

fn bits_of(xs: &[f32]) -> Vec<u32> {
    xs.iter().map(|x| x.to_bits()).collect()
}

fn neuron(bias: f32, weights: &[f32]) -> Neuron {
    Neuron { bias: bias.to_bits(), weights: bits_of(weights) }
}

#[test]
fn neuron_computes_weighted_sum_plus_bias() {
    let n = neuron(0.5, &[-0.3, 0.8]);
    let out = n.propagate(&bits_of(&[0.5, 1.0]));
    // Same accumulation order as the library: left to right from +0.0.
    let expected: f32 = ((0.0f32 + 0.5 * (-0.3)) + 1.0 * 0.8) + 0.5;
    assert_eq!(out, expected.to_bits());
    assert!((f32::from_bits(out) - 1.15).abs() < 1e-6);
}

#[test]
fn neuron_clamps_negative_sum_to_zero() {
    let n = neuron(0.5, &[-0.3, 0.8]);
    let out = n.propagate(&bits_of(&[-10.0, -10.0]));
    assert_eq!(out, 0);
    assert_eq!(f32::from_bits(out), 0.0);
}

#[test]
fn relu_passes_nonnegative_and_clamps_negative() {
    assert_eq!(relu(1.5f32.to_bits()), 1.5f32.to_bits());
    assert_eq!(relu(0.0f32.to_bits()), 0.0f32.to_bits());
    assert_eq!(relu((-2.0f32).to_bits()), 0);
    // A negative zero comes out as plain +0.0.
    assert_eq!(relu((-0.0f32).to_bits()), 0);
}

#[test]
fn neuron_output_is_never_negative() {
    let n = neuron(-0.75, &[0.25, -0.5, 1.0]);
    for input in [[1.0f32, 2.0, -3.0], [-1.0, 0.0, 0.5], [10.0, 10.0, -30.0]] {
        let out = n.propagate(&bits_of(&input));
        assert!(f32::from_bits(out) >= 0.0);
    }
}

#[test]
fn layer_maps_each_neuron_in_order() {
    let a = neuron(0.1, &[1.0, 0.0]);
    let b = neuron(-0.2, &[0.0, 1.0]);
    let layer = Layer {
        neurons: vec![neuron(0.1, &[1.0, 0.0]), neuron(-0.2, &[0.0, 1.0])],
    };
    let inputs = bits_of(&[0.25, 0.5]);
    let out = layer.propagate(inputs.clone());
    assert_eq!(out.len(), 2);
    assert_eq!(out[0], a.propagate(&inputs));
    assert_eq!(out[1], b.propagate(&inputs));
}

#[test]
fn network_propagation_is_fold_of_layer_propagation() {
    let first = Layer {
        neurons: vec![
            neuron(0.1, &[0.4, -0.6]),
            neuron(-0.3, &[0.9, 0.2]),
            neuron(0.0, &[-1.0, 1.0]),
        ],
    };
    let second = Layer { neurons: vec![neuron(0.25, &[0.5, -0.5, 1.5])] };
    let net = Network {
        layers: vec![
            Layer {
                neurons: vec![
                    neuron(0.1, &[0.4, -0.6]),
                    neuron(-0.3, &[0.9, 0.2]),
                    neuron(0.0, &[-1.0, 1.0]),
                ],
            },
            Layer { neurons: vec![neuron(0.25, &[0.5, -0.5, 1.5])] },
        ],
    };
    let inputs = bits_of(&[0.7, -0.1]);
    let through_network = net.propagate(inputs.clone());
    let through_layers = second.propagate(first.propagate(inputs));
    assert_eq!(through_network, through_layers);
}
