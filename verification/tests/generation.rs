//! Seeded parameter generation: the draw sequence is a pure function of
//! the seed, so fixed seeds must reproduce fixed bit patterns, and drawn
//! networks must have exactly the shape their topology dictates.

use neural_network::network::{LayerTopology, Network};
use neural_network::neuron::Neuron;
use neural_network::rng::SplitMix64;

fn topology(widths: &[usize]) -> Vec<LayerTopology> {
    widths.iter().map(|w| LayerTopology { neurons: *w }).collect()
}

#[test]
fn splitmix_scalar_sequence_is_fixed() {
    // The first four draws of seed 42, computed by hand from the documented
    // algorithm: SplitMix64 words, top 25 bits k, binary32 of (k - 2^24)/2^24.
    let mut rng = SplitMix64::new(42);
    let drawn: Vec<u32> = (0..4).map(|_| rng.next_scalar()).collect();
    assert_eq!(drawn, vec![0x3ef7_5cc8, 0xbf2e_203a, 0xbee2_b664, 0xbe9f_8c7a]);
}

#[test]
fn draws_lie_in_the_closed_unit_interval() {
    let mut rng = SplitMix64::new(123);
    for _ in 0..1000 {
        let v = f32::from_bits(rng.next_scalar());
        assert!(-1.0 <= v && v <= 1.0);
    }
}

#[test]
fn neuron_draws_bias_first_then_weights_in_order() {
    let mut rng = SplitMix64::new(42);
    let n = Neuron::random(&mut rng, 2);
    assert_eq!(n.bias, 0x3ef7_5cc8);
    assert_eq!(n.weights, vec![0xbf2e_203a, 0xbee2_b664]);
}

#[test]
fn same_seed_builds_bit_identical_networks() {
    let t = topology(&[3, 2, 2]);
    let mut r1 = SplitMix64::new(9);
    let mut r2 = SplitMix64::new(9);
    let a = Network::random(&t, &mut r1);
    let b = Network::random(&t, &mut r2);
    assert_eq!(a.layers.len(), b.layers.len());
    for (la, lb) in a.layers.iter().zip(b.layers.iter()) {
        assert_eq!(la.neurons.len(), lb.neurons.len());
        for (na, nb) in la.neurons.iter().zip(lb.neurons.iter()) {
            assert_eq!(na.bias, nb.bias);
            assert_eq!(na.weights, nb.weights);
        }
    }
}

#[test]
fn different_seeds_build_different_parameters() {
    let t = topology(&[3, 2, 2]);
    let mut r1 = SplitMix64::new(1);
    let mut r2 = SplitMix64::new(2);
    let a = Network::random(&t, &mut r1);
    let b = Network::random(&t, &mut r2);
    assert_ne!(a.layers[0].neurons[0].bias, b.layers[0].neurons[0].bias);
}

#[test]
fn topology_four_three_one_builds_expected_shape() {
    let t = topology(&[4, 3, 1]);
    let mut rng = SplitMix64::new(42);
    let net = Network::random(&t, &mut rng);
    assert_eq!(net.layers.len(), 2);
    assert_eq!(net.layers[0].neurons.len(), 3);
    for n in net.layers[0].neurons.iter() {
        assert_eq!(n.weights.len(), 4);
    }
    assert_eq!(net.layers[1].neurons.len(), 1);
    assert_eq!(net.layers[1].neurons[0].weights.len(), 3);
    // The very first neuron holds draws 0..=4 of the seed.
    assert_eq!(net.layers[0].neurons[0].bias, 0x3ef7_5cc8);
    assert_eq!(
        net.layers[0].neurons[0].weights,
        vec![0xbf2e_203a, 0xbee2_b664, 0xbe9f_8c7a, 0xbf6c_8750]
    );
    // Any 4-wide input propagates to a 1-wide output.
    let out = net.propagate(vec![1.0f32.to_bits(); 4]);
    assert_eq!(out.len(), 1);
}

#[test]
fn propagation_preserves_topology_shape() {
    let t = topology(&[2, 5, 4, 3]);
    let mut rng = SplitMix64::new(1);
    let net = Network::random(&t, &mut rng);
    let out = net.propagate(vec![0.5f32.to_bits(), (-0.5f32).to_bits()]);
    assert_eq!(out.len(), 3);
}

#[test]
fn seeded_forward_pass_reproduces_exact_bits() {
    // Seed 5, topology [4, 3, 1], input [1.0, -2.0, 0.5, -0.25]: the whole
    // pipeline — draws, dot products, ReLU — reproduces this bit pattern.
    let t = topology(&[4, 3, 1]);
    let mut rng = SplitMix64::new(5);
    let net = Network::random(&t, &mut rng);
    let inputs: Vec<u32> =
        [1.0f32, -2.0, 0.5, -0.25].iter().map(|x| x.to_bits()).collect();
    let out = net.propagate(inputs);
    assert_eq!(out, vec![0x3fc8_3b70]);
    assert!((f32::from_bits(out[0]) - 1.5643139).abs() < 1e-6);
}
