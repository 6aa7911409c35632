use genepool::neuron::{dumb_neuron, unconnected_neuron, Function, Neuron};
use genepool::scalar::Scalar;

#[test]
fn unconnected_neuron_has_only_zero_weights() {
    let neuron = unconnected_neuron(4);
    assert_eq!(neuron.weights, vec![Scalar::zero(); 4]);
    assert_eq!(neuron.activation, Function::Linear);
}

#[test]
fn unconnected_neuron_of_no_width_is_empty() {
    let neuron = unconnected_neuron(0);
    assert!(neuron.weights.is_empty());
    assert_eq!(neuron.activation, Function::Linear);
}

#[test]
fn unconnected_neuron_of_full_width() {
    let neuron = unconnected_neuron(255);
    assert_eq!(neuron.weights.len(), 255);
    assert!(neuron.weights.iter().all(|w| w.is_zero()));
}

#[test]
fn dumb_neuron_is_seeded_at_its_first_weight() {
    let neuron = dumb_neuron(3);
    assert_eq!(neuron.weights, vec![Scalar::seed(), Scalar::zero(), Scalar::zero()]);
    assert_eq!(neuron.activation, Function::Linear);
    assert_eq!(f32::from_bits(neuron.weights[0].to_bits()), 0.01);
}

#[test]
fn dumb_neuron_of_width_one_is_the_seed_alone() {
    let neuron = dumb_neuron(1);
    assert_eq!(neuron.weights, vec![Scalar::seed()]);
}

#[test]
fn cloned_neuron_is_equal_and_independent() {
    let first = Neuron {
        weights: vec![Scalar::from_bits(7), Scalar::from_bits(9)],
        activation: Function::Gaussian,
    };
    let mut copy = first.clone();
    assert_eq!(copy, first);
    copy.weights[0] = Scalar::zero();
    copy.activation = Function::ReLU;
    assert_eq!(first.weights[0], Scalar::from_bits(7));
    assert_eq!(first.activation, Function::Gaussian);
}
