//! Neurons: a row of weights and an activation function.
use vstd::prelude::*;
use crate::scalar::Scalar;

verus! {

/// The nonlinear function that a neuron applies to its weighted sum.
#[derive(Clone, Copy, Debug, PartialEq, Eq, Structural)]
pub enum Function {
    Linear,
    Step01,
    Gaussian,
    ReLU,
    Logistic,
}

/// What a neuron is, mathematically: its weights in order, the last one
/// belonging to the bias input, and its activation function.
pub struct NeuronModel {
    pub weights: Seq<Scalar>,
    pub activation: Function,
}

/// One weighted-sum unit. A weight that is zero stands for a connection
/// that is not there; any other weight for one that is.
#[derive(Debug, PartialEq, Eq)]
pub struct Neuron {
    pub weights: Vec<Scalar>,
    pub activation: Function,
}

impl View for Neuron {
    type V = NeuronModel;

    open spec fn view(&self) -> NeuronModel {
        NeuronModel { weights: self.weights@, activation: self.activation }
    }
}

impl Clone for Neuron {
    fn clone(&self) -> (copy: Self)
        ensures
            copy@ == self@,
    {
        let mut weights: Vec<Scalar> = Vec::new();
        let mut i: usize = 0;
        while i < self.weights.len()
            invariant
                i <= self.weights.len(),
                weights@ == self.weights@.take(i as int),
            decreases self.weights.len() - i,
        {
            weights.push(self.weights[i]);
            assert(weights@ =~= self.weights@.take(i + 1));
            i += 1;
        }
        assert(weights@ =~= self.weights@);
        Neuron { weights, activation: self.activation }
    }
}

/// A neuron of the given width with no connection at all.
pub open spec fn unconnected(width: nat) -> NeuronModel {
    NeuronModel {
        weights: Seq::new(width, |i: int| Scalar::spec_zero()),
        activation: Function::Linear,
    }
}

/// A neuron of the given width whose only connection is a seeded first
/// weight.
pub open spec fn dumb(width: nat) -> NeuronModel
    recommends
        width >= 1,
{
    NeuronModel {
        weights: unconnected(width).weights.update(0, Scalar::spec_seed()),
        activation: Function::Linear,
    }
}

/// Builds a linear neuron with `synapse_count` weights, all of them zero.
pub fn unconnected_neuron(synapse_count: u8) -> (neuron: Neuron)
    ensures
        neuron@ == unconnected(synapse_count as nat),
{
    let mut weights: Vec<Scalar> = Vec::new();
    let mut i: u8 = 0;
    while i < synapse_count
        invariant
            i <= synapse_count,
            weights@ == unconnected(i as nat).weights,
        decreases synapse_count - i,
    {
        weights.push(Scalar::zero());
        i += 1;
        assert(weights@ =~= unconnected(i as nat).weights);
    }
    Neuron { weights, activation: Function::Linear }
}

/// Builds a neuron that does as little as possible while staying
/// connected: its first weight is the seed weight, the others are zero.
pub fn dumb_neuron(synapse_count: u8) -> (neuron: Neuron)
    requires
        synapse_count >= 1,
    ensures
        neuron@ == dumb(synapse_count as nat),
{
    let mut neuron = unconnected_neuron(synapse_count);
    neuron.weights.set(0, Scalar::seed());
    neuron
}

} // verus!
