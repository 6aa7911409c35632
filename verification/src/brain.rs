//! The brain: a hidden layer and an output layer of neurons, and the
//! forward pass through them.
use vstd::prelude::*;
use crate::neuron::{dumb, dumb_neuron, unconnected, unconnected_neuron, Neuron, NeuronModel};
use crate::scalar::Scalar;

verus! {

/// How many values the brain senses, the bias not counted.
pub const INPUT_COUNT: u8 = 2;

/// What the brain senses on one tick.
#[derive(Clone, Copy, Debug, PartialEq, Eq)]
pub struct Inputs {
    /// Bearing of the nearest hostile, relative to the heading, as a
    /// fraction of a half turn.
    pub mob_rel_angle: Scalar,
    /// Seconds survived so far.
    pub time_survived: Scalar,
}

/// What the brain decides on one tick.
#[derive(Clone, Copy, Debug, PartialEq, Eq)]
pub struct Outputs {
    pub walk: bool,
    /// Turn rate, relative to the walking direction.
    pub turn: Scalar,
    pub shoot: bool,
    /// Bearing to aim at, relative to the heading, as a fraction of a half
    /// turn.
    pub aim_rel_angle: Scalar,
}

/// What a brain is, mathematically: its two layers, each a sequence of
/// neurons in order.
pub struct BrainModel {
    pub hidden_layer: Seq<NeuronModel>,
    pub output_layer: Seq<NeuronModel>,
}

impl BrainModel {
    /// The wiring that the forward pass relies on: every hidden neuron has
    /// one weight for each input and one for the bias, and the single
    /// output neuron has one weight for each hidden neuron and one for
    /// the bias.
    pub open spec fn wired(self) -> bool {
        &&& forall|i: int|
            0 <= i < self.hidden_layer.len() ==> (#[trigger] self.hidden_layer[i]).weights.len()
                == INPUT_COUNT + 1
        &&& self.output_layer.len() == 1
        &&& self.output_layer[0].weights.len() == self.hidden_layer.len() + 1
    }

    /// Whether `other` has the layers of `self`, neuron for neuron and
    /// weight count for weight count.
    pub open spec fn same_shape(self, other: BrainModel) -> bool {
        &&& layers_same_shape(self.hidden_layer, other.hidden_layer)
        &&& layers_same_shape(self.output_layer, other.output_layer)
    }
}

pub open spec fn layers_same_shape(a: Seq<NeuronModel>, b: Seq<NeuronModel>) -> bool {
    &&& a.len() == b.len()
    &&& forall|i: int| 0 <= i < a.len() ==> (#[trigger] a[i]).weights.len() == b[i].weights.len()
}

/// The models of the neurons of a layer, in order.
pub open spec fn layer_model(layer: Seq<Neuron>) -> Seq<NeuronModel> {
    layer.map_values(|n: Neuron| n@)
}

/// The brain that knows nothing: the first hidden neuron and the output
/// neuron each hold one seeded connection, every other weight is zero.
pub open spec fn seed_brain(hidden_neurons: nat) -> BrainModel {
    BrainModel {
        hidden_layer: Seq::new(
            hidden_neurons,
            |i: int|
                if i == 0 {
                    dumb((INPUT_COUNT + 1) as nat)
                } else {
                    unconnected((INPUT_COUNT + 1) as nat)
                },
        ),
        output_layer: seq![dumb(hidden_neurons + 1)],
    }
}

/// Whether `feed` may be called on every neuron together with as many
/// inputs as the neuron has weights.
pub open spec fn feeds_every_match<F: Fn(&Neuron, &Vec<Scalar>) -> Scalar>(feed: F) -> bool {
    forall|n: Neuron, x: Vec<Scalar>|
        n.weights.len() == x.len() ==> #[trigger] call_requires(feed, (&n, &x))
}

/// Whether `out` is something that `feed` can return for a neuron with
/// the given weights and activation on the given inputs.
pub open spec fn fed<F: Fn(&Neuron, &Vec<Scalar>) -> Scalar>(
    feed: F,
    neuron: NeuronModel,
    inputs: Seq<Scalar>,
    out: Scalar,
) -> bool {
    exists|n: Neuron, x: Vec<Scalar>|
        n@ == neuron && x@ == inputs && #[trigger] call_ensures(feed, (&n, &x), out)
}

/// Whether `outputs` is what a fully connected layer can produce from
/// `inputs`: one value for each neuron, in the order of the neurons, each
/// fed the inputs followed by a bias of one.
pub open spec fn layer_outputs<F: Fn(&Neuron, &Vec<Scalar>) -> Scalar>(
    feed: F,
    layer: Seq<NeuronModel>,
    inputs: Seq<Scalar>,
    outputs: Seq<Scalar>,
) -> bool {
    &&& outputs.len() == layer.len()
    &&& forall|i: int|
        0 <= i < layer.len() ==> fed(feed, #[trigger] layer[i], inputs.push(Scalar::one()), outputs[i])
}

/// The values that the hidden layer is given, the bias not counted.
pub open spec fn sensed_values(inputs: Inputs) -> Seq<Scalar> {
    seq![inputs.mob_rel_angle, inputs.time_survived]
}

/// Whether `aim` is a bearing that the network can arrive at on `inputs`:
/// some values come out of the hidden layer when it is given the sensed
/// values, and `aim` alone comes out of the output layer when it is given
/// those.
pub open spec fn aims<F: Fn(&Neuron, &Vec<Scalar>) -> Scalar>(
    feed: F,
    brain: BrainModel,
    inputs: Inputs,
    aim: Scalar,
) -> bool {
    exists|hidden: Seq<Scalar>|
        {
            &&& #[trigger] layer_outputs(feed, brain.hidden_layer, sensed_values(inputs), hidden)
            &&& layer_outputs(feed, brain.output_layer, hidden, seq![aim])
        }
}

/// Whether `feed` is a function of what it is given: fed neurons with the
/// same weights and activation, and the same inputs, it returns the same
/// value.
pub open spec fn feeds_as_function<F: Fn(&Neuron, &Vec<Scalar>) -> Scalar>(feed: F) -> bool {
    forall|n1: Neuron, x1: Vec<Scalar>, out1: Scalar, n2: Neuron, x2: Vec<Scalar>, out2: Scalar|
        #![trigger call_ensures(feed, (&n1, &x1), out1), call_ensures(feed, (&n2, &x2), out2)]
        n1@ == n2@ && x1@ == x2@ && call_ensures(feed, (&n1, &x1), out1) && call_ensures(
            feed,
            (&n2, &x2),
            out2,
        ) ==> out1 == out2
}

/// With a `feed` that is a function, a layer is one too: the same neurons
/// on the same inputs give the same outputs.
pub proof fn lemma_layer_is_a_function<F: Fn(&Neuron, &Vec<Scalar>) -> Scalar>(
    feed: F,
    layer: Seq<NeuronModel>,
    inputs: Seq<Scalar>,
    first: Seq<Scalar>,
    second: Seq<Scalar>,
)
    requires
        feeds_as_function(feed),
        layer_outputs(feed, layer, inputs, first),
        layer_outputs(feed, layer, inputs, second),
    ensures
        first == second,
{
    assert forall|i: int| 0 <= i < layer.len() implies first[i] == second[i] by {
        assert(fed(feed, layer[i], inputs.push(Scalar::one()), first[i]));
        assert(fed(feed, layer[i], inputs.push(Scalar::one()), second[i]));
    }
    assert(first =~= second);
}

/// With a `feed` that is a function, the whole network is one too: the
/// network keeps no state and draws nothing, so the same brain on the same
/// inputs always aims the same way.
pub proof fn lemma_network_is_a_function<F: Fn(&Neuron, &Vec<Scalar>) -> Scalar>(
    feed: F,
    brain: BrainModel,
    inputs: Inputs,
    first: Scalar,
    second: Scalar,
)
    requires
        feeds_as_function(feed),
        aims(feed, brain, inputs, first),
        aims(feed, brain, inputs, second),
    ensures
        first == second,
{
    let hidden1 = choose|hidden: Seq<Scalar>|
        {
            &&& #[trigger] layer_outputs(feed, brain.hidden_layer, sensed_values(inputs), hidden)
            &&& layer_outputs(feed, brain.output_layer, hidden, seq![first])
        };
    let hidden2 = choose|hidden: Seq<Scalar>|
        {
            &&& #[trigger] layer_outputs(feed, brain.hidden_layer, sensed_values(inputs), hidden)
            &&& layer_outputs(feed, brain.output_layer, hidden, seq![second])
        };
    lemma_layer_is_a_function(feed, brain.hidden_layer, sensed_values(inputs), hidden1, hidden2);
    lemma_layer_is_a_function(feed, brain.output_layer, hidden1, seq![first], seq![second]);
    assert(seq![first][0] == seq![second][0]);
}

/// Processes a fully connected layer: appends the bias to the inputs once
/// and feeds every neuron the result.
pub fn process_layer<F: Fn(&Neuron, &Vec<Scalar>) -> Scalar>(
    neurons: &Vec<Neuron>,
    inputs: Vec<Scalar>,
    feed: &F,
) -> (outputs: Vec<Scalar>)
    requires
        forall|i: int|
            0 <= i < neurons.len() ==> (#[trigger] neurons[i]).weights.len() == inputs.len() + 1,
        feeds_every_match(*feed),
    ensures
        layer_outputs(*feed, layer_model(neurons@), inputs@, outputs@),
{
    let ghost bare = inputs@;
    let mut inputs = inputs;
    inputs.push(Scalar::one());
    let mut outputs: Vec<Scalar> = Vec::new();
    let mut i: usize = 0;
    while i < neurons.len()
        invariant
            i <= neurons.len(),
            inputs@ == bare.push(Scalar::one()),
            forall|k: int|
                0 <= k < neurons.len() ==> (#[trigger] neurons[k]).weights.len() == inputs.len(),
            feeds_every_match(*feed),
            layer_outputs(*feed, layer_model(neurons@.take(i as int)), bare, outputs@),
        decreases neurons.len() - i,
    {
        let out = feed(&neurons[i], &inputs);
        proof {
            let before = layer_model(neurons@.take(i as int));
            let after = layer_model(neurons@.take(i + 1));
            assert(after =~= before.push(neurons[i as int]@));
            assert(fed(*feed, neurons[i as int]@, bare.push(Scalar::one()), out));
        }
        outputs.push(out);
        i += 1;
    }
    assert(neurons@.take(i as int) =~= neurons@);
    outputs
}

/// Copies a layer, neuron by neuron.
fn clone_layer(layer: &Vec<Neuron>) -> (copy: Vec<Neuron>)
    ensures
        layer_model(copy@) == layer_model(layer@),
{
    let mut copy: Vec<Neuron> = Vec::new();
    let mut i: usize = 0;
    while i < layer.len()
        invariant
            i <= layer.len(),
            copy.len() == i,
            layer_model(copy@) == layer_model(layer@.take(i as int)),
        decreases layer.len() - i,
    {
        let ghost before = copy@;
        copy.push(layer[i].clone());
        assert forall|k: int| 0 <= k < i + 1 implies layer_model(copy@)[k] == layer_model(
            layer@.take(i + 1),
        )[k] by {
            if k < i {
                assert(layer_model(before)[k] == layer_model(layer@.take(i as int))[k]);
            }
        }
        assert(layer_model(copy@) =~= layer_model(layer@.take(i + 1)));
        i += 1;
    }
    assert(layer@.take(i as int) =~= layer@);
    copy
}

/// A decision policy: a hidden layer of neurons and an output layer of a
/// single neuron that steers the aim.
///
/// Every brain is wired as [`BrainModel::wired`] says. Its layers cannot
/// be touched from outside, so no brain ever stops being so.
#[derive(Debug, PartialEq, Eq)]
pub struct Brain {
    hidden_layer: Vec<Neuron>,
    output_layer: Vec<Neuron>,
}

impl View for Brain {
    type V = BrainModel;

    closed spec fn view(&self) -> BrainModel {
        BrainModel {
            hidden_layer: layer_model(self.hidden_layer@),
            output_layer: layer_model(self.output_layer@),
        }
    }
}

impl Clone for Brain {
    /// An independent copy: nothing done to it reaches the brain it was
    /// made from.
    fn clone(&self) -> (copy: Self)
        ensures
            copy@ == self@,
    {
        proof {
            use_type_invariant(self);
        }
        Brain {
            hidden_layer: clone_layer(&self.hidden_layer),
            output_layer: clone_layer(&self.output_layer),
        }
    }
}

impl Brain {
    #[verifier::type_invariant]
    closed spec fn well_wired(&self) -> bool {
        self@.wired()
    }

    /// Builds the seed brain with the given number of hidden neurons: one
    /// path from the first input to the output is connected, by the seed
    /// weight, and nothing else is.
    pub fn new_dumb(hidden_neurons: u8) -> (brain: Brain)
        requires
            1 <= hidden_neurons < 255,
        ensures
            brain@ == seed_brain(hidden_neurons as nat),
            brain@.wired(),
    {
        let mut hidden_layer: Vec<Neuron> = Vec::new();
        // Seed the layer with at least one connection.
        hidden_layer.push(dumb_neuron(INPUT_COUNT + 1));
        let mut i: u8 = 1;
        while i < hidden_neurons
            invariant
                1 <= i <= hidden_neurons,
                hidden_layer.len() == i,
                layer_model(hidden_layer@) == seed_brain(i as nat).hidden_layer,
            decreases hidden_neurons - i,
        {
            let ghost before = hidden_layer@;
            hidden_layer.push(unconnected_neuron(INPUT_COUNT + 1));
            assert forall|k: int| 0 <= k < i + 1 implies layer_model(hidden_layer@)[k]
                == seed_brain((i + 1) as nat).hidden_layer[k] by {
                if k < i {
                    assert(layer_model(before)[k] == seed_brain(i as nat).hidden_layer[k]);
                }
            }
            i += 1;
            assert(layer_model(hidden_layer@) =~= seed_brain(i as nat).hidden_layer);
        }
        let mut output_layer: Vec<Neuron> = Vec::new();
        output_layer.push(dumb_neuron(hidden_neurons + 1));
        assert(layer_model(output_layer@) =~= seed_brain(hidden_neurons as nat).output_layer);
        Brain { hidden_layer, output_layer }
    }

    /// Puts a brain together from its two layers.
    pub(crate) fn from_layers(hidden_layer: Vec<Neuron>, output_layer: Vec<Neuron>) -> (brain:
        Brain)
        requires
            (BrainModel {
                hidden_layer: layer_model(hidden_layer@),
                output_layer: layer_model(output_layer@),
            }).wired(),
        ensures
            brain@.hidden_layer == layer_model(hidden_layer@),
            brain@.output_layer == layer_model(output_layer@),
    {
        Brain { hidden_layer, output_layer }
    }

    /// The hidden neurons, in order.
    pub fn hidden_layer(&self) -> (layer: &Vec<Neuron>)
        ensures
            layer_model(layer@) == self@.hidden_layer,
            self@.wired(),
    {
        proof {
            use_type_invariant(self);
        }
        &self.hidden_layer
    }

    /// The output neurons, in order: there is exactly one.
    pub fn output_layer(&self) -> (layer: &Vec<Neuron>)
        ensures
            layer_model(layer@) == self@.output_layer,
            self@.wired(),
    {
        proof {
            use_type_invariant(self);
        }
        &self.output_layer
    }

    /// Runs the network on one tick's inputs: the two sensed values go
    /// through the hidden layer, what comes out goes through the output
    /// layer, and the one value that this produces is the bearing to aim
    /// at. The brain never walks or turns and always shoots.
    ///
    /// The weighted sum and the activation of a single neuron are the
    /// caller's `feed`. It is only ever called on a neuron together with
    /// exactly as many inputs as the neuron has weights.
    pub fn process<F: Fn(&Neuron, &Vec<Scalar>) -> Scalar>(&self, inputs: Inputs, feed: F) -> (outputs:
        Outputs)
        requires
            feeds_every_match(feed),
        ensures
            !outputs.walk,
            outputs.shoot,
            outputs.turn == Scalar::zero(),
            aims(feed, self@, inputs, outputs.aim_rel_angle),
    {
        proof {
            use_type_invariant(self);
        }
        let mut sensed: Vec<Scalar> = Vec::new();
        sensed.push(inputs.mob_rel_angle);
        sensed.push(inputs.time_survived);
        assert(sensed@ =~= sensed_values(inputs));
        assert forall|i: int| 0 <= i < self.hidden_layer.len() implies (
        #[trigger] self.hidden_layer[i]).weights.len() == sensed.len() + 1 by {
            assert(self@.hidden_layer[i] == self.hidden_layer[i]@);
        }
        let hidden = process_layer(&self.hidden_layer, sensed, &feed);
        assert(self@.output_layer[0] == self.output_layer[0]@);
        let outputs = process_layer(&self.output_layer, hidden, &feed);
        assert(outputs@ =~= seq![outputs[0]]);
        Outputs { walk: false, turn: Scalar::zero(), shoot: true, aim_rel_angle: outputs[0] }
    }
}

} // verus!
