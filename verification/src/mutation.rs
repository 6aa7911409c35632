//! Mutation: how a brain is varied from one generation to the next.
//!
//! A mutation is made in two steps. First the trials are drawn: for every
//! weight whether it is toggled, perturbed or kept, and for every neuron
//! whether its activation function is replaced. Then the draws are applied
//! to the brain. Applying is a function of the brain and the draws alone,
//! so everything about it is proved; drawing is where chance comes in, and
//! of it only what holds of every outcome is stated.
use vstd::prelude::*;
use crate::brain::{layer_model, Brain, BrainModel};
use crate::chance::{bernoulli, pick};
use crate::neuron::{Function, Neuron, NeuronModel};
use crate::scalar::Scalar;

verus! {

/// One in this many trials toggles a connection, at full strength.
pub const CONNECT_ODDS: u32 = 10;

/// One in this many trials replaces an activation function, at full
/// strength.
pub const ACTIVATION_ODDS: u32 = 4;

/// The largest denominator that a strength can have.
pub const MAX_DENOMINATOR: u32 = 429_496_729;

/// How strongly to mutate: a ratio between zero and one by which every
/// rate of change is scaled.
#[derive(Clone, Copy, Debug, PartialEq, Eq)]
pub struct Strength {
    numerator: u32,
    denominator: u32,
}

impl Strength {
    #[verifier::type_invariant]
    closed spec fn in_range(self) -> bool {
        Self::valid(self.numerator, self.denominator)
    }

    /// Which ratios are strengths: those between zero and one whose
    /// denominator is small enough to be scaled by the odds.
    pub open spec fn valid(numerator: u32, denominator: u32) -> bool {
        0 < denominator <= MAX_DENOMINATOR && numerator <= denominator
    }

    pub closed spec fn numerator(self) -> u32 {
        self.numerator
    }

    pub closed spec fn denominator(self) -> u32 {
        self.denominator
    }

    /// At strength zero nothing ever changes.
    pub open spec fn is_zero(self) -> bool {
        self.numerator() == 0
    }

    /// At strength one every weight changes.
    pub open spec fn is_full(self) -> bool {
        self.numerator() == self.denominator()
    }

    /// The strength `numerator / denominator`, if that is one.
    pub fn new(numerator: u32, denominator: u32) -> (strength: Option<Strength>)
        ensures
            strength.is_some() <==> Self::valid(numerator, denominator),
            strength matches Some(s) ==> s.numerator() == numerator && s.denominator()
                == denominator,
    {
        if 0 < denominator && denominator <= MAX_DENOMINATOR && numerator <= denominator {
            Some(Strength::ratio(numerator, denominator))
        } else {
            None
        }
    }

    /// The strength `numerator / denominator`.
    pub(crate) fn ratio(numerator: u32, denominator: u32) -> (strength: Strength)
        requires
            Self::valid(numerator, denominator),
        ensures
            strength.numerator() == numerator,
            strength.denominator() == denominator,
    {
        Strength { numerator, denominator }
    }
}

/// What the trials drawn for one weight came to.
#[derive(Clone, Copy, Debug, PartialEq, Eq)]
pub enum WeightDraw {
    /// Neither trial succeeded: the weight stays.
    Keep,
    /// The connection is toggled: a weight that is there is cut, and one
    /// that is not becomes the value carried here.
    Toggle(Scalar),
    /// The weight is replaced by the value carried here, which is the
    /// weight moved by some noise.
    Perturb(Scalar),
}

/// The draws for one neuron: one for each of its weights, in order, and
/// the activation function to switch to, if any.
#[derive(Debug, PartialEq, Eq)]
pub struct NeuronDraws {
    pub weights: Vec<WeightDraw>,
    pub activation: Option<Function>,
}

pub struct NeuronDrawsModel {
    pub weights: Seq<WeightDraw>,
    pub activation: Option<Function>,
}

impl View for NeuronDraws {
    type V = NeuronDrawsModel;

    open spec fn view(&self) -> NeuronDrawsModel {
        NeuronDrawsModel { weights: self.weights@, activation: self.activation }
    }
}

/// The draws for a whole brain: one set for each neuron of each layer, in
/// order.
#[derive(Debug, PartialEq, Eq)]
pub struct Draws {
    pub hidden_layer: Vec<NeuronDraws>,
    pub output_layer: Vec<NeuronDraws>,
}

pub struct DrawsModel {
    pub hidden_layer: Seq<NeuronDrawsModel>,
    pub output_layer: Seq<NeuronDrawsModel>,
}

/// The models of the draws of a layer, in order.
pub open spec fn layer_draws(draws: Seq<NeuronDraws>) -> Seq<NeuronDrawsModel> {
    draws.map_values(|d: NeuronDraws| d@)
}

impl View for Draws {
    type V = DrawsModel;

    open spec fn view(&self) -> DrawsModel {
        DrawsModel {
            hidden_layer: layer_draws(self.hidden_layer@),
            output_layer: layer_draws(self.output_layer@),
        }
    }
}

/// The weight after its draw is applied.
pub open spec fn mutated_weight(weight: Scalar, draw: WeightDraw) -> Scalar {
    match draw {
        WeightDraw::Keep => weight,
        WeightDraw::Toggle(fresh) => if weight.is_zero() {
            fresh
        } else {
            Scalar::zero()
        },
        WeightDraw::Perturb(moved) => moved,
    }
}

/// The neuron after its draws are applied. A weight for which there is no
/// draw stays, and a draw for which there is no weight is ignored: the
/// neuron keeps its width whatever the draws are.
pub open spec fn mutated_neuron(neuron: NeuronModel, draws: NeuronDrawsModel) -> NeuronModel {
    NeuronModel {
        weights: Seq::new(
            neuron.weights.len(),
            |j: int|
                if j < draws.weights.len() {
                    mutated_weight(neuron.weights[j], draws.weights[j])
                } else {
                    neuron.weights[j]
                },
        ),
        activation: match draws.activation {
            Some(function) => function,
            None => neuron.activation,
        },
    }
}

/// The layer after the draws are applied, neuron by neuron. A neuron for
/// which there are no draws stays as it is.
pub open spec fn mutated_layer(layer: Seq<NeuronModel>, draws: Seq<NeuronDrawsModel>) -> Seq<
    NeuronModel,
> {
    Seq::new(
        layer.len(),
        |i: int|
            if i < draws.len() {
                mutated_neuron(layer[i], draws[i])
            } else {
                layer[i]
            },
    )
}

/// The brain after the draws are applied to both of its layers.
pub open spec fn mutated(brain: BrainModel, draws: DrawsModel) -> BrainModel {
    BrainModel {
        hidden_layer: mutated_layer(brain.hidden_layer, draws.hidden_layer),
        output_layer: mutated_layer(brain.output_layer, draws.output_layer),
    }
}

/// Whether the draws leave everything as it is: every weight is kept and
/// no activation function is replaced.
pub open spec fn idle_layer(draws: Seq<NeuronDrawsModel>) -> bool {
    forall|i: int|
        0 <= i < draws.len() ==> {
            &&& (#[trigger] draws[i]).activation.is_none()
            &&& forall|j: int|
                0 <= j < draws[i].weights.len() ==> #[trigger] draws[i].weights[j]
                    == WeightDraw::Keep
        }
}

pub open spec fn idle(draws: DrawsModel) -> bool {
    idle_layer(draws.hidden_layer) && idle_layer(draws.output_layer)
}

/// Mutation never changes the shape of a brain: the layers keep their
/// neurons and the neurons keep their weight counts, so a brain that is
/// wired stays wired.
pub proof fn lemma_mutation_keeps_shape(brain: BrainModel, draws: DrawsModel)
    ensures
        brain.same_shape(mutated(brain, draws)),
        brain.wired() ==> mutated(brain, draws).wired(),
{
}

/// Draws that keep every weight and replace no activation function give
/// the brain back as it was.
pub proof fn lemma_idle_draws_change_nothing(brain: BrainModel, draws: DrawsModel)
    requires
        idle(draws),
    ensures
        mutated(brain, draws) == brain,
{
    lemma_idle_layer(brain.hidden_layer, draws.hidden_layer);
    lemma_idle_layer(brain.output_layer, draws.output_layer);
}

proof fn lemma_idle_layer(layer: Seq<NeuronModel>, draws: Seq<NeuronDrawsModel>)
    requires
        idle_layer(draws),
    ensures
        mutated_layer(layer, draws) == layer,
{
    assert forall|i: int| 0 <= i < layer.len() implies mutated_layer(layer, draws)[i]
        == layer[i] by {
        if i < draws.len() {
            assert(draws[i].activation.is_none());
            assert(mutated_neuron(layer[i], draws[i]).weights =~= layer[i].weights);
        }
    }
    assert(mutated_layer(layer, draws) =~= layer);
}

/// Toggling changes whether a weight is connected, whenever the value
/// offered for a new connection is not itself zero.
pub proof fn lemma_toggle_flips_connection(weight: Scalar, fresh: Scalar)
    requires
        !fresh.is_zero(),
    ensures
        mutated_weight(weight, WeightDraw::Toggle(fresh)).is_zero() == !weight.is_zero(),
{
    crate::scalar::lemma_zero_patterns(0);
}

/// Applies the draws to one neuron.
pub fn mutate_neuron(neuron: &Neuron, draws: &NeuronDraws) -> (result: Neuron)
    ensures
        result@ == mutated_neuron(neuron@, draws@),
{
    let mut weights: Vec<Scalar> = Vec::new();
    let mut j: usize = 0;
    while j < neuron.weights.len()
        invariant
            j <= neuron.weights.len(),
            weights@ == mutated_neuron(neuron@, draws@).weights.take(j as int),
        decreases neuron.weights.len() - j,
    {
        let weight = neuron.weights[j];
        let next = if j < draws.weights.len() {
            match draws.weights[j] {
                WeightDraw::Keep => weight,
                WeightDraw::Toggle(fresh) => if weight.is_zero() {
                    fresh
                } else {
                    Scalar::zero()
                },
                WeightDraw::Perturb(moved) => moved,
            }
        } else {
            weight
        };
        weights.push(next);
        assert(weights@ =~= mutated_neuron(neuron@, draws@).weights.take(j + 1));
        j += 1;
    }
    assert(weights@ =~= mutated_neuron(neuron@, draws@).weights);
    let activation = match draws.activation {
        Some(function) => function,
        None => neuron.activation,
    };
    Neuron { weights, activation }
}

/// Applies the draws to one layer.
pub fn mutate_layer(layer: &Vec<Neuron>, draws: &Vec<NeuronDraws>) -> (result: Vec<Neuron>)
    ensures
        layer_model(result@) == mutated_layer(layer_model(layer@), layer_draws(draws@)),
{
    let ghost goal = mutated_layer(layer_model(layer@), layer_draws(draws@));
    let mut result: Vec<Neuron> = Vec::new();
    let mut i: usize = 0;
    while i < layer.len()
        invariant
            i <= layer.len(),
            result.len() == i,
            goal == mutated_layer(layer_model(layer@), layer_draws(draws@)),
            layer_model(result@) == goal.take(i as int),
        decreases layer.len() - i,
    {
        let ghost before = result@;
        let neuron = if i < draws.len() {
            mutate_neuron(&layer[i], &draws[i])
        } else {
            layer[i].clone()
        };
        assert(neuron@ == goal[i as int]);
        result.push(neuron);
        assert forall|k: int| 0 <= k < i + 1 implies layer_model(result@)[k] == goal.take(
            i + 1,
        )[k] by {
            if k < i {
                assert(layer_model(before)[k] == goal.take(i as int)[k]);
            }
        }
        assert(layer_model(result@) =~= goal.take(i + 1));
        i += 1;
    }
    assert(goal.take(i as int) =~= goal);
    result
}

impl Brain {
    /// Applies the draws to the brain and returns what it becomes.
    ///
    /// For every weight: a toggle draw cuts the weight to zero if it is
    /// connected and sets it to the carried value if it is not; a perturb
    /// draw replaces it by the carried value; a keep draw leaves it. For
    /// every neuron: the activation function is replaced if the draws
    /// carry one.
    pub fn mutate_with(self, draws: &Draws) -> (result: Brain)
        ensures
            result@ == mutated(self@, draws@),
    {
        let hidden_layer = mutate_layer(self.hidden_layer(), &draws.hidden_layer);
        let output_layer = mutate_layer(self.output_layer(), &draws.output_layer);
        proof {
            lemma_mutation_keeps_shape(self@, draws@);
        }
        Brain::from_layers(hidden_layer, output_layer)
    }
}

/// Whether `displace` may be called on every weight.
pub open spec fn displaces_every_weight<F: Fn(Scalar) -> Scalar>(displace: F) -> bool {
    forall|weight: Scalar| #[trigger] call_requires(displace, (weight,))
}

/// Whether `draw` is something that the trials for one weight can come
/// to. A value that replaces the weight is one that `displace` returned
/// for it. At strength zero no trial succeeds, and at strength one the
/// trial to perturb always does.
pub open spec fn drawn_weight<F: Fn(Scalar) -> Scalar>(
    weight: Scalar,
    draw: WeightDraw,
    strength: Strength,
    displace: F,
) -> bool {
    match draw {
        WeightDraw::Keep => !strength.is_full(),
        WeightDraw::Toggle(fresh) => {
            &&& !strength.is_zero()
            &&& weight.is_zero() ==> call_ensures(displace, (weight,), fresh)
        },
        WeightDraw::Perturb(moved) => {
            &&& !strength.is_zero()
            &&& call_ensures(displace, (weight,), moved)
        },
    }
}

/// Whether `draws` is something that the trials for one neuron can come
/// to: one draw for each weight, and no new activation function at
/// strength zero.
pub open spec fn drawn_neuron<F: Fn(Scalar) -> Scalar>(
    neuron: NeuronModel,
    draws: NeuronDrawsModel,
    strength: Strength,
    displace: F,
) -> bool {
    &&& draws.weights.len() == neuron.weights.len()
    &&& forall|j: int|
        0 <= j < neuron.weights.len() ==> drawn_weight(
            neuron.weights[j],
            #[trigger] draws.weights[j],
            strength,
            displace,
        )
    &&& draws.activation.is_some() ==> !strength.is_zero()
}

pub open spec fn drawn_layer<F: Fn(Scalar) -> Scalar>(
    layer: Seq<NeuronModel>,
    draws: Seq<NeuronDrawsModel>,
    strength: Strength,
    displace: F,
) -> bool {
    &&& draws.len() == layer.len()
    &&& forall|i: int|
        0 <= i < layer.len() ==> drawn_neuron(layer[i], #[trigger] draws[i], strength, displace)
}

/// Whether `draws` is something that the trials for a whole brain can
/// come to.
pub open spec fn drawn<F: Fn(Scalar) -> Scalar>(
    brain: BrainModel,
    draws: DrawsModel,
    strength: Strength,
    displace: F,
) -> bool {
    &&& drawn_layer(brain.hidden_layer, draws.hidden_layer, strength, displace)
    &&& drawn_layer(brain.output_layer, draws.output_layer, strength, displace)
}

/// At strength zero every draw is idle.
pub proof fn lemma_zero_strength_draws_idle<F: Fn(Scalar) -> Scalar>(
    brain: BrainModel,
    draws: DrawsModel,
    strength: Strength,
    displace: F,
)
    requires
        drawn(brain, draws, strength, displace),
        strength.is_zero(),
    ensures
        idle(draws),
{
    lemma_zero_strength_layer(brain.hidden_layer, draws.hidden_layer, strength, displace);
    lemma_zero_strength_layer(brain.output_layer, draws.output_layer, strength, displace);
}

proof fn lemma_zero_strength_layer<F: Fn(Scalar) -> Scalar>(
    layer: Seq<NeuronModel>,
    draws: Seq<NeuronDrawsModel>,
    strength: Strength,
    displace: F,
)
    requires
        drawn_layer(layer, draws, strength, displace),
        strength.is_zero(),
    ensures
        idle_layer(draws),
{
    assert forall|i: int| 0 <= i < draws.len() implies {
        &&& (#[trigger] draws[i]).activation.is_none()
        &&& forall|j: int|
            0 <= j < draws[i].weights.len() ==> #[trigger] draws[i].weights[j] == WeightDraw::Keep
    } by {
        assert(drawn_neuron(layer[i], draws[i], strength, displace));
        assert forall|j: int| 0 <= j < draws[i].weights.len() implies #[trigger] draws[i].weights[j]
            == WeightDraw::Keep by {
            assert(drawn_weight(layer[i].weights[j], draws[i].weights[j], strength, displace));
        }
    }
}

/// The activation functions that a neuron can switch to: all of them.
pub fn activation_options() -> (options: Vec<Function>)
    ensures
        options@ == seq![
            Function::Linear,
            Function::Step01,
            Function::Gaussian,
            Function::ReLU,
            Function::Logistic,
        ],
{
    let mut options: Vec<Function> = Vec::new();
    options.push(Function::Linear);
    options.push(Function::Step01);
    options.push(Function::Gaussian);
    options.push(Function::ReLU);
    options.push(Function::Logistic);
    assert(options@ =~= seq![
        Function::Linear,
        Function::Step01,
        Function::Gaussian,
        Function::ReLU,
        Function::Logistic,
    ]);
    options
}

/// Draws the trials for one weight: first whether to toggle it, and only
/// if not, whether to perturb it.
fn draw_weight<F: Fn(Scalar) -> Scalar>(weight: Scalar, strength: Strength, displace: &F) -> (draw:
    WeightDraw)
    requires
        displaces_every_weight(*displace),
    ensures
        drawn_weight(weight, draw, strength, *displace),
{
    proof {
        use_type_invariant(&strength);
    }
    if bernoulli(strength.numerator, strength.denominator * CONNECT_ODDS) {
        if weight.is_zero() {
            WeightDraw::Toggle(displace(weight))
        } else {
            WeightDraw::Toggle(Scalar::zero())
        }
    } else if bernoulli(strength.numerator, strength.denominator) {
        WeightDraw::Perturb(displace(weight))
    } else {
        WeightDraw::Keep
    }
}

/// Draws the trials for one neuron: those of its weights in order, then
/// whether to replace its activation function, and by which.
fn draw_neuron<F: Fn(Scalar) -> Scalar>(
    neuron: &Neuron,
    strength: Strength,
    options: &Vec<Function>,
    displace: &F,
) -> (draws: NeuronDraws)
    requires
        displaces_every_weight(*displace),
        options.len() > 0,
    ensures
        drawn_neuron(neuron@, draws@, strength, *displace),
{
    proof {
        use_type_invariant(&strength);
    }
    let mut weights: Vec<WeightDraw> = Vec::new();
    let mut j: usize = 0;
    while j < neuron.weights.len()
        invariant
            j <= neuron.weights.len(),
            weights.len() == j,
            displaces_every_weight(*displace),
            forall|k: int|
                0 <= k < j ==> drawn_weight(
                    neuron.weights[k],
                    #[trigger] weights[k],
                    strength,
                    *displace,
                ),
        decreases neuron.weights.len() - j,
    {
        weights.push(draw_weight(neuron.weights[j], strength, displace));
        j += 1;
    }
    let activation = if bernoulli(strength.numerator, strength.denominator * ACTIVATION_ODDS) {
        Some(pick(options))
    } else {
        None
    };
    NeuronDraws { weights, activation }
}

/// Draws the trials for one layer, neuron by neuron.
fn draw_layer<F: Fn(Scalar) -> Scalar>(
    layer: &Vec<Neuron>,
    strength: Strength,
    options: &Vec<Function>,
    displace: &F,
) -> (draws: Vec<NeuronDraws>)
    requires
        displaces_every_weight(*displace),
        options.len() > 0,
    ensures
        drawn_layer(layer_model(layer@), layer_draws(draws@), strength, *displace),
{
    let mut draws: Vec<NeuronDraws> = Vec::new();
    let mut i: usize = 0;
    while i < layer.len()
        invariant
            i <= layer.len(),
            draws.len() == i,
            displaces_every_weight(*displace),
            options.len() > 0,
            forall|k: int|
                0 <= k < i ==> drawn_neuron(layer[k]@, #[trigger] draws[k]@, strength, *displace),
        decreases layer.len() - i,
    {
        draws.push(draw_neuron(&layer[i], strength, options, displace));
        i += 1;
    }
    assert forall|k: int| 0 <= k < layer.len() implies drawn_neuron(
        layer_model(layer@)[k],
        #[trigger] layer_draws(draws@)[k],
        strength,
        *displace,
    ) by {
        assert(drawn_neuron(layer[k]@, draws[k]@, strength, *displace));
    }
    draws
}

impl Brain {
    /// Draws the trials of one mutation of this brain, hidden layer
    /// first.
    ///
    /// Every weight is toggled with a chance of a tenth of the strength;
    /// a weight that is not toggled is perturbed with a chance of the
    /// strength itself; every neuron has its activation function replaced,
    /// by any one of them, with a chance of a quarter of the strength.
    /// `displace` is asked for the new value of each weight that is
    /// perturbed, and of each weight of zero that is toggled.
    pub fn draw<F: Fn(Scalar) -> Scalar>(&self, strength: Strength, displace: &F) -> (draws: Draws)
        requires
            displaces_every_weight(*displace),
        ensures
            drawn(self@, draws@, strength, *displace),
    {
        let options = activation_options();
        let hidden_layer = draw_layer(self.hidden_layer(), strength, &options, displace);
        let output_layer = draw_layer(self.output_layer(), strength, &options, displace);
        Draws { hidden_layer, output_layer }
    }

    /// Mutates the brain: draws the trials and applies them.
    ///
    /// What comes back is the brain after some draws that the trials can
    /// come to. It has the shape of the brain that went in, and at
    /// strength zero it is that brain.
    pub fn mutate<F: Fn(Scalar) -> Scalar>(self, strength: Strength, displace: F) -> (result: Brain)
        requires
            displaces_every_weight(displace),
        ensures
            exists|draws: DrawsModel|
                #[trigger] drawn(self@, draws, strength, displace) && result@ == mutated(
                    self@,
                    draws,
                ),
            self@.same_shape(result@),
            strength.is_zero() ==> result@ == self@,
    {
        let draws = self.draw(strength, &displace);
        proof {
            lemma_mutation_keeps_shape(self@, draws@);
            if strength.is_zero() {
                lemma_zero_strength_draws_idle(self@, draws@, strength, displace);
                lemma_idle_draws_change_nothing(self@, draws@);
            }
        }
        self.mutate_with(&draws)
    }
}

} // verus!
