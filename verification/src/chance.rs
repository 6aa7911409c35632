//! The random draws that mutation and breeding are built on.
//!
//! Nothing here is proved: each function hands one question to the `rand`
//! crate and states what holds of every answer it can give. All of them
//! draw from `rand::thread_rng`, which gives up only where the operating
//! system cannot seed it.
use vstd::prelude::*;
use rand::distributions::{Bernoulli, Distribution, WeightedIndex};
use rand::seq::IteratorRandom;
use crate::neuron::Function;

verus! {

/// The sum of a sequence of weights.
pub open spec fn total(weights: Seq<u64>) -> nat
    decreases weights.len(),
{
    if weights.len() == 0 {
        0
    } else {
        total(weights.drop_last()) + weights.last() as nat
    }
}

/// One Bernoulli trial with a `numerator`-in-`denominator` chance of
/// success, made with `rand::distributions::Bernoulli::from_ratio` and
/// sampled from `rand::thread_rng`.
///
/// Believed of `rand`: a ratio with `numerator <= denominator` and a
/// denominator other than zero is accepted; a chance of zero never
/// succeeds and a chance of one always does.
#[verifier::external_body]
pub(crate) fn bernoulli(numerator: u32, denominator: u32) -> (hit: bool)
    requires
        numerator <= denominator,
        denominator > 0,
    ensures
        numerator == 0 ==> !hit,
        numerator == denominator ==> hit,
{
    Bernoulli::from_ratio(numerator, denominator).unwrap().sample(&mut rand::thread_rng())
}

/// An index drawn with a chance proportional to its weight, made with
/// `rand::distributions::WeightedIndex::new` and sampled from
/// `rand::thread_rng`.
///
/// Believed of `rand`: weights whose sum is positive and does not
/// overflow are accepted; the index points into the weights, and never
/// at a weight of zero.
#[verifier::external_body]
pub(crate) fn weighted_index(weights: &Vec<u64>) -> (index: usize)
    requires
        0 < total(weights@) <= u64::MAX,
    ensures
        index < weights.len(),
        weights[index as int] > 0,
{
    WeightedIndex::new(weights).unwrap().sample(&mut rand::thread_rng())
}

/// One of the given activation functions, drawn with
/// `rand::seq::IteratorRandom::choose` from `rand::thread_rng`.
///
/// Believed of `rand`: from a list that is not empty, an item of the list
/// comes back.
#[verifier::external_body]
pub(crate) fn pick(options: &Vec<Function>) -> (picked: Function)
    requires
        options.len() > 0,
    ensures
        options@.contains(picked),
{
    *options.iter().choose(&mut rand::thread_rng()).unwrap()
}

} // verus!
