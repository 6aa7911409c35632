//! The gene pool: the genotypes that have lived, with how well they did,
//! and the rules by which they breed and are pruned.
use vstd::prelude::*;
use crate::brain::{Brain, BrainModel};
use crate::chance::{total, weighted_index};
use crate::mutation::{displaces_every_weight, drawn, mutated, DrawsModel, Strength};
use crate::scalar::Scalar;

verus! {

/// One individual's heritable decision policy.
pub type Genotype = Brain;

/// Hidden neurons of the genotype that a new pool starts from.
pub const SEED_HIDDEN_NEURONS: u8 = 3;

/// Fitness of the genotype that a new pool starts from: ten seconds. It is
/// high so that the first generation descends from the seed.
pub const SEED_FITNESS: u64 = 10_000;

/// Generation size of a new pool.
pub const EDEN_GENERATION_SIZE: usize = 3;

/// Every offspring is mutated at a strength of fifteen in a hundred.
pub const SPAWN_NUMERATOR: u32 = 15;

pub const SPAWN_DENOMINATOR: u32 = 100;

/// What a gene pool is, mathematically: its genotypes in the order in
/// which they arrived, oldest first, each with its fitness, and the size of
/// a generation.
pub struct PoolModel {
    pub genotypes: Seq<(BrainModel, u64)>,
    pub generation_size: nat,
}

/// The fitnesses of the entries, in order.
pub open spec fn fitnesses(entries: Seq<(BrainModel, u64)>) -> Seq<u64> {
    entries.map_values(|entry: (BrainModel, u64)| entry.1)
}

/// The sum of the fitnesses of the entries.
pub open spec fn total_fitness(entries: Seq<(BrainModel, u64)>) -> nat {
    total(fitnesses(entries))
}

/// Whether `fitness` is at least the mean fitness of the candidates. The
/// comparison is exact: both sides are multiplied by the number of
/// candidates instead of dividing the sum.
pub open spec fn at_least_average(fitness: u64, candidates: Seq<(BrainModel, u64)>) -> bool {
    fitness * candidates.len() >= total_fitness(candidates)
}

/// The test that the survivors of a cutover pass.
pub open spec fn survival_test(candidates: Seq<(BrainModel, u64)>) -> spec_fn(
    (BrainModel, u64),
) -> bool {
    |entry: (BrainModel, u64)| at_least_average(entry.1, candidates)
}

/// The candidates whose fitness is at least the mean of all candidates, in
/// the order in which they arrived.
pub open spec fn survivors(candidates: Seq<(BrainModel, u64)>) -> Seq<(BrainModel, u64)> {
    candidates.filter(survival_test(candidates))
}

/// The two most recent candidates, the most recent first.
pub open spec fn latest_two(candidates: Seq<(BrainModel, u64)>) -> Seq<(BrainModel, u64)>
    recommends
        candidates.len() >= 2,
{
    seq![candidates[candidates.len() - 1], candidates[candidates.len() - 2]]
}

/// The pool after a generational cutover. The oldest entry has had its
/// go and is dropped; of the others, those at or above their mean fitness
/// become the new generation and set its size. If fewer than two would be
/// left, the two most recent take their place and the generation size
/// stays.
pub open spec fn cut_over(pool: PoolModel) -> PoolModel {
    let candidates = pool.genotypes.skip(1);
    if survivors(candidates).len() < 2 {
        PoolModel { genotypes: latest_two(candidates), generation_size: pool.generation_size }
    } else {
        PoolModel {
            genotypes: survivors(candidates),
            generation_size: survivors(candidates).len(),
        }
    }
}

/// The pool after a genotype with its fitness is preserved in it: the
/// entry is appended, and if the pool then holds more than two
/// generations, it is cut over.
pub open spec fn preserved(pool: PoolModel, genotype: BrainModel, fitness: u64) -> PoolModel {
    let grown = PoolModel {
        genotypes: pool.genotypes.push((genotype, fitness)),
        generation_size: pool.generation_size,
    };
    if grown.genotypes.len() > 2 * grown.generation_size {
        cut_over(grown)
    } else {
        grown
    }
}

/// The pool that everything starts from: the seed genotype alone.
pub open spec fn eden() -> PoolModel {
    PoolModel {
        genotypes: seq![(crate::brain::seed_brain(SEED_HIDDEN_NEURONS as nat), SEED_FITNESS)],
        generation_size: EDEN_GENERATION_SIZE as nat,
    }
}

/// Whether `child` can be bred from `parent`: it is the parent after some
/// draws that the trials of a mutation at spawning strength can come to.
pub open spec fn bred<F: Fn(Scalar) -> Scalar>(
    parent: BrainModel,
    child: BrainModel,
    displace: F,
) -> bool {
    exists|draws: DrawsModel, strength: Strength|
        {
            &&& strength.numerator() == SPAWN_NUMERATOR
            &&& strength.denominator() == SPAWN_DENOMINATOR
            &&& #[trigger] drawn(parent, draws, strength, displace)
            &&& child == mutated(parent, draws)
        }
}

impl PoolModel {
    /// Whether the pool can breed: some genotype has a fitness above
    /// zero, and the sum of all of them can be counted.
    pub open spec fn breeds(self) -> bool {
        0 < total_fitness(self.genotypes) <= u64::MAX
    }

    /// Whether `child` can be spawned from the pool: it can be bred from
    /// one of the genotypes whose fitness is above zero.
    pub open spec fn spawns<F: Fn(Scalar) -> Scalar>(self, child: BrainModel, displace: F) -> bool {
        exists|index: int|
            {
                &&& 0 <= index < self.genotypes.len()
                &&& (#[trigger] self.genotypes[index]).1 > 0
                &&& bred(self.genotypes[index].0, child, displace)
            }
    }

    /// Whether the pool holds at least one genotype and at most two
    /// generations of them.
    pub open spec fn settled(self) -> bool {
        1 <= self.genotypes.len() <= 2 * self.generation_size
    }
}

/// From a pool of one genotype, every offspring descends from that one.
pub proof fn lemma_sole_genotype_is_the_parent<F: Fn(Scalar) -> Scalar>(
    pool: PoolModel,
    child: BrainModel,
    displace: F,
)
    requires
        pool.genotypes.len() == 1,
        pool.spawns(child, displace),
    ensures
        bred(pool.genotypes[0].0, child, displace),
{
}

/// Every offspring has the shape of a genotype of the pool: breeding
/// never adds or removes a neuron or a weight.
pub proof fn lemma_offspring_keeps_shape<F: Fn(Scalar) -> Scalar>(
    pool: PoolModel,
    child: BrainModel,
    displace: F,
)
    requires
        pool.spawns(child, displace),
    ensures
        exists|index: int|
            0 <= index < pool.genotypes.len() && (#[trigger] pool.genotypes[index]).0.same_shape(
                child,
            ),
{
    let index = choose|index: int|
        {
            &&& 0 <= index < pool.genotypes.len()
            &&& (#[trigger] pool.genotypes[index]).1 > 0
            &&& bred(pool.genotypes[index].0, child, displace)
        };
    let parent = pool.genotypes[index].0;
    let (draws, strength) = choose|draws: DrawsModel, strength: Strength|
        {
            &&& strength.numerator() == SPAWN_NUMERATOR
            &&& strength.denominator() == SPAWN_DENOMINATOR
            &&& #[trigger] drawn(parent, draws, strength, displace)
            &&& child == mutated(parent, draws)
        };
    crate::mutation::lemma_mutation_keeps_shape(parent, draws);
}

/// Preserving keeps a pool in bounds: it never empties the pool, never
/// lets it hold more than two generations, and never brings the
/// generation size to zero.
pub proof fn lemma_preserve_keeps_bounds(pool: PoolModel, genotype: BrainModel, fitness: u64)
    requires
        pool.generation_size >= 1,
        pool.genotypes.len() <= 2 * pool.generation_size,
    ensures
        preserved(pool, genotype, fitness).settled(),
        preserved(pool, genotype, fitness).generation_size >= 1,
{
    let grown = pool.genotypes.push((genotype, fitness));
    let candidates = grown.skip(1);
    candidates.lemma_filter_len(survival_test(candidates));
}

/// The models of the entries of a pool, in order.
pub open spec fn entries_model(entries: Seq<(Brain, u64)>) -> Seq<(BrainModel, u64)> {
    entries.map_values(|entry: (Brain, u64)| (entry.0@, entry.1))
}

/// The sum of a sequence with one more weight at its end.
pub proof fn lemma_total_push(weights: Seq<u64>, weight: u64)
    ensures
        total(weights.push(weight)) == total(weights) + weight,
{
    assert(weights.push(weight).drop_last() =~= weights);
}

/// No sum is larger than if every weight were the largest there is.
pub proof fn lemma_total_bound(weights: Seq<u64>)
    ensures
        total(weights) <= weights.len() * u64::MAX,
    decreases weights.len(),
{
    if weights.len() > 0 {
        lemma_total_bound(weights.drop_last());
        assert((weights.len() - 1) * u64::MAX + u64::MAX == weights.len() * u64::MAX)
            by (nonlinear_arith);
    }
}

/// Adds up the fitnesses of the entries from index `from` on.
fn sum_fitness(entries: &Vec<(Genotype, u64)>, from: usize) -> (sum: u128)
    requires
        from <= entries.len(),
    ensures
        sum == total_fitness(entries_model(entries@).skip(from as int)),
{
    let ghost all = entries_model(entries@);
    let mut sum: u128 = 0;
    let mut i: usize = from;
    while i < entries.len()
        invariant
            from <= i <= entries.len(),
            all == entries_model(entries@),
            sum == total_fitness(all.subrange(from as int, i as int)),
        decreases entries.len() - i,
    {
        proof {
            let seen = fitnesses(all.subrange(from as int, i as int));
            let next = fitnesses(all.subrange(from as int, i + 1));
            assert(next =~= seen.push(entries[i as int].1));
            lemma_total_push(seen, entries[i as int].1);
            lemma_total_bound(seen);
            assert(seen.len() * u64::MAX + u64::MAX <= u128::MAX) by (nonlinear_arith)
                requires
                    seen.len() <= usize::MAX,
            ;
        }
        sum = sum + entries[i].1 as u128;
        i += 1;
    }
    assert(all.subrange(from as int, i as int) =~= all.skip(from as int));
    sum
}

/// Copies the candidates of a cutover that are at or above the mean
/// fitness, which is `sum` over their number. The candidates are all
/// entries but the first.
fn select_survivors(entries: &Vec<(Genotype, u64)>, sum: u128) -> (kept: Vec<(Genotype, u64)>)
    requires
        entries.len() >= 1,
        sum == total_fitness(entries_model(entries@).skip(1)),
    ensures
        entries_model(kept@) == survivors(entries_model(entries@).skip(1)),
{
    let ghost candidates = entries_model(entries@).skip(1);
    let ghost test = survival_test(candidates);
    let count: usize = entries.len() - 1;
    let mut kept: Vec<(Genotype, u64)> = Vec::new();
    let mut i: usize = 1;
    while i < entries.len()
        invariant
            1 <= i <= entries.len(),
            count == entries.len() - 1,
            candidates == entries_model(entries@).skip(1),
            test == survival_test(candidates),
            sum == total_fitness(candidates),
            entries_model(kept@) == candidates.take(i - 1).filter(test),
        decreases entries.len() - i,
    {
        let fitness = entries[i].1;
        proof {
            assert(fitness * count <= u128::MAX) by (nonlinear_arith)
                requires
                    fitness <= u64::MAX,
                    count <= usize::MAX,
            ;
            assert(candidates.take(i as int) =~= candidates.take(i - 1).push(candidates[i - 1]));
            candidates.take(i - 1).lemma_filter_push(candidates[i - 1], test);
            assert(candidates[i - 1] == (entries[i as int].0@, fitness));
        }
        if fitness as u128 * count as u128 >= sum {
            let ghost before = kept@;
            kept.push((entries[i].0.clone(), fitness));
            assert(entries_model(kept@) =~= entries_model(before).push(candidates[i - 1]));
        }
        i += 1;
    }
    assert(candidates.take(i - 1) =~= candidates);
    kept
}

/// The genotypes that have lived so far, oldest first, each with the
/// fitness it reached, in milliseconds survived.
///
/// The generation size is never zero, and the pool never holds more than
/// two generations.
#[derive(Debug)]
pub struct GenePool {
    genotypes: Vec<(Genotype, u64)>,
    generation_size: usize,
}

impl View for GenePool {
    type V = PoolModel;

    closed spec fn view(&self) -> PoolModel {
        PoolModel {
            genotypes: entries_model(self.genotypes@),
            generation_size: self.generation_size as nat,
        }
    }
}

impl GenePool {
    #[verifier::type_invariant]
    closed spec fn in_bounds(&self) -> bool {
        &&& self.generation_size >= 1
        &&& self.genotypes.len() <= 2 * self.generation_size
    }

    /// The pool that holds the seed genotype alone, at a high fitness, and
    /// has a generation size of three.
    pub fn new_eden() -> (pool: GenePool)
        ensures
            pool@ == eden(),
    {
        let mut genotypes: Vec<(Genotype, u64)> = Vec::new();
        genotypes.push((Brain::new_dumb(SEED_HIDDEN_NEURONS), SEED_FITNESS));
        assert(entries_model(genotypes@) =~= eden().genotypes);
        GenePool { genotypes, generation_size: EDEN_GENERATION_SIZE }
    }

    /// A pool that holds nothing yet, if the generation size is one that a
    /// pool can have.
    pub fn empty(generation_size: usize) -> (pool: Option<GenePool>)
        ensures
            pool.is_some() <==> generation_size >= 1,
            pool matches Some(p) ==> p@ == (PoolModel {
                genotypes: Seq::empty(),
                generation_size: generation_size as nat,
            }),
    {
        if generation_size >= 1 {
            let genotypes: Vec<(Genotype, u64)> = Vec::new();
            assert(entries_model(genotypes@) =~= Seq::empty());
            Some(GenePool { genotypes, generation_size })
        } else {
            None
        }
    }

    /// How many genotypes the pool holds.
    pub fn len(&self) -> (len: usize)
        ensures
            len == self@.genotypes.len(),
            len <= 2 * self@.generation_size,
    {
        proof {
            use_type_invariant(self);
        }
        self.genotypes.len()
    }

    /// How many genotypes make a generation.
    pub fn generation_size(&self) -> (size: usize)
        ensures
            size == self@.generation_size,
            size >= 1,
    {
        proof {
            use_type_invariant(self);
        }
        self.generation_size
    }

    /// The fitness of the genotype at `index`, counted from the oldest.
    pub fn fitness(&self, index: usize) -> (fitness: Option<u64>)
        ensures
            fitness == if index < self@.genotypes.len() {
                Some(self@.genotypes[index as int].1)
            } else {
                None
            },
    {
        if index < self.genotypes.len() {
            Some(self.genotypes[index].1)
        } else {
            None
        }
    }

    /// The genotype at `index`, counted from the oldest.
    pub fn genotype(&self, index: usize) -> (genotype: Option<&Genotype>)
        ensures
            genotype.is_some() <==> index < self@.genotypes.len(),
            genotype matches Some(g) ==> g@ == self@.genotypes[index as int].0,
    {
        if index < self.genotypes.len() {
            Some(&self.genotypes[index].0)
        } else {
            None
        }
    }

    /// Whether the pool can breed.
    pub fn can_spawn(&self) -> (ok: bool)
        ensures
            ok == self@.breeds(),
    {
        let sum = sum_fitness(&self.genotypes, 0);
        assert(entries_model(self.genotypes@).skip(0) =~= entries_model(self.genotypes@));
        0 < sum && sum <= u64::MAX as u128
    }

    /// The fitnesses of the genotypes, in order.
    fn weights(&self) -> (weights: Vec<u64>)
        ensures
            weights@ == fitnesses(self@.genotypes),
    {
        let mut weights: Vec<u64> = Vec::new();
        let mut i: usize = 0;
        while i < self.genotypes.len()
            invariant
                i <= self.genotypes.len(),
                weights@ == fitnesses(self@.genotypes).take(i as int),
            decreases self.genotypes.len() - i,
        {
            weights.push(self.genotypes[i].1);
            assert(weights@ =~= fitnesses(self@.genotypes).take(i + 1));
            i += 1;
        }
        assert(weights@ =~= fitnesses(self@.genotypes));
        weights
    }

    /// Breeds one offspring. A parent is drawn with a chance proportional
    /// to its fitness, so that one with a fitness of zero is never drawn;
    /// the offspring is a copy of the parent, mutated at spawning
    /// strength. The pool stays as it is.
    pub fn spawn<F: Fn(Scalar) -> Scalar>(&self, displace: F) -> (child: Genotype)
        requires
            self@.breeds(),
            displaces_every_weight(displace),
        ensures
            self@.spawns(child@, displace),
    {
        let weights = self.weights();
        let index = weighted_index(&weights);
        let strength = Strength::ratio(SPAWN_NUMERATOR, SPAWN_DENOMINATOR);
        let parent = self.genotypes[index].0.clone();
        let child = parent.mutate(strength, displace);
        proof {
            let chosen = self@.genotypes[index as int];
            assert(chosen.1 == weights[index as int]);
            assert(chosen.0 == parent@);
            assert(bred(chosen.0, child@, displace));
        }
        child
    }

    /// Records a genotype that has died, with the fitness it reached, as
    /// the newest of the pool. Once the pool holds more than two
    /// generations it is cut over: see [`cut_over`].
    pub fn preserve(&mut self, genotype: Genotype, fitness: u64)
        ensures
            final(self)@ == preserved(old(self)@, genotype@, fitness),
            final(self)@.settled(),
            final(self)@.generation_size >= 1,
    {
        proof {
            use_type_invariant(&*self);
            lemma_preserve_keeps_bounds(self@, genotype@, fitness);
        }
        let ghost before = self.genotypes@;
        let mut genotypes: Vec<(Genotype, u64)> = Vec::new();
        core::mem::swap(&mut self.genotypes, &mut genotypes);
        genotypes.push((genotype, fitness));
        assert(entries_model(genotypes@) =~= entries_model(before).push((genotype@, fitness)));
        let len: usize = genotypes.len();
        // The newly preserved give the old generation some chances to
        // breed more than once.
        if len as u128 > 2 * (self.generation_size as u128) {
            // The oldest had a go already.
            let sum = sum_fitness(&genotypes, 1);
            let kept = select_survivors(&genotypes, sum);
            if kept.len() < 2 {
                let ghost candidates = entries_model(genotypes@).skip(1);
                let mut latest: Vec<(Genotype, u64)> = Vec::new();
                latest.push((genotypes[len - 1].0.clone(), genotypes[len - 1].1));
                latest.push((genotypes[len - 2].0.clone(), genotypes[len - 2].1));
                assert(entries_model(latest@) =~= latest_two(candidates));
                self.genotypes = latest;
            } else {
                self.generation_size = kept.len();
                self.genotypes = kept;
            }
        } else {
            self.genotypes = genotypes;
        }
    }
}

} // verus!
