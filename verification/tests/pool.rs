use genepool::brain::Brain;
use genepool::neuron::Function;
use genepool::pool::{
    GenePool, Genotype, EDEN_GENERATION_SIZE, SEED_FITNESS, SEED_HIDDEN_NEURONS, SPAWN_DENOMINATOR,
    SPAWN_NUMERATOR,
};
use genepool::scalar::Scalar;

fn still(weight: Scalar) -> Scalar {
    weight
}

fn bump(weight: Scalar) -> Scalar {
    Scalar::from_bits(weight.to_bits().wrapping_add(1))
}

/// A genotype that can be told from every other by its tag, whatever
/// mutation does to it: the tag is the number of its hidden neurons.
fn tagged(tag: u32) -> Genotype {
    assert!(1 <= tag && tag < 255);
    Brain::new_dumb(tag as u8)
}

fn tag_of(genotype: &Genotype) -> u32 {
    genotype.hidden_layer().len() as u32
}

fn fitnesses_of(pool: &GenePool) -> Vec<u64> {
    (0..pool.len()).map(|i| pool.fitness(i).unwrap()).collect()
}

fn tags_of(pool: &GenePool) -> Vec<u32> {
    (0..pool.len()).map(|i| tag_of(pool.genotype(i).unwrap())).collect()
}

fn pool_of(generation_size: usize, fitnesses: &[u64]) -> GenePool {
    let mut pool = GenePool::empty(generation_size).unwrap();
    for (i, fitness) in fitnesses.iter().enumerate() {
        pool.preserve(tagged(i as u32 + 1), *fitness);
    }
    pool
}

#[test]
fn constants_are_those_of_the_design() {
    assert_eq!(SEED_HIDDEN_NEURONS, 3);
    assert_eq!(SEED_FITNESS, 10_000);
    assert_eq!(EDEN_GENERATION_SIZE, 3);
    assert_eq!((SPAWN_NUMERATOR, SPAWN_DENOMINATOR), (15, 100));
}

#[test]
fn new_eden_holds_the_seed_alone() {
    let pool = GenePool::new_eden();
    assert_eq!(pool.len(), 1);
    assert_eq!(pool.generation_size(), 3);
    assert_eq!(pool.fitness(0), Some(10_000));
    assert_eq!(pool.genotype(0), Some(&Brain::new_dumb(3)));
    assert_eq!(pool.fitness(1), None);
    assert_eq!(pool.genotype(1), None);
    assert!(pool.can_spawn());
}

#[test]
fn empty_pool_needs_a_generation_size() {
    assert!(GenePool::empty(0).is_none());
    let pool = GenePool::empty(1).unwrap();
    assert_eq!(pool.len(), 0);
    assert_eq!(pool.generation_size(), 1);
    assert_eq!(pool.fitness(0), None);
    assert!(pool.genotype(0).is_none());
    assert_eq!(GenePool::empty(usize::MAX).unwrap().generation_size(), usize::MAX);
}

#[test]
fn empty_pool_cannot_spawn() {
    assert!(!GenePool::empty(2).unwrap().can_spawn());
}

#[test]
fn pool_of_zero_fitness_cannot_spawn() {
    let pool = pool_of(3, &[0, 0, 0]);
    assert_eq!(pool.len(), 3);
    assert!(!pool.can_spawn());
}

#[test]
fn pool_whose_fitness_cannot_be_counted_cannot_spawn() {
    let pool = pool_of(3, &[u64::MAX, 1]);
    assert!(!pool.can_spawn());
    let pool = pool_of(3, &[u64::MAX - 1, 1]);
    assert!(pool.can_spawn());
}

#[test]
fn spawn_leaves_the_pool_as_it_is() {
    let pool = pool_of(4, &[3, 0, 9, 1]);
    let tags = tags_of(&pool);
    for _ in 0..100 {
        pool.spawn(bump);
        assert_eq!(pool.len(), 4);
        assert_eq!(pool.generation_size(), 4);
        assert_eq!(fitnesses_of(&pool), vec![3, 0, 9, 1]);
        assert_eq!(tags_of(&pool), tags);
    }
    let eden = GenePool::new_eden();
    for _ in 0..100 {
        eden.spawn(bump);
        assert_eq!(eden.len(), 1);
        assert_eq!(eden.fitness(0), Some(10_000));
        assert_eq!(eden.genotype(0), Some(&Brain::new_dumb(3)));
    }
}

#[test]
fn spawn_from_a_sole_genotype_is_that_genotype_mutated() {
    let pool = pool_of(3, &[10]);
    let parent = tagged(1);
    for _ in 0..200 {
        let child = pool.spawn(bump);
        assert_eq!(child.hidden_layer().len(), 1);
        assert_eq!(child.output_layer().len(), 1);
        let old = parent.hidden_layer()[0].weights.iter().chain(parent.output_layer()[0].weights.iter());
        let new = child.hidden_layer()[0].weights.iter().chain(child.output_layer()[0].weights.iter());
        assert_eq!(old.clone().count(), new.clone().count());
        for (old, new) in old.zip(new) {
            let kept = new == old;
            let cut = !old.is_zero() && *new == Scalar::zero();
            let moved = *new == bump(*old);
            assert!(kept || cut || moved);
        }
    }
}

#[test]
fn spawn_from_eden_descends_from_the_seed() {
    let pool = GenePool::new_eden();
    for _ in 0..200 {
        let child = pool.spawn(still);
        assert_eq!(child.hidden_layer().len(), 3);
        assert_eq!(child.output_layer().len(), 1);
        // With noise that moves nothing, a weight is either the seed's
        // or cut.
        let seed = Brain::new_dumb(3);
        for (old, new) in seed.hidden_layer().iter().zip(child.hidden_layer().iter()) {
            for (old, new) in old.weights.iter().zip(new.weights.iter()) {
                assert!(new == old || new.is_zero());
            }
        }
    }
}

#[test]
fn spawn_never_draws_a_genotype_of_zero_fitness() {
    let pool = pool_of(4, &[0, 7, 0, 0]);
    for _ in 0..500 {
        let child = pool.spawn(still);
        assert_eq!(tag_of(&child), 2);
    }
    let pool = pool_of(4, &[0, 0, 0, 1]);
    for _ in 0..500 {
        assert_eq!(tag_of(&pool.spawn(still)), 4);
    }
}

#[test]
fn spawn_draws_every_genotype_of_positive_fitness() {
    let pool = pool_of(4, &[1, 0, 50, 1]);
    let mut seen = [false; 5];
    for _ in 0..5000 {
        seen[tag_of(&pool.spawn(still)) as usize] = true;
    }
    assert_eq!(seen, [false, true, false, true, true]);
}

#[test]
fn spawn_favours_the_fitter() {
    let pool = pool_of(4, &[1, 9]);
    let mut second = 0;
    for _ in 0..2000 {
        if tag_of(&pool.spawn(still)) == 2 {
            second += 1;
        }
    }
    assert!(second > 1600 && second < 1950, "{second}");
}

#[test]
fn spawn_mutates_at_fifteen_in_a_hundred() {
    let pool = pool_of(3, &[10]);
    let mut changed = 0;
    let mut replaced = 0;
    let rounds = 4000;
    for _ in 0..rounds {
        let child = pool.spawn(bump);
        // The third weight of the hidden neuron is zero: it changes when
        // it is toggled or perturbed.
        if child.hidden_layer()[0].weights[2] != Scalar::zero() {
            changed += 1;
        }
        if child.hidden_layer()[0].activation != Function::Linear {
            replaced += 1;
        }
    }
    // 1.5% + 98.5% of 15% is about 16.3%.
    assert!(changed > rounds * 12 / 100 && changed < rounds * 21 / 100, "{changed}");
    // 3.75%, four times in five to another function: 3%.
    assert!(replaced > rounds * 15 / 1000 && replaced < rounds * 5 / 100, "{replaced}");
}

#[test]
fn preserve_appends_in_order_of_arrival() {
    let mut pool = GenePool::new_eden();
    pool.preserve(tagged(5), 1_500);
    pool.preserve(tagged(6), 0);
    assert_eq!(pool.len(), 3);
    assert_eq!(pool.generation_size(), 3);
    assert_eq!(fitnesses_of(&pool), vec![10_000, 1_500, 0]);
    assert_eq!(pool.genotype(0), Some(&Brain::new_dumb(3)));
    assert_eq!(pool.genotype(1), Some(&tagged(5)));
    assert_eq!(pool.genotype(2), Some(&tagged(6)));
    assert_eq!(tags_of(&pool), vec![3, 5, 6]);
}

#[test]
fn preserve_holds_two_generations_before_cutting_over() {
    let mut pool = GenePool::empty(2).unwrap();
    for (i, fitness) in [5u64, 1, 1, 10].iter().enumerate() {
        pool.preserve(tagged(i as u32 + 1), *fitness);
        assert_eq!(pool.len(), i + 1);
        assert_eq!(pool.generation_size(), 2);
    }
    assert_eq!(fitnesses_of(&pool), vec![5, 1, 1, 10]);
    assert_eq!(tags_of(&pool), vec![1, 2, 3, 4]);
}

#[test]
fn preserve_prunes_to_those_at_or_above_average() {
    let pool = pool_of(2, &[5, 1, 1, 10, 10]);
    // Candidates 1, 1, 10, 10 average 5.5: the two tens survive.
    assert_eq!(fitnesses_of(&pool), vec![10, 10]);
    assert_eq!(tags_of(&pool), vec![4, 5]);
    assert_eq!(pool.generation_size(), 2);
}

#[test]
fn preserve_leaves_the_oldest_out_of_the_average() {
    // With the oldest counted the mean would be 20.8 and only one would
    // survive; without it the mean is 1 and all four do.
    let pool = pool_of(2, &[100, 1, 1, 1, 1]);
    assert_eq!(fitnesses_of(&pool), vec![1, 1, 1, 1]);
    assert_eq!(tags_of(&pool), vec![2, 3, 4, 5]);
    assert_eq!(pool.generation_size(), 4);
}

#[test]
fn preserve_resizes_the_generation_to_the_survivors() {
    let pool = pool_of(3, &[0, 4, 4, 4, 0, 0, 6]);
    // Candidates 4, 4, 4, 0, 0, 6 average 3: four survive.
    assert_eq!(fitnesses_of(&pool), vec![4, 4, 4, 6]);
    assert_eq!(tags_of(&pool), vec![2, 3, 4, 7]);
    assert_eq!(pool.generation_size(), 4);
    let pool = pool_of(3, &[0, 1, 1, 1, 1, 9, 9]);
    // Candidates average 22 / 6: two survive.
    assert_eq!(fitnesses_of(&pool), vec![9, 9]);
    assert_eq!(pool.generation_size(), 2);
}

#[test]
fn preserve_keeps_a_candidate_exactly_at_the_average() {
    let pool = pool_of(1, &[0, 2, 4]);
    // Candidates 2, 4 average 3: only the four is at or above it, so the
    // latest two take over.
    assert_eq!(fitnesses_of(&pool), vec![4, 2]);
    let pool = pool_of(2, &[0, 2, 3, 4, 3]);
    // Candidates 2, 3, 4, 3 average exactly 3.
    assert_eq!(fitnesses_of(&pool), vec![3, 4, 3]);
    assert_eq!(tags_of(&pool), vec![3, 4, 5]);
    assert_eq!(pool.generation_size(), 3);
}

#[test]
fn preserve_compares_with_the_exact_average() {
    // Candidates 3, 3, 4 average 3 1/3: the threes are below it.
    let pool = pool_of(1, &[0, 3, 3]);
    assert_eq!(fitnesses_of(&pool), vec![3, 3]);
    let mut pool = GenePool::empty(2).unwrap();
    for (i, fitness) in [0u64, 3, 3, 4, 4].iter().enumerate() {
        pool.preserve(tagged(i as u32 + 1), *fitness);
    }
    // Candidates 3, 3, 4, 4 average 3.5.
    assert_eq!(fitnesses_of(&pool), vec![4, 4]);
    assert_eq!(tags_of(&pool), vec![4, 5]);
}

#[test]
fn preserve_all_equal_candidates_all_survive() {
    let pool = pool_of(2, &[9, 7, 7, 7, 7]);
    assert_eq!(fitnesses_of(&pool), vec![7, 7, 7, 7]);
    assert_eq!(pool.generation_size(), 4);
    let pool = pool_of(2, &[9, 0, 0, 0, 0]);
    assert_eq!(fitnesses_of(&pool), vec![0, 0, 0, 0]);
    assert_eq!(tags_of(&pool), vec![2, 3, 4, 5]);
    assert_eq!(pool.generation_size(), 4);
}

#[test]
fn preserve_falls_back_to_the_latest_two() {
    // Candidates 1, 1, 100, 1 average 25.75: one survivor is too few.
    let pool = pool_of(2, &[5, 1, 1, 100, 1]);
    assert_eq!(tags_of(&pool), vec![5, 4]);
    assert_eq!(fitnesses_of(&pool), vec![1, 100]);
    assert_eq!(pool.generation_size(), 2);
}

#[test]
fn preserve_fallback_takes_the_most_recent_first() {
    let pool = pool_of(3, &[0, 90, 1, 1, 1, 2, 3]);
    // Candidates 90, 1, 1, 1, 2, 3 average 16 1/3: only the 90 is above.
    assert_eq!(tags_of(&pool), vec![7, 6]);
    assert_eq!(fitnesses_of(&pool), vec![3, 2]);
    assert_eq!(pool.generation_size(), 3);
}

#[test]
fn preserve_fallback_with_a_generation_of_one() {
    let pool = pool_of(1, &[8, 1, 5]);
    // Candidates 1, 5 average 3: one survivor.
    assert_eq!(tags_of(&pool), vec![3, 2]);
    assert_eq!(fitnesses_of(&pool), vec![5, 1]);
    assert_eq!(pool.generation_size(), 1);
}

#[test]
fn preserve_cuts_over_again_and_again() {
    let mut pool = GenePool::new_eden();
    // Seed, then six arrivals: the seventh entry makes more than two
    // generations of three.
    for (i, fitness) in [2_000u64, 4_000, 6_000, 8_000, 1_000, 3_000].iter().enumerate() {
        assert_eq!(pool.len(), i + 1);
        pool.preserve(tagged(i as u32 + 1), *fitness);
    }
    // Candidates average 4000: 4000, 6000 and 8000 survive.
    assert_eq!(fitnesses_of(&pool), vec![4_000, 6_000, 8_000]);
    assert_eq!(pool.generation_size(), 3);
    for fitness in [5_000u64, 5_000, 5_000] {
        pool.preserve(tagged(9), fitness);
    }
    assert_eq!(pool.len(), 6);
    pool.preserve(tagged(10), 20_000);
    // Candidates 6000, 8000, 5000, 5000, 5000, 20000 average 8166 2/3.
    assert_eq!(fitnesses_of(&pool), vec![20_000, 5_000]);
    assert_eq!(pool.generation_size(), 3);
}

#[test]
fn preserve_copes_with_the_largest_fitness() {
    let pool = pool_of(1, &[1, u64::MAX, u64::MAX]);
    assert_eq!(fitnesses_of(&pool), vec![u64::MAX, u64::MAX]);
    assert_eq!(pool.generation_size(), 2);
    let pool = pool_of(1, &[1, u64::MAX, u64::MAX - 1]);
    assert_eq!(fitnesses_of(&pool), vec![u64::MAX - 1, u64::MAX]);
    assert_eq!(pool.generation_size(), 1);
}

#[test]
fn pool_never_outgrows_two_generations() {
    let mut pool = GenePool::new_eden();
    for round in 0..200u64 {
        pool.preserve(tagged(round as u32 + 1), (round * 7919) % 100);
        assert!(pool.len() <= 2 * pool.generation_size());
        assert!(pool.len() >= 1);
        assert!(pool.generation_size() >= 1);
    }
}
