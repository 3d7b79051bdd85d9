//! The genetic operators: fitness scoring, and the choice that crossover and
//! mutation make for every position of a child genome.

use crate::error::SimulationError;
use crate::random::{choose_symbol, sample_inclusive, RandomSource};
use vstd::pervasive::unreached;
use vstd::prelude::*;

verus! {

/// How many of the first `n` positions hold the same symbol in both sequences.
pub open spec fn match_count_in(genome: Seq<char>, target: Seq<char>, n: nat) -> nat
    decreases n,
{
    if n == 0 {
        0
    } else {
        let earlier = match_count_in(genome, target, (n - 1) as nat);
        if genome[n - 1] == target[n - 1] {
            earlier + 1
        } else {
            earlier
        }
    }
}

/// The number of positions at which `genome` agrees with `target`, for a
/// genome as long as the target.
pub open spec fn match_count(genome: Seq<char>, target: Seq<char>) -> nat {
    match_count_in(genome, target, genome.len())
}

/// No more positions can match than were looked at.
pub proof fn lemma_match_count_in_bounded(genome: Seq<char>, target: Seq<char>, n: nat)
    ensures
        match_count_in(genome, target, n) <= n,
    decreases n,
{
    if n > 0 {
        lemma_match_count_in_bounded(genome, target, (n - 1) as nat);
    }
}

/// A sequence agrees with itself at every position.
pub proof fn lemma_match_count_in_self(target: Seq<char>, n: nat)
    ensures
        match_count_in(target, target, n) == n,
    decreases n,
{
    if n > 0 {
        lemma_match_count_in_self(target, (n - 1) as nat);
    }
}

/// If all of the first `n` positions match, each one of them does.
pub proof fn lemma_match_count_in_full(genome: Seq<char>, target: Seq<char>, n: nat)
    requires
        match_count_in(genome, target, n) == n,
    ensures
        forall|i: int| 0 <= i < n ==> genome[i] == target[i],
    decreases n,
{
    if n > 0 {
        lemma_match_count_in_bounded(genome, target, (n - 1) as nat);
        lemma_match_count_in_full(genome, target, (n - 1) as nat);
    }
}

/// The score of a genome of the target's length lies between zero and that
/// length, and the target itself reaches the top score.
pub proof fn lemma_score_range(genome: Seq<char>, target: Seq<char>)
    requires
        genome.len() == target.len(),
    ensures
        0 <= match_count(genome, target) <= target.len(),
        match_count(target, target) == target.len(),
{
    lemma_match_count_in_bounded(genome, target, genome.len());
    lemma_match_count_in_self(target, target.len());
}

/// Only the target itself reaches the top score.
pub proof fn lemma_top_score_is_target(genome: Seq<char>, target: Seq<char>)
    requires
        genome.len() == target.len(),
    ensures
        match_count(genome, target) == target.len() <==> genome == target,
{
    if match_count(genome, target) == target.len() {
        lemma_match_count_in_full(genome, target, target.len());
        assert(genome =~= target);
    }
    if genome == target {
        lemma_match_count_in_self(target, target.len());
    }
}

/// Counts the positions at which `genome` agrees with a target of its
/// own length.
pub(crate) fn count_matches(genome: &Vec<char>, target: &Vec<char>) -> (count: usize)
    requires
        genome@.len() == target@.len(),
    ensures
        count == match_count(genome@, target@),
{
    let mut count: usize = 0;
    let mut i: usize = 0;
    while i < genome.len()
        invariant
            i <= genome.len(),
            genome@.len() == target@.len(),
            count == match_count_in(genome@, target@, i as nat),
            count <= i,
        decreases genome.len() - i,
    {
        if genome[i] == target[i] {
            count += 1;
        }
        i += 1;
    }
    count
}

/// Counts the positions at which `genome` agrees with `target`. A genome
/// that is not as long as the target has no score.
pub fn score(genome: &Vec<char>, target: &Vec<char>) -> (outcome: Result<usize, SimulationError>)
    ensures
        outcome is Err <==> genome@.len() != target@.len(),
        match outcome {
            Ok(count) => count == match_count(genome@, target@),
            Err(error) => error == SimulationError::LengthMismatch,
        },
{
    if genome.len() != target.len() {
        return Err(SimulationError::LengthMismatch);
    }
    Ok(count_matches(genome, target))
}

/// The mutation rate that stands for certainty. A rate counts the chances
/// of mutation out of this many.
pub const FULL_RATE: u32 = 1_000_000;

/// Where the symbol at one position of a child comes from.
#[derive(Debug, Clone, Copy, PartialEq, Eq, Structural)]
pub enum Origin {
    ParentA,
    ParentB,
    Mutation,
}

/// The origin that a sample selects under a mutation rate. Samples run from
/// one to `FULL_RATE`: the topmost `rate` of them call for a mutation, and
/// the rest are split between the second parent, above the middle, and the
/// first, below it.
pub open spec fn origin_of(sample: int, rate: int) -> Origin {
    if sample > FULL_RATE - rate {
        Origin::Mutation
    } else if 2 * sample > FULL_RATE - rate {
        Origin::ParentB
    } else {
        Origin::ParentA
    }
}

/// The samples fall into three zones that lie side by side: the first
/// parent's at the bottom, the second parent's above it, and on top the
/// zone of mutation, which holds `rate` samples. The parents share what is
/// left evenly; where that is odd, the second parent's zone holds the one
/// sample more.
pub proof fn lemma_zones(sample: int, rate: int)
    requires
        1 <= sample <= FULL_RATE,
        0 <= rate <= FULL_RATE,
    ensures
        origin_of(sample, rate) == Origin::ParentA <==> sample <= (FULL_RATE - rate) / 2,
        origin_of(sample, rate) == Origin::ParentB <==> (FULL_RATE - rate) / 2 < sample
            <= FULL_RATE - rate,
        origin_of(sample, rate) == Origin::Mutation <==> FULL_RATE - rate < sample,
{
}

/// The origin that `sample` selects under `rate`.
pub fn origin(sample: u32, rate: u32) -> (origin: Origin)
    ensures
        origin == origin_of(sample as int, rate as int),
{
    let recombination: i64 = FULL_RATE as i64 - rate as i64;
    if sample as i64 > recombination {
        Origin::Mutation
    } else if 2 * (sample as i64) > recombination {
        Origin::ParentB
    } else {
        Origin::ParentA
    }
}

/// The symbol that an origin yields at a position where the parents hold
/// `a` and `b` and `fresh` was drawn from the alphabet.
pub open spec fn gene(origin: Origin, a: char, b: char, fresh: char) -> char {
    match origin {
        Origin::ParentA => a,
        Origin::ParentB => b,
        Origin::Mutation => fresh,
    }
}

/// The child that two parents of one length have under the draws made for
/// it: at every position the origin that the position's sample selects
/// yields the symbol.
pub open spec fn crossed(
    parent_a: Seq<char>,
    parent_b: Seq<char>,
    rate: int,
    samples: Seq<u32>,
    fresh: Seq<char>,
) -> Seq<char> {
    Seq::new(
        parent_a.len(),
        |i: int| gene(origin_of(samples[i] as int, rate), parent_a[i], parent_b[i], fresh[i]),
    )
}

/// Whether `samples` and `fresh` can be the draws for a child of `length`
/// symbols: one sample from one to `FULL_RATE` and one symbol of the
/// alphabet for every position.
pub open spec fn drawn(
    samples: Seq<u32>,
    fresh: Seq<char>,
    length: nat,
    alphabet: Seq<char>,
) -> bool {
    &&& samples.len() == length
    &&& fresh.len() == length
    &&& forall|i: int| 0 <= i < length ==> 1 <= #[trigger] samples[i] <= FULL_RATE
    &&& spelled_in(fresh, alphabet)
}

/// Whether `child` can be bred from `parent_a` and `parent_b`: it is the
/// child that they have under some draws.
pub open spec fn bred_from(
    child: Seq<char>,
    parent_a: Seq<char>,
    parent_b: Seq<char>,
    alphabet: Seq<char>,
    rate: int,
) -> bool {
    exists|samples: Seq<u32>, fresh: Seq<char>|
        {
            &&& drawn(samples, fresh, parent_a.len(), alphabet)
            &&& child == #[trigger] crossed(parent_a, parent_b, rate, samples, fresh)
        }
}

/// Whether every symbol of `genome` belongs to `alphabet`.
pub open spec fn spelled_in(genome: Seq<char>, alphabet: Seq<char>) -> bool {
    forall|i: int| 0 <= i < genome.len() ==> alphabet.contains(#[trigger] genome[i])
}

/// With a mutation rate of zero, breeding is pure recombination: every
/// symbol of the child is the symbol that one of its parents holds at the
/// same position.
pub proof fn lemma_zero_rate_recombines(
    child: Seq<char>,
    parent_a: Seq<char>,
    parent_b: Seq<char>,
    alphabet: Seq<char>,
)
    requires
        bred_from(child, parent_a, parent_b, alphabet, 0),
    ensures
        child.len() == parent_a.len(),
        forall|i: int|
            0 <= i < child.len() ==> #[trigger] child[i] == parent_a[i] || child[i] == parent_b[i],
{
}

/// With the full mutation rate the child is what was drawn from the
/// alphabet, symbol for symbol: it does not depend on the parents.
pub proof fn lemma_full_rate_is_the_draw(
    parent_a: Seq<char>,
    parent_b: Seq<char>,
    samples: Seq<u32>,
    fresh: Seq<char>,
    alphabet: Seq<char>,
)
    requires
        drawn(samples, fresh, parent_a.len(), alphabet),
    ensures
        crossed(parent_a, parent_b, FULL_RATE as int, samples, fresh) == fresh,
{
}

/// With the full mutation rate, breeding ignores both parents: every symbol
/// of the child is one drawn from the alphabet.
pub proof fn lemma_full_rate_mutates(
    child: Seq<char>,
    parent_a: Seq<char>,
    parent_b: Seq<char>,
    alphabet: Seq<char>,
)
    requires
        bred_from(child, parent_a, parent_b, alphabet, FULL_RATE as int),
    ensures
        spelled_in(child, alphabet),
{
    let (samples, fresh) = choose|samples: Seq<u32>, fresh: Seq<char>|
        {
            &&& drawn(samples, fresh, parent_a.len(), alphabet)
            &&& child == #[trigger] crossed(parent_a, parent_b, FULL_RATE as int, samples, fresh)
        };
    lemma_full_rate_is_the_draw(parent_a, parent_b, samples, fresh, alphabet);
}

/// A child of parents that are spelled in the alphabet is spelled in it too,
/// whatever the mutation rate.
pub proof fn lemma_bred_stays_in_alphabet(
    child: Seq<char>,
    parent_a: Seq<char>,
    parent_b: Seq<char>,
    alphabet: Seq<char>,
    rate: int,
)
    requires
        parent_a.len() == parent_b.len(),
        bred_from(child, parent_a, parent_b, alphabet, rate),
        spelled_in(parent_a, alphabet),
        spelled_in(parent_b, alphabet),
    ensures
        spelled_in(child, alphabet),
{
}

/// A genome of `length` symbols, each drawn from `alphabet`.
pub fn seed_genome(length: usize, alphabet: &Vec<char>, source: &mut RandomSource) -> (genome: Vec<
    char,
>)
    requires
        alphabet@.len() > 0,
    ensures
        genome@.len() == length,
        spelled_in(genome@, alphabet@),
{
    let mut genome: Vec<char> = Vec::new();
    let mut i: usize = 0;
    while i < length
        invariant
            i <= length,
            alphabet@.len() > 0,
            genome@.len() == i,
            spelled_in(genome@, alphabet@),
        decreases length - i,
    {
        let symbol = match choose_symbol(source, alphabet) {
            Some(symbol) => symbol,
            None => unreached(),
        };
        genome.push(symbol);
        i += 1;
    }
    genome
}

/// The samples for a child of `length` symbols, one for every position.
pub fn draw_samples(length: usize, source: &mut RandomSource) -> (samples: Vec<u32>)
    ensures
        samples@.len() == length,
        forall|i: int| 0 <= i < length ==> 1 <= #[trigger] samples@[i] <= FULL_RATE,
{
    let mut samples: Vec<u32> = Vec::new();
    let mut i: usize = 0;
    while i < length
        invariant
            i <= length,
            samples@.len() == i,
            forall|k: int| 0 <= k < i ==> 1 <= #[trigger] samples@[k] <= FULL_RATE,
        decreases length - i,
    {
        samples.push(sample_inclusive(source, 1, FULL_RATE));
        i += 1;
    }
    samples
}

/// The child that two parents have under the draws made for it: position
/// by position, the sample selects the origin, and the origin yields the
/// symbol of the first parent, of the second, or the one freshly drawn.
pub fn child_of(
    parent_a: &Vec<char>,
    parent_b: &Vec<char>,
    rate: u32,
    samples: &Vec<u32>,
    fresh: &Vec<char>,
) -> (child: Vec<char>)
    requires
        parent_a@.len() == parent_b@.len(),
        samples@.len() == parent_a@.len(),
        fresh@.len() == parent_a@.len(),
    ensures
        child@ == crossed(parent_a@, parent_b@, rate as int, samples@, fresh@),
{
    let mut child: Vec<char> = Vec::new();
    let mut i: usize = 0;
    while i < parent_a.len()
        invariant
            i <= parent_a.len(),
            parent_a@.len() == parent_b@.len(),
            samples@.len() == parent_a@.len(),
            fresh@.len() == parent_a@.len(),
            child@ == crossed(parent_a@, parent_b@, rate as int, samples@, fresh@).take(i as int),
        decreases parent_a.len() - i,
    {
        let symbol = match origin(samples[i], rate) {
            Origin::ParentA => parent_a[i],
            Origin::ParentB => parent_b[i],
            Origin::Mutation => fresh[i],
        };
        child.push(symbol);
        i += 1;
    }
    child
}

/// Breeds a child from two parents of one length: a sample and a fresh
/// symbol are drawn for every position, and the child is what the parents
/// have under these draws.
pub(crate) fn cross(
    parent_a: &Vec<char>,
    parent_b: &Vec<char>,
    rate: u32,
    alphabet: &Vec<char>,
    source: &mut RandomSource,
) -> (child: Vec<char>)
    requires
        parent_a@.len() == parent_b@.len(),
        alphabet@.len() > 0,
    ensures
        bred_from(child@, parent_a@, parent_b@, alphabet@, rate as int),
        child@.len() == parent_a@.len(),
{
    let samples = draw_samples(parent_a.len(), source);
    let fresh = seed_genome(parent_a.len(), alphabet, source);
    let child = child_of(parent_a, parent_b, rate, &samples, &fresh);
    child
}

/// Breeds a child from two parents. Parents of different lengths have no
/// child.
pub fn breed(
    parent_a: &Vec<char>,
    parent_b: &Vec<char>,
    rate: u32,
    alphabet: &Vec<char>,
    source: &mut RandomSource,
) -> (outcome: Result<Vec<char>, SimulationError>)
    requires
        alphabet@.len() > 0,
    ensures
        outcome is Err <==> parent_a@.len() != parent_b@.len(),
        match outcome {
            Ok(child) => {
                &&& bred_from(child@, parent_a@, parent_b@, alphabet@, rate as int)
                &&& child@.len() == parent_a@.len()
                &&& rate == 0 ==> forall|i: int|
                    0 <= i < child@.len() ==> #[trigger] child@[i] == parent_a@[i] || child@[i]
                        == parent_b@[i]
                &&& rate == FULL_RATE ==> spelled_in(child@, alphabet@)
            },
            Err(error) => error == SimulationError::LengthMismatch,
        },
{
    if parent_a.len() != parent_b.len() {
        return Err(SimulationError::LengthMismatch);
    }
    let child = cross(parent_a, parent_b, rate, alphabet, source);
    proof {
        if rate == 0 {
            lemma_zero_rate_recombines(child@, parent_a@, parent_b@, alphabet@);
        }
        if rate == FULL_RATE {
            lemma_full_rate_mutates(child@, parent_a@, parent_b@, alphabet@);
        }
    }
    Ok(child)
}

} // verus!
