//! The source of randomness that seeding, mutation and parent selection draw
//! from. The generator and the sampling routines are those of the `rand`
//! crate; the contracts below say what holds of every draw.

use rand::distributions::Uniform;
use rand::rngs::StdRng;
use rand::seq::IteratorRandom;
use rand::{Rng, SeedableRng};
use vstd::prelude::*;

verus! {

/// `rand`'s standard generator, carried as an opaque value.
#[verifier::external_type_specification]
#[verifier::external_body]
pub struct ExStdRng(StdRng);

/// A stream of random draws, fixed by the seed it was made from.
pub struct RandomSource {
    generator: StdRng,
}

/// Calls `SeedableRng::seed_from_u64` for `StdRng`. Nothing is claimed of
/// the generator that comes back.
#[verifier::external_body]
fn seed_generator(seed: u64) -> StdRng {
    StdRng::seed_from_u64(seed)
}

impl RandomSource {
    /// A source whose draws are determined by `seed`.
    pub fn seeded(seed: u64) -> RandomSource {
        RandomSource { generator: seed_generator(seed) }
    }
}

/// Draws from `Uniform::new_inclusive(low, high)` through `Rng::sample`.
/// Trusted: the constructor accepts every `low <= high`, and the sampler
/// returns `low` plus an offset no greater than `high - low`.
#[verifier::external_body]
pub(crate) fn sample_inclusive(source: &mut RandomSource, low: u32, high: u32) -> (sample: u32)
    requires
        low <= high,
    ensures
        low <= sample <= high,
{
    source.generator.sample(Uniform::new_inclusive(low, high))
}

/// Calls `IteratorRandom::choose` on the symbols of `alphabet`. Trusted: the
/// result is `None` exactly when there is nothing to choose from, and
/// otherwise one of the symbols the iterator yields.
#[verifier::external_body]
pub(crate) fn choose_symbol(source: &mut RandomSource, alphabet: &Vec<char>) -> (symbol: Option<
    char,
>)
    ensures
        symbol is None <==> alphabet@.len() == 0,
        symbol is Some ==> alphabet@.contains(symbol->0),
{
    alphabet.iter().copied().choose(&mut source.generator)
}

/// Calls `rand::seq::index::sample` and unpacks the indices it returns.
/// Trusted: for `amount <= length` the call returns exactly `amount`
/// indices, each below `length`, and no index twice. A length beyond
/// `u32::MAX` is sampled by rejection, which takes fewer indices than there
/// are; such a length is left out when all of it is asked for.
#[verifier::external_body]
pub(crate) fn sample_indices(
    source: &mut RandomSource,
    length: usize,
    amount: usize,
) -> (indices: Vec<usize>)
    requires
        amount <= length,
        length <= u32::MAX || amount < length,
    ensures
        indices@.len() == amount,
        forall|i: int| 0 <= i < indices@.len() ==> indices@[i] < length,
        forall|i: int, j: int| 0 <= i < j < indices@.len() ==> indices@[i] != indices@[j],
{
    rand::seq::index::sample(&mut source.generator, length, amount).into_vec()
}

} // verus!
