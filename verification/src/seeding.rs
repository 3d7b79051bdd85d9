//! The phase that seeds the population: random genomes fill it up, and the
//! candidates are unveiled one after the other.

use crate::candidate::{fresh, spotlight, Candidate, CandidateModel, Visibility};
use crate::genetics::{seed_genome, spelled_in};
use crate::random::RandomSource;
use crate::script::{close_script, narration, open_script, script, tale, Event};
use crate::state::{fits, State};
use crate::step::{label_of, Step};
use vstd::prelude::*;

verus! {

/// Whether `population` is `before` filled up to `size` candidates: what
/// was there stays in front, and behind it stand fresh candidates whose
/// genomes have `length` symbols, all of them from `alphabet`.
pub open spec fn seeded_from(
    population: Seq<CandidateModel>,
    before: Seq<CandidateModel>,
    size: nat,
    length: nat,
    alphabet: Seq<char>,
) -> bool {
    &&& population.len() == if before.len() <= size {
        size
    } else {
        before.len()
    }
    &&& forall|i: int| 0 <= i < before.len() ==> #[trigger] population[i] == before[i]
    &&& forall|i: int|
        before.len() <= i < population.len() ==> {
            &&& #[trigger] population[i] == fresh(population[i].text)
            &&& population[i].text.len() == length
            &&& spelled_in(population[i].text, alphabet)
        }
}

/// Seeding a complete population leaves it as it is.
pub proof fn lemma_seeding_complete_changes_nothing(
    population: Seq<CandidateModel>,
    before: Seq<CandidateModel>,
    size: nat,
    length: nat,
    alphabet: Seq<char>,
)
    requires
        before.len() >= size,
        seeded_from(population, before, size, length, alphabet),
    ensures
        population == before,
{
    assert(population =~= before);
}

/// The population with its first `k` candidates drawn.
pub open spec fn revealed(population: Seq<CandidateModel>, k: nat) -> Seq<CandidateModel> {
    Seq::new(
        population.len(),
        |i: int|
            if i < k {
                population[i].seen_as(Visibility::Visible)
            } else {
                population[i]
            },
    )
}

/// What the unveiling shows: for each candidate in turn, the population
/// drawn up to and including it, with that candidate in the spotlight; and
/// at the end the population with everyone drawn.
pub open spec fn reveal_snapshots(population: Seq<CandidateModel>) -> Seq<Seq<CandidateModel>> {
    Seq::new(
        population.len() + 1,
        |k: int|
            if k < population.len() {
                spotlight(revealed(population, (k + 1) as nat), k)
            } else {
                revealed(population, population.len())
            },
    )
}

impl State {
    /// Fills the population up with fresh candidates of random genomes. A
    /// population that is complete stays as it is.
    pub fn seed_population(&mut self, source: &mut RandomSource)
        requires
            old(self)@.wf(),
        ensures
            final(self)@.wf(),
            final(self)@.seeded(),
            final(self)@ == old(self)@.with_population(final(self)@.population),
            seeded_from(
                final(self)@.population,
                old(self)@.population,
                old(self)@.population_size,
                old(self)@.target.len(),
                old(self)@.alphabet,
            ),
            old(self)@.seeded() ==> final(self)@ == old(self)@,
    {
        let size = self.population_size();
        let length = self.target_symbols().len();
        let ghost start = self@;
        let mut count = self.population().len();
        while count < size
            invariant
                start.wf(),
                size == start.population_size,
                length == start.target.len(),
                count == self@.population.len(),
                count <= size,
                self@ == start.with_population(self@.population),
                seeded_from(
                    self@.population,
                    start.population,
                    count as nat,
                    start.target.len(),
                    start.alphabet,
                ),
            decreases size - count,
        {
            let genome = seed_genome(length, self.alphabet(), source);
            self.enlist(Candidate::from_symbols(genome));
            count += 1;
        }
        assert forall|i: int| 0 <= i < self@.population.len() implies fits(
            #[trigger] self@.population[i],
            self@.target,
        ) by {}
        proof {
            if start.seeded() {
                lemma_seeding_complete_changes_nothing(
                    self@.population,
                    start.population,
                    start.population_size,
                    start.target.len(),
                    start.alphabet,
                );
            }
        }
    }

    /// Unveils the candidates one after the other and tells how it went.
    pub fn reveal_population(&mut self) -> (events: Vec<Event>)
        requires
            old(self)@.wf(),
            old(self)@.seeded(),
        ensures
            final(self)@.wf(),
            final(self)@ == old(self)@.with_population(
                revealed(old(self)@.population, old(self)@.population.len()),
            ),
            tale(events@) == script(
                old(self)@.stage(Step::SeedPopulation),
                reveal_snapshots(old(self)@.population),
            ),
    {
        let label = Step::SeedPopulation.label();
        let size = self.population_size();
        let ghost start = self@;
        let ghost stage = start.stage(Step::SeedPopulation);
        let ghost snapshots = reveal_snapshots(start.population);
        let mut events = open_script();
        let mut k: usize = 0;
        assert(start.population =~= revealed(start.population, 0));
        while k < size
            invariant
                start.wf(),
                start.seeded(),
                size == start.population_size,
                stage == start.stage(Step::SeedPopulation),
                snapshots == reveal_snapshots(start.population),
                label@ == label_of(Step::SeedPopulation),
                k <= size,
                self@ == start.with_population(revealed(start.population, k as nat)),
                tale(events@) == narration(stage, snapshots, k as nat),
            decreases size - k,
        {
            self.set_seen(k, Visibility::Visible);
            assert(self@.population =~= revealed(start.population, (k + 1) as nat));
            let ghost before = self@.population;
            self.turn(k);
            self.render(label.as_str(), &mut events);
            self.turn(k);
            assert(self@.population =~= before);
            k += 1;
        }
        self.render(label.as_str(), &mut events);
        close_script(&mut events);
        events
    }
}

} // verus!
