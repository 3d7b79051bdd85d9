//! The phase that removes the unfit: every candidate behind the survivors
//! is blanked, last one first, and its place waits for a child.

use crate::candidate::{spotlight, CandidateModel, Visibility};
use crate::ranking::ranked;
use crate::script::{close_script, narration, open_script, script, tale, Event};
use crate::state::State;
use crate::step::{label_of, Step};
use vstd::prelude::*;

verus! {

/// The population with its last `m` candidates blanked.
pub open spec fn culled(population: Seq<CandidateModel>, m: nat) -> Seq<CandidateModel> {
    Seq::new(
        population.len(),
        |i: int|
            if i >= population.len() - m {
                population[i].seen_as(Visibility::Invisible)
            } else {
                population[i]
            },
    )
}

/// What the phase shows of a population that keeps `keep` survivors: for
/// each candidate to go, from the last one down, the population with the
/// later ones blanked and this one in the spotlight; and at the end the
/// population with all of them blanked.
pub open spec fn culling_snapshots(population: Seq<CandidateModel>, keep: nat) -> Seq<
    Seq<CandidateModel>,
> {
    let doomed = (population.len() - keep) as nat;
    Seq::new(
        doomed + 1,
        |m: int|
            if m < doomed {
                spotlight(culled(population, m as nat), population.len() - 1 - m)
            } else {
                culled(population, doomed)
            },
    )
}

/// Culling a ranked population leaves it ranked, and so the survivors are
/// the fittest: none of them is less fit than any candidate that was
/// blanked.
pub proof fn lemma_survivors_are_fittest(population: Seq<CandidateModel>, keep: nat)
    requires
        ranked(population),
        keep <= population.len(),
    ensures
        ranked(culled(population, (population.len() - keep) as nat)),
        ({
            let after = culled(population, (population.len() - keep) as nat);
            forall|i: int, j: int|
                0 <= i < keep <= j < after.len() ==> after[i].fitness >= after[j].fitness
        }),
{
}

impl State {
    /// Blanks every candidate behind the survivors and tells how it went.
    /// The survivors, and every genome and fitness, stay as they are.
    pub fn remove_unfit(&mut self) -> (events: Vec<Event>)
        requires
            old(self)@.wf(),
            old(self)@.seeded(),
        ensures
            final(self)@.wf(),
            final(self)@ == old(self)@.with_population(
                culled(
                    old(self)@.population,
                    (old(self)@.population_size - old(self)@.num_fit_to_keep) as nat,
                ),
            ),
            tale(events@) == script(
                old(self)@.stage(Step::RemoveUnfit),
                culling_snapshots(old(self)@.population, old(self)@.num_fit_to_keep),
            ),
    {
        let label = Step::RemoveUnfit.label();
        let size = self.population_size();
        let keep = self.num_fit_to_keep();
        let ghost start = self@;
        let ghost stage = start.stage(Step::RemoveUnfit);
        let ghost snapshots = culling_snapshots(start.population, keep as nat);
        let mut events = open_script();
        let mut m: usize = 0;
        assert(start.population =~= culled(start.population, 0));
        while m < size - keep
            invariant
                start.wf(),
                start.seeded(),
                size == start.population_size,
                keep == start.num_fit_to_keep,
                stage == start.stage(Step::RemoveUnfit),
                snapshots == culling_snapshots(start.population, keep as nat),
                label@ == label_of(Step::RemoveUnfit),
                m <= size - keep,
                self@ == start.with_population(culled(start.population, m as nat)),
                tale(events@) == narration(stage, snapshots, m as nat),
            decreases size - keep - m,
        {
            let i = size - 1 - m;
            self.turn(i);
            self.render(label.as_str(), &mut events);
            self.turn(i);
            self.set_seen(i, Visibility::Invisible);
            assert(self@.population =~= culled(start.population, (m + 1) as nat));
            m += 1;
        }
        self.render(label.as_str(), &mut events);
        close_script(&mut events);
        events
    }
}

} // verus!
