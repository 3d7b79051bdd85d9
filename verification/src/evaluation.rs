//! The phase that computes fitness: every candidate that has no score yet
//! is scored against the target and coloured, one after the other.

use crate::candidate::{spotlight, CandidateModel};
use crate::genetics::match_count;
use crate::script::{
    close_script, lemma_narration_of_prefix, narration, open_script, script, tale, Event,
};
use crate::state::{fits, State};
use crate::step::{label_of, Step};
use vstd::prelude::*;

verus! {

/// The population with those of its first `j` candidates scored and
/// coloured that had no score.
pub open spec fn evaluated(population: Seq<CandidateModel>, target: Seq<char>, j: nat) -> Seq<
    CandidateModel,
> {
    Seq::new(
        population.len(),
        |i: int|
            if i < j && population[i].fitness < 0 {
                population[i].scored(target)
            } else {
                population[i]
            },
    )
}

/// What the phase shows while it goes through the first `j` candidates: for
/// each one that had no score, the population as evaluated up to and
/// including it, with that candidate in the spotlight.
pub open spec fn evaluation_steps(
    population: Seq<CandidateModel>,
    target: Seq<char>,
    j: nat,
) -> Seq<Seq<CandidateModel>>
    decreases j,
{
    if j == 0 {
        Seq::empty()
    } else {
        let earlier = evaluation_steps(population, target, (j - 1) as nat);
        if population[j - 1].fitness < 0 {
            earlier.push(spotlight(evaluated(population, target, j), j - 1))
        } else {
            earlier
        }
    }
}

/// What the phase shows in all: its steps through the whole population,
/// and at the end the population with everyone scored.
pub open spec fn evaluation_snapshots(population: Seq<CandidateModel>, target: Seq<char>) -> Seq<
    Seq<CandidateModel>,
> {
    evaluation_steps(population, target, population.len()).push(
        evaluated(population, target, population.len()),
    )
}

/// Whether every candidate's fitness is the number of positions at which
/// its genome matches `target`.
pub open spec fn all_scored(population: Seq<CandidateModel>, target: Seq<char>) -> bool {
    forall|i: int|
        0 <= i < population.len() ==> (#[trigger] population[i]).fitness == match_count(
            population[i].text,
            target,
        )
}

/// Evaluation settles: a population that has been evaluated stays as it
/// is when it is evaluated again.
pub proof fn lemma_evaluated_once_is_enough(population: Seq<CandidateModel>, target: Seq<char>)
    ensures
        evaluated(
            evaluated(population, target, population.len()),
            target,
            population.len(),
        ) == evaluated(population, target, population.len()),
{
    let once = evaluated(population, target, population.len());
    assert(evaluated(once, target, population.len()) =~= once);
}

impl State {
    /// Scores and colours every candidate that has no score yet, and tells
    /// how it went. Afterwards every candidate's fitness is the number of
    /// positions at which its genome matches the target.
    pub fn compute_fitness(&mut self) -> (events: Vec<Event>)
        requires
            old(self)@.wf(),
            old(self)@.seeded(),
        ensures
            final(self)@.wf(),
            final(self)@ == old(self)@.with_population(
                evaluated(
                    old(self)@.population,
                    old(self)@.target,
                    old(self)@.population.len(),
                ),
            ),
            all_scored(final(self)@.population, final(self)@.target),
            tale(events@) == script(
                old(self)@.stage(Step::ComputeFitness),
                evaluation_snapshots(old(self)@.population, old(self)@.target),
            ),
    {
        let label = Step::ComputeFitness.label();
        let size = self.population_size();
        let ghost start = self@;
        let ghost stage = start.stage(Step::ComputeFitness);
        let ghost mut shown: Seq<Seq<CandidateModel>> = Seq::empty();
        let mut events = open_script();
        let mut j: usize = 0;
        assert(start.population =~= evaluated(start.population, start.target, 0));
        while j < size
            invariant
                start.wf(),
                start.seeded(),
                size == start.population_size,
                stage == start.stage(Step::ComputeFitness),
                label@ == label_of(Step::ComputeFitness),
                j <= size,
                self@ == start.with_population(evaluated(start.population, start.target, j as nat)),
                shown == evaluation_steps(start.population, start.target, j as nat),
                tale(events@) == narration(stage, shown, shown.len()),
            decreases size - j,
        {
            if self.candidate(j).fitness() < 0 {
                self.turn(j);
                self.score_at(j);
                self.render(label.as_str(), &mut events);
                proof {
                    let longer = shown.push(self@.population);
                    lemma_narration_of_prefix(stage, shown, longer, shown.len());
                    assert(self@.population =~= spotlight(
                        evaluated(start.population, start.target, (j + 1) as nat),
                        j as int,
                    ));
                    shown = longer;
                }
                self.turn(j);
            }
            assert(self@.population =~= evaluated(start.population, start.target, (j + 1) as nat));
            j += 1;
        }
        self.render(label.as_str(), &mut events);
        proof {
            let all = evaluation_snapshots(start.population, start.target);
            lemma_narration_of_prefix(stage, shown, all, shown.len());
            assert forall|i: int| 0 <= i < self@.population.len() implies (
            #[trigger] self@.population[i]).fitness == match_count(
                self@.population[i].text,
                self@.target,
            ) && self@.population[i].text.len() == self@.target.len() by {
                assert(fits(start.population[i], start.target));
            }
        }
        close_script(&mut events);
        events
    }
}

} // verus!
