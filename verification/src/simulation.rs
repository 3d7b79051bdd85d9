//! The phase machine: it takes a population from seeding through
//! evaluation, ranking, culling and breeding, round after round, until the
//! fittest candidate is the target.

use crate::breeding::{breeding_outcome, children_unscored, survivors_kept};
use crate::candidate::CandidateModel;
use crate::culling::{culled, culling_snapshots};
use crate::evaluation::{all_scored, evaluated, evaluation_snapshots};
use crate::genetics::{lemma_score_range, lemma_top_score_is_target};
use crate::layout::{banner, grid_width, headline, listing_text, summary, summary_text};
use crate::random::RandomSource;
use crate::ranking::{ranked, ranking_script, rearranges};
use crate::script::{open_script, script, show, tale, Event, EventModel};
use crate::seeding::{reveal_snapshots, revealed, seeded_from};
use crate::state::{fits, valid_parameters, StateModel};
pub use crate::state::{SimulationError, State};
use crate::step::label_of;
pub use crate::step::Step;
use crate::terminal::clear_code;
use vstd::prelude::*;

verus! {

/// The symbols that genomes are made of unless a run names its own: the
/// lowercase letters and the blank.
pub open spec fn default_alphabet() -> Seq<char> {
    "abcdefghijklmnopqrstuvwxyz "@
}

/// A simulation as a mathematical value.
pub struct SimulationModel {
    pub state: StateModel,
    pub step: Step,
    pub iterations: nat,
}

impl SimulationModel {
    /// The validity of a simulation: its state is valid, the population is
    /// complete once seeding is over, everyone is scored when ranking is
    /// due, and the end is only ever reached with the target in first
    /// place.
    pub open spec fn wf(self) -> bool {
        &&& self.state.wf()
        &&& self.step != Step::SeedPopulation ==> self.state.seeded()
        &&& self.step == Step::OrderByFitness ==> all_scored(
            self.state.population,
            self.state.target,
        )
        &&& self.step == Step::SimulationEnd ==> self.state.population[0].text == self.state.target
    }
}

/// The phase that follows `step`, given the state that `step` left behind.
/// Ranking leads to the end if the candidate in first place scores as many
/// matches as the target is long, and to culling if it does not. The end
/// is final.
pub open spec fn next_step(step: Step, after: StateModel) -> Step {
    match step {
        Step::SeedPopulation => Step::ComputeFitness,
        Step::ComputeFitness => Step::OrderByFitness,
        Step::OrderByFitness => if after.population[0].fitness == after.target.len() {
            Step::SimulationEnd
        } else {
            Step::RemoveUnfit
        },
        Step::RemoveUnfit => Step::BreedNew,
        Step::BreedNew => Step::ComputeFitness,
        Step::SimulationEnd => Step::SimulationEnd,
    }
}

/// The count of iterations once `step` is over: breeding starts a new one,
/// unless the count has reached the largest number it can hold.
pub open spec fn next_iterations(step: Step, iterations: nat) -> nat {
    if step == Step::BreedNew && iterations < usize::MAX {
        iterations + 1
    } else {
        iterations
    }
}

/// What the end of a run shows: the screen is cleared, then come the
/// headline and the summary that names the candidate in first place.
pub open spec fn closing_events(simulation: SimulationModel) -> Seq<EventModel> {
    let state = simulation.state;
    let width = grid_width(state.target, state.num_columns);
    seq![
        EventModel::Show(clear_code()),
        EventModel::Show(banner(label_of(Step::SimulationEnd), width)),
        EventModel::Show(
            summary_text(
                state.population[0].text,
                simulation.iterations,
                width,
                state.population_size / state.num_columns,
            ),
        ),
    ]
}

/// Whether the phase that `before` stands at can leave the state `after`
/// behind and tell of it in `events`.
pub open spec fn phase_outcome(
    before: SimulationModel,
    after: StateModel,
    events: Seq<EventModel>,
) -> bool {
    let state = before.state;
    let stage = state.stage(before.step);
    match before.step {
        Step::SeedPopulation => exists|seeded: Seq<CandidateModel>|
            {
                &&& #[trigger] seeded_from(
                    seeded,
                    state.population,
                    state.population_size,
                    state.target.len(),
                    state.alphabet,
                )
                &&& after == state.with_population(revealed(seeded, seeded.len()))
                &&& events == script(stage, reveal_snapshots(seeded))
            },
        Step::ComputeFitness => {
            &&& after == state.with_population(
                evaluated(state.population, state.target, state.population.len()),
            )
            &&& all_scored(after.population, after.target)
            &&& events == script(stage, evaluation_snapshots(state.population, state.target))
        },
        Step::OrderByFitness => {
            &&& after == state.with_population(after.population)
            &&& ranked(after.population)
            &&& rearranges(after.population, state.population)
            &&& all_scored(state.population, state.target) ==> all_scored(
                after.population,
                after.target,
            )
            &&& ranking_script(events, stage, state.population, after.population)
            &&& ranked(state.population) ==> {
                &&& after.population == state.population
                &&& events == script(stage, seq![state.population])
            }
        },
        Step::RemoveUnfit => {
            &&& after == state.with_population(
                culled(
                    state.population,
                    (state.population_size - state.num_fit_to_keep) as nat,
                ),
            )
            &&& events == script(stage, culling_snapshots(state.population, state.num_fit_to_keep))
        },
        Step::BreedNew => {
            &&& after == state.with_population(after.population)
            &&& breeding_outcome(events, state, after.population)
            &&& survivors_kept(after.population, state.population, state.num_fit_to_keep)
            &&& children_unscored(after.population, state.num_fit_to_keep, state.target.len())
        },
        Step::SimulationEnd => {
            &&& after == state
            &&& events == closing_events(before)
        },
    }
}

/// The default alphabet has twenty-seven symbols.
pub proof fn lemma_default_alphabet()
    ensures
        default_alphabet().len() == 27,
{
    reveal_strlit("abcdefghijklmnopqrstuvwxyz ");
}

/// A simulation that has reached its end holds the target: the genome of
/// its first candidate is the target, symbol for symbol.
pub proof fn lemma_end_holds_target(simulation: SimulationModel)
    requires
        simulation.wf(),
        simulation.step == Step::SimulationEnd,
    ensures
        exists|i: int|
            0 <= i < simulation.state.population.len() && (
            #[trigger] simulation.state.population[i]).text == simulation.state.target,
{
}

/// The end is entered from ranking alone, and only over a first candidate
/// whose genome is the target.
pub proof fn lemma_end_entered_by_target(step: Step, after: StateModel)
    requires
        after.wf(),
        after.seeded(),
        step != Step::SimulationEnd,
        next_step(step, after) == Step::SimulationEnd,
    ensures
        step == Step::OrderByFitness,
        after.population[0].text == after.target,
{
    let best = after.population[0];
    lemma_top_score_is_target(best.text, after.target);
}

/// After a ranking of candidates that are all scored, the end comes exactly
/// when some genome of the population is the target.
pub proof fn lemma_end_exactly_on_target(after: StateModel)
    requires
        after.wf(),
        after.seeded(),
        all_scored(after.population, after.target),
        ranked(after.population),
    ensures
        next_step(Step::OrderByFitness, after) == Step::SimulationEnd <==> exists|i: int|
            0 <= i < after.population.len() && (#[trigger] after.population[i]).text
                == after.target,
{
    let best = after.population[0];
    lemma_top_score_is_target(best.text, after.target);
    if exists|i: int|
        0 <= i < after.population.len() && (#[trigger] after.population[i]).text == after.target {
        let i = choose|i: int|
            0 <= i < after.population.len() && (#[trigger] after.population[i]).text
                == after.target;
        let found = after.population[i];
        lemma_top_score_is_target(found.text, after.target);
        lemma_score_range(best.text, after.target);
    }
}

/// A run: its state, the phase it stands at, and the count of iterations.
pub struct Simulation {
    state: State,
    step: Step,
    iterations: usize,
}

impl View for Simulation {
    type V = SimulationModel;

    closed spec fn view(&self) -> SimulationModel {
        SimulationModel {
            state: self.state@,
            step: self.step,
            iterations: self.iterations as nat,
        }
    }
}

impl Simulation {
    /// A run toward `target_str` over the default alphabet, about to seed
    /// its population. `mutation_rate` counts the chances of mutation out
    /// of `FULL_RATE`.
    pub fn new(
        target_str: &str,
        population_size: usize,
        num_fit_to_keep: usize,
        num_columns: usize,
        mutation_rate: u32,
    ) -> (made: Result<Simulation, SimulationError>)
        ensures
            made is Ok <==> valid_parameters(
                target_str@,
                default_alphabet(),
                population_size as nat,
                num_fit_to_keep as nat,
                num_columns as nat,
                mutation_rate as nat,
            ),
            match made {
                Ok(simulation) => {
                    &&& simulation@.wf()
                    &&& simulation@ == (SimulationModel {
                        state: StateModel {
                            target: target_str@,
                            alphabet: default_alphabet(),
                            population_size: population_size as nat,
                            num_fit_to_keep: num_fit_to_keep as nat,
                            num_columns: num_columns as nat,
                            mutation_rate: mutation_rate as nat,
                            population: Seq::empty(),
                        },
                        step: Step::SeedPopulation,
                        iterations: 1,
                    })
                },
                Err(error) => error == SimulationError::Configuration,
            },
    {
        match State::new(
            target_str,
            "abcdefghijklmnopqrstuvwxyz ",
            population_size,
            num_fit_to_keep,
            num_columns,
            mutation_rate,
        ) {
            Ok(state) => Ok(Simulation { state, step: Step::SeedPopulation, iterations: 1 }),
            Err(error) => Err(error),
        }
    }

    /// A run on a state made elsewhere, about to seed its population.
    pub fn from_state(state: State) -> (simulation: Simulation)
        requires
            state@.wf(),
        ensures
            simulation@.wf(),
            simulation@ == (SimulationModel {
                state: state@,
                step: Step::SeedPopulation,
                iterations: 1,
            }),
    {
        Simulation { state, step: Step::SeedPopulation, iterations: 1 }
    }

    /// The phase the run stands at.
    pub fn step(&self) -> (step: Step)
        ensures
            step == self@.step,
    {
        self.step
    }

    /// The count of iterations.
    pub fn iterations(&self) -> (iterations: usize)
        ensures
            iterations == self@.iterations,
    {
        self.iterations
    }

    /// The state of the run.
    pub fn state(&self) -> (state: &State)
        ensures
            state@ == self@.state,
    {
        &self.state
    }

    /// The run as it stands, for inspection: the population listed in its
    /// order, under the headline of the current phase.
    pub fn listing(&self) -> (text: String)
        requires
            self@.wf(),
        ensures
            text@ == listing_text(
                self@.state.population,
                self@.state.target,
                self@.state.num_columns,
                label_of(self@.step),
            ),
    {
        let label = self.step.label();
        self.state.listing(label.as_str())
    }

    /// What the end of the run shows.
    pub fn endcard(&self) -> (events: Vec<Event>)
        requires
            self@.state.wf(),
            self@.state.seeded(),
        ensures
            tale(events@) == closing_events(self@),
    {
        let mut events = open_script();
        let label = Step::SimulationEnd.label();
        let width = self.state.width();
        let rows = self.state.population_size() / self.state.num_columns();
        let best = self.state.candidate(0).text();
        show(&mut events, headline(label.as_str(), width));
        show(&mut events, summary(best.as_str(), self.iterations, width, rows));
        events
    }

    /// Does the work of the phase the run stands at and tells how it went.
    /// Fails, and changes nothing, if the phase is breeding and fewer than
    /// two survivors are kept.
    pub fn display(&mut self, source: &mut RandomSource) -> (outcome: Result<
        Vec<Event>,
        SimulationError,
    >)
        requires
            old(self)@.wf(),
        ensures
            final(self)@.wf(),
            final(self)@.step == old(self)@.step,
            final(self)@.iterations == old(self)@.iterations,
            outcome is Err <==> old(self)@.step == Step::BreedNew
                && old(self)@.state.num_fit_to_keep < 2,
            match outcome {
                Ok(events) => phase_outcome(old(self)@, final(self)@.state, tale(events@)),
                Err(error) => {
                    &&& error == SimulationError::InvalidSampleSize
                    &&& final(self)@ == old(self)@
                },
            },
    {
        match self.step {
            Step::SeedPopulation => {
                self.state.seed_population(source);
                Ok(self.state.reveal_population())
            },
            Step::ComputeFitness => Ok(self.state.compute_fitness()),
            Step::OrderByFitness => Ok(self.state.order_by_fitness()),
            Step::RemoveUnfit => Ok(self.state.remove_unfit()),
            Step::BreedNew => self.state.breed_new(source),
            Step::SimulationEnd => Ok(self.endcard()),
        }
    }

    /// Takes the run through the phase it stands at and on to the next
    /// one, and tells how the phase went. Fails, and changes nothing, if
    /// the phase is breeding and fewer than two survivors are kept.
    pub fn advance(&mut self, source: &mut RandomSource) -> (outcome: Result<
        Vec<Event>,
        SimulationError,
    >)
        requires
            old(self)@.wf(),
        ensures
            final(self)@.wf(),
            outcome is Err <==> old(self)@.step == Step::BreedNew
                && old(self)@.state.num_fit_to_keep < 2,
            match outcome {
                Ok(events) => {
                    &&& phase_outcome(old(self)@, final(self)@.state, tale(events@))
                    &&& final(self)@.step == next_step(old(self)@.step, final(self)@.state)
                    &&& final(self)@.iterations == next_iterations(
                        old(self)@.step,
                        old(self)@.iterations,
                    )
                },
                Err(error) => {
                    &&& error == SimulationError::InvalidSampleSize
                    &&& final(self)@ == old(self)@
                },
            },
    {
        let events = match self.display(source) {
            Ok(events) => events,
            Err(error) => {
                return Err(error);
            },
        };
        match self.step {
            Step::SeedPopulation => {
                self.step = Step::ComputeFitness;
            },
            Step::ComputeFitness => {
                self.step = Step::OrderByFitness;
            },
            Step::OrderByFitness => {
                let best = self.state.candidate(0).fitness();
                let length = self.state.target_symbols().len();
                if best >= 0 && best as usize == length {
                    proof {
                        let first = self.state@.population[0];
                        lemma_top_score_is_target(first.text, self.state@.target);
                    }
                    self.step = Step::SimulationEnd;
                } else {
                    self.step = Step::RemoveUnfit;
                }
            },
            Step::RemoveUnfit => {
                self.step = Step::BreedNew;
            },
            Step::BreedNew => {
                if self.iterations < usize::MAX {
                    self.iterations = self.iterations + 1;
                }
                self.step = Step::ComputeFitness;
            },
            Step::SimulationEnd => {},
        }
        Ok(events)
    }
}

} // verus!
