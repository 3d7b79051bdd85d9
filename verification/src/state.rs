//! The population of a run together with the parameters the run was set up
//! with.

use crate::candidate::{
    all_fit, exchanged, fresh, models, spotlight, Candidate, CandidateModel, FitnessView,
    Visibility, UNSCORED,
};
pub use crate::error::SimulationError;
use crate::genetics::{lemma_match_count_in_bounded, match_count, FULL_RATE};
use crate::layout::{frame_text, grid_width, lay_out, list_out, listing_text, COLUMN_MARGIN};
use crate::script::{tale, Event, EventModel, Stage};
use crate::step::{label_of, Step};
use crate::text::{chars_of, string_of};
use vstd::prelude::*;

verus! {

/// A state as a mathematical value.
pub struct StateModel {
    pub target: Seq<char>,
    pub alphabet: Seq<char>,
    pub population_size: nat,
    pub num_fit_to_keep: nat,
    pub num_columns: nat,
    pub mutation_rate: nat,
    pub population: Seq<CandidateModel>,
}

/// Whether the five run parameters and the alphabet describe a run: a target
/// that is not empty, an alphabet to draw from, at least one survivor and
/// more candidates than survive, at least one column, and a mutation rate
/// that is at most certainty. The target and the grid must also be small
/// enough to be measured.
pub open spec fn valid_parameters(
    target: Seq<char>,
    alphabet: Seq<char>,
    population_size: nat,
    num_fit_to_keep: nat,
    num_columns: nat,
    mutation_rate: nat,
) -> bool {
    &&& 0 < target.len() <= i32::MAX
    &&& alphabet.len() > 0
    &&& 0 < num_fit_to_keep < population_size
    &&& num_columns > 0
    &&& grid_width(target, num_columns) <= usize::MAX
    &&& mutation_rate <= FULL_RATE
}

/// Whether a candidate belongs to a run on `target`: its genome has the
/// target's length, and its fitness is either not computed yet or the
/// number of positions at which the genome matches the target.
pub open spec fn fits(candidate: CandidateModel, target: Seq<char>) -> bool {
    &&& candidate.text.len() == target.len()
    &&& (candidate.fitness == UNSCORED || candidate.fitness == match_count(candidate.text, target))
}

/// The fitness of a candidate that belongs to a run lies between the mark
/// of the unscored and the length of the target.
pub proof fn lemma_fitness_range(candidate: CandidateModel, target: Seq<char>)
    requires
        fits(candidate, target),
    ensures
        UNSCORED <= candidate.fitness <= target.len(),
{
    lemma_match_count_in_bounded(candidate.text, target, candidate.text.len());
}

impl StateModel {
    /// The validity of a state: its parameters describe a run, the
    /// population is either not seeded yet or complete, and every candidate
    /// belongs to the run.
    pub open spec fn wf(self) -> bool {
        &&& valid_parameters(
            self.target,
            self.alphabet,
            self.population_size,
            self.num_fit_to_keep,
            self.num_columns,
            self.mutation_rate,
        )
        &&& (self.population.len() == 0 || self.population.len() == self.population_size)
        &&& forall|i: int|
            0 <= i < self.population.len() ==> fits(#[trigger] self.population[i], self.target)
    }

    /// Whether a frame of this state can be laid out: there are columns,
    /// the grid is small enough to be measured, and every genome is as long
    /// as the target.
    pub open spec fn drawable(self) -> bool {
        &&& self.num_columns > 0
        &&& grid_width(self.target, self.num_columns) <= usize::MAX
        &&& all_fit(self.population, self.target)
    }

    /// What the frames of phase `step` are drawn with.
    pub open spec fn stage(self, step: Step) -> Stage {
        Stage { target: self.target, columns: self.num_columns, label: label_of(step) }
    }

    /// Whether the population is complete.
    pub open spec fn seeded(self) -> bool {
        self.population.len() == self.population_size
    }

    /// The same state with another population.
    pub open spec fn with_population(self, population: Seq<CandidateModel>) -> StateModel {
        StateModel { population, ..self }
    }
}

/// The parameters of a run and its population.
pub struct State {
    target: Vec<char>,
    alphabet: Vec<char>,
    population_size: usize,
    num_fit_to_keep: usize,
    num_columns: usize,
    mutation_rate: u32,
    population: Vec<Candidate>,
}

impl View for State {
    type V = StateModel;

    closed spec fn view(&self) -> StateModel {
        StateModel {
            target: self.target@,
            alphabet: self.alphabet@,
            population_size: self.population_size as nat,
            num_fit_to_keep: self.num_fit_to_keep as nat,
            num_columns: self.num_columns as nat,
            mutation_rate: self.mutation_rate as nat,
            population: models(self.population@),
        }
    }
}

/// The fresh candidates of a list of genomes.
pub open spec fn fresh_population(genomes: Seq<String>) -> Seq<CandidateModel> {
    genomes.map_values(|genome: String| fresh(genome@))
}

/// Whether every genome of the list is as long as `target`.
pub open spec fn all_of_length(genomes: Seq<String>, target: Seq<char>) -> bool {
    forall|i: int| 0 <= i < genomes.len() ==> (#[trigger] genomes[i])@.len() == target.len()
}

/// Checks the run parameters.
pub fn check_parameters(
    target: &Vec<char>,
    alphabet: &Vec<char>,
    population_size: usize,
    num_fit_to_keep: usize,
    num_columns: usize,
    mutation_rate: u32,
) -> (valid: bool)
    ensures
        valid == valid_parameters(
            target@,
            alphabet@,
            population_size as nat,
            num_fit_to_keep as nat,
            num_columns as nat,
            mutation_rate as nat,
        ),
{
    if target.len() == 0 || target.len() > 0x7fff_ffff {
        return false;
    }
    if alphabet.len() == 0 {
        return false;
    }
    if num_fit_to_keep == 0 || num_fit_to_keep >= population_size {
        return false;
    }
    if num_columns == 0 {
        return false;
    }
    if mutation_rate > FULL_RATE {
        return false;
    }
    match (target.len() + COLUMN_MARGIN).checked_mul(num_columns) {
        Some(width) => true,
        None => false,
    }
}

impl State {
    /// A state with no population yet.
    pub fn new(
        target_str: &str,
        alphabet: &str,
        population_size: usize,
        num_fit_to_keep: usize,
        num_columns: usize,
        mutation_rate: u32,
    ) -> (made: Result<State, SimulationError>)
        ensures
            match made {
                Ok(state) => {
                    &&& state@.wf()
                    &&& state@ == (StateModel {
                        target: target_str@,
                        alphabet: alphabet@,
                        population_size: population_size as nat,
                        num_fit_to_keep: num_fit_to_keep as nat,
                        num_columns: num_columns as nat,
                        mutation_rate: mutation_rate as nat,
                        population: Seq::empty(),
                    })
                },
                Err(error) => error == SimulationError::Configuration,
            },
            made is Ok <==> valid_parameters(
                target_str@,
                alphabet@,
                population_size as nat,
                num_fit_to_keep as nat,
                num_columns as nat,
                mutation_rate as nat,
            ),
    {
        let target = chars_of(target_str);
        let alphabet = chars_of(alphabet);
        if !check_parameters(
            &target,
            &alphabet,
            population_size,
            num_fit_to_keep,
            num_columns,
            mutation_rate,
        ) {
            return Err(SimulationError::Configuration);
        }
        let state = State {
            target,
            alphabet,
            population_size,
            num_fit_to_keep,
            num_columns,
            mutation_rate,
            population: Vec::new(),
        };
        assert(state@.population =~= Seq::empty());
        Ok(state)
    }

    /// A state whose population is given: one fresh candidate for each of
    /// `genomes`, in their order.
    pub fn with_genomes(
        target_str: &str,
        alphabet: &str,
        genomes: &Vec<String>,
        num_fit_to_keep: usize,
        num_columns: usize,
        mutation_rate: u32,
    ) -> (made: Result<State, SimulationError>)
        ensures
            match made {
                Ok(state) => {
                    &&& state@.wf()
                    &&& state@.seeded()
                    &&& state@ == (StateModel {
                        target: target_str@,
                        alphabet: alphabet@,
                        population_size: genomes@.len(),
                        num_fit_to_keep: num_fit_to_keep as nat,
                        num_columns: num_columns as nat,
                        mutation_rate: mutation_rate as nat,
                        population: fresh_population(genomes@),
                    })
                },
                Err(error) => {
                    let valid = valid_parameters(
                        target_str@,
                        alphabet@,
                        genomes@.len(),
                        num_fit_to_keep as nat,
                        num_columns as nat,
                        mutation_rate as nat,
                    );
                    if valid {
                        error == SimulationError::LengthMismatch
                    } else {
                        error == SimulationError::Configuration
                    }
                },
            },
            made is Ok <==> valid_parameters(
                target_str@,
                alphabet@,
                genomes@.len(),
                num_fit_to_keep as nat,
                num_columns as nat,
                mutation_rate as nat,
            ) && all_of_length(genomes@, target_str@),
    {
        let target = chars_of(target_str);
        let symbols = chars_of(alphabet);
        if !check_parameters(
            &target,
            &symbols,
            genomes.len(),
            num_fit_to_keep,
            num_columns,
            mutation_rate,
        ) {
            return Err(SimulationError::Configuration);
        }
        let mut population: Vec<Candidate> = Vec::new();
        let mut i: usize = 0;
        while i < genomes.len()
            invariant
                i <= genomes.len(),
                target@ == target_str@,
                valid_parameters(
                    target_str@,
                    alphabet@,
                    genomes@.len(),
                    num_fit_to_keep as nat,
                    num_columns as nat,
                    mutation_rate as nat,
                ),
                population@.len() == i,
                models(population@) == fresh_population(genomes@.take(i as int)),
                all_of_length(genomes@.take(i as int), target@),
            decreases genomes.len() - i,
        {
            let genome = chars_of(genomes[i].as_str());
            if genome.len() != target.len() {
                return Err(SimulationError::LengthMismatch);
            }
            let ghost before = population@;
            population.push(Candidate::from_symbols(genome));
            assert(models(population@) =~= fresh_population(genomes@.take(i + 1))) by {
                assert forall|k: int| 0 <= k < i + 1 implies models(population@)[k]
                    == fresh_population(genomes@.take(i + 1))[k] by {
                    if k < i {
                        assert(models(before)[k] == fresh_population(genomes@.take(i as int))[k]);
                    }
                }
            }
            assert(all_of_length(genomes@.take(i + 1), target@)) by {
                assert forall|k: int| 0 <= k < i + 1 implies (#[trigger] genomes@.take(
                    i + 1,
                )[k])@.len() == target@.len() by {}
            }
            i += 1;
        }
        assert(genomes@.take(genomes@.len() as int) == genomes@);
        let state = State {
            target,
            alphabet: symbols,
            population_size: genomes.len(),
            num_fit_to_keep,
            num_columns,
            mutation_rate,
            population,
        };
        Ok(state)
    }

    /// The target of the run.
    pub fn target(&self) -> (target: String)
        ensures
            target@ == self@.target,
    {
        string_of(&self.target)
    }

    /// The target of the run, symbol by symbol.
    pub fn target_symbols(&self) -> (target: &Vec<char>)
        ensures
            target@ == self@.target,
    {
        &self.target
    }

    /// The symbols that genomes are seeded and mutated with.
    pub fn alphabet(&self) -> (alphabet: &Vec<char>)
        ensures
            alphabet@ == self@.alphabet,
    {
        &self.alphabet
    }

    /// The chances of mutation, out of `FULL_RATE`.
    pub fn mutation_rate(&self) -> (rate: u32)
        ensures
            rate == self@.mutation_rate,
    {
        self.mutation_rate
    }

    /// How many columns a frame has.
    pub fn num_columns(&self) -> (columns: usize)
        ensures
            columns == self@.num_columns,
    {
        self.num_columns
    }

    /// The candidates, in their current order.
    pub fn population(&self) -> (population: &Vec<Candidate>)
        ensures
            models(population@) == self@.population,
            population@.len() == self@.population.len(),
    {
        &self.population
    }

    /// The `i`-th candidate.
    pub fn candidate(&self, i: usize) -> (candidate: &Candidate)
        requires
            i < self@.population.len(),
        ensures
            candidate@ == self@.population[i as int],
    {
        &self.population[i]
    }

    /// How many candidates a complete population holds.
    pub fn population_size(&self) -> (size: usize)
        ensures
            size == self@.population_size,
    {
        self.population_size
    }

    /// How many candidates survive a generation.
    pub fn num_fit_to_keep(&self) -> (keep: usize)
        ensures
            keep == self@.num_fit_to_keep,
    {
        self.num_fit_to_keep
    }

    /// Adds `candidate` behind the others.
    pub(crate) fn enlist(&mut self, candidate: Candidate)
        ensures
            final(self)@ == old(self)@.with_population(old(self)@.population.push(candidate@)),
    {
        self.population.push(candidate);
        assert(models(self.population@) =~= models(old(self).population@).push(candidate@));
    }

    /// Flips the focus of the `i`-th candidate.
    pub(crate) fn turn(&mut self, i: usize)
        requires
            i < old(self)@.population.len(),
        ensures
            final(self)@ == old(self)@.with_population(spotlight(old(self)@.population, i as int)),
    {
        self.population[i].toggle_focus();
        assert(models(self.population@) =~= spotlight(models(old(self).population@), i as int));
    }

    /// Draws or blanks the `i`-th candidate.
    pub(crate) fn set_seen(&mut self, i: usize, visibility: Visibility)
        requires
            i < old(self)@.population.len(),
        ensures
            final(self)@ == old(self)@.with_population(
                old(self)@.population.update(
                    i as int,
                    old(self)@.population[i as int].seen_as(visibility),
                ),
            ),
    {
        self.population[i].set_visibility(visibility);
        assert(models(self.population@) =~= models(old(self).population@).update(
            i as int,
            models(old(self).population@)[i as int].seen_as(visibility),
        ));
    }

    /// Scores the `i`-th candidate against the target and colours it.
    pub(crate) fn score_at(&mut self, i: usize)
        requires
            i < old(self)@.population.len(),
            old(self)@.population[i as int].text.len() == old(self)@.target.len(),
            old(self)@.target.len() <= i32::MAX,
        ensures
            final(self)@ == old(self)@.with_population(
                old(self)@.population.update(
                    i as int,
                    old(self)@.population[i as int].scored(old(self)@.target),
                ),
            ),
    {
        self.population[i].score_against(&self.target);
        self.population[i].set_fitness_view(FitnessView::On);
        assert(models(self.population@) =~= models(old(self).population@).update(
            i as int,
            models(old(self).population@)[i as int].scored(self.target@),
        ));
    }

    /// Lets the `i`-th candidate and the one behind it change places.
    pub(crate) fn swap_neighbours(&mut self, i: usize)
        requires
            i + 1 < old(self)@.population.len(),
        ensures
            final(self)@ == old(self)@.with_population(
                exchanged(old(self)@.population, i as int),
            ),
    {
        assert(i + 1 < self.population.len());
        let front = self.population[i].clone();
        let back = self.population[i + 1].clone();
        self.population[i] = back;
        self.population[i + 1] = front;
        assert(models(self.population@) =~= models(old(self).population@).update(
            i as int,
            models(old(self).population@)[i + 1],
        ).update(i + 1, models(old(self).population@)[i as int]));
    }

    /// Puts `candidate` in the `i`-th place.
    pub(crate) fn install(&mut self, i: usize, candidate: Candidate)
        requires
            i < old(self)@.population.len(),
        ensures
            final(self)@ == old(self)@.with_population(
                old(self)@.population.update(i as int, candidate@),
            ),
    {
        self.population[i] = candidate;
        assert(models(self.population@) =~= models(old(self).population@).update(
            i as int,
            candidate@,
        ));
    }

    /// The width of the grid that a frame lays the population out in.
    pub fn width(&self) -> (width: usize)
        requires
            self@.drawable(),
        ensures
            width == grid_width(self@.target, self@.num_columns),
    {
        assert(self.target.len() + COLUMN_MARGIN <= usize::MAX) by (nonlinear_arith)
            requires
                (self.target.len() + COLUMN_MARGIN) * self.num_columns <= usize::MAX,
                self.num_columns > 0,
        ;
        (self.target.len() + COLUMN_MARGIN) * self.num_columns
    }

    /// One frame of the population as it stands, under `label`.
    pub fn frame(&self, label: &str) -> (text: String)
        requires
            self@.drawable(),
        ensures
            text@ == frame_text(self@.population, self@.target, self@.num_columns, label@),
    {
        lay_out(&self.population, &self.target, self.num_columns, label)
    }

    /// The population as it stands, listed in its order under `label`.
    pub fn listing(&self, label: &str) -> (text: String)
        requires
            self@.drawable(),
        ensures
            text@ == listing_text(self@.population, self@.target, self@.num_columns, label@),
    {
        list_out(&self.population, &self.target, self.num_columns, label)
    }

    /// Adds one frame of the population as it stands, and the beat that
    /// follows it, to `events`.
    pub fn render(&self, label: &str, events: &mut Vec<Event>)
        requires
            self@.drawable(),
        ensures
            tale(final(events)@) == tale(old(events)@) + seq![
                EventModel::Show(
                    frame_text(self@.population, self@.target, self@.num_columns, label@),
                ),
                EventModel::Beat,
            ],
    {
        let text = self.frame(label);
        events.push(Event::Show(text));
        events.push(Event::Beat);
    }
}

} // verus!
