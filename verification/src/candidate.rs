//! One candidate solution: a genome, its fitness, and the three flags that
//! say how a frame presents it.

use crate::error::SimulationError;
use crate::genetics::{count_matches, match_count};
use crate::terminal::{foreground_code, set_foreground, Tint};
use crate::text::{chars_of, string_of};
use vstd::prelude::*;
use vstd::string::StringExecFns;

verus! {

/// Whether a candidate is the one currently acted upon.
#[derive(Debug, Clone, Copy, PartialEq, Eq, Structural)]
pub enum Focus {
    On,
    Off,
}

/// Whether a candidate's genome is drawn or blanked.
#[derive(Debug, Clone, Copy, PartialEq, Eq, Structural)]
pub enum Visibility {
    Invisible,
    Visible,
}

/// Whether a candidate's symbols are coloured by match and mismatch.
#[derive(Debug, Clone, Copy, PartialEq, Eq, Structural)]
pub enum FitnessView {
    On,
    Off,
}

/// The fitness of a candidate that has not been scored yet.
pub const UNSCORED: i32 = -1;

/// What a candidate is, as a mathematical value.
pub struct CandidateModel {
    pub text: Seq<char>,
    pub fitness: int,
    pub in_focus: Focus,
    pub visibility: Visibility,
    pub fitness_view: FitnessView,
}

/// The other focus value.
pub open spec fn flip_focus(focus: Focus) -> Focus {
    match focus {
        Focus::On => Focus::Off,
        Focus::Off => Focus::On,
    }
}

/// The other visibility value.
pub open spec fn flip_visibility(visibility: Visibility) -> Visibility {
    match visibility {
        Visibility::Invisible => Visibility::Visible,
        Visibility::Visible => Visibility::Invisible,
    }
}

/// The other fitness-view value.
pub open spec fn flip_fitness_view(fitness_view: FitnessView) -> FitnessView {
    match fitness_view {
        FitnessView::On => FitnessView::Off,
        FitnessView::Off => FitnessView::On,
    }
}

/// A newly made candidate: unscored, out of focus, hidden, colouring off.
pub open spec fn fresh(text: Seq<char>) -> CandidateModel {
    CandidateModel {
        text,
        fitness: UNSCORED as int,
        in_focus: Focus::Off,
        visibility: Visibility::Invisible,
        fitness_view: FitnessView::Off,
    }
}

/// The two cells in front of a genome: an arrow for the candidate in focus,
/// blanks for any other.
pub open spec fn focus_marker(focus: Focus) -> Seq<char> {
    match focus {
        Focus::On => seq!['➤', ' '],
        Focus::Off => seq![' ', ' '],
    }
}

/// `n` blanks.
pub open spec fn blanks(n: nat) -> Seq<char> {
    Seq::new(n, |i: int| ' ')
}

/// The first `n` symbols of `text`, each behind the colour sequence that
/// marks it: green where it equals the target's symbol, red where it does not.
pub open spec fn coloured(text: Seq<char>, target: Seq<char>, n: nat) -> Seq<char>
    decreases n,
{
    if n == 0 {
        Seq::empty()
    } else {
        let tint = if text[n - 1] == target[n - 1] {
            Tint::Green
        } else {
            Tint::Red
        };
        coloured(text, target, (n - 1) as nat) + foreground_code(tint) + seq![text[n - 1]]
    }
}

impl CandidateModel {
    /// Whether a frame colours this candidate's symbols: only a scored
    /// candidate with the fitness view on is ever coloured.
    pub open spec fn reveals_fitness(self) -> bool {
        self.fitness >= 0 && self.fitness_view == FitnessView::On
    }

    /// The cell a frame shows for this candidate against a target of its
    /// genome's length.
    pub open spec fn display(self, target: Seq<char>) -> Seq<char> {
        if self.visibility == Visibility::Invisible {
            focus_marker(self.in_focus) + blanks(self.text.len())
        } else if !self.reveals_fitness() {
            focus_marker(self.in_focus) + self.text
        } else {
            focus_marker(self.in_focus) + coloured(self.text, target, self.text.len())
                + foreground_code(Tint::Default)
        }
    }
}

/// Scoring comes before colouring: a candidate without a score is never
/// shown coloured, whatever its fitness view says, and is drawn exactly as
/// it would be with the view off.
pub proof fn lemma_unscored_is_plain(candidate: CandidateModel, target: Seq<char>)
    requires
        candidate.fitness == UNSCORED,
    ensures
        !candidate.reveals_fitness(),
        candidate.display(target) == (CandidateModel {
            fitness_view: FitnessView::Off,
            ..candidate
        }).display(target),
{
}

/// A genome with its fitness and presentation flags.
#[derive(Debug)]
pub struct Candidate {
    genome: Vec<char>,
    fitness: i32,
    in_focus: Focus,
    visibility: Visibility,
    fitness_view: FitnessView,
}

impl View for Candidate {
    type V = CandidateModel;

    closed spec fn view(&self) -> CandidateModel {
        CandidateModel {
            text: self.genome@,
            fitness: self.fitness as int,
            in_focus: self.in_focus,
            visibility: self.visibility,
            fitness_view: self.fitness_view,
        }
    }
}

impl Clone for Candidate {
    fn clone(&self) -> (copy: Self)
        ensures
            copy@ == self@,
    {
        Candidate {
            genome: copy_symbols(&self.genome),
            fitness: self.fitness,
            in_focus: self.in_focus,
            visibility: self.visibility,
            fitness_view: self.fitness_view,
        }
    }
}

impl CandidateModel {
    /// The same candidate with its focus flipped.
    pub open spec fn turned(self) -> CandidateModel {
        CandidateModel { in_focus: flip_focus(self.in_focus), ..self }
    }

    /// The same candidate, drawn or blanked as `visibility` says.
    pub open spec fn seen_as(self, visibility: Visibility) -> CandidateModel {
        CandidateModel { visibility, ..self }
    }

    /// The same candidate, scored against `target` and coloured.
    pub open spec fn scored(self, target: Seq<char>) -> CandidateModel {
        CandidateModel {
            fitness: match_count(self.text, target) as int,
            fitness_view: FitnessView::On,
            ..self
        }
    }
}

/// The population with the focus of its `i`-th candidate flipped.
pub open spec fn spotlight(population: Seq<CandidateModel>, i: int) -> Seq<CandidateModel> {
    population.update(i, population[i].turned())
}

/// The population with its `i`-th candidate and the one behind it in each
/// other's place.
pub open spec fn exchanged(population: Seq<CandidateModel>, i: int) -> Seq<CandidateModel> {
    population.update(i, population[i + 1]).update(i + 1, population[i])
}

/// Whether every genome of `population` is as long as `target`.
pub open spec fn all_fit(population: Seq<CandidateModel>, target: Seq<char>) -> bool {
    forall|i: int|
        0 <= i < population.len() ==> (#[trigger] population[i]).text.len() == target.len()
}

/// The models of a population, candidate by candidate.
pub open spec fn models(population: Seq<Candidate>) -> Seq<CandidateModel> {
    population.map_values(|candidate: Candidate| candidate@)
}

/// A copy of `symbols`.
pub fn copy_symbols(symbols: &Vec<char>) -> (copy: Vec<char>)
    ensures
        copy@ == symbols@,
{
    let mut copy: Vec<char> = Vec::new();
    let mut i: usize = 0;
    while i < symbols.len()
        invariant
            i <= symbols.len(),
            copy@ == symbols@.take(i as int),
        decreases symbols.len() - i,
    {
        copy.push(symbols[i]);
        i += 1;
    }
    copy
}

impl Candidate {
    /// An unscored, hidden candidate for `text`.
    pub fn default(text: &str) -> (candidate: Self)
        ensures
            candidate@ == fresh(text@),
    {
        Candidate::from_symbols(chars_of(text))
    }

    /// An unscored, hidden candidate for `text`. A candidate always starts
    /// out of focus, hidden and uncoloured, whatever flags are asked for:
    /// the flags only change through the phases that narrate a run.
    pub fn new(
        text: &str,
        in_focus: Focus,
        visibility: Visibility,
        fitness_view: FitnessView,
    ) -> (candidate: Self)
        ensures
            candidate@ == fresh(text@),
    {
        Candidate::from_symbols(chars_of(text))
    }

    /// An unscored, hidden candidate that owns `genome`.
    pub fn from_symbols(genome: Vec<char>) -> (candidate: Self)
        ensures
            candidate@ == fresh(genome@),
    {
        Candidate {
            genome,
            fitness: UNSCORED,
            in_focus: Focus::Off,
            visibility: Visibility::Invisible,
            fitness_view: FitnessView::Off,
        }
    }

    /// Puts the candidate in focus if it was not, and out of it if it was.
    pub fn toggle_focus(&mut self)
        ensures
            final(self)@ == (CandidateModel {
                in_focus: flip_focus(old(self)@.in_focus),
                ..old(self)@
            }),
    {
        match self.in_focus {
            Focus::On => {
                self.in_focus = Focus::Off;
            },
            Focus::Off => {
                self.in_focus = Focus::On;
            },
        }
    }

    /// Shows the candidate if it was hidden, and hides it if it was shown.
    pub fn toggle_visibility(&mut self)
        ensures
            final(self)@ == (CandidateModel {
                visibility: flip_visibility(old(self)@.visibility),
                ..old(self)@
            }),
    {
        match self.visibility {
            Visibility::Invisible => {
                self.visibility = Visibility::Visible;
            },
            Visibility::Visible => {
                self.visibility = Visibility::Invisible;
            },
        }
    }

    /// Turns the colouring on if it was off, and off if it was on.
    pub fn toggle_fitness_view(&mut self)
        ensures
            final(self)@ == (CandidateModel {
                fitness_view: flip_fitness_view(old(self)@.fitness_view),
                ..old(self)@
            }),
    {
        match self.fitness_view {
            FitnessView::On => {
                self.fitness_view = FitnessView::Off;
            },
            FitnessView::Off => {
                self.fitness_view = FitnessView::On;
            },
        }
    }

    /// Puts the candidate in or out of focus.
    pub fn set_focus(&mut self, focus: Focus)
        ensures
            final(self)@ == (CandidateModel { in_focus: focus, ..old(self)@ }),
    {
        self.in_focus = focus;
    }

    /// Draws or blanks the candidate.
    pub fn set_visibility(&mut self, visibility: Visibility)
        ensures
            final(self)@ == (CandidateModel { visibility, ..old(self)@ }),
    {
        self.visibility = visibility;
    }

    /// Turns the colouring on or off.
    pub fn set_fitness_view(&mut self, fitness_view: FitnessView)
        ensures
            final(self)@ == (CandidateModel { fitness_view, ..old(self)@ }),
    {
        self.fitness_view = fitness_view;
    }

    /// The cell a frame shows for this candidate: the focus marker, then
    /// blanks, the plain genome, or the genome coloured against
    /// `target_str`. A target that is not as long as the genome is refused.
    pub fn display_str(&self, target_str: &str) -> (outcome: Result<String, SimulationError>)
        ensures
            outcome is Err <==> self@.text.len() != target_str@.len(),
            match outcome {
                Ok(cell) => cell@ == self@.display(target_str@),
                Err(error) => error == SimulationError::LengthMismatch,
            },
    {
        let target = chars_of(target_str);
        if self.genome.len() != target.len() {
            return Err(SimulationError::LengthMismatch);
        }
        Ok(self.cell(&target))
    }

    /// The cell a frame shows for this candidate against a target of its
    /// genome's length, already split into symbols.
    pub(crate) fn cell(&self, target: &Vec<char>) -> (cell: String)
        requires
            self@.text.len() == target@.len(),
        ensures
            cell@ == self@.display(target@),
    {
        let mut out = String::new();
        match self.in_focus {
            Focus::On => {
                out.push('➤');
            },
            Focus::Off => {
                out.push(' ');
            },
        }
        out.push(' ');
        match self.visibility {
            Visibility::Invisible => {
                let mut i: usize = 0;
                while i < self.genome.len()
                    invariant
                        i <= self.genome.len(),
                        out@ == focus_marker(self.in_focus) + blanks(i as nat),
                    decreases self.genome.len() - i,
                {
                    out.push(' ');
                    i += 1;
                }
                return out;
            },
            Visibility::Visible => {},
        }
        let plain = match self.fitness_view {
            FitnessView::On => self.fitness < 0,
            FitnessView::Off => true,
        };
        if plain {
            let mut i: usize = 0;
            while i < self.genome.len()
                invariant
                    i <= self.genome.len(),
                    out@ == focus_marker(self.in_focus) + self.genome@.take(i as int),
                decreases self.genome.len() - i,
            {
                out.push(self.genome[i]);
                i += 1;
            }
            return out;
        }
        let green = set_foreground(Tint::Green);
        let red = set_foreground(Tint::Red);
        let mut i: usize = 0;
        while i < self.genome.len()
            invariant
                i <= self.genome.len(),
                self.genome@.len() == target@.len(),
                green@ == foreground_code(Tint::Green),
                red@ == foreground_code(Tint::Red),
                out@ == focus_marker(self.in_focus) + coloured(self.genome@, target@, i as nat),
            decreases self.genome.len() - i,
        {
            if self.genome[i] == target[i] {
                out.append(green.as_str());
            } else {
                out.append(red.as_str());
            }
            out.push(self.genome[i]);
            i += 1;
        }
        let plain_again = set_foreground(Tint::Default);
        out.append(plain_again.as_str());
        out
    }

    /// The fitness: the number of matches found when the candidate was last
    /// scored, or `UNSCORED`.
    pub fn fitness(&self) -> (fitness: i32)
        ensures
            fitness == self@.fitness,
    {
        self.fitness
    }

    /// Whether the candidate is in focus.
    pub fn focus(&self) -> (focus: Focus)
        ensures
            focus == self@.in_focus,
    {
        self.in_focus
    }

    /// Whether the candidate is drawn.
    pub fn visibility(&self) -> (visibility: Visibility)
        ensures
            visibility == self@.visibility,
    {
        self.visibility
    }

    /// Whether the fitness view is on.
    pub fn fitness_view(&self) -> (fitness_view: FitnessView)
        ensures
            fitness_view == self@.fitness_view,
    {
        self.fitness_view
    }

    /// Whether a frame colours the candidate's symbols.
    pub fn reveals_fitness(&self) -> (reveals: bool)
        ensures
            reveals == self@.reveals_fitness(),
    {
        match self.fitness_view {
            FitnessView::On => self.fitness >= 0,
            FitnessView::Off => false,
        }
    }

    /// The genome as a string.
    pub fn text(&self) -> (text: String)
        ensures
            text@ == self@.text,
    {
        string_of(&self.genome)
    }

    /// The genome, symbol by symbol.
    pub fn symbols(&self) -> (genome: &Vec<char>)
        ensures
            genome@ == self@.text,
    {
        &self.genome
    }

    /// Scores the genome against `target_str` and stores the result. A
    /// target that is not as long as the genome is refused, and the
    /// candidate stays as it was. The genome must be short enough for its
    /// score to be held.
    pub fn set_fitness(&mut self, target_str: &str) -> (outcome: Result<(), SimulationError>)
        requires
            old(self)@.text.len() <= i32::MAX,
        ensures
            outcome is Err <==> old(self)@.text.len() != target_str@.len(),
            match outcome {
                Ok(_) => final(self)@ == (CandidateModel {
                    fitness: match_count(old(self)@.text, target_str@) as int,
                    ..old(self)@
                }),
                Err(error) => {
                    &&& error == SimulationError::LengthMismatch
                    &&& final(self)@ == old(self)@
                },
            },
    {
        let target = chars_of(target_str);
        if self.genome.len() != target.len() {
            return Err(SimulationError::LengthMismatch);
        }
        self.score_against(&target);
        Ok(())
    }

    /// Scores the genome against a target of its own length, already split
    /// into symbols, and stores the result.
    pub(crate) fn score_against(&mut self, target: &Vec<char>)
        requires
            old(self)@.text.len() == target@.len(),
            old(self)@.text.len() <= i32::MAX,
        ensures
            final(self)@ == (CandidateModel {
                fitness: match_count(old(self)@.text, target@) as int,
                ..old(self)@
            }),
    {
        let count = count_matches(&self.genome, target);
        proof {
            crate::genetics::lemma_match_count_in_bounded(
                self.genome@,
                target@,
                self.genome@.len(),
            );
        }
        self.fitness = count as i32;
    }
}

} // verus!
