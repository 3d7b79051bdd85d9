//! The phases of a run.

use vstd::prelude::*;
use vstd::string::StringExecFns;

verus! {

/// One phase of the evolutionary cycle, or its end.
#[derive(Debug, Clone, Copy, PartialEq, Eq, Structural)]
pub enum Step {
    SeedPopulation,
    ComputeFitness,
    OrderByFitness,
    RemoveUnfit,
    BreedNew,
    SimulationEnd,
}

/// The headline under which a phase is shown.
pub open spec fn label_of(step: Step) -> Seq<char> {
    match step {
        Step::SeedPopulation => "Seeding the population"@,
        Step::ComputeFitness => "Computing fitness"@,
        Step::OrderByFitness => "Sorting by fitness"@,
        Step::RemoveUnfit => "Removing unfit candidates"@,
        Step::BreedNew => "Creating new candidates"@,
        Step::SimulationEnd => "End of the Simulation Reached!!"@,
    }
}

impl Step {
    /// The headline under which this phase is shown.
    pub fn label(&self) -> (text: String)
        ensures
            text@ == label_of(*self),
    {
        match self {
            Step::SeedPopulation => String::from_str("Seeding the population"),
            Step::ComputeFitness => String::from_str("Computing fitness"),
            Step::OrderByFitness => String::from_str("Sorting by fitness"),
            Step::RemoveUnfit => String::from_str("Removing unfit candidates"),
            Step::BreedNew => String::from_str("Creating new candidates"),
            Step::SimulationEnd => String::from_str("End of the Simulation Reached!!"),
        }
    }
}

} // verus!
