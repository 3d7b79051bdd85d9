//! Evolves a population of random strings toward a fixed target and narrates
//! every phase of the run as a script of terminal frames and pauses.
//!
//! A [`simulation::Simulation`] is a phase machine over a [`state::State`]:
//! seeding, evaluation, ranking, culling and breeding follow each other
//! until the fittest candidate is the target. Each phase changes the
//! population and returns the [`script::Event`]s that show how it went; to
//! print the frames and to keep the pauses is left to the caller.
//!
//! Randomness comes from a [`random::RandomSource`], the escape sequences
//! that colour a frame from [`terminal`]. Probabilities are counted in
//! chances out of [`genetics::FULL_RATE`].

pub mod breeding;
pub mod candidate;
pub mod culling;
pub mod error;
pub mod evaluation;
pub mod genetics;
pub mod layout;
pub mod random;
pub mod ranking;
pub mod script;
pub mod seeding;
pub mod simulation;
pub mod state;
pub mod step;
pub mod terminal;
pub mod text;
