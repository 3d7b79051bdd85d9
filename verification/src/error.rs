//! The conditions that stop a run.

use vstd::prelude::*;

verus! {

/// Why a run cannot start or go on.
#[derive(Debug, Clone, Copy, PartialEq, Eq, Structural)]
pub enum SimulationError {
    /// The run parameters do not describe a run.
    Configuration,
    /// Breeding needs two distinct parents, and fewer survivors are kept.
    InvalidSampleSize,
    /// A genome is not as long as the target, or as its partner.
    LengthMismatch,
}

} // verus!
