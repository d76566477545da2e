//! The simulated system: unit cell, particles, molecules and the
//! registered interactions.

pub mod cell;
pub mod chfl;
pub mod system;

pub use self::cell::{CellShape, UnitCell};
pub use self::chfl::apply_particle_permutation;
pub use self::system::{Particle, System};

use vstd::prelude::*;

verus! {

/// A configuration rejected at construction time, before any energy is
/// computed from it.
#[derive(Clone, Copy, Debug, PartialEq, Eq, Structural)]
pub enum ConfigError {
    /// A cell length was not a positive representable value.
    NonPositiveCell,
    /// A cutoff radius was not a positive representable value.
    NonPositiveCutoff,
    /// A cutoff radius was larger than half the shortest cell vector, so
    /// the minimum-image convention would be wrong.
    CutoffTooLarge,
    /// A splitting or damping parameter was not positive.
    NonPositiveSplitting,
    /// A particle index was out of range.
    IndexOutOfRange,
    /// The requested reciprocal-space extent is beyond the supported
    /// limit.
    ReciprocalSpaceTooLarge,
    /// The interaction table is at its supported size.
    InteractionTableFull,
}

} // verus!
