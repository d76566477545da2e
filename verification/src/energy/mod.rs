//! The energy model: pairwise potentials, the two long-range electrostatic
//! solvers, the full-system evaluator and the incremental energy cache.

pub mod cache;
pub mod evaluator;
pub mod ewald;
pub mod sums;
pub mod potentials;
pub mod wolf;

pub use self::cache::EnergyCache;
pub use self::evaluator::{
    evaluate_full, Compute, Forces, KineticEnergy, PotentialEnergy, Pressure, Stress, Temperature,
    TotalEnergy, Virial, Volume,
};
pub use self::ewald::Ewald;
pub use self::potentials::{PairInteraction, PairPotential, PairRestriction};
pub use self::wolf::Wolf;

use vstd::prelude::*;

verus! {

/// The active long-range electrostatic solver: an exact reciprocal-space
/// sum, or a real-space damped-shift approximation. Swapped wholesale,
/// never mutated in place.
#[derive(Clone, Copy, Debug, PartialEq, Eq, Structural)]
pub enum GlobalPotential {
    Ewald(ewald::Ewald),
    Wolf(wolf::Wolf),
}

/// Parameters of the active solver are well-formed.
pub open spec fn global_ok(g: GlobalPotential) -> bool {
    match g {
        GlobalPotential::Ewald(e) => ewald::ewald_ok(e),
        GlobalPotential::Wolf(w) => wolf::wolf_ok(w),
    }
}

/// The real-space cutoff radius of the active solver.
pub open spec fn global_cutoff(g: GlobalPotential) -> int {
    match g {
        GlobalPotential::Ewald(e) => e.rcut as int,
        GlobalPotential::Wolf(w) => w.rcut as int,
    }
}

} // verus!
