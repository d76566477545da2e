//! Convergence bookkeeping for energy minimization: the tolerance
//! criteria and the decision whether a minimization step has converged.
//! The line search that produces new configurations is a driver concern
//! and lives outside this core; it reports each step's energy and
//! largest squared force here.

use crate::fx;
use vstd::math::abs;
use vstd::prelude::*;

verus! {

/// Tolerance criteria used for energy minimization.
#[derive(Clone, Copy, Debug, PartialEq, Eq, Structural)]
pub struct Tolerance {
    /// Largest accepted energy change between two steps.
    pub energy: i128,
    /// Largest accepted squared norm of the force on any atom.
    pub force2: i128,
}

/// The convergence bookkeeping of a minimization: the last energy seen
/// and whether the run has converged.
#[derive(Clone, Copy, Debug, PartialEq, Eq, Structural)]
pub struct Minimization {
    /// Whether a previous step met one of the criteria.
    pub is_converged: bool,
    /// Potential energy after the last step.
    pub last_energy: i128,
    /// The stopping criteria.
    pub tolerance: Tolerance,
}

impl Minimization {
    /// Start a minimization with the given tolerance criteria.
    pub fn with_tolerance(tolerance: Tolerance) -> (r: Minimization)
        ensures
            r.is_converged == false,
            r.last_energy == 0,
            r.tolerance == tolerance,
    {
        Minimization { is_converged: false, last_energy: 0, tolerance }
    }

    /// Whether the minimization has converged.
    pub fn converged(&self) -> (r: bool)
        ensures
            r == self.is_converged,
    {
        self.is_converged
    }

    /// Record the initial energy at the start of a run.
    pub fn setup(&mut self, energy: i128)
        ensures
            final(self).is_converged == false,
            final(self).last_energy == energy,
            final(self).tolerance == old(self).tolerance,
    {
        self.is_converged = false;
        self.last_energy = energy;
    }

    /// Fold one minimizer step into the bookkeeping: the run converges
    /// when the largest squared force falls under the force criterion,
    /// or when the energy change since the previous step falls under the
    /// energy criterion. A converged run ignores further steps.
    pub fn propagate(&mut self, energy: i128, force2: i128)
        requires
            fx::fx_ok(energy),
            fx::fx_ok(old(self).last_energy),
        ensures
            old(self).is_converged ==> *final(self) == *old(self),
            !old(self).is_converged ==> {
                &&& final(self).last_energy == energy
                &&& final(self).tolerance == old(self).tolerance
                &&& final(self).is_converged == (force2 < old(self).tolerance.force2 || abs(
                    fx::fx_sub(old(self).last_energy as int, energy as int),
                ) < old(self).tolerance.energy)
            },
    {
        if self.is_converged {
            return ;
        }
        let mut converged = false;
        if force2 < self.tolerance.force2 {
            converged = true;
        }
        let dev = fx::abs_val(fx::sub(self.last_energy, energy));
        if dev < self.tolerance.energy {
            converged = true;
        }
        self.is_converged = converged;
        self.last_energy = energy;
    }
}

} // verus!
