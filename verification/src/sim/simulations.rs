//! Pure decisions of the simulation driver: when an output runs, and
//! whether the system looks like it is exploding. The loop that calls
//! propagators and writes files is a driver concern outside this core.

use crate::sys::system::{sys_len, sys_ok, System};
use crate::types::vectors::Vector3D;
use vstd::math::abs;
use vstd::prelude::*;

verus! {

/// Positions beyond this point mean the simulation is likely exploding:
/// one million length units.
pub const RUNAWAY_POSITION: i128 = 1099511627776000000;

/// Velocities beyond this point mean the simulation is likely
/// exploding: one thousand length units per time unit.
pub const RUNAWAY_VELOCITY: i128 = 1099511627776000;

/// Some component of the vector exceeds the bound in magnitude.
pub open spec fn any_component_beyond(v: Vector3D, bound: int) -> bool {
    abs(v.x as int) > bound || abs(v.y as int) > bound || abs(v.z as int) > bound
}

/// A particle has run away: its position or velocity left the plausible
/// range.
pub open spec fn runaway(s: System, i: int) -> bool {
    any_component_beyond(s.particles@[i].position, RUNAWAY_POSITION as int)
        || any_component_beyond(s.particles@[i].velocity, RUNAWAY_VELOCITY as int)
}

fn vec_beyond(v: &Vector3D, bound: i128) -> (r: bool)
    requires
        crate::types::vectors::v3_ok(*v),
        bound >= 0,
    ensures
        r == any_component_beyond(*v, bound as int),
{
    let ax = crate::fx::abs_val(v.x);
    let ay = crate::fx::abs_val(v.y);
    let az = crate::fx::abs_val(v.z);
    ax > bound || ay > bound || az > bound
}

/// Whether any particle has moved or accelerated beyond the plausible
/// range, the sign a driver uses to warn that the run is exploding.
pub fn sanity_check(s: &System) -> (r: bool)
    requires
        sys_ok(*s),
    ensures
        r <==> exists|i: int| 0 <= i < sys_len(*s) && #[trigger] runaway(*s, i),
{
    let n = s.particles.len();
    let mut i: usize = 0;
    while i < n
        invariant
            0 <= i <= n,
            n == sys_len(*s),
            sys_ok(*s),
            forall|t: int| 0 <= t < i ==> !(#[trigger] runaway(*s, t)),
        decreases n - i,
    {
        let p = &s.particles[i];
        if vec_beyond(&p.position, RUNAWAY_POSITION) || vec_beyond(&p.velocity, RUNAWAY_VELOCITY) {
            proof {
                assert(runaway(*s, i as int));
            }
            return true;
        }
        i = i + 1;
    }
    false
}

/// Whether an output with the given frequency runs at this step.
pub fn output_due(step: u64, frequency: u64) -> (r: bool)
    requires
        frequency > 0,
    ensures
        r <==> (step as int) % (frequency as int) == 0,
{
    step % frequency == 0
}

} // verus!
