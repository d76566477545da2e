//! Configuration of the Wolf damped-shift solver: a real-space-only
//! approximation to the full periodic electrostatic sum.

use crate::energy::potentials::{PairRestriction, FX_TWO};
use crate::energy::sums::{sum1, sum_pairs};
use crate::fx;
use crate::fx::{fx_add, fx_div, fx_mul, fx_sub};
use crate::math;
use crate::math::{FX_PI, FX_SQRT_PI};
use crate::sys::system::{allowed, sys_len, sys_ok, System};
use crate::sys::ConfigError;
use vstd::prelude::*;

verus! {

/// The Wolf solver: a damped, energy-shifted pair potential with an
/// analytic self-energy correction, and no reciprocal-space work.
#[derive(Clone, Copy, Debug, PartialEq, Eq, Structural)]
pub struct Wolf {
    /// Damping parameter.
    pub alpha: i128,
    /// Real-space cutoff radius.
    pub rcut: i128,
    /// Restriction applied to the pair sum.
    pub restriction: PairRestriction,
}

/// Well-formedness of the solver parameters.
pub open spec fn wolf_ok(w: Wolf) -> bool {
    0 < w.alpha <= fx::FX_BOUND && 0 < w.rcut <= fx::FX_BOUND
}

impl Wolf {
    /// Create a solver with the given cutoff, deriving the damping
    /// parameter from the cutoff by the usual heuristic
    /// `alpha = pi / rcut`.
    pub fn new(rcut: i128) -> (r: Result<Wolf, ConfigError>)
        ensures
            r matches Ok(w) ==> wolf_ok(w) && w.rcut == rcut && w.alpha == fx::fx_div(
                FX_PI as int,
                rcut as int,
            ) && w.restriction == PairRestriction::NoRestriction,
            r is Ok <==> (0 < rcut <= fx::FX_BOUND && fx::fx_div(FX_PI as int, rcut as int) > 0),
    {
        if rcut <= 0 || rcut > fx::FX_BOUND {
            Err(ConfigError::NonPositiveCutoff)
        } else {
            let alpha = fx::div(FX_PI, rcut);
            if alpha <= 0 {
                Err(ConfigError::NonPositiveSplitting)
            } else {
                Ok(Wolf { alpha, rcut, restriction: PairRestriction::NoRestriction })
            }
        }
    }

    /// Create a solver with an explicit damping parameter, rejecting a
    /// non-positive one.
    pub fn with_alpha(rcut: i128, alpha: i128) -> (r: Result<Wolf, ConfigError>)
        ensures
            r matches Ok(w) ==> wolf_ok(w) && w.rcut == rcut && w.alpha == alpha && w.restriction
                == PairRestriction::NoRestriction,
            r is Ok <==> (0 < rcut <= fx::FX_BOUND && 0 < alpha <= fx::FX_BOUND),
    {
        if rcut <= 0 || rcut > fx::FX_BOUND {
            Err(ConfigError::NonPositiveCutoff)
        } else if alpha <= 0 || alpha > fx::FX_BOUND {
            Err(ConfigError::NonPositiveSplitting)
        } else {
            Ok(Wolf { alpha, rcut, restriction: PairRestriction::NoRestriction })
        }
    }

    /// Replace the pair restriction of the pair sum.
    pub fn with_restriction(self, restriction: PairRestriction) -> (r: Wolf)
        ensures
            r == (Wolf { restriction, ..self }),
    {
        Wolf { restriction, ..self }
    }

    /// The damping parameter.
    pub fn alpha(&self) -> (r: i128)
        ensures
            r == self.alpha,
    {
        self.alpha
    }

    /// The real-space cutoff.
    pub fn rcut(&self) -> (r: i128)
        ensures
            r == self.rcut,
    {
        self.rcut
    }
}

/// The constant shift that brings the damped pair energy to zero at the
/// cutoff: `erfc(alpha rcut) / rcut`.
pub open spec fn wolf_shift_s(w: Wolf) -> int {
    fx_div(math::fx_erfc(fx_mul(w.alpha as int, w.rcut as int)), w.rcut as int)
}

/// One damped, shifted pair term for a pair held at the given
/// positions.
pub open spec fn wolf_term_at_s(
    s: System,
    w: Wolf,
    i: int,
    j: int,
    pi: crate::types::vectors::Vec3S,
    pj: crate::types::vectors::Vec3S,
) -> int {
    if allowed(s, w.restriction, i, j) {
        let r = crate::energy::evaluator::dist_at_s(s.cell, pi, pj);
        if r < w.rcut {
            fx_mul(
                fx_mul(s.particles@[i].charge as int, s.particles@[j].charge as int),
                fx_sub(fx_div(math::fx_erfc(fx_mul(w.alpha as int, r)), r), wolf_shift_s(w)),
            )
        } else {
            0
        }
    } else {
        0
    }
}

/// One damped, shifted pair term inside the cutoff, under the solver's
/// restriction.
pub open spec fn wolf_term_s(s: System, w: Wolf, i: int, j: int) -> int {
    wolf_term_at_s(s, w, i, j, s.particles@[i].position@, s.particles@[j].position@)
}

/// Pair sum over unordered pairs.
pub open spec fn wolf_pairs_s(s: System, w: Wolf) -> int {
    sum_pairs(|i: int, j: int| wolf_term_s(s, w, i, j), 0, sys_len(s))
}

/// The per-charge self-energy coefficient:
/// `erfc(alpha rcut) / (2 rcut) + alpha / sqrt(pi)`.
pub open spec fn wolf_self_coef_s(w: Wolf) -> int {
    fx_add(
        fx_div(
            math::fx_erfc(fx_mul(w.alpha as int, w.rcut as int)),
            fx_mul(FX_TWO as int, w.rcut as int),
        ),
        fx_div(w.alpha as int, FX_SQRT_PI as int),
    )
}

/// One self-energy term, subtracted per particle.
pub open spec fn wolf_self_term_s(s: System, w: Wolf, i: int) -> int {
    -fx_mul(
        fx_mul(s.particles@[i].charge as int, s.particles@[i].charge as int),
        wolf_self_coef_s(w),
    )
}

/// Self-energy correction, summed over particles.
pub open spec fn wolf_self_s(s: System, w: Wolf) -> int {
    sum1(|i: int| wolf_self_term_s(s, w, i), 0, sys_len(s))
}

/// Total Wolf energy: the shifted pair sum and the self correction.
pub open spec fn wolf_energy_s(s: System, w: Wolf) -> int {
    wolf_pairs_s(s, w) + wolf_self_s(s, w)
}

/// One damped, shifted pair term for a pair held at the given
/// positions, executed.
pub fn wolf_term_at(
    s: &System,
    w: &Wolf,
    i: usize,
    j: usize,
    pi: &crate::types::vectors::Vector3D,
    pj: &crate::types::vectors::Vector3D,
) -> (r: i128)
    requires
        sys_ok(*s),
        wolf_ok(*w),
        i < sys_len(*s),
        j < sys_len(*s),
        crate::types::vectors::v3_ok(*pi),
        crate::types::vectors::v3_ok(*pj),
    ensures
        r == wolf_term_at_s(*s, *w, i as int, j as int, pi@, pj@),
        fx::fx_ok(r),
{
    if crate::energy::evaluator::pair_allowed(s, w.restriction, i, j) {
        let d = s.cell.min_image(pi, pj);
        let r = d.norm();
        if r < w.rcut {
            let qq = fx::mul(s.particles[i].charge, s.particles[j].charge);
            let shift = fx::div(math::erfc(fx::mul(w.alpha, w.rcut)), w.rcut);
            fx::mul(qq, fx::sub(fx::div(math::erfc(fx::mul(w.alpha, r)), r), shift))
        } else {
            0
        }
    } else {
        0
    }
}

/// One damped, shifted pair term, executed.
pub fn wolf_term(s: &System, w: &Wolf, i: usize, j: usize) -> (r: i128)
    requires
        sys_ok(*s),
        wolf_ok(*w),
        i < sys_len(*s),
        j < sys_len(*s),
    ensures
        r == wolf_term_s(*s, *w, i as int, j as int),
        fx::fx_ok(r),
{
    let pi = s.particles[i].position;
    let pj = s.particles[j].position;
    wolf_term_at(s, w, i, j, &pi, &pj)
}

/// Pair sum over unordered pairs, executed.
pub fn wolf_pairs(s: &System, w: &Wolf) -> (r: i128)
    requires
        sys_ok(*s),
        wolf_ok(*w),
    ensures
        r == wolf_pairs_s(*s, *w),
        -(1048576i128 * fx::FX_ROW_CAP) <= r <= 1048576i128 * fx::FX_ROW_CAP,
{
    let ghost tf = |i: int, j: int| wolf_term_s(*s, *w, i, j);
    let n = s.particles.len();
    let mut acc: i128 = 0;
    let mut i: usize = 0;
    while i < n
        invariant
            0 <= i <= n,
            n == sys_len(*s),
            sys_ok(*s),
            wolf_ok(*w),
            acc == sum1(|ii: int| sum1(|j: int| tf(ii, j), ii + 1, n as int), 0, i as int),
            -(i as i128 * fx::FX_ROW_CAP) <= acc <= i as i128 * fx::FX_ROW_CAP,
            tf == (|i: int, j: int| wolf_term_s(*s, *w, i, j)),
        decreases n - i,
    {
        let ghost rowf = |j: int| tf(i as int, j);
        let mut row: i128 = 0;
        let mut j: usize = i + 1;
        while j < n
            invariant
                i < j <= n,
                n == sys_len(*s),
                sys_ok(*s),
                wolf_ok(*w),
                i < n,
                row == sum1(rowf, i as int + 1, j as int),
                -((j as i128) * fx::FX_BOUND) <= row <= (j as i128) * fx::FX_BOUND,
                rowf == (|j: int| wolf_term_s(*s, *w, i as int, j)),
            decreases n - j,
        {
            let t = wolf_term(s, w, i, j);
            proof {
                assert(t == rowf(j as int));
            }
            row = row + t;
            j = j + 1;
        }
        proof {
            assert(row == sum1(|j: int| tf(i as int, j), i as int + 1, n as int)) by {
                crate::energy::sums::lemma_sum1_congruence(
                    rowf,
                    |j: int| tf(i as int, j),
                    i as int + 1,
                    n as int,
                );
            }
            assert(-(fx::FX_ROW_CAP) <= row <= fx::FX_ROW_CAP);
        }
        acc = acc + row;
        i = i + 1;
    }
    proof {
        assert(acc == sum_pairs(tf, 0, n as int));
    }
    acc
}

/// Self-energy correction, executed.
pub fn wolf_self(s: &System, w: &Wolf) -> (r: i128)
    requires
        sys_ok(*s),
        wolf_ok(*w),
    ensures
        r == wolf_self_s(*s, *w),
        -(1048576i128 * fx::FX_BOUND) <= r <= 1048576i128 * fx::FX_BOUND,
{
    let ghost f = |i: int| wolf_self_term_s(*s, *w, i);
    let n = s.particles.len();
    let coef = fx::add(
        fx::div(math::erfc(fx::mul(w.alpha, w.rcut)), fx::mul(FX_TWO, w.rcut)),
        fx::div(w.alpha, FX_SQRT_PI),
    );
    let mut acc: i128 = 0;
    let mut i: usize = 0;
    while i < n
        invariant
            0 <= i <= n,
            n == sys_len(*s),
            sys_ok(*s),
            wolf_ok(*w),
            coef == wolf_self_coef_s(*w),
            acc == sum1(f, 0, i as int),
            -(i as i128 * fx::FX_BOUND) <= acc <= i as i128 * fx::FX_BOUND,
            f == (|i: int| wolf_self_term_s(*s, *w, i)),
        decreases n - i,
    {
        let q = s.particles[i].charge;
        let t = fx::neg(fx::mul(fx::mul(q, q), coef));
        proof {
            assert(t == f(i as int));
        }
        acc = acc + t;
        i = i + 1;
    }
    acc
}

/// Total Wolf energy, executed.
pub fn wolf_energy(s: &System, w: &Wolf) -> (r: i128)
    requires
        sys_ok(*s),
        wolf_ok(*w),
    ensures
        r == wolf_energy_s(*s, *w),
        -(2097152i128 * fx::FX_ROW_CAP) <= r <= 2097152i128 * fx::FX_ROW_CAP,
{
    let p = wolf_pairs(s, w);
    let se = wolf_self(s, w);
    p + se
}

} // verus!
