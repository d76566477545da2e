//! Short-ranged pairwise potentials: functional forms, their forces, and
//! the analytic long-range tail correction of the truncated forms.

use crate::fx;
use crate::fx::{fx_div, fx_mul, fx_sub};
use vstd::prelude::*;

verus! {

/// 2.0 at the fixed-point scale.
pub const FX_TWO: i128 = 2199023255552;

/// 4.0 at the fixed-point scale.
pub const FX_FOUR: i128 = 4398046511104;

/// 24.0 at the fixed-point scale.
pub const FX_24: i128 = 26388279066624;

/// 0.5 at the fixed-point scale.
pub const FX_HALF: i128 = 549755813888;

/// 1/3 at the fixed-point scale, truncated.
pub const FX_THIRD: i128 = 366503875925;

/// 8*pi/3 at the fixed-point scale.
pub const FX_EIGHT_PI_THIRD: i128 = 9211247072954;

/// A short-ranged pairwise potential, as a function of the pair distance.
#[derive(Clone, Copy, Debug, PartialEq, Eq, Structural)]
pub enum PairPotential {
    /// No interaction at any distance.
    NullPotential,
    /// Lennard-Jones: `4 eps ((sigma/r)^12 - (sigma/r)^6)`.
    LennardJones { sigma: i128, epsilon: i128 },
    /// Harmonic well: `k/2 (r - x0)^2`.
    Harmonic { k: i128, x0: i128 },
}

/// The parameters are representable; widths and length scales are
/// non-negative.
pub open spec fn pot_ok(p: PairPotential) -> bool {
    match p {
        PairPotential::NullPotential => true,
        PairPotential::LennardJones { sigma, epsilon } => 0 <= sigma <= fx::FX_BOUND && fx::fx_ok(
            epsilon,
        ),
        PairPotential::Harmonic { k, x0 } => fx::fx_ok(k) && fx::fx_ok(x0),
    }
}

/// Energy of a pair at distance `r`. At vanishing distance the divergent
/// forms saturate, the fixed-point analogue of the infinity a float
/// implementation would return; nothing is clamped below saturation.
pub open spec fn pot_energy_s(p: PairPotential, r: int) -> int {
    match p {
        PairPotential::NullPotential => 0,
        PairPotential::LennardJones { sigma, epsilon } => {
            let s2 = lj_s2(sigma as int, r);
            let s6 = fx_mul(fx_mul(s2, s2), s2);
            let s12 = fx_mul(s6, s6);
            fx_mul(FX_FOUR as int, fx_mul(epsilon as int, fx_sub(s12, s6)))
        },
        PairPotential::Harmonic { k, x0 } => {
            let d = fx_sub(r, x0 as int);
            fx_mul(FX_HALF as int, fx_mul(k as int, fx_mul(d, d)))
        },
    }
}

/// `(sigma/r)^2` for the Lennard-Jones form.
pub open spec fn lj_s2(sigma: int, r: int) -> int {
    let s = fx_div(sigma, r);
    fx_mul(s, s)
}

/// Radial force of a pair at distance `r`, as `-d(energy)/dr`: positive
/// where the pair repels.
pub open spec fn pot_force_s(p: PairPotential, r: int) -> int {
    match p {
        PairPotential::NullPotential => 0,
        PairPotential::LennardJones { sigma, epsilon } => {
            let s2 = lj_s2(sigma as int, r);
            let s6 = fx_mul(fx_mul(s2, s2), s2);
            let s12 = fx_mul(s6, s6);
            fx_div(
                fx_mul(FX_24 as int, fx_mul(epsilon as int, fx_sub(fx_mul(FX_TWO as int, s12), s6))),
                r,
            )
        },
        PairPotential::Harmonic { k, x0 } => fx_mul(k as int, fx_sub(x0 as int, r)),
    }
}

/// Analytic tail correction of the energy for a potential truncated at
/// `rc`, per unit pair density: `(8 pi / 3) eps sigma^3 ((sigma/rc)^9 / 3
/// - (sigma/rc)^3)` for Lennard-Jones; the other forms are short-ranged
/// or unbounded and carry no tail.
pub open spec fn pot_tail_s(p: PairPotential, rc: int) -> int {
    match p {
        PairPotential::LennardJones { sigma, epsilon } => {
            let sc = fx_div(sigma as int, rc);
            let sc3 = fx_mul(fx_mul(sc, sc), sc);
            let sc9 = fx_mul(fx_mul(sc3, sc3), sc3);
            let pref = fx_mul(
                FX_EIGHT_PI_THIRD as int,
                fx_mul(epsilon as int, fx_mul(fx_mul(sigma as int, sigma as int), sigma as int)),
            );
            fx_mul(pref, fx_sub(fx_mul(FX_THIRD as int, sc9), sc3))
        },
        _ => 0,
    }
}

impl PairPotential {
    /// Energy at distance `r`.
    pub fn energy(&self, r: i128) -> (e: i128)
        requires
            pot_ok(*self),
            fx::fx_ok(r),
        ensures
            e == pot_energy_s(*self, r as int),
            fx::fx_ok(e),
    {
        match *self {
            PairPotential::NullPotential => 0,
            PairPotential::LennardJones { sigma, epsilon } => {
                let s = fx::div(sigma, r);
                let s2 = fx::mul(s, s);
                let s6 = fx::mul(fx::mul(s2, s2), s2);
                let s12 = fx::mul(s6, s6);
                fx::mul(FX_FOUR, fx::mul(epsilon, fx::sub(s12, s6)))
            },
            PairPotential::Harmonic { k, x0 } => {
                let d = fx::sub(r, x0);
                fx::mul(FX_HALF, fx::mul(k, fx::mul(d, d)))
            },
        }
    }

    /// Radial force at distance `r`.
    pub fn force(&self, r: i128) -> (f: i128)
        requires
            pot_ok(*self),
            fx::fx_ok(r),
        ensures
            f == pot_force_s(*self, r as int),
            fx::fx_ok(f),
    {
        match *self {
            PairPotential::NullPotential => 0,
            PairPotential::LennardJones { sigma, epsilon } => {
                let s = fx::div(sigma, r);
                let s2 = fx::mul(s, s);
                let s6 = fx::mul(fx::mul(s2, s2), s2);
                let s12 = fx::mul(s6, s6);
                fx::div(fx::mul(FX_24, fx::mul(epsilon, fx::sub(fx::mul(FX_TWO, s12), s6))), r)
            },
            PairPotential::Harmonic { k, x0 } => fx::mul(k, fx::sub(x0, r)),
        }
    }

    /// Tail correction per unit pair density for a cutoff at `rc`.
    pub fn tail_energy(&self, rc: i128) -> (t: i128)
        requires
            pot_ok(*self),
            fx::fx_ok(rc),
        ensures
            t == pot_tail_s(*self, rc as int),
            fx::fx_ok(t),
    {
        match *self {
            PairPotential::LennardJones { sigma, epsilon } => {
                let sc = fx::div(sigma, rc);
                let sc3 = fx::mul(fx::mul(sc, sc), sc);
                let sc9 = fx::mul(fx::mul(sc3, sc3), sc3);
                let pref = fx::mul(
                    FX_EIGHT_PI_THIRD,
                    fx::mul(epsilon, fx::mul(fx::mul(sigma, sigma), sigma)),
                );
                fx::mul(pref, fx::sub(fx::mul(FX_THIRD, sc9), sc3))
            },
            _ => 0,
        }
    }
}

/// Which pairs of particles an interaction applies to.
#[derive(Clone, Copy, Debug, PartialEq, Eq, Structural)]
pub enum PairRestriction {
    /// Every pair interacts.
    NoRestriction,
    /// Pairs within one molecule are excluded.
    ExcludeIntraMolecular,
    /// Pairs in two different molecules are excluded.
    ExcludeInterMolecular,
    /// Directly bonded pairs are excluded.
    ExcludeBonded,
}

/// One registered pairwise interaction: a type-pair key (by kind index),
/// a potential, its cutoff radius, a pair restriction, and whether the
/// analytic tail correction is added.
#[derive(Clone, Copy, Debug, PartialEq, Eq, Structural)]
pub struct PairInteraction {
    pub ki: u32,
    pub kj: u32,
    pub potential: PairPotential,
    pub cutoff: i128,
    pub restriction: PairRestriction,
    pub tail: bool,
}

/// The entry's parameters are representable and its cutoff positive.
pub open spec fn inter_ok(e: PairInteraction) -> bool {
    pot_ok(e.potential) && 0 < e.cutoff <= fx::FX_BOUND
}

/// Does the entry key match the unordered kind pair `(a, b)`?
pub open spec fn inter_matches(e: PairInteraction, a: int, b: int) -> bool {
    (e.ki == a && e.kj == b) || (e.ki == b && e.kj == a)
}

} // verus!
