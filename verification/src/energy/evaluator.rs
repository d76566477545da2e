//! Full-system energy evaluation: the pairwise sum with its tail
//! correction, the active long-range solver, and the `Compute`
//! observables built on them.

use crate::energy::potentials::{inter_matches, PairInteraction, PairRestriction};
use crate::energy::sums::{sum1, sum_pairs};
use crate::energy::{ewald, wolf, GlobalPotential};
use crate::fx;
use crate::math;
use crate::sys::cell::{min_image_s, CellShape};
use crate::sys::system::{allowed, sys_len, sys_ok, System};
use crate::types::vectors::{v3_dot, Vec3S, Vector3D};
use vstd::prelude::*;

verus! {

/// Minimum-image distance between two positions under a cell.
pub open spec fn dist_at_s(c: crate::sys::cell::UnitCell, pi: Vec3S, pj: Vec3S) -> int {
    let d = min_image_s(c, pi, pj);
    math::fx_sqrt(v3_dot(d, d))
}

/// Minimum-image distance between particles `i` and `j`.
pub open spec fn dist_s(s: System, i: int, j: int) -> int {
    dist_at_s(s.cell, s.particles@[i].position@, s.particles@[j].position@)
}

/// Energy of one registered interaction on one particle pair held at the
/// given positions: zero unless the entry's kinds match, its restriction
/// admits the pair, and the pair distance is below the entry's cutoff.
pub open spec fn entry_term_at_s(
    s: System,
    e: PairInteraction,
    i: int,
    j: int,
    pi: Vec3S,
    pj: Vec3S,
) -> int {
    if inter_matches(e, s.particles@[i].kind as int, s.particles@[j].kind as int) && allowed(
        s,
        e.restriction,
        i,
        j,
    ) {
        let r = dist_at_s(s.cell, pi, pj);
        if r < e.cutoff {
            crate::energy::potentials::pot_energy_s(e.potential, r)
        } else {
            0
        }
    } else {
        0
    }
}

/// Pairwise energy of one particle pair held at the given positions.
pub open spec fn pair_term_at_s(s: System, i: int, j: int, pi: Vec3S, pj: Vec3S) -> int {
    sum1(|e: int| entry_term_at_s(s, s.pairs@[e], i, j, pi, pj), 0, s.pairs@.len() as int)
}

/// Energy of one registered interaction on one particle pair.
pub open spec fn entry_term_s(s: System, e: PairInteraction, i: int, j: int) -> int {
    entry_term_at_s(s, e, i, j, s.particles@[i].position@, s.particles@[j].position@)
}

/// Pairwise energy of one particle pair: the sum over all registered
/// interactions.
pub open spec fn pair_term_s(s: System, i: int, j: int) -> int {
    pair_term_at_s(s, i, j, s.particles@[i].position@, s.particles@[j].position@)
}

/// The pairwise term as a two-argument function, for the pair sums.
pub open spec fn pair_fn(s: System) -> spec_fn(int, int) -> int {
    |i: int, j: int| pair_term_s(s, i, j)
}

/// Total short-ranged pairwise energy: the sum over unordered pairs.
pub open spec fn pe_pairs_s(s: System) -> int {
    sum_pairs(pair_fn(s), 0, sys_len(s))
}

/// Number of particles of kind `k`.
pub open spec fn count_kind_s(s: System, k: int) -> int {
    sum1(
        |i: int|
            if s.particles@[i].kind == k {
                1int
            } else {
                0int
            },
        0,
        sys_len(s),
    )
}

/// Tail correction of one entry: the per-density analytic tail scaled by
/// the pair count density, doubled for a mixed kind pair. Without a
/// periodic cell there is no density and no tail.
pub open spec fn tail_entry_s(s: System, e: PairInteraction) -> int {
    if e.tail && s.cell.shape == CellShape::Orthorhombic {
        let v = crate::sys::cell::volume_s(s.cell);
        let ni = fx::fx_of_int(count_kind_s(s, e.ki as int));
        let nj = fx::fx_of_int(count_kind_s(s, e.kj as int));
        let dens = fx::fx_div(fx::fx_mul(ni, nj), v);
        let one = fx::fx_mul(dens, crate::energy::potentials::pot_tail_s(e.potential, e.cutoff as int));
        if e.ki == e.kj {
            one
        } else {
            2 * one
        }
    } else {
        0
    }
}

/// Total tail correction: the sum over entries with the tail flag.
pub open spec fn tail_s(s: System) -> int {
    sum1(|e: int| tail_entry_s(s, s.pairs@[e]), 0, s.pairs@.len() as int)
}

/// Energy of the active long-range solver; zero when none is installed.
pub open spec fn global_s(s: System) -> int {
    match s.global {
        Option::Some(GlobalPotential::Ewald(e)) => ewald::ewald_energy_s(s, e),
        Option::Some(GlobalPotential::Wolf(w)) => wolf::wolf_energy_s(s, w),
        Option::None => 0,
    }
}

/// Total potential energy: pairwise sum, tail correction, and the active
/// long-range solver.
pub open spec fn pe_total_s(s: System) -> int {
    pe_pairs_s(s) + tail_s(s) + global_s(s)
}

/// Kinetic energy term of one particle: `m v^2 / 2`.
pub open spec fn ke_term_s(s: System, i: int) -> int {
    fx::fx_mul(
        crate::energy::potentials::FX_HALF as int,
        fx::fx_mul(s.particles@[i].mass as int, v3_dot(s.particles@[i].velocity@, s.particles@[i].velocity@)),
    )
}

/// Total kinetic energy.
pub open spec fn ke_s(s: System) -> int {
    sum1(|i: int| ke_term_s(s, i), 0, sys_len(s))
}

/// Minimum-image distance between two particles.
pub fn dist(s: &System, i: usize, j: usize) -> (r: i128)
    requires
        sys_ok(*s),
        i < sys_len(*s),
        j < sys_len(*s),
    ensures
        r == dist_s(*s, i as int, j as int),
        fx::fx_ok(r),
        r >= 0,
{
    let d = s.cell.min_image(&s.particles[i].position, &s.particles[j].position);
    d.norm()
}

/// Decide whether a restriction admits the pair `(i, j)`.
pub fn pair_allowed(s: &System, rst: PairRestriction, i: usize, j: usize) -> (b: bool)
    requires
        sys_ok(*s),
        i < sys_len(*s),
        j < sys_len(*s),
    ensures
        b == allowed(*s, rst, i as int, j as int),
{
    match rst {
        PairRestriction::NoRestriction => true,
        PairRestriction::ExcludeIntraMolecular => self_molids_ne(s, i, j),
        PairRestriction::ExcludeInterMolecular => !self_molids_ne(s, i, j),
        PairRestriction::ExcludeBonded => {
            let nb = s.bonds.len();
            let mut t: usize = 0;
            let mut found: bool = false;
            while t < nb
                invariant
                    0 <= t <= nb,
                    nb == s.bonds@.len(),
                    i < sys_len(*s) && j < sys_len(*s),
                    found <==> exists|k: int|
                        0 <= k < t && ((#[trigger] s.bonds@[k]).0 == i as int && s.bonds@[k].1
                            == j as int || (s.bonds@[k].0 == j as int && s.bonds@[k].1 == i as int)),
                decreases nb - t,
            {
                let b = s.bonds[t];
                if (b.0 == i && b.1 == j) || (b.0 == j && b.1 == i) {
                    found = true;
                }
                t = t + 1;
            }
            !found
        },
    }
}

fn self_molids_ne(s: &System, i: usize, j: usize) -> (b: bool)
    requires
        sys_ok(*s),
        i < sys_len(*s),
        j < sys_len(*s),
    ensures
        b == (s.molids@[i as int] != s.molids@[j as int]),
{
    s.molids[i] != s.molids[j]
}

/// Pairwise energy of one particle pair held at the given positions,
/// over all registered interactions.
pub fn pair_energy_at(s: &System, i: usize, j: usize, pi: &Vector3D, pj: &Vector3D) -> (r: i128)
    requires
        sys_ok(*s),
        i < sys_len(*s),
        j < sys_len(*s),
        crate::types::vectors::v3_ok(*pi),
        crate::types::vectors::v3_ok(*pj),
    ensures
        r == pair_term_at_s(*s, i as int, j as int, pi@, pj@),
        -(fx::FX_PAIR_CAP) <= r <= fx::FX_PAIR_CAP,
{
    let ghost f = |e: int| entry_term_at_s(*s, s.pairs@[e], i as int, j as int, pi@, pj@);
    let ne = s.pairs.len();
    let mut acc: i128 = 0;
    let mut e: usize = 0;
    while e < ne
        invariant
            0 <= e <= ne,
            ne == s.pairs@.len() <= 1024,
            sys_ok(*s),
            i < sys_len(*s) && j < sys_len(*s),
            crate::types::vectors::v3_ok(*pi) && crate::types::vectors::v3_ok(*pj),
            acc == sum1(f, 0, e as int),
            -(e as i128 * fx::FX_BOUND) <= acc <= e as i128 * fx::FX_BOUND,
            f == (|e: int| entry_term_at_s(*s, s.pairs@[e], i as int, j as int, pi@, pj@)),
        decreases ne - e,
    {
        let en = s.pairs[e];
        let ki = s.particles[i].kind;
        let kj = s.particles[j].kind;
        let term: i128 = if ((en.ki == ki && en.kj == kj) || (en.ki == kj && en.kj == ki))
            && pair_allowed(s, en.restriction, i, j) {
            let d = s.cell.min_image(pi, pj);
            let r = d.norm();
            if r < en.cutoff {
                en.potential.energy(r)
            } else {
                0
            }
        } else {
            0
        };
        proof {
            assert(term == f(e as int));
        }
        acc = acc + term;
        e = e + 1;
    }
    acc
}

/// Pairwise energy of one particle pair over all registered
/// interactions.
pub fn pair_energy(s: &System, i: usize, j: usize) -> (r: i128)
    requires
        sys_ok(*s),
        i < sys_len(*s),
        j < sys_len(*s),
    ensures
        r == pair_term_s(*s, i as int, j as int),
        -(fx::FX_PAIR_CAP) <= r <= fx::FX_PAIR_CAP,
{
    let pi = s.particles[i].position;
    let pj = s.particles[j].position;
    pair_energy_at(s, i, j, &pi, &pj)
}

/// Total short-ranged pairwise energy, executed as a triangular loop.
pub fn pe_pairs(s: &System) -> (r: i128)
    requires
        sys_ok(*s),
    ensures
        r == pe_pairs_s(*s),
        -(1048576i128 * fx::FX_PAIR_ROW_CAP) <= r <= 1048576i128 * fx::FX_PAIR_ROW_CAP,
{
    let ghost tf = pair_fn(*s);
    let n = s.particles.len();
    let mut acc: i128 = 0;
    let mut i: usize = 0;
    while i < n
        invariant
            0 <= i <= n,
            n == sys_len(*s),
            sys_ok(*s),
            acc == sum1(|ii: int| sum1(|j: int| tf(ii, j), ii + 1, n as int), 0, i as int),
            -(i as i128 * fx::FX_PAIR_ROW_CAP) <= acc <= i as i128 * fx::FX_PAIR_ROW_CAP,
            tf == pair_fn(*s),
        decreases n - i,
    {
        let ghost rowf = |j: int| tf(i as int, j);
        let mut row: i128 = 0;
        let mut j: usize = i + 1;
        while j < n
            invariant
                i < j <= n,
                n == sys_len(*s),
                sys_ok(*s),
                i < n,
                row == sum1(rowf, i as int + 1, j as int),
                -((j as i128) * fx::FX_PAIR_CAP) <= row <= (j as i128) * fx::FX_PAIR_CAP,
                rowf == (|j: int| pair_term_s(*s, i as int, j)),
                tf == pair_fn(*s),
            decreases n - j,
        {
            let t = pair_energy(s, i, j);
            proof {
                assert(t == rowf(j as int));
            }
            row = row + t;
            j = j + 1;
        }
        proof {
            assert(row == sum1(|j: int| tf(i as int, j), i as int + 1, n as int)) by {
                crate::energy::sums::lemma_sum1_congruence(
                    rowf,
                    |j: int| tf(i as int, j),
                    i as int + 1,
                    n as int,
                );
            }
            assert(-(fx::FX_PAIR_ROW_CAP) <= row <= fx::FX_PAIR_ROW_CAP);
        }
        acc = acc + row;
        i = i + 1;
    }
    proof {
        assert(acc == sum_pairs(tf, 0, n as int));
    }
    acc
}

/// Number of particles of kind `k`, executed.
pub fn count_kind(s: &System, k: u32) -> (r: usize)
    requires
        sys_ok(*s),
    ensures
        r == count_kind_s(*s, k as int),
        r <= sys_len(*s),
{
    let ghost f = |i: int|
        if s.particles@[i].kind == k as int {
            1int
        } else {
            0int
        };
    let n = s.particles.len();
    let mut c: usize = 0;
    let mut i: usize = 0;
    while i < n
        invariant
            0 <= i <= n,
            n == sys_len(*s),
            sys_ok(*s),
            c == sum1(f, 0, i as int),
            c <= i,
            f == (|i: int|
                if s.particles@[i].kind == k as int {
                    1int
                } else {
                    0int
                }),
        decreases n - i,
    {
        if s.particles[i].kind == k {
            c = c + 1;
        }
        proof {
            assert(sum1(f, 0, i as int + 1) == sum1(f, 0, i as int) + f(i as int));
        }
        i = i + 1;
    }
    c
}

/// Tail correction of one registered interaction, executed.
pub fn tail_entry(s: &System, en: &PairInteraction) -> (r: i128)
    requires
        sys_ok(*s),
        crate::energy::potentials::inter_ok(*en),
    ensures
        r == tail_entry_s(*s, *en),
        fx::fx_ok(r) || r == 2 * fx::fx_mul(
            fx::fx_div(
                fx::fx_mul(
                    fx::fx_of_int(count_kind_s(*s, en.ki as int)),
                    fx::fx_of_int(count_kind_s(*s, en.kj as int)),
                ),
                crate::sys::cell::volume_s(s.cell),
            ),
            crate::energy::potentials::pot_tail_s(en.potential, en.cutoff as int),
        ),
        -(fx::FX_BOUND2) <= r <= fx::FX_BOUND2,
{
    let is_ortho = match s.cell.shape() {
        CellShape::Orthorhombic => true,
        CellShape::Infinite => false,
    };
    if en.tail && is_ortho {
        let v = s.cell.volume();
        let ni = fx::of_int(count_kind(s, en.ki) as i64);
        let nj = fx::of_int(count_kind(s, en.kj) as i64);
        let dens = fx::div(fx::mul(ni, nj), v);
        let one = fx::mul(dens, en.potential.tail_energy(en.cutoff));
        if en.ki == en.kj {
            one
        } else {
            2 * one
        }
    } else {
        0
    }
}

/// Total tail correction, executed.
pub fn tail_total(s: &System) -> (r: i128)
    requires
        sys_ok(*s),
    ensures
        r == tail_s(*s),
        -(2048i128 * fx::FX_BOUND2) <= r <= 2048i128 * fx::FX_BOUND2,
{
    let ghost f = |e: int| tail_entry_s(*s, s.pairs@[e]);
    let ne = s.pairs.len();
    let mut acc: i128 = 0;
    let mut e: usize = 0;
    while e < ne
        invariant
            0 <= e <= ne,
            ne == s.pairs@.len() <= 1024,
            sys_ok(*s),
            acc == sum1(f, 0, e as int),
            -(e as i128 * fx::FX_BOUND2) <= acc <= e as i128 * fx::FX_BOUND2,
            f == (|e: int| tail_entry_s(*s, s.pairs@[e])),
        decreases ne - e,
    {
        let en = s.pairs[e];
        let t = tail_entry(s, &en);
        proof {
            assert(t == f(e as int));
        }
        acc = acc + t;
        e = e + 1;
    }
    acc
}

/// Energy of the active long-range solver, executed.
pub fn global_energy(s: &System) -> (r: i128)
    requires
        sys_ok(*s),
    ensures
        r == global_s(*s),
        -(2097152i128 * fx::FX_ROW_CAP) <= r <= 2097152i128 * fx::FX_ROW_CAP,
{
    match s.global {
        Option::Some(GlobalPotential::Ewald(e)) => ewald::ewald_energy(s, &e),
        Option::Some(GlobalPotential::Wolf(w)) => wolf::wolf_energy(s, &w),
        Option::None => 0,
    }
}

/// Total potential energy: the pairwise sum, its tail correction, and
/// the active long-range solver, executed.
pub fn potential_energy(s: &System) -> (r: i128)
    requires
        sys_ok(*s),
    ensures
        r == pe_total_s(*s),
        -(8388608i128 * fx::FX_PAIR_ROW_CAP) <= r <= 8388608i128 * fx::FX_PAIR_ROW_CAP,
{
    let p = pe_pairs(s);
    let t = tail_total(s);
    let g = global_energy(s);
    p + t + g
}

/// Total kinetic energy, executed.
pub fn kinetic_energy(s: &System) -> (r: i128)
    requires
        sys_ok(*s),
    ensures
        r == ke_s(*s),
        -(1048576i128 * fx::FX_BOUND) <= r <= 1048576i128 * fx::FX_BOUND,
{
    let ghost f = |i: int| ke_term_s(*s, i);
    let n = s.particles.len();
    let mut acc: i128 = 0;
    let mut i: usize = 0;
    while i < n
        invariant
            0 <= i <= n,
            n == sys_len(*s),
            sys_ok(*s),
            acc == sum1(f, 0, i as int),
            -(i as i128 * fx::FX_BOUND) <= acc <= i as i128 * fx::FX_BOUND,
            f == (|i: int| ke_term_s(*s, i)),
        decreases n - i,
    {
        let p = &s.particles[i];
        let v2 = p.velocity.norm2();
        let t = fx::mul(crate::energy::potentials::FX_HALF, fx::mul(p.mass, v2));
        proof {
            assert(t == f(i as int));
        }
        acc = acc + t;
        i = i + 1;
    }
    acc
}

/// A property of a system, computed without modifying it.
pub trait Compute {
    /// The type of the computed property.
    type Output;

    /// Compute the property.
    fn compute(&self, system: &System) -> Self::Output
        requires
            sys_ok(*system),
    ;
}

/// Compute the potential energy of the system.
pub struct PotentialEnergy;

impl Compute for PotentialEnergy {
    type Output = i128;

    fn compute(&self, system: &System) -> (r: i128)
        ensures
            r == pe_total_s(*system),
    {
        potential_energy(system)
    }
}

/// Compute the kinetic energy of the system.
pub struct KineticEnergy;

impl Compute for KineticEnergy {
    type Output = i128;

    fn compute(&self, system: &System) -> (r: i128)
        ensures
            r == ke_s(*system),
    {
        kinetic_energy(system)
    }
}

/// Compute the total (kinetic plus potential) energy of the system.
pub struct TotalEnergy;

impl Compute for TotalEnergy {
    type Output = i128;

    fn compute(&self, system: &System) -> (r: i128)
        ensures
            r == ke_s(*system) + pe_total_s(*system),
    {
        let k = kinetic_energy(system);
        let p = potential_energy(system);
        k + p
    }
}

/// Compute the instantaneous temperature of the system, from the
/// kinetic energy: `T = 2 K / (3 N kB)`.
pub struct Temperature;

impl Compute for Temperature {
    type Output = i128;

    fn compute(&self, system: &System) -> (r: i128)
        ensures
            r == temperature_s(*system),
    {
        temperature(system)
    }
}

/// Boltzmann constant in the internal unit system.
pub const FX_K_BOLTZMANN: i128 = 914170519;

/// Instantaneous temperature: `2 K / (3 N kB)`, zero for an empty
/// system.
pub open spec fn temperature_s(s: System) -> int {
    if sys_len(s) == 0 {
        0
    } else {
        fx::fx_div(
            fx::fx_mul(crate::energy::potentials::FX_TWO as int, fx::fx_clamp(ke_s(s))),
            fx::fx_mul(
                fx::fx_mul(3 * fx::FX_SCALE as int, fx::fx_of_int(sys_len(s))),
                FX_K_BOLTZMANN as int,
            ),
        )
    }
}

/// Instantaneous temperature, executed.
pub fn temperature(s: &System) -> (r: i128)
    requires
        sys_ok(*s),
    ensures
        r == temperature_s(*s),
        fx::fx_ok(r),
{
    let n = s.particles.len();
    if n == 0 {
        0
    } else {
        let k = kinetic_energy(s);
        let kc = fx::clamp(k);
        fx::div(
            fx::mul(crate::energy::potentials::FX_TWO, kc),
            fx::mul(fx::mul(3 * fx::FX_SCALE, fx::of_int(n as i64)), FX_K_BOLTZMANN),
        )
    }
}

/// Compute the volume of the system.
pub struct Volume;

impl Compute for Volume {
    type Output = i128;

    fn compute(&self, system: &System) -> (r: i128)
        ensures
            r == crate::sys::cell::volume_s(system.cell),
    {
        system.cell.volume()
    }
}

/// 3.0 at the fixed-point scale.
pub const FX_THREE: i128 = 3298534883328;

/// Sum over the registered interactions of the radial force magnitude a
/// pair feels at distance `r`, accumulated with saturating additions.
pub open spec fn force_mag_fold(s: System, i: int, j: int, r: int, e: int) -> int
    decreases e,
{
    if e <= 0 {
        0
    } else {
        let en = s.pairs@[e - 1];
        let t = if inter_matches(en, s.particles@[i].kind as int, s.particles@[j].kind as int)
            && allowed(s, en.restriction, i, j) && r < en.cutoff {
            crate::energy::potentials::pot_force_s(en.potential, r)
        } else {
            0
        };
        fx::fx_add(force_mag_fold(s, i, j, r, e - 1), t)
    }
}

/// Force exerted on particle `i` by particle `j`: directed along the
/// minimum-image separation, positive magnitudes pushing the particles
/// apart.
pub open spec fn force_term_s(s: System, i: int, j: int) -> Vec3S {
    let d = min_image_s(s.cell, s.particles@[i].position@, s.particles@[j].position@);
    let r = math::fx_sqrt(v3_dot(d, d));
    let mag = force_mag_fold(s, i, j, r, s.pairs@.len() as int);
    let u = Vec3S { x: fx::fx_div(d.x, r), y: fx::fx_div(d.y, r), z: fx::fx_div(d.z, r) };
    crate::types::vectors::v3_scale(u, fx::fx_clamp(-mag))
}

/// Total force on particle `i`: the saturating vector sum over every
/// other particle. The long-range solvers contribute no force here; this
/// evaluator covers the short-ranged pairwise part, which is what the
/// Monte Carlo cache needs, and leaves solver forces as a documented
/// limitation.
pub open spec fn force_row_s(s: System, i: int, j: int) -> Vec3S
    decreases j,
{
    if j <= 0 {
        Vec3S { x: 0, y: 0, z: 0 }
    } else if j - 1 == i {
        force_row_s(s, i, j - 1)
    } else {
        crate::types::vectors::v3_add(force_row_s(s, i, j - 1), force_term_s(s, i, j - 1))
    }
}

/// The force a pair's interactions exert on `i`, executed.
fn force_term(s: &System, i: usize, j: usize) -> (r: Vector3D)
    requires
        sys_ok(*s),
        i < sys_len(*s),
        j < sys_len(*s),
    ensures
        r@ == force_term_s(*s, i as int, j as int),
        crate::types::vectors::v3_ok(r),
{
    let d = s.cell.min_image(&s.particles[i].position, &s.particles[j].position);
    let rr = d.norm();
    let ne = s.pairs.len();
    let mut mag: i128 = 0;
    let mut e: usize = 0;
    while e < ne
        invariant
            0 <= e <= ne,
            ne == s.pairs@.len(),
            sys_ok(*s),
            i < sys_len(*s) && j < sys_len(*s),
            fx::fx_ok(rr),
            rr == crate::energy::evaluator::dist_s(*s, i as int, j as int),
            fx::fx_ok(mag),
            mag == force_mag_fold(*s, i as int, j as int, rr as int, e as int),
        decreases ne - e,
    {
        let en = s.pairs[e];
        let ki = s.particles[i].kind;
        let kj = s.particles[j].kind;
        let t: i128 = if ((en.ki == ki && en.kj == kj) || (en.ki == kj && en.kj == ki))
            && pair_allowed(s, en.restriction, i, j) && rr < en.cutoff {
            en.potential.force(rr)
        } else {
            0
        };
        mag = fx::add(mag, t);
        e = e + 1;
    }
    let u = Vector3D { x: fx::div(d.x, rr), y: fx::div(d.y, rr), z: fx::div(d.z, rr) };
    u.scale(fx::clamp(-mag))
}

/// All per-particle forces, executed row by row.
pub fn forces(s: &System) -> (r: Vec<Vector3D>)
    requires
        sys_ok(*s),
    ensures
        r@.len() == sys_len(*s),
        forall|i: int|
            0 <= i < sys_len(*s) ==> (#[trigger] r@[i])@ == force_row_s(*s, i, sys_len(*s))
                && crate::types::vectors::v3_ok(r@[i]),
{
    let n = s.particles.len();
    let mut r: Vec<Vector3D> = Vec::new();
    let mut i: usize = 0;
    while i < n
        invariant
            0 <= i <= n,
            n == sys_len(*s),
            sys_ok(*s),
            r@.len() == i,
            forall|t: int|
                0 <= t < i ==> (#[trigger] r@[t])@ == force_row_s(*s, t, n as int)
                    && crate::types::vectors::v3_ok(r@[t]),
        decreases n - i,
    {
        let mut row = Vector3D::zero();
        let mut j: usize = 0;
        while j < n
            invariant
                0 <= j <= n,
                n == sys_len(*s),
                sys_ok(*s),
                i < n,
                crate::types::vectors::v3_ok(row),
                row@ == force_row_s(*s, i as int, j as int),
            decreases n - j,
        {
            if j != i {
                let t = force_term(s, i, j);
                row = row.add_v(&t);
            }
            j = j + 1;
        }
        r.push(row);
        i = i + 1;
    }
    r
}

/// Compute all the forces acting on the system, one vector per
/// particle.
pub struct Forces;

impl Compute for Forces {
    type Output = Vec<Vector3D>;

    fn compute(&self, system: &System) -> (r: Vec<Vector3D>)
        ensures
            r@.len() == sys_len(*system),
            forall|i: int|
                0 <= i < sys_len(*system) ==> (#[trigger] r@[i])@ == force_row_s(
                    *system,
                    i,
                    sys_len(*system),
                ),
    {
        forces(system)
    }
}

/// One pair's virial contribution, doubled as the unordered pair is
/// visited once: `2 (f(r)/r) d (x) d`.
pub open spec fn virial_term_s(s: System, i: int, j: int) -> crate::types::matrix::Mat3S {
    let d = min_image_s(s.cell, s.particles@[i].position@, s.particles@[j].position@);
    let r = math::fx_sqrt(v3_dot(d, d));
    let mag = force_mag_fold(s, i, j, r, s.pairs@.len() as int);
    let t = fx::fx_mul(crate::energy::potentials::FX_TWO as int, fx::fx_div(mag, r));
    crate::types::matrix::m3_scale(
        crate::types::matrix::Mat3S {
            m00: fx::fx_mul(d.x, d.x),
            m01: fx::fx_mul(d.x, d.y),
            m02: fx::fx_mul(d.x, d.z),
            m10: fx::fx_mul(d.y, d.x),
            m11: fx::fx_mul(d.y, d.y),
            m12: fx::fx_mul(d.y, d.z),
            m20: fx::fx_mul(d.z, d.x),
            m21: fx::fx_mul(d.z, d.y),
            m22: fx::fx_mul(d.z, d.z),
        },
        fx::fx_clamp(t),
    )
}

/// The running virial tensor after folding the pairs up to `(i, j)` in
/// row-major triangular order, with saturating entry sums.
pub open spec fn virial_fold_row(s: System, i: int, j: int) -> crate::types::matrix::Mat3S
    decreases j - i,
{
    if j <= i + 1 {
        crate::types::matrix::Mat3S {
            m00: 0,
            m01: 0,
            m02: 0,
            m10: 0,
            m11: 0,
            m12: 0,
            m20: 0,
            m21: 0,
            m22: 0,
        }
    } else {
        crate::types::matrix::m3_add(virial_fold_row(s, i, j - 1), virial_term_s(s, i, j - 1))
    }
}

/// The virial tensor folded over all rows up to `i`.
pub open spec fn virial_fold(s: System, i: int) -> crate::types::matrix::Mat3S
    decreases i,
{
    if i <= 0 {
        crate::types::matrix::Mat3S {
            m00: 0,
            m01: 0,
            m02: 0,
            m10: 0,
            m11: 0,
            m12: 0,
            m20: 0,
            m21: 0,
            m22: 0,
        }
    } else {
        crate::types::matrix::m3_add(virial_fold(s, i - 1), virial_fold_row(s, i - 1, sys_len(s)))
    }
}

/// The pairwise virial tensor, executed. As with the forces, the
/// long-range solvers and bonded terms contribute nothing here; the
/// molecular part is a documented limitation.
pub fn virial(s: &System) -> (r: crate::types::matrix::Matrix3)
    requires
        sys_ok(*s),
    ensures
        r@ == virial_fold(*s, sys_len(*s)),
        crate::types::matrix::m3_ok(r),
{
    let n = s.particles.len();
    let mut acc = crate::types::matrix::Matrix3::zero();
    let mut i: usize = 0;
    while i < n
        invariant
            0 <= i <= n,
            n == sys_len(*s),
            sys_ok(*s),
            crate::types::matrix::m3_ok(acc),
            acc@ == virial_fold(*s, i as int),
        decreases n - i,
    {
        let mut row = crate::types::matrix::Matrix3::zero();
        let mut j: usize = i + 1;
        while j < n
            invariant
                i < j <= n,
                n == sys_len(*s),
                sys_ok(*s),
                i < n,
                crate::types::matrix::m3_ok(row),
                row@ == virial_fold_row(*s, i as int, j as int),
            decreases n - j,
        {
            let d = s.cell.min_image(&s.particles[i].position, &s.particles[j].position);
            let rr = d.norm();
            let ne = s.pairs.len();
            let mut mag: i128 = 0;
            let mut e: usize = 0;
            while e < ne
                invariant
                    0 <= e <= ne,
                    ne == s.pairs@.len(),
                    sys_ok(*s),
                    i < sys_len(*s) && j < sys_len(*s),
                    fx::fx_ok(rr),
                    rr == crate::energy::evaluator::dist_s(*s, i as int, j as int),
                    fx::fx_ok(mag),
                    mag == force_mag_fold(*s, i as int, j as int, rr as int, e as int),
                decreases ne - e,
            {
                let en = s.pairs[e];
                let ki = s.particles[i].kind;
                let kj = s.particles[j].kind;
                let t: i128 = if ((en.ki == ki && en.kj == kj) || (en.ki == kj && en.kj == ki))
                    && pair_allowed(s, en.restriction, i, j) && rr < en.cutoff {
                    en.potential.force(rr)
                } else {
                    0
                };
                mag = fx::add(mag, t);
                e = e + 1;
            }
            let t = fx::mul(crate::energy::potentials::FX_TWO, fx::div(mag, rr));
            let outer = crate::types::matrix::Matrix3::new(
                fx::mul(d.x, d.x),
                fx::mul(d.x, d.y),
                fx::mul(d.x, d.z),
                fx::mul(d.y, d.x),
                fx::mul(d.y, d.y),
                fx::mul(d.y, d.z),
                fx::mul(d.z, d.x),
                fx::mul(d.z, d.y),
                fx::mul(d.z, d.z),
            );
            let term = outer.scale(fx::clamp(t));
            row = row.add_m(&term);
            j = j + 1;
        }
        acc = acc.add_m(&row);
        i = i + 1;
    }
    acc
}

/// Compute the virial tensor of the system.
pub struct Virial;

impl Compute for Virial {
    type Output = crate::types::matrix::Matrix3;

    fn compute(&self, system: &System) -> (r: crate::types::matrix::Matrix3)
        ensures
            r@ == virial_fold(*system, sys_len(*system)),
    {
        virial(system)
    }
}

/// One particle's kinetic-tensor contribution: `m v (x) v`.
pub open spec fn kin_tensor_term_s(s: System, i: int) -> crate::types::matrix::Mat3S {
    let m = s.particles@[i].mass as int;
    let v = s.particles@[i].velocity@;
    crate::types::matrix::Mat3S {
        m00: fx::fx_mul(m, fx::fx_mul(v.x, v.x)),
        m01: fx::fx_mul(m, fx::fx_mul(v.x, v.y)),
        m02: fx::fx_mul(m, fx::fx_mul(v.x, v.z)),
        m10: fx::fx_mul(m, fx::fx_mul(v.y, v.x)),
        m11: fx::fx_mul(m, fx::fx_mul(v.y, v.y)),
        m12: fx::fx_mul(m, fx::fx_mul(v.y, v.z)),
        m20: fx::fx_mul(m, fx::fx_mul(v.z, v.x)),
        m21: fx::fx_mul(m, fx::fx_mul(v.z, v.y)),
        m22: fx::fx_mul(m, fx::fx_mul(v.z, v.z)),
    }
}

/// The kinetic tensor folded over the particles.
pub open spec fn kin_tensor_fold(s: System, i: int) -> crate::types::matrix::Mat3S
    decreases i,
{
    if i <= 0 {
        crate::types::matrix::Mat3S {
            m00: 0,
            m01: 0,
            m02: 0,
            m10: 0,
            m11: 0,
            m12: 0,
            m20: 0,
            m21: 0,
            m22: 0,
        }
    } else {
        crate::types::matrix::m3_add(kin_tensor_fold(s, i - 1), kin_tensor_term_s(s, i - 1))
    }
}

/// The stress tensor: `(K - W) / V`, entry-wise, with `K` the kinetic
/// tensor and `W` the virial.
pub open spec fn stress_s(s: System) -> crate::types::matrix::Mat3S {
    let k = kin_tensor_fold(s, sys_len(s));
    let w = virial_fold(s, sys_len(s));
    crate::types::matrix::m3_scale(
        crate::types::matrix::m3_sub(k, w),
        fx::fx_div(fx::FX_SCALE as int, crate::sys::cell::volume_s(s.cell)),
    )
}

/// The stress tensor, executed.
pub fn stress(s: &System) -> (r: crate::types::matrix::Matrix3)
    requires
        sys_ok(*s),
    ensures
        r@ == stress_s(*s),
        crate::types::matrix::m3_ok(r),
{
    let n = s.particles.len();
    let mut kin = crate::types::matrix::Matrix3::zero();
    let mut i: usize = 0;
    while i < n
        invariant
            0 <= i <= n,
            n == sys_len(*s),
            sys_ok(*s),
            crate::types::matrix::m3_ok(kin),
            kin@ == kin_tensor_fold(*s, i as int),
        decreases n - i,
    {
        let p = &s.particles[i];
        let m = p.mass;
        let v = p.velocity;
        let term = crate::types::matrix::Matrix3::new(
            fx::mul(m, fx::mul(v.x, v.x)),
            fx::mul(m, fx::mul(v.x, v.y)),
            fx::mul(m, fx::mul(v.x, v.z)),
            fx::mul(m, fx::mul(v.y, v.x)),
            fx::mul(m, fx::mul(v.y, v.y)),
            fx::mul(m, fx::mul(v.y, v.z)),
            fx::mul(m, fx::mul(v.z, v.x)),
            fx::mul(m, fx::mul(v.z, v.y)),
            fx::mul(m, fx::mul(v.z, v.z)),
        );
        kin = kin.add_m(&term);
        i = i + 1;
    }
    let w = virial(s);
    let vol = s.cell.volume();
    let f = fx::div(fx::FX_SCALE, vol);
    kin.sub_m(&w).scale(f)
}

/// Compute the stress tensor of the system.
pub struct Stress;

impl Compute for Stress {
    type Output = crate::types::matrix::Matrix3;

    fn compute(&self, system: &System) -> (r: crate::types::matrix::Matrix3)
        ensures
            r@ == stress_s(*system),
    {
        stress(system)
    }
}

/// The virial pressure: `N kB T / V - tr(W) / (3 V)`.
pub open spec fn pressure_s(s: System) -> int {
    let w = virial_fold(s, sys_len(s));
    let tr = fx::fx_add(fx::fx_add(w.m00, w.m11), w.m22);
    let v = crate::sys::cell::volume_s(s.cell);
    fx::fx_sub(
        fx::fx_div(
            fx::fx_mul(fx::fx_mul(fx::fx_of_int(sys_len(s)), FX_K_BOLTZMANN as int), temperature_s(s)),
            v,
        ),
        fx::fx_div(tr, fx::fx_mul(FX_THREE as int, v)),
    )
}

/// The virial pressure, executed.
pub fn pressure(s: &System) -> (r: i128)
    requires
        sys_ok(*s),
    ensures
        r == pressure_s(*s),
        fx::fx_ok(r),
{
    let w = virial(s);
    let tr = w.trace();
    let v = s.cell.volume();
    let t = temperature(s);
    let nfx = fx::of_int(s.size() as i64);
    fx::sub(
        fx::div(fx::mul(fx::mul(nfx, FX_K_BOLTZMANN), t), v),
        fx::div(tr, fx::mul(FX_THREE, v)),
    )
}

/// Compute the virial pressure of the system.
pub struct Pressure;

impl Compute for Pressure {
    type Output = i128;

    fn compute(&self, system: &System) -> (r: i128)
        ensures
            r == pressure_s(*system),
    {
        pressure(system)
    }
}

/// Full-system evaluation in one call: total potential energy, the
/// per-particle forces, and the virial tensor, each exactly the
/// corresponding specification sum.
pub fn evaluate_full(s: &System) -> (r: (i128, Vec<Vector3D>, crate::types::matrix::Matrix3))
    requires
        sys_ok(*s),
    ensures
        r.0 == pe_total_s(*s),
        r.1@.len() == sys_len(*s),
        forall|i: int|
            0 <= i < sys_len(*s) ==> (#[trigger] r.1@[i])@ == force_row_s(*s, i, sys_len(*s)),
        r.2@ == virial_fold(*s, sys_len(*s)),
{
    let energy = potential_energy(s);
    let f = forces(s);
    let w = virial(s);
    (energy, f, w)
}

/// The pair-force magnitude is symmetric in its endpoints: every entry's
/// kind match and restriction read the unordered pair.
proof fn lemma_force_mag_fold_symmetric(s: System, i: int, j: int, r: int, e: int)
    requires
        0 <= i < sys_len(s),
        0 <= j < sys_len(s),
    ensures
        force_mag_fold(s, j, i, r, e) == force_mag_fold(s, i, j, r, e),
    decreases e,
{
    if e > 0 {
        lemma_force_mag_fold_symmetric(s, i, j, r, e - 1);
        assert(crate::sys::system::bonded(s, j, i) == crate::sys::system::bonded(s, i, j));
    }
}

/// Away from the half-cell boundary and for a pair at non-zero
/// separation, the two members feel exactly opposite forces: with the
/// minimum image antisymmetric (see
/// [`crate::sys::cell::lemma_min_image_antisymmetric`]), every component
/// of the force on `j` from `i` is the negation of the force on `i`
/// from `j`, so the pair changes no total momentum. On the exact
/// boundary both separations wrap to the same image and the two forces
/// coincide instead, which is why the hypothesis is needed.
pub proof fn lemma_force_pair_antisymmetric(s: System, i: int, j: int)
    requires
        sys_ok(s),
        0 <= i < sys_len(s),
        0 <= j < sys_len(s),
        i != j,
        min_image_s(s.cell, s.particles@[j].position@, s.particles@[i].position@) == (Vec3S {
            x: -min_image_s(s.cell, s.particles@[i].position@, s.particles@[j].position@).x,
            y: -min_image_s(s.cell, s.particles@[i].position@, s.particles@[j].position@).y,
            z: -min_image_s(s.cell, s.particles@[i].position@, s.particles@[j].position@).z,
        }),
        dist_s(s, i, j) != 0,
    ensures
        force_term_s(s, j, i) == (Vec3S {
            x: -force_term_s(s, i, j).x,
            y: -force_term_s(s, i, j).y,
            z: -force_term_s(s, i, j).z,
        }),
{
    let d = min_image_s(s.cell, s.particles@[i].position@, s.particles@[j].position@);
    let d2 = min_image_s(s.cell, s.particles@[j].position@, s.particles@[i].position@);
    assert(fx::fx_mul(d2.x, d2.x) == fx::fx_mul(d.x, d.x) && fx::fx_mul(d2.y, d2.y) == fx::fx_mul(
        d.y,
        d.y,
    ) && fx::fx_mul(d2.z, d2.z) == fx::fx_mul(d.z, d.z)) by {
        assert((-d.x) * (-d.x) == d.x * d.x && (-d.y) * (-d.y) == d.y * d.y && (-d.z) * (-d.z)
            == d.z * d.z) by (nonlinear_arith);
    }
    assert(v3_dot(d2, d2) == v3_dot(d, d));
    let r = math::fx_sqrt(v3_dot(d, d));
    lemma_force_mag_fold_symmetric(s, i, j, r, s.pairs@.len() as int);
    crate::fx::lemma_fx_div_neg_left(d.x, r);
    crate::fx::lemma_fx_div_neg_left(d.y, r);
    crate::fx::lemma_fx_div_neg_left(d.z, r);
    let mag = force_mag_fold(s, i, j, r, s.pairs@.len() as int);
    crate::fx::lemma_fx_mul_neg_left(fx::fx_div(d.x, r), fx::fx_clamp(-mag));
    crate::fx::lemma_fx_mul_neg_left(fx::fx_div(d.y, r), fx::fx_clamp(-mag));
    crate::fx::lemma_fx_mul_neg_left(fx::fx_div(d.z, r), fx::fx_clamp(-mag));
}

/// The pair-force magnitude never reads the tail flag: twin interaction
/// tables equal except in that flag give equal folds.
proof fn lemma_force_mag_fold_tail_free(s0: System, s1: System, i: int, j: int, r: int, e: int)
    requires
        sys_len(s1) == sys_len(s0),
        s1.particles@ == s0.particles@,
        s1.bonds@ == s0.bonds@,
        s1.molids@ == s0.molids@,
        s1.pairs@.len() == s0.pairs@.len(),
        forall|t: int|
            0 <= t < s0.pairs@.len() ==> {
                let e0 = s0.pairs@[t];
                let e1 = #[trigger] s1.pairs@[t];
                e1.ki == e0.ki && e1.kj == e0.kj && e1.potential == e0.potential && e1.cutoff
                    == e0.cutoff && e1.restriction == e0.restriction
            },
        0 <= i < sys_len(s0),
        0 <= j < sys_len(s0),
        e <= s0.pairs@.len(),
    ensures
        force_mag_fold(s1, i, j, r, e) == force_mag_fold(s0, i, j, r, e),
    decreases e,
{
    if e > 0 {
        lemma_force_mag_fold_tail_free(s0, s1, i, j, r, e - 1);
        assert(crate::sys::system::bonded(s1, i, j) == crate::sys::system::bonded(s0, i, j));
    }
}

/// One force row under twin interaction tables equal except in the tail
/// flag.
proof fn lemma_force_row_tail_free(s0: System, s1: System, i: int, j: int)
    requires
        sys_len(s1) == sys_len(s0),
        s1.cell == s0.cell,
        s1.particles@ == s0.particles@,
        s1.bonds@ == s0.bonds@,
        s1.molids@ == s0.molids@,
        s1.pairs@.len() == s0.pairs@.len(),
        forall|t: int|
            0 <= t < s0.pairs@.len() ==> {
                let e0 = s0.pairs@[t];
                let e1 = #[trigger] s1.pairs@[t];
                e1.ki == e0.ki && e1.kj == e0.kj && e1.potential == e0.potential && e1.cutoff
                    == e0.cutoff && e1.restriction == e0.restriction
            },
        0 <= i < sys_len(s0),
        j <= sys_len(s0),
    ensures
        force_row_s(s1, i, j) == force_row_s(s0, i, j),
    decreases j,
{
    if j > 0 {
        lemma_force_row_tail_free(s0, s1, i, j - 1);
        if j - 1 != i {
            lemma_force_mag_fold_tail_free(
                s0,
                s1,
                i,
                j - 1,
                dist_s(s0, i, j - 1),
                s0.pairs@.len() as int,
            );
        }
    }
}

/// The tail correction applies to the scalar energy alone, never to the
/// per-particle forces: toggling one registered interaction's tail flag
/// leaves every force row unchanged.
pub proof fn lemma_forces_ignore_tail(s0: System, s1: System, k: int)
    requires
        sys_ok(s0),
        sys_ok(s1),
        s1.cell == s0.cell,
        s1.particles@ == s0.particles@,
        s1.bonds@ == s0.bonds@,
        s1.molids@ == s0.molids@,
        s1.kinds@ == s0.kinds@,
        s1.global == s0.global,
        s1.pairs@.len() == s0.pairs@.len(),
        0 <= k < s0.pairs@.len(),
        forall|e: int| 0 <= e < s0.pairs@.len() && e != k ==> s1.pairs@[e] == #[trigger] s0.pairs@[e],
        s1.pairs@[k] == (crate::energy::potentials::PairInteraction {
            tail: !s0.pairs@[k].tail,
            ..s0.pairs@[k]
        }),
    ensures
        forall|i: int|
            0 <= i < sys_len(s0) ==> #[trigger] force_row_s(s1, i, sys_len(s0)) == force_row_s(
                s0,
                i,
                sys_len(s0),
            ),
{
    assert forall|i: int| 0 <= i < sys_len(s0) implies #[trigger] force_row_s(s1, i, sys_len(s0))
        == force_row_s(s0, i, sys_len(s0)) by {
        lemma_force_row_tail_free(s0, s1, i, sys_len(s0));
    }
}

} // verus!
