//! Configuration of the Ewald summation: the splitting parameter, the
//! real-space cutoff and the reciprocal-space extent. The sums themselves
//! live with the evaluator and the energy cache.

use crate::energy::potentials::{PairRestriction, FX_FOUR};
use crate::energy::sums::{sum1, sum_pairs};
use crate::fx;
use crate::fx::{fx_add, fx_div, fx_mul};
use crate::math;
use crate::math::{FX_PI, FX_SQRT_PI, FX_TWO_PI};
use crate::sys::cell::CellShape;
use crate::sys::system::{allowed, sys_len, sys_ok, System};
use crate::sys::ConfigError;
use crate::types::vectors::{v3_dot, Vec3S};
use vstd::prelude::*;

verus! {

/// Largest accepted reciprocal-space extent: each component of a wave
/// index ranges over `[-kmax, kmax]`.
pub const KMAX_LIMIT: u32 = 64;

/// The Ewald solver: exact periodic electrostatics, split between a
/// damped real-space sum and a reciprocal-space sum over wave vectors.
#[derive(Clone, Copy, Debug, PartialEq, Eq, Structural)]
pub struct Ewald {
    /// Splitting parameter dividing real- from reciprocal-space work.
    pub eta: i128,
    /// Real-space cutoff radius.
    pub rcut: i128,
    /// Reciprocal-space extent: wave indices range over `[-kmax, kmax]`.
    pub kmax: u32,
    /// Restriction applied to the real-space pair sum.
    pub restriction: PairRestriction,
}

/// Well-formedness of the solver parameters.
pub open spec fn ewald_ok(e: Ewald) -> bool {
    0 < e.eta <= fx::FX_BOUND && 0 < e.rcut <= fx::FX_BOUND && e.kmax <= KMAX_LIMIT
}

impl Ewald {
    /// Create a solver with the given real-space cutoff and reciprocal
    /// extent, deriving the splitting parameter from the cutoff by the
    /// usual heuristic `eta = pi / rcut`.
    pub fn new(rcut: i128, kmax: u32) -> (r: Result<Ewald, ConfigError>)
        ensures
            r matches Ok(e) ==> ewald_ok(e) && e.rcut == rcut && e.kmax == kmax && e.eta
                == fx::fx_div(FX_PI as int, rcut as int) && e.restriction
                == PairRestriction::NoRestriction,
            r is Ok <==> (0 < rcut <= fx::FX_BOUND && kmax <= KMAX_LIMIT && fx::fx_div(
                FX_PI as int,
                rcut as int,
            ) > 0),
    {
        if rcut <= 0 || rcut > fx::FX_BOUND {
            Err(ConfigError::NonPositiveCutoff)
        } else if kmax > KMAX_LIMIT {
            Err(ConfigError::ReciprocalSpaceTooLarge)
        } else {
            let eta = fx::div(FX_PI, rcut);
            if eta <= 0 {
                Err(ConfigError::NonPositiveSplitting)
            } else {
                Ok(Ewald { eta, rcut, kmax, restriction: PairRestriction::NoRestriction })
            }
        }
    }

    /// Create a solver with an explicit splitting parameter, rejecting a
    /// non-positive one.
    pub fn with_eta(rcut: i128, kmax: u32, eta: i128) -> (r: Result<Ewald, ConfigError>)
        ensures
            r matches Ok(e) ==> ewald_ok(e) && e.rcut == rcut && e.kmax == kmax && e.eta == eta
                && e.restriction == PairRestriction::NoRestriction,
            r is Ok <==> (0 < rcut <= fx::FX_BOUND && kmax <= KMAX_LIMIT && 0 < eta
                <= fx::FX_BOUND),
    {
        if rcut <= 0 || rcut > fx::FX_BOUND {
            Err(ConfigError::NonPositiveCutoff)
        } else if kmax > KMAX_LIMIT {
            Err(ConfigError::ReciprocalSpaceTooLarge)
        } else if eta <= 0 || eta > fx::FX_BOUND {
            Err(ConfigError::NonPositiveSplitting)
        } else {
            Ok(Ewald { eta, rcut, kmax, restriction: PairRestriction::NoRestriction })
        }
    }

    /// Replace the pair restriction of the real-space sum.
    pub fn with_restriction(self, restriction: PairRestriction) -> (r: Ewald)
        ensures
            r == (Ewald { restriction, ..self }),
    {
        Ewald { restriction, ..self }
    }

    /// The splitting parameter.
    pub fn eta(&self) -> (r: i128)
        ensures
            r == self.eta,
    {
        self.eta
    }

    /// The real-space cutoff.
    pub fn rcut(&self) -> (r: i128)
        ensures
            r == self.rcut,
    {
        self.rcut
    }

    /// The reciprocal-space extent.
    pub fn kmax(&self) -> (r: u32)
        ensures
            r == self.kmax,
    {
        self.kmax
    }
}

/// One real-space pair term for a pair held at the given positions: the
/// damped Coulomb interaction inside the cutoff, under the solver's
/// restriction.
pub open spec fn ewald_real_term_at_s(
    s: System,
    e: Ewald,
    i: int,
    j: int,
    pi: Vec3S,
    pj: Vec3S,
) -> int {
    if allowed(s, e.restriction, i, j) {
        let r = crate::energy::evaluator::dist_at_s(s.cell, pi, pj);
        if r < e.rcut {
            fx_div(
                fx_mul(
                    fx_mul(s.particles@[i].charge as int, s.particles@[j].charge as int),
                    math::fx_erfc(fx_mul(e.eta as int, r)),
                ),
                r,
            )
        } else {
            0
        }
    } else {
        0
    }
}

/// One real-space pair term: the damped Coulomb interaction inside the
/// cutoff, under the solver's restriction.
pub open spec fn ewald_real_term_s(s: System, e: Ewald, i: int, j: int) -> int {
    ewald_real_term_at_s(s, e, i, j, s.particles@[i].position@, s.particles@[j].position@)
}

/// Real-space sum over unordered pairs.
pub open spec fn ewald_real_s(s: System, e: Ewald) -> int {
    sum_pairs(|i: int, j: int| ewald_real_term_s(s, e, i, j), 0, sys_len(s))
}

/// One self-energy term: each charge's spurious interaction with its own
/// periodic images, subtracted.
pub open spec fn ewald_self_term_s(s: System, e: Ewald, i: int) -> int {
    -fx_mul(
        fx_mul(s.particles@[i].charge as int, s.particles@[i].charge as int),
        fx_div(e.eta as int, FX_SQRT_PI as int),
    )
}

/// Self-energy correction, summed over particles.
pub open spec fn ewald_self_s(s: System, e: Ewald) -> int {
    sum1(|i: int| ewald_self_term_s(s, e, i), 0, sys_len(s))
}

/// Phase of a position for wave index `(nx, ny, nz)`, as a fraction of
/// a turn.
pub open spec fn phase_at_s(c: crate::sys::cell::UnitCell, p: Vec3S, nx: int, ny: int, nz: int) -> int {
    fx_add(
        fx_add(
            fx_mul(fx::fx_of_int(nx), fx_div(p.x, c.la as int)),
            fx_mul(fx::fx_of_int(ny), fx_div(p.y, c.lb as int)),
        ),
        fx_mul(fx::fx_of_int(nz), fx_div(p.z, c.lc as int)),
    )
}

/// Phase of particle `i` for wave index `(nx, ny, nz)`.
pub open spec fn phase_s(s: System, i: int, nx: int, ny: int, nz: int) -> int {
    phase_at_s(s.cell, s.particles@[i].position@, nx, ny, nz)
}

/// Contribution to the real part of the structure factor of particle
/// `i`'s charge held at position `p`.
pub open spec fn sk_re_term_at_s(s: System, i: int, p: Vec3S, nx: int, ny: int, nz: int) -> int {
    fx_mul(s.particles@[i].charge as int, math::fx_cos_turn(phase_at_s(s.cell, p, nx, ny, nz)))
}

/// Contribution to the imaginary part of the structure factor of
/// particle `i`'s charge held at position `p`.
pub open spec fn sk_im_term_at_s(s: System, i: int, p: Vec3S, nx: int, ny: int, nz: int) -> int {
    fx_mul(s.particles@[i].charge as int, math::fx_sin_turn(phase_at_s(s.cell, p, nx, ny, nz)))
}

/// One particle's contribution to the real part of the structure factor.
pub open spec fn sk_re_term_s(s: System, i: int, nx: int, ny: int, nz: int) -> int {
    sk_re_term_at_s(s, i, s.particles@[i].position@, nx, ny, nz)
}

/// One particle's contribution to the imaginary part of the structure
/// factor.
pub open spec fn sk_im_term_s(s: System, i: int, nx: int, ny: int, nz: int) -> int {
    sk_im_term_at_s(s, i, s.particles@[i].position@, nx, ny, nz)
}

/// Real part of the structure factor `S(k)`: a linear sum over the
/// particles, in exact integer arithmetic.
pub open spec fn sk_re_s(s: System, nx: int, ny: int, nz: int) -> int {
    sum1(|i: int| sk_re_term_s(s, i, nx, ny, nz), 0, sys_len(s))
}

/// Imaginary part of the structure factor `S(k)`.
pub open spec fn sk_im_s(s: System, nx: int, ny: int, nz: int) -> int {
    sum1(|i: int| sk_im_term_s(s, i, nx, ny, nz), 0, sys_len(s))
}

/// Width of one wave-index axis: `2 kmax + 1`.
pub open spec fn wave_w(e: Ewald) -> int {
    2 * (e.kmax as int) + 1
}

/// Number of stored wave indices: the full cube, the null index
/// included (it contributes no energy).
pub open spec fn n_waves(e: Ewald) -> int {
    wave_w(e) * wave_w(e) * wave_w(e)
}

/// First component of the wave index with ordinal `m`.
pub open spec fn dec_x(e: Ewald, m: int) -> int {
    m / (wave_w(e) * wave_w(e)) - e.kmax as int
}

/// Second component of the wave index with ordinal `m`.
pub open spec fn dec_y(e: Ewald, m: int) -> int {
    (m / wave_w(e)) % wave_w(e) - e.kmax as int
}

/// Third component of the wave index with ordinal `m`.
pub open spec fn dec_z(e: Ewald, m: int) -> int {
    m % wave_w(e) - e.kmax as int
}

/// Reciprocal-space energy of one wave index, given the two components
/// of its structure factor: `(2 pi / V) exp(-k^2 / 4 eta^2) / k^2 |S|^2`,
/// zero for the null index.
pub open spec fn recip_term_sk(s: System, e: Ewald, m: int, sre: int, sim: int) -> int {
    let nx = dec_x(e, m);
    let ny = dec_y(e, m);
    let nz = dec_z(e, m);
    if nx == 0 && ny == 0 && nz == 0 {
        0
    } else {
        let kx = fx_div(fx_mul(fx::fx_of_int(nx), FX_TWO_PI as int), s.cell.la as int);
        let ky = fx_div(fx_mul(fx::fx_of_int(ny), FX_TWO_PI as int), s.cell.lb as int);
        let kz = fx_div(fx_mul(fx::fx_of_int(nz), FX_TWO_PI as int), s.cell.lc as int);
        let k2 = fx_add(fx_add(fx_mul(kx, kx), fx_mul(ky, ky)), fx_mul(kz, kz));
        let expf = math::fx_exp_neg(
            fx_div(k2, fx_mul(FX_FOUR as int, fx_mul(e.eta as int, e.eta as int))),
        );
        let coef = fx_mul(
            fx_div(FX_TWO_PI as int, crate::sys::cell::volume_s(s.cell)),
            fx_div(expf, k2),
        );
        let a = fx::fx_clamp(sre);
        let b = fx::fx_clamp(sim);
        fx_mul(coef, fx_add(fx_mul(a, a), fx_mul(b, b)))
    }
}

/// Reciprocal-space energy of one wave index, from the system's own
/// structure factor.
pub open spec fn recip_term_s(s: System, e: Ewald, m: int) -> int {
    recip_term_sk(
        s,
        e,
        m,
        sk_re_s(s, dec_x(e, m), dec_y(e, m), dec_z(e, m)),
        sk_im_s(s, dec_x(e, m), dec_y(e, m), dec_z(e, m)),
    )
}

/// Reciprocal-space sum over all wave indices.
pub open spec fn ewald_recip_s(s: System, e: Ewald) -> int {
    sum1(|m: int| recip_term_s(s, e, m), 0, n_waves(e))
}

/// Total Ewald energy: real-space, reciprocal-space and self terms. The
/// sum needs a periodic cell; without one it is zero.
pub open spec fn ewald_energy_s(s: System, e: Ewald) -> int {
    if s.cell.shape == CellShape::Orthorhombic {
        ewald_real_s(s, e) + ewald_recip_s(s, e) + ewald_self_s(s, e)
    } else {
        0
    }
}

/// One real-space pair term for a pair held at the given positions,
/// executed.
pub fn ewald_real_term_at(
    s: &System,
    e: &Ewald,
    i: usize,
    j: usize,
    pi: &crate::types::vectors::Vector3D,
    pj: &crate::types::vectors::Vector3D,
) -> (r: i128)
    requires
        sys_ok(*s),
        ewald_ok(*e),
        i < sys_len(*s),
        j < sys_len(*s),
        crate::types::vectors::v3_ok(*pi),
        crate::types::vectors::v3_ok(*pj),
    ensures
        r == ewald_real_term_at_s(*s, *e, i as int, j as int, pi@, pj@),
        fx::fx_ok(r),
{
    if crate::energy::evaluator::pair_allowed(s, e.restriction, i, j) {
        let d = s.cell.min_image(pi, pj);
        let r = d.norm();
        if r < e.rcut {
            let qq = fx::mul(s.particles[i].charge, s.particles[j].charge);
            fx::div(fx::mul(qq, math::erfc(fx::mul(e.eta, r))), r)
        } else {
            0
        }
    } else {
        0
    }
}

/// One real-space pair term, executed.
pub fn ewald_real_term(s: &System, e: &Ewald, i: usize, j: usize) -> (r: i128)
    requires
        sys_ok(*s),
        ewald_ok(*e),
        i < sys_len(*s),
        j < sys_len(*s),
    ensures
        r == ewald_real_term_s(*s, *e, i as int, j as int),
        fx::fx_ok(r),
{
    let pi = s.particles[i].position;
    let pj = s.particles[j].position;
    ewald_real_term_at(s, e, i, j, &pi, &pj)
}

/// Real-space sum over unordered pairs, executed.
pub fn ewald_real(s: &System, e: &Ewald) -> (r: i128)
    requires
        sys_ok(*s),
        ewald_ok(*e),
    ensures
        r == ewald_real_s(*s, *e),
        -(1048576i128 * fx::FX_ROW_CAP) <= r <= 1048576i128 * fx::FX_ROW_CAP,
{
    let ghost tf = |i: int, j: int| ewald_real_term_s(*s, *e, i, j);
    let n = s.particles.len();
    let mut acc: i128 = 0;
    let mut i: usize = 0;
    while i < n
        invariant
            0 <= i <= n,
            n == sys_len(*s),
            sys_ok(*s),
            ewald_ok(*e),
            acc == sum1(|ii: int| sum1(|j: int| tf(ii, j), ii + 1, n as int), 0, i as int),
            -(i as i128 * fx::FX_ROW_CAP) <= acc <= i as i128 * fx::FX_ROW_CAP,
            tf == (|i: int, j: int| ewald_real_term_s(*s, *e, i, j)),
        decreases n - i,
    {
        let ghost rowf = |j: int| tf(i as int, j);
        let mut row: i128 = 0;
        let mut j: usize = i + 1;
        while j < n
            invariant
                i < j <= n,
                n == sys_len(*s),
                sys_ok(*s),
                ewald_ok(*e),
                i < n,
                row == sum1(rowf, i as int + 1, j as int),
                -((j as i128) * fx::FX_BOUND) <= row <= (j as i128) * fx::FX_BOUND,
                rowf == (|j: int| ewald_real_term_s(*s, *e, i as int, j)),
            decreases n - j,
        {
            let t = ewald_real_term(s, e, i, j);
            proof {
                assert(t == rowf(j as int));
            }
            row = row + t;
            j = j + 1;
        }
        proof {
            assert(row == sum1(|j: int| tf(i as int, j), i as int + 1, n as int)) by {
                crate::energy::sums::lemma_sum1_congruence(
                    rowf,
                    |j: int| tf(i as int, j),
                    i as int + 1,
                    n as int,
                );
            }
            assert(-(fx::FX_ROW_CAP) <= row <= fx::FX_ROW_CAP);
        }
        acc = acc + row;
        i = i + 1;
    }
    proof {
        assert(acc == sum_pairs(tf, 0, n as int));
    }
    acc
}

/// Self-energy correction, executed.
pub fn ewald_self(s: &System, e: &Ewald) -> (r: i128)
    requires
        sys_ok(*s),
        ewald_ok(*e),
    ensures
        r == ewald_self_s(*s, *e),
        -(1048576i128 * fx::FX_BOUND) <= r <= 1048576i128 * fx::FX_BOUND,
{
    let ghost f = |i: int| ewald_self_term_s(*s, *e, i);
    let n = s.particles.len();
    let coef = fx::div(e.eta, FX_SQRT_PI);
    let mut acc: i128 = 0;
    let mut i: usize = 0;
    while i < n
        invariant
            0 <= i <= n,
            n == sys_len(*s),
            sys_ok(*s),
            ewald_ok(*e),
            coef == fx_div(e.eta as int, FX_SQRT_PI as int),
            acc == sum1(f, 0, i as int),
            -(i as i128 * fx::FX_BOUND) <= acc <= i as i128 * fx::FX_BOUND,
            f == (|i: int| ewald_self_term_s(*s, *e, i)),
        decreases n - i,
    {
        let q = s.particles[i].charge;
        let t = fx::neg(fx::mul(fx::mul(q, q), coef));
        proof {
            assert(t == f(i as int));
        }
        acc = acc + t;
        i = i + 1;
    }
    acc
}

/// Both components of one particle's structure-factor contribution for
/// its charge held at position `p`, executed.
pub fn sk_term_at(
    s: &System,
    i: usize,
    p: &crate::types::vectors::Vector3D,
    nx: i64,
    ny: i64,
    nz: i64,
) -> (r: (i128, i128))
    requires
        sys_ok(*s),
        i < sys_len(*s),
        crate::types::vectors::v3_ok(*p),
    ensures
        r.0 == sk_re_term_at_s(*s, i as int, p@, nx as int, ny as int, nz as int),
        r.1 == sk_im_term_at_s(*s, i as int, p@, nx as int, ny as int, nz as int),
        fx::fx_ok(r.0),
        fx::fx_ok(r.1),
{
    let sx = fx::div(p.x, s.cell.la);
    let sy = fx::div(p.y, s.cell.lb);
    let sz = fx::div(p.z, s.cell.lc);
    let t = fx::add(
        fx::add(fx::mul(fx::of_int(nx), sx), fx::mul(fx::of_int(ny), sy)),
        fx::mul(fx::of_int(nz), sz),
    );
    let q = s.particles[i].charge;
    (fx::mul(q, math::cos_turn(t)), fx::mul(q, math::sin_turn(t)))
}

/// Both components of the structure factor for one wave index, executed
/// as the linear sum over particles.
pub fn sk_at(s: &System, nx: i64, ny: i64, nz: i64) -> (r: (i128, i128))
    requires
        sys_ok(*s),
    ensures
        r.0 == sk_re_s(*s, nx as int, ny as int, nz as int),
        r.1 == sk_im_s(*s, nx as int, ny as int, nz as int),
        -(sys_len(*s) * fx::FX_BOUND) <= r.0 <= sys_len(*s) * fx::FX_BOUND,
        -(sys_len(*s) * fx::FX_BOUND) <= r.1 <= sys_len(*s) * fx::FX_BOUND,
{
    let ghost fre = |i: int| sk_re_term_s(*s, i, nx as int, ny as int, nz as int);
    let ghost fim = |i: int| sk_im_term_s(*s, i, nx as int, ny as int, nz as int);
    let n = s.particles.len();
    let mut re: i128 = 0;
    let mut im: i128 = 0;
    let mut i: usize = 0;
    while i < n
        invariant
            0 <= i <= n,
            n == sys_len(*s),
            sys_ok(*s),
            re == sum1(fre, 0, i as int),
            im == sum1(fim, 0, i as int),
            -(i as i128 * fx::FX_BOUND) <= re <= i as i128 * fx::FX_BOUND,
            -(i as i128 * fx::FX_BOUND) <= im <= i as i128 * fx::FX_BOUND,
            fre == (|i: int| sk_re_term_s(*s, i, nx as int, ny as int, nz as int)),
            fim == (|i: int| sk_im_term_s(*s, i, nx as int, ny as int, nz as int)),
        decreases n - i,
    {
        let p = s.particles[i].position;
        let tt = sk_term_at(s, i, &p, nx, ny, nz);
        let tre = tt.0;
        let tim = tt.1;
        proof {
            assert(tre == fre(i as int));
            assert(tim == fim(i as int));
        }
        re = re + tre;
        im = im + tim;
        i = i + 1;
    }
    (re, im)
}

/// Reciprocal-space energy of one wave index, from given structure
/// factor components, executed.
pub fn recip_term(s: &System, e: &Ewald, m: usize, sre: i128, sim: i128) -> (r: i128)
    requires
        sys_ok(*s),
        ewald_ok(*e),
        m < n_waves(*e),
    ensures
        r == recip_term_sk(*s, *e, m as int, sre as int, sim as int),
        fx::fx_ok(r),
{
    let w: usize = 2 * (e.kmax as usize) + 1;
    let k = e.kmax as i64;
    proof {
        assert(1 <= w as int <= 129);
        assert(1 <= (w as int) * (w as int) <= 16641 && 1 <= (w as int) * (w as int) * (
        w as int) <= 2146689) by (nonlinear_arith)
            requires
                1 <= w as int <= 129,
        ;
    }
    let nx: i64 = (m / (w * w)) as i64 - k;
    let ny: i64 = ((m / w) % w) as i64 - k;
    let nz: i64 = (m % w) as i64 - k;
    proof {
        assert(w == wave_w(*e));
        assert((m as int) / ((w * w) as int) < w as int) by (nonlinear_arith)
            requires
                m < w * w * w && w > 0,
        ;
        assert(nx == dec_x(*e, m as int));
        assert(ny == dec_y(*e, m as int));
        assert(nz == dec_z(*e, m as int));
    }
    if nx == 0 && ny == 0 && nz == 0 {
        0
    } else {
        let kx = fx::div(fx::mul(fx::of_int(nx), FX_TWO_PI), s.cell.la);
        let ky = fx::div(fx::mul(fx::of_int(ny), FX_TWO_PI), s.cell.lb);
        let kz = fx::div(fx::mul(fx::of_int(nz), FX_TWO_PI), s.cell.lc);
        let k2 = fx::add(fx::add(fx::mul(kx, kx), fx::mul(ky, ky)), fx::mul(kz, kz));
        let earg = fx::div(k2, fx::mul(FX_FOUR, fx::mul(e.eta, e.eta)));
        proof {
            crate::fx::lemma_square_nonneg(kx as int, ky as int, kz as int);
            crate::fx::lemma_fx_mul_nonneg(e.eta as int, e.eta as int);
            crate::fx::lemma_fx_mul_nonneg(FX_FOUR as int, fx_mul(e.eta as int, e.eta as int));
            crate::fx::lemma_fx_div_nonneg(
                k2 as int,
                fx_mul(FX_FOUR as int, fx_mul(e.eta as int, e.eta as int)),
            );
        }
        let expf = math::exp_neg(earg);
        let vol = s.cell.volume();
        let coef = fx::mul(fx::div(FX_TWO_PI, vol), fx::div(expf, k2));
        let a = fx::clamp(sre);
        let b = fx::clamp(sim);
        fx::mul(coef, fx::add(fx::mul(a, a), fx::mul(b, b)))
    }
}

/// Reciprocal-space sum over all wave indices, executed; the structure
/// factors are recomputed from the particle positions.
#[verifier::rlimit(60)]
pub fn ewald_recip(s: &System, e: &Ewald) -> (r: i128)
    requires
        sys_ok(*s),
        ewald_ok(*e),
    ensures
        r == ewald_recip_s(*s, *e),
        -(2146689i128 * fx::FX_BOUND) <= r <= 2146689i128 * fx::FX_BOUND,
{
    let ghost f = |m: int| recip_term_s(*s, *e, m);
    let w: usize = 2 * (e.kmax as usize) + 1;
    proof {
        assert(1 <= w as int <= 129);
        assert(1 <= (w as int) * (w as int) <= 16641 && 1 <= (w as int) * (w as int) * (
        w as int) <= 2146689) by (nonlinear_arith)
            requires
                1 <= w as int <= 129,
        ;
    }
    let nw: usize = w * w * w;
    let k = e.kmax as i64;
    let mut acc: i128 = 0;
    let mut m: usize = 0;
    while m < nw
        invariant
            0 <= m <= nw,
            nw == n_waves(*e) <= 2146689,
            w == wave_w(*e),
            1 <= w as int <= 129,
            1 <= (w as int) * (w as int) <= 16641,
            nw == (w as int) * (w as int) * (w as int),
            k == e.kmax as i64,
            sys_ok(*s),
            ewald_ok(*e),
            acc == sum1(f, 0, m as int),
            -(m as i128 * fx::FX_BOUND) <= acc <= m as i128 * fx::FX_BOUND,
            f == (|m: int| recip_term_s(*s, *e, m)),
        decreases nw - m,
    {
        let nx: i64 = (m / (w * w)) as i64 - k;
        let ny: i64 = ((m / w) % w) as i64 - k;
        let nz: i64 = (m % w) as i64 - k;
        proof {
            assert((m as int) / ((w * w) as int) < w as int) by (nonlinear_arith)
                requires
                    m < w * w * w && w > 0,
            ;
            assert(nx == dec_x(*e, m as int));
            assert(ny == dec_y(*e, m as int));
            assert(nz == dec_z(*e, m as int));
        }
        let sk = sk_at(s, nx, ny, nz);
        let t = recip_term(s, e, m, sk.0, sk.1);
        proof {
            assert(t == f(m as int));
        }
        acc = acc + t;
        m = m + 1;
    }
    acc
}

/// Total Ewald energy, executed.
pub fn ewald_energy(s: &System, e: &Ewald) -> (r: i128)
    requires
        sys_ok(*s),
        ewald_ok(*e),
    ensures
        r == ewald_energy_s(*s, *e),
        -(2097152i128 * fx::FX_ROW_CAP) <= r <= 2097152i128 * fx::FX_ROW_CAP,
{
    match s.cell.shape() {
        CellShape::Orthorhombic => {
            let er = ewald_real(s, e);
            let ek = ewald_recip(s, e);
            let es = ewald_self(s, e);
            er + ek + es
        },
        CellShape::Infinite => 0,
    }
}

} // verus!
