//! The incremental energy cache: exact running totals and, for the Ewald
//! solver, the running structure factors, so that the energy change of a
//! trial move costs work proportional to the move, not to the system.
//!
//! All bookkeeping is exact integer arithmetic, so the cached totals do
//! not drift: validity is an identity with a full recomputation, not a
//! tolerance.

use crate::energy::evaluator::{
    entry_term_at_s, global_s, pair_energy_at, pair_fn, pair_term_at_s, pair_term_s, pe_pairs_s,
    pe_total_s, tail_entry_s, tail_s,
};
use crate::energy::sums::{
    lemma_sum1_abs_bound, lemma_sum1_congruence, lemma_sum1_linear, lemma_sum1_masked_delta,
    lemma_sum_pairs_congruence, lemma_sum_pairs_linear, lemma_sum_pairs_masked_delta, sum1,
    sum_pairs,
};
use crate::energy::{ewald, wolf, GlobalPotential};
use crate::energy::ewald::{
    dec_x, dec_y, dec_z, n_waves, recip_term_sk, sk_im_s, sk_im_term_at_s, sk_im_term_s, sk_re_s,
    sk_re_term_at_s, sk_re_term_s, Ewald,
};
use crate::energy::wolf::{wolf_term_at_s, wolf_term_s, Wolf};
use crate::fx;
use crate::sys::system::{sys_len, sys_ok, System};
use crate::types::vectors::{v3_ok, Vector3D};
use vstd::prelude::*;

verus! {

/// Bound on a pending total: 2^115.
pub const FX_TOTAL_CAP: i128 = 41538374868278621028243970633760768;

/// Bound on the pairwise-plus-tail total of a valid cache: 2^113.
pub const FX_SHORT_CAP: i128 = 10384593717069655257060992658440192;

/// Bound on the long-range total of a valid cache: 2^104.
pub const FX_GLOBAL_CAP: i128 = 20282409603651670423947251286016;

/// Twice the pairwise term cap: 2^73.
pub const FX_PAIR_CAP2: i128 = 9444732965739290427392;

/// Bound on a row of at most 2^20 doubled pairwise terms: 2^93.
pub const FX_PAIR_ROW_CAP2: i128 = 9903520314283042199192993792;

/// Bound on a row of at most 2^20 doubled bounded terms: 2^83.
pub const FX_B2_ROW_CAP: i128 = 9671406556917033397649408;

/// `s1` is `s0` with the masked particles moved to the positions in
/// `np`, and nothing else changed: same cell, same interactions, same
/// molecules and bonds, and every per-particle field but the position
/// kept. `np` lists a position for every particle; an unmasked particle
/// keeps its old one.
pub open spec fn moved_to(s0: System, s1: System, mask: Seq<bool>, np: Seq<Vector3D>) -> bool {
    &&& sys_ok(s0)
    &&& sys_ok(s1)
    &&& mask.len() == sys_len(s0)
    &&& np.len() == sys_len(s0)
    &&& sys_len(s1) == sys_len(s0)
    &&& s1.cell == s0.cell
    &&& s1.pairs@ == s0.pairs@
    &&& s1.bonds@ == s0.bonds@
    &&& s1.molids@ == s0.molids@
    &&& s1.kinds@ == s0.kinds@
    &&& s1.global == s0.global
    &&& forall|i: int|
        0 <= i < sys_len(s0) ==> {
            let p0 = s0.particles@[i];
            let p1 = #[trigger] s1.particles@[i];
            p1.name == p0.name && p1.kind == p0.kind && p1.mass == p0.mass && p1.charge
                == p0.charge && p1.velocity == p0.velocity && p1.position == np[i]
        }
    &&& forall|i: int| 0 <= i < sys_len(s0) && !mask[i] ==> np[i] == s0.particles@[i].position
}

/// The pairwise term of `s1` at pair `(i, j)` equals the term of `s0`
/// evaluated at `s1`'s positions: everything but the positions is
/// framed.
proof fn lemma_pair_term_frame(s0: System, s1: System, mask: Seq<bool>, np: Seq<Vector3D>, i: int, j: int)
    requires
        moved_to(s0, s1, mask, np),
        0 <= i < sys_len(s0),
        0 <= j < sys_len(s0),
    ensures
        pair_term_s(s1, i, j) == pair_term_at_s(s0, i, j, np[i]@, np[j]@),
{
    assert forall|e: int| 0 <= e < s1.pairs@.len() implies #[trigger] entry_term_at_s(
        s1,
        s1.pairs@[e],
        i,
        j,
        np[i]@,
        np[j]@,
    ) == entry_term_at_s(s0, s0.pairs@[e], i, j, np[i]@, np[j]@) by {
        lemma_allowed_frame(s0, s1, mask, np, i, j);
    }
    lemma_sum1_congruence(
        |e: int| entry_term_at_s(s1, s1.pairs@[e], i, j, np[i]@, np[j]@),
        |e: int| entry_term_at_s(s0, s0.pairs@[e], i, j, np[i]@, np[j]@),
        0,
        s0.pairs@.len() as int,
    );
}

/// Restrictions see the same molecules and bonds in both systems.
proof fn lemma_allowed_frame(s0: System, s1: System, mask: Seq<bool>, np: Seq<Vector3D>, i: int, j: int)
    requires
        moved_to(s0, s1, mask, np),
        0 <= i < sys_len(s0),
        0 <= j < sys_len(s0),
    ensures
        forall|r: crate::energy::potentials::PairRestriction|
            #[trigger] crate::sys::system::allowed(s1, r, i, j) == crate::sys::system::allowed(
                s0,
                r,
                i,
                j,
            ),
{
    assert(crate::sys::system::bonded(s1, i, j) == crate::sys::system::bonded(s0, i, j));
}

/// The Ewald real-space term, framed the same way.
proof fn lemma_ewald_real_frame(
    s0: System,
    s1: System,
    mask: Seq<bool>,
    np: Seq<Vector3D>,
    e: Ewald,
    i: int,
    j: int,
)
    requires
        moved_to(s0, s1, mask, np),
        0 <= i < sys_len(s0),
        0 <= j < sys_len(s0),
    ensures
        ewald::ewald_real_term_s(s1, e, i, j) == ewald::ewald_real_term_at_s(
            s0,
            e,
            i,
            j,
            np[i]@,
            np[j]@,
        ),
{
    lemma_allowed_frame(s0, s1, mask, np, i, j);
}

/// The Wolf pair term, framed the same way.
proof fn lemma_wolf_frame(
    s0: System,
    s1: System,
    mask: Seq<bool>,
    np: Seq<Vector3D>,
    w: Wolf,
    i: int,
    j: int,
)
    requires
        moved_to(s0, s1, mask, np),
        0 <= i < sys_len(s0),
        0 <= j < sys_len(s0),
    ensures
        wolf_term_s(s1, w, i, j) == wolf_term_at_s(s0, w, i, j, np[i]@, np[j]@),
{
    lemma_allowed_frame(s0, s1, mask, np, i, j);
}

/// Structure-factor terms, framed the same way.
proof fn lemma_sk_term_frame(
    s0: System,
    s1: System,
    mask: Seq<bool>,
    np: Seq<Vector3D>,
    i: int,
    nx: int,
    ny: int,
    nz: int,
)
    requires
        moved_to(s0, s1, mask, np),
        0 <= i < sys_len(s0),
    ensures
        sk_re_term_s(s1, i, nx, ny, nz) == sk_re_term_at_s(s0, i, np[i]@, nx, ny, nz),
        sk_im_term_s(s1, i, nx, ny, nz) == sk_im_term_at_s(s0, i, np[i]@, nx, ny, nz),
{
}

/// A move leaves the tail correction unchanged: it depends only on kind
/// counts, the cell, and the interaction table.
proof fn lemma_tail_frame(s0: System, s1: System, mask: Seq<bool>, np: Seq<Vector3D>)
    requires
        moved_to(s0, s1, mask, np),
    ensures
        tail_s(s1) == tail_s(s0),
{
    assert forall|e: int| 0 <= e < s1.pairs@.len() implies #[trigger] tail_entry_s(
        s1,
        s1.pairs@[e],
    ) == tail_entry_s(s0, s0.pairs@[e]) by {
        let k1 = s1.pairs@[e].ki as int;
        let k2 = s1.pairs@[e].kj as int;
        lemma_count_frame(s0, s1, k1);
        lemma_count_frame(s0, s1, k2);
    }
    lemma_sum1_congruence(
        |e: int| tail_entry_s(s1, s1.pairs@[e]),
        |e: int| tail_entry_s(s0, s0.pairs@[e]),
        0,
        s0.pairs@.len() as int,
    );
}

/// Kind counts are unchanged by a move.
proof fn lemma_count_frame(s0: System, s1: System, k: int)
    requires
        sys_len(s1) == sys_len(s0),
        forall|i: int|
            0 <= i < sys_len(s0) ==> (#[trigger] s1.particles@[i]).kind == s0.particles@[i].kind,
    ensures
        crate::energy::evaluator::count_kind_s(s1, k) == crate::energy::evaluator::count_kind_s(
            s0,
            k,
        ),
{
    lemma_sum1_congruence(
        |i: int|
            if s1.particles@[i].kind == k {
                1int
            } else {
                0int
            },
        |i: int|
            if s0.particles@[i].kind == k {
                1int
            } else {
                0int
            },
        0,
        sys_len(s0),
    );
}

/// A move leaves the self-energy corrections unchanged: they depend only
/// on the charges.
proof fn lemma_self_frame(s0: System, s1: System, mask: Seq<bool>, np: Seq<Vector3D>)
    requires
        moved_to(s0, s1, mask, np),
    ensures
        forall|e: Ewald| #[trigger] ewald::ewald_self_s(s1, e) == ewald::ewald_self_s(s0, e),
        forall|w: Wolf| #[trigger] wolf::wolf_self_s(s1, w) == wolf::wolf_self_s(s0, w),
{
    assert forall|e: Ewald| #[trigger] ewald::ewald_self_s(s1, e) == ewald::ewald_self_s(
        s0,
        e,
    ) by {
        lemma_sum1_congruence(
            |i: int| ewald::ewald_self_term_s(s1, e, i),
            |i: int| ewald::ewald_self_term_s(s0, e, i),
            0,
            sys_len(s0),
        );
    }
    assert forall|w: Wolf| #[trigger] wolf::wolf_self_s(s1, w) == wolf::wolf_self_s(s0, w) by {
        lemma_sum1_congruence(
            |i: int| wolf::wolf_self_term_s(s1, w, i),
            |i: int| wolf::wolf_self_term_s(s0, w, i),
            0,
            sys_len(s0),
        );
    }
}

/// The data a cost probe leaves behind for the commit that may follow:
/// the move it priced, and the exact new totals and structure factors
/// that committing it will install.
pub struct PendingMove {
    /// Which particles the move displaces.
    pub mask: Vec<bool>,
    /// The position of every particle after the move; an unmoved
    /// particle keeps its old position.
    pub np: Vec<Vector3D>,
    /// Pairwise-plus-tail total after the move.
    pub new_short: i128,
    /// Long-range solver total after the move.
    pub new_global: i128,
    /// Structure factors after the move, when the Ewald solver is
    /// active.
    pub new_sk: Vec<(i128, i128)>,
}

/// The incremental energy cache.
pub struct EnergyCache {
    /// Exact total of the pairwise sum and its tail correction.
    pub short_total: i128,
    /// Exact total of the active long-range solver.
    pub global_total: i128,
    /// Running structure factors, one per wave index, when the Ewald
    /// solver is active; empty otherwise.
    pub sk: Vec<(i128, i128)>,
    /// The last priced move, if it has not been committed.
    pub pending: Option<PendingMove>,
    /// Ghost snapshot of the system the last probe priced against.
    pub probed: Ghost<System>,
}

/// The cache agrees exactly with a full recomputation on `s`: its totals
/// are the spec-level sums, and its structure factors are the spec-level
/// linear sums. This is established by `init` and preserved only by the
/// cache's own commit path; any other mutation of the system silently
/// invalidates it, and re-running `init` is the remedy.
pub open spec fn cache_valid(c: EnergyCache, s: System) -> bool {
    &&& sys_ok(s)
    &&& c.short_total == pe_pairs_s(s) + tail_s(s)
    &&& c.global_total == global_s(s)
    &&& -FX_SHORT_CAP <= c.short_total <= FX_SHORT_CAP
    &&& -FX_GLOBAL_CAP <= c.global_total <= FX_GLOBAL_CAP
    &&& match s.global {
        Option::Some(GlobalPotential::Ewald(e)) => {
            &&& c.sk@.len() == n_waves(e)
            &&& forall|m: int|
                0 <= m < n_waves(e) ==> (#[trigger] c.sk@[m]).0 == sk_re_s(
                    s,
                    dec_x(e, m),
                    dec_y(e, m),
                    dec_z(e, m),
                ) && c.sk@[m].1 == sk_im_s(s, dec_x(e, m), dec_y(e, m), dec_z(e, m))
        },
        _ => true,
    }
}

/// What a stored pending move promises: for every system that is the
/// probed one with exactly that move applied, the stored totals are the
/// exact new totals.
pub open spec fn pending_ok(c: EnergyCache) -> bool {
    match c.pending {
        Option::Some(p) => {
            &&& p.mask@.len() == sys_len(c.probed@)
            &&& p.np@.len() == sys_len(c.probed@)
            &&& -FX_TOTAL_CAP <= p.new_short <= FX_TOTAL_CAP
            &&& -FX_TOTAL_CAP <= p.new_global <= FX_TOTAL_CAP
            &&& forall|s1: System|
                #[trigger] moved_to(c.probed@, s1, p.mask@, p.np@) ==> {
                    &&& p.new_short == pe_pairs_s(s1) + tail_s(s1)
                    &&& p.new_global == global_s(s1)
                    &&& match s1.global {
                        Option::Some(GlobalPotential::Ewald(e)) => {
                            &&& p.new_sk@.len() == n_waves(e)
                            &&& forall|m: int|
                                0 <= m < n_waves(e) ==> (#[trigger] p.new_sk@[m]).0 == sk_re_s(
                                    s1,
                                    dec_x(e, m),
                                    dec_y(e, m),
                                    dec_z(e, m),
                                ) && p.new_sk@[m].1 == sk_im_s(
                                    s1,
                                    dec_x(e, m),
                                    dec_y(e, m),
                                    dec_z(e, m),
                                )
                        },
                        _ => true,
                    }
                }
        },
        Option::None => true,
    }
}

impl EnergyCache {
    /// An empty cache; it must be initialized against a system before
    /// any cost query.
    pub fn new() -> (r: EnergyCache)
        ensures
            r.pending is None,
    {
        EnergyCache {
            short_total: 0,
            global_total: 0,
            sk: Vec::new(),
            pending: Option::None,
            probed: Ghost(arbitrary()),
        }
    }

    /// Full recomputation: populate the totals and, for Ewald, the
    /// structure factors, so that the cache agrees exactly with the
    /// system.
    pub fn init(&mut self, s: &System)
        requires
            sys_ok(*s),
        ensures
            cache_valid(*final(self), *s),
            final(self).pending is None,
    {
        let short = crate::energy::evaluator::pe_pairs(s);
        let tail = crate::energy::evaluator::tail_total(s);
        self.short_total = short + tail;
        self.global_total = crate::energy::evaluator::global_energy(s);
        self.pending = Option::None;
        match s.global {
            Option::Some(GlobalPotential::Ewald(e)) => {
                self.sk = build_sk(s, &e);
            },
            _ => {
                self.sk = Vec::new();
            },
        }
    }

    /// The cached total energy: the pairwise-plus-tail total plus the
    /// long-range total. Under validity this is exactly the full
    /// recomputation.
    pub fn current_total(&self) -> (r: i128)
        requires
            -FX_SHORT_CAP <= self.short_total <= FX_SHORT_CAP,
            -FX_GLOBAL_CAP <= self.global_total <= FX_GLOBAL_CAP,
        ensures
            r == self.short_total + self.global_total,
    {
        self.short_total + self.global_total
    }
}

/// Build the structure-factor table for every wave index.
fn build_sk(s: &System, e: &Ewald) -> (r: Vec<(i128, i128)>)
    requires
        sys_ok(*s),
        ewald::ewald_ok(*e),
    ensures
        r@.len() == n_waves(*e),
        forall|m: int|
            0 <= m < n_waves(*e) ==> (#[trigger] r@[m]).0 == sk_re_s(
                *s,
                dec_x(*e, m),
                dec_y(*e, m),
                dec_z(*e, m),
            ) && r@[m].1 == sk_im_s(*s, dec_x(*e, m), dec_y(*e, m), dec_z(*e, m)),
{
    let w: usize = 2 * (e.kmax as usize) + 1;
    proof {
        assert(1 <= w as int <= 129);
        assert(1 <= (w as int) * (w as int) <= 16641 && 1 <= (w as int) * (w as int) * (
        w as int) <= 2146689) by (nonlinear_arith)
            requires
                1 <= w as int <= 129,
        ;
    }
    let nw: usize = w * w * w;
    let k = e.kmax as i64;
    let mut r: Vec<(i128, i128)> = Vec::new();
    let mut m: usize = 0;
    while m < nw
        invariant
            0 <= m <= nw,
            nw == n_waves(*e) <= 2146689,
            w == ewald::wave_w(*e),
            1 <= w as int <= 129,
            1 <= (w as int) * (w as int) <= 16641,
            nw == (w as int) * (w as int) * (w as int),
            k == e.kmax as i64,
            sys_ok(*s),
            ewald::ewald_ok(*e),
            r@.len() == m,
            forall|t: int|
                0 <= t < m ==> (#[trigger] r@[t]).0 == sk_re_s(
                    *s,
                    dec_x(*e, t),
                    dec_y(*e, t),
                    dec_z(*e, t),
                ) && r@[t].1 == sk_im_s(*s, dec_x(*e, t), dec_y(*e, t), dec_z(*e, t)),
        decreases nw - m,
    {
        let nx: i64 = (m / (w * w)) as i64 - k;
        let ny: i64 = ((m / w) % w) as i64 - k;
        let nz: i64 = (m % w) as i64 - k;
        proof {
            assert((m as int) / ((w * w) as int) < w as int) by (nonlinear_arith)
                requires
                    m < w * w * w && w > 0,
            ;
            assert(nx == dec_x(*e, m as int));
            assert(ny == dec_y(*e, m as int));
            assert(nz == dec_z(*e, m as int));
        }
        let sk = ewald::sk_at(s, nx, ny, nz);
        r.push(sk);
        m = m + 1;
    }
    r
}

/// The cached totals of a valid cache are exactly the full
/// recomputation: `current_total` equals the total potential energy of
/// the system after every commit, identically and not merely within a
/// tolerance.
pub proof fn lemma_cache_matches_full(c: EnergyCache, s: System)
    requires
        cache_valid(c, s),
    ensures
        c.short_total + c.global_total == pe_total_s(s),
{
}

/// Two valid caches for the same system hold identical structure
/// factors: committing an incremental update gives exactly the state a
/// fresh initialization computes, because both are the same linear sums.
pub proof fn lemma_structure_factors_agree(c1: EnergyCache, c2: EnergyCache, s: System, e: Ewald)
    requires
        cache_valid(c1, s),
        cache_valid(c2, s),
        s.global == Option::Some(GlobalPotential::Ewald(e)),
    ensures
        c1.sk@.len() == c2.sk@.len(),
        forall|m: int| 0 <= m < c1.sk@.len() ==> c1.sk@[m] == #[trigger] c2.sk@[m],
{
    assert forall|m: int| 0 <= m < c1.sk@.len() implies c1.sk@[m] == #[trigger] c2.sk@[m] by {
        assert(c1.sk@[m].0 == c2.sk@[m].0 && c1.sk@[m].1 == c2.sk@[m].1);
    }
}

/// Indicator of membership in molecule `molid`.
pub open spec fn mol_ind(s: System, molid: int) -> spec_fn(int) -> int {
    |i: int|
        if s.molids@[i] == molid {
            1int
        } else {
            0int
        }
}

/// Number of particles in molecule `molid`.
pub open spec fn mol_count_s(s: System, molid: int) -> int {
    sum1(mol_ind(s, molid), 0, sys_len(s))
}

/// Index `i` is one of the explicitly enumerated moved indices.
pub open spec fn moved_idx(idxes: Seq<usize>, i: int) -> bool {
    exists|t: int| 0 <= t < idxes.len() && idxes[t] == i
}

/// The pairwise term of `s` with both endpoints read from `np`.
pub open spec fn pair_new_fn(s: System, np: Seq<Vector3D>) -> spec_fn(int, int) -> int {
    |i: int, j: int| pair_term_at_s(s, i, j, np[i]@, np[j]@)
}

/// Real part of the structure factor with positions read from `np`.
pub open spec fn sk_re_at_s(s: System, np: Seq<Vector3D>, nx: int, ny: int, nz: int) -> int {
    sum1(|i: int| sk_re_term_at_s(s, i, np[i]@, nx, ny, nz), 0, sys_len(s))
}

/// Imaginary part of the structure factor with positions read from
/// `np`.
pub open spec fn sk_im_at_s(s: System, np: Seq<Vector3D>, nx: int, ny: int, nz: int) -> int {
    sum1(|i: int| sk_im_term_at_s(s, i, np[i]@, nx, ny, nz), 0, sys_len(s))
}

/// Every pairwise term lies within the pairwise cap.
proof fn lemma_pair_term_bounds(s: System)
    requires
        sys_ok(s),
    ensures
        forall|i: int, j: int, pi: crate::types::vectors::Vec3S, pj: crate::types::vectors::Vec3S|
            -fx::FX_PAIR_CAP <= #[trigger] pair_term_at_s(s, i, j, pi, pj) <= fx::FX_PAIR_CAP,
{
    assert forall|i: int, j: int, pi: crate::types::vectors::Vec3S, pj: crate::types::vectors::Vec3S|
        -fx::FX_PAIR_CAP <= #[trigger] pair_term_at_s(s, i, j, pi, pj) <= fx::FX_PAIR_CAP by {
        let f = |e: int| entry_term_at_s(s, s.pairs@[e], i, j, pi, pj);
        assert forall|e: int| 0 <= e < s.pairs@.len() implies -fx::FX_BOUND <= #[trigger] f(e)
            <= fx::FX_BOUND by {}
        lemma_sum1_abs_bound(f, 0, s.pairs@.len() as int, fx::FX_BOUND as int);
        assert(s.pairs@.len() * fx::FX_BOUND <= 1024 * fx::FX_BOUND) by (nonlinear_arith)
            requires
                s.pairs@.len() <= 1024,
        ;
    }
}

/// The pairwise pair sum lies within the short cap, for any position
/// table.
proof fn lemma_pair_sum_bound(s: System, f: spec_fn(int, int) -> int)
    requires
        sys_ok(s),
        forall|i: int, j: int| -fx::FX_PAIR_CAP <= #[trigger] f(i, j) <= fx::FX_PAIR_CAP,
    ensures
        -(1048576i128 * fx::FX_PAIR_ROW_CAP) <= sum_pairs(f, 0, sys_len(s)) <= 1048576i128
            * fx::FX_PAIR_ROW_CAP,
{
    let n = sys_len(s);
    crate::energy::sums::lemma_sum_pairs_abs_bound(f, 0, n, fx::FX_PAIR_CAP as int);
    assert(n * (n * fx::FX_PAIR_CAP) <= 1048576 * (1048576 * fx::FX_PAIR_CAP))
        by (nonlinear_arith)
        requires
            0 <= n <= 1048576,
    ;
}

/// Every solver pair term lies within the saturation bound, and so do
/// the structure-factor and reciprocal terms.
proof fn lemma_solver_term_bounds(s: System)
    ensures
        forall|e: Ewald, i: int, j: int, pi: crate::types::vectors::Vec3S, pj: crate::types::vectors::Vec3S|
            -fx::FX_BOUND <= #[trigger] ewald::ewald_real_term_at_s(s, e, i, j, pi, pj)
                <= fx::FX_BOUND,
        forall|w: Wolf, i: int, j: int, pi: crate::types::vectors::Vec3S, pj: crate::types::vectors::Vec3S|
            -fx::FX_BOUND <= #[trigger] wolf_term_at_s(s, w, i, j, pi, pj) <= fx::FX_BOUND,
{
}

/// The long-range total of any system lies within the global cap.
proof fn lemma_global_bound(s: System)
    requires
        sys_ok(s),
    ensures
        -FX_GLOBAL_CAP < global_s(s) < FX_GLOBAL_CAP,
{
    let n = sys_len(s);
    match s.global {
        Option::Some(GlobalPotential::Ewald(e)) => {
            lemma_solver_term_bounds(s);
            crate::energy::sums::lemma_sum_pairs_abs_bound(
                |i: int, j: int| ewald::ewald_real_term_s(s, e, i, j),
                0,
                n,
                fx::FX_BOUND as int,
            );
            assert(n * (n * fx::FX_BOUND) <= 1048576 * (1048576 * fx::FX_BOUND))
                by (nonlinear_arith)
                requires
                    0 <= n <= 1048576,
            ;
            lemma_sum1_abs_bound(
                |m: int| ewald::recip_term_s(s, e, m),
                0,
                n_waves(e),
                fx::FX_BOUND as int,
            );
            assert(n_waves(e) <= 2146689) by (nonlinear_arith)
                requires
                    1 <= ewald::wave_w(e) <= 129 && n_waves(e) == ewald::wave_w(e)
                        * ewald::wave_w(e) * ewald::wave_w(e),
            ;
            assert(n_waves(e) * fx::FX_BOUND <= 2146689 * fx::FX_BOUND) by (nonlinear_arith)
                requires
                    0 <= n_waves(e) <= 2146689,
            ;
            lemma_sum1_abs_bound(
                |i: int| ewald::ewald_self_term_s(s, e, i),
                0,
                n,
                fx::FX_BOUND as int,
            );
        },
        Option::Some(GlobalPotential::Wolf(w)) => {
            lemma_solver_term_bounds(s);
            crate::energy::sums::lemma_sum_pairs_abs_bound(
                |i: int, j: int| wolf_term_s(s, w, i, j),
                0,
                n,
                fx::FX_BOUND as int,
            );
            assert(n * (n * fx::FX_BOUND) <= 1048576 * (1048576 * fx::FX_BOUND))
                by (nonlinear_arith)
                requires
                    0 <= n <= 1048576,
            ;
            lemma_sum1_abs_bound(|i: int| wolf::wolf_self_term_s(s, w, i), 0, n, fx::FX_BOUND as int);
        },
        Option::None => {},
    }
}

/// The pairwise-plus-tail total of any system lies within the short
/// cap.
proof fn lemma_short_bound(s: System)
    requires
        sys_ok(s),
    ensures
        -FX_SHORT_CAP < pe_pairs_s(s) + tail_s(s) < FX_SHORT_CAP,
{
    lemma_pair_term_bounds(s);
    lemma_pair_sum_bound(s, pair_fn(s));
    assert forall|e: int| 0 <= e < s.pairs@.len() implies -fx::FX_BOUND2 <= #[trigger] tail_entry_s(
        s,
        s.pairs@[e],
    ) <= fx::FX_BOUND2 by {}
    lemma_sum1_abs_bound(
        |e: int| tail_entry_s(s, s.pairs@[e]),
        0,
        s.pairs@.len() as int,
        fx::FX_BOUND2 as int,
    );
    assert(s.pairs@.len() * fx::FX_BOUND2 <= 1024 * fx::FX_BOUND2) by (nonlinear_arith)
        requires
            s.pairs@.len() <= 1024,
    ;
}

/// The masked pairwise energy change: the exact difference between the
/// pair sum at the `np` positions and the pair sum of the system, with
/// terms evaluated only for pairs touching the mask.
fn masked_pair_delta(s: &System, mask: &Vec<bool>, np: &Vec<Vector3D>) -> (d: i128)
    requires
        sys_ok(*s),
        mask@.len() == sys_len(*s),
        np@.len() == sys_len(*s),
        forall|i: int| 0 <= i < sys_len(*s) ==> v3_ok(#[trigger] np@[i]),
        forall|i: int| 0 <= i < sys_len(*s) && !mask@[i] ==> np@[i] == s.particles@[i].position,
    ensures
        d == sum_pairs(pair_new_fn(*s, np@), 0, sys_len(*s)) - pe_pairs_s(*s),
{
    let ghost nf = pair_new_fn(*s, np@);
    let ghost of = pair_fn(*s);
    let ghost mk = |k: int| mask@[k];
    let ghost md = |i: int, j: int|
        if mk(i) || mk(j) {
            nf(i, j) - of(i, j)
        } else {
            0
        };
    let n = s.particles.len();
    let mut acc: i128 = 0;
    let mut i: usize = 0;
    while i < n
        invariant
            0 <= i <= n,
            n == sys_len(*s),
            sys_ok(*s),
            mask@.len() == n && np@.len() == n,
            forall|t: int| 0 <= t < n ==> v3_ok(#[trigger] np@[t]),
            forall|t: int| 0 <= t < n && !mask@[t] ==> np@[t] == s.particles@[t].position,
            acc == sum1(|ii: int| sum1(|j: int| md(ii, j), ii + 1, n as int), 0, i as int),
            -(i as i128 * FX_PAIR_ROW_CAP2) <= acc <= i as i128 * FX_PAIR_ROW_CAP2,
            nf == pair_new_fn(*s, np@),
            of == pair_fn(*s),
            mk == (|k: int| mask@[k]),
            md == (|i: int, j: int|
                if mk(i) || mk(j) {
                    nf(i, j) - of(i, j)
                } else {
                    0
                }),
        decreases n - i,
    {
        let ghost rowf = |j: int| md(i as int, j);
        let mut row: i128 = 0;
        let mut j: usize = i + 1;
        while j < n
            invariant
                i < j <= n,
                n == sys_len(*s),
                sys_ok(*s),
                i < n,
                mask@.len() == n && np@.len() == n,
                forall|t: int| 0 <= t < n ==> v3_ok(#[trigger] np@[t]),
                forall|t: int| 0 <= t < n && !mask@[t] ==> np@[t] == s.particles@[t].position,
                row == sum1(rowf, i as int + 1, j as int),
                -((j as i128) * FX_PAIR_CAP2) <= row <= (j as i128) * FX_PAIR_CAP2,
                rowf == (|j: int| md(i as int, j)),
                nf == pair_new_fn(*s, np@),
                of == pair_fn(*s),
                mk == (|k: int| mask@[k]),
                md == (|i: int, j: int|
                    if mk(i) || mk(j) {
                        nf(i, j) - of(i, j)
                    } else {
                        0
                    }),
            decreases n - j,
        {
            let t: i128 = if mask[i] || mask[j] {
                let pi = np[i];
                let pj = np[j];
                let tn = pair_energy_at(s, i, j, &pi, &pj);
                let to = crate::energy::evaluator::pair_energy(s, i, j);
                tn - to
            } else {
                0
            };
            proof {
                assert(t == rowf(j as int));
            }
            row = row + t;
            j = j + 1;
        }
        proof {
            assert(row == sum1(|j: int| md(i as int, j), i as int + 1, n as int)) by {
                lemma_sum1_congruence(rowf, |j: int| md(i as int, j), i as int + 1, n as int);
            }
            assert(-(FX_PAIR_ROW_CAP2) <= row <= FX_PAIR_ROW_CAP2);
        }
        acc = acc + row;
        i = i + 1;
    }
    proof {
        assert(acc == sum_pairs(md, 0, n as int));
        let mn = |i: int, j: int|
            if mk(i) || mk(j) {
                nf(i, j)
            } else {
                0
            };
        let mo = |i: int, j: int|
            if mk(i) || mk(j) {
                of(i, j)
            } else {
                0
            };
        lemma_sum_pairs_linear(mo, md, |i: int, j: int| mo(i, j) + md(i, j), 0, n as int);
        lemma_sum_pairs_congruence(|i: int, j: int| mo(i, j) + md(i, j), mn, 0, n as int);
        assert forall|i: int, j: int| 0 <= i < j < n as int && !mk(i) && !mk(j) implies #[trigger] of(
            i,
            j,
        ) == nf(i, j) by {
            assert(np@[i] == s.particles@[i].position);
            assert(np@[j] == s.particles@[j].position);
        }
        lemma_sum_pairs_masked_delta(of, nf, mk, 0, n as int);
    }
    acc
}

/// The masked change of the Ewald real-space sum.
fn masked_ewald_real_delta(s: &System, e: &Ewald, mask: &Vec<bool>, np: &Vec<Vector3D>) -> (d: i128)
    requires
        sys_ok(*s),
        ewald::ewald_ok(*e),
        mask@.len() == sys_len(*s),
        np@.len() == sys_len(*s),
        forall|i: int| 0 <= i < sys_len(*s) ==> v3_ok(#[trigger] np@[i]),
        forall|i: int| 0 <= i < sys_len(*s) && !mask@[i] ==> np@[i] == s.particles@[i].position,
    ensures
        d == sum_pairs(
            |i: int, j: int| ewald::ewald_real_term_at_s(*s, *e, i, j, np@[i]@, np@[j]@),
            0,
            sys_len(*s),
        ) - ewald::ewald_real_s(*s, *e),
{
    let ghost nf = |i: int, j: int| ewald::ewald_real_term_at_s(*s, *e, i, j, np@[i]@, np@[j]@);
    let ghost of = |i: int, j: int| ewald::ewald_real_term_s(*s, *e, i, j);
    let ghost mk = |k: int| mask@[k];
    let ghost md = |i: int, j: int|
        if mk(i) || mk(j) {
            nf(i, j) - of(i, j)
        } else {
            0
        };
    let n = s.particles.len();
    let mut acc: i128 = 0;
    let mut i: usize = 0;
    while i < n
        invariant
            0 <= i <= n,
            n == sys_len(*s),
            sys_ok(*s),
            ewald::ewald_ok(*e),
            mask@.len() == n && np@.len() == n,
            forall|t: int| 0 <= t < n ==> v3_ok(#[trigger] np@[t]),
            forall|t: int| 0 <= t < n && !mask@[t] ==> np@[t] == s.particles@[t].position,
            acc == sum1(|ii: int| sum1(|j: int| md(ii, j), ii + 1, n as int), 0, i as int),
            -(i as i128 * FX_B2_ROW_CAP) <= acc <= i as i128 * FX_B2_ROW_CAP,
            nf == (|i: int, j: int| ewald::ewald_real_term_at_s(*s, *e, i, j, np@[i]@, np@[j]@)),
            of == (|i: int, j: int| ewald::ewald_real_term_s(*s, *e, i, j)),
            mk == (|k: int| mask@[k]),
            md == (|i: int, j: int|
                if mk(i) || mk(j) {
                    nf(i, j) - of(i, j)
                } else {
                    0
                }),
        decreases n - i,
    {
        let ghost rowf = |j: int| md(i as int, j);
        let mut row: i128 = 0;
        let mut j: usize = i + 1;
        while j < n
            invariant
                i < j <= n,
                n == sys_len(*s),
                sys_ok(*s),
                ewald::ewald_ok(*e),
                i < n,
                mask@.len() == n && np@.len() == n,
                forall|t: int| 0 <= t < n ==> v3_ok(#[trigger] np@[t]),
                forall|t: int| 0 <= t < n && !mask@[t] ==> np@[t] == s.particles@[t].position,
                row == sum1(rowf, i as int + 1, j as int),
                -((j as i128) * fx::FX_BOUND2) <= row <= (j as i128) * fx::FX_BOUND2,
                rowf == (|j: int| md(i as int, j)),
                nf == (|i: int, j: int| ewald::ewald_real_term_at_s(*s, *e, i, j, np@[i]@, np@[j]@)),
                of == (|i: int, j: int| ewald::ewald_real_term_s(*s, *e, i, j)),
                mk == (|k: int| mask@[k]),
                md == (|i: int, j: int|
                    if mk(i) || mk(j) {
                        nf(i, j) - of(i, j)
                    } else {
                        0
                    }),
            decreases n - j,
        {
            let t: i128 = if mask[i] || mask[j] {
                let pi = np[i];
                let pj = np[j];
                let tn = ewald::ewald_real_term_at(s, e, i, j, &pi, &pj);
                let to = ewald::ewald_real_term(s, e, i, j);
                tn - to
            } else {
                0
            };
            proof {
                assert(t == rowf(j as int));
            }
            row = row + t;
            j = j + 1;
        }
        proof {
            assert(row == sum1(|j: int| md(i as int, j), i as int + 1, n as int)) by {
                lemma_sum1_congruence(rowf, |j: int| md(i as int, j), i as int + 1, n as int);
            }
            assert(-(FX_B2_ROW_CAP) <= row <= FX_B2_ROW_CAP);
        }
        acc = acc + row;
        i = i + 1;
    }
    proof {
        assert(acc == sum_pairs(md, 0, n as int));
        let mn = |i: int, j: int|
            if mk(i) || mk(j) {
                nf(i, j)
            } else {
                0
            };
        let mo = |i: int, j: int|
            if mk(i) || mk(j) {
                of(i, j)
            } else {
                0
            };
        lemma_sum_pairs_linear(mo, md, |i: int, j: int| mo(i, j) + md(i, j), 0, n as int);
        lemma_sum_pairs_congruence(|i: int, j: int| mo(i, j) + md(i, j), mn, 0, n as int);
        assert forall|i: int, j: int| 0 <= i < j < n as int && !mk(i) && !mk(j) implies #[trigger] of(
            i,
            j,
        ) == nf(i, j) by {
            assert(np@[i] == s.particles@[i].position);
            assert(np@[j] == s.particles@[j].position);
        }
        lemma_sum_pairs_masked_delta(of, nf, mk, 0, n as int);
    }
    acc
}

/// The masked change of the Wolf pair sum.
fn masked_wolf_delta(s: &System, w: &Wolf, mask: &Vec<bool>, np: &Vec<Vector3D>) -> (d: i128)
    requires
        sys_ok(*s),
        wolf::wolf_ok(*w),
        mask@.len() == sys_len(*s),
        np@.len() == sys_len(*s),
        forall|i: int| 0 <= i < sys_len(*s) ==> v3_ok(#[trigger] np@[i]),
        forall|i: int| 0 <= i < sys_len(*s) && !mask@[i] ==> np@[i] == s.particles@[i].position,
    ensures
        d == sum_pairs(
            |i: int, j: int| wolf_term_at_s(*s, *w, i, j, np@[i]@, np@[j]@),
            0,
            sys_len(*s),
        ) - wolf::wolf_pairs_s(*s, *w),
{
    let ghost nf = |i: int, j: int| wolf_term_at_s(*s, *w, i, j, np@[i]@, np@[j]@);
    let ghost of = |i: int, j: int| wolf_term_s(*s, *w, i, j);
    let ghost mk = |k: int| mask@[k];
    let ghost md = |i: int, j: int|
        if mk(i) || mk(j) {
            nf(i, j) - of(i, j)
        } else {
            0
        };
    let n = s.particles.len();
    let mut acc: i128 = 0;
    let mut i: usize = 0;
    while i < n
        invariant
            0 <= i <= n,
            n == sys_len(*s),
            sys_ok(*s),
            wolf::wolf_ok(*w),
            mask@.len() == n && np@.len() == n,
            forall|t: int| 0 <= t < n ==> v3_ok(#[trigger] np@[t]),
            forall|t: int| 0 <= t < n && !mask@[t] ==> np@[t] == s.particles@[t].position,
            acc == sum1(|ii: int| sum1(|j: int| md(ii, j), ii + 1, n as int), 0, i as int),
            -(i as i128 * FX_B2_ROW_CAP) <= acc <= i as i128 * FX_B2_ROW_CAP,
            nf == (|i: int, j: int| wolf_term_at_s(*s, *w, i, j, np@[i]@, np@[j]@)),
            of == (|i: int, j: int| wolf_term_s(*s, *w, i, j)),
            mk == (|k: int| mask@[k]),
            md == (|i: int, j: int|
                if mk(i) || mk(j) {
                    nf(i, j) - of(i, j)
                } else {
                    0
                }),
        decreases n - i,
    {
        let ghost rowf = |j: int| md(i as int, j);
        let mut row: i128 = 0;
        let mut j: usize = i + 1;
        while j < n
            invariant
                i < j <= n,
                n == sys_len(*s),
                sys_ok(*s),
                wolf::wolf_ok(*w),
                i < n,
                mask@.len() == n && np@.len() == n,
                forall|t: int| 0 <= t < n ==> v3_ok(#[trigger] np@[t]),
                forall|t: int| 0 <= t < n && !mask@[t] ==> np@[t] == s.particles@[t].position,
                row == sum1(rowf, i as int + 1, j as int),
                -((j as i128) * fx::FX_BOUND2) <= row <= (j as i128) * fx::FX_BOUND2,
                rowf == (|j: int| md(i as int, j)),
                nf == (|i: int, j: int| wolf_term_at_s(*s, *w, i, j, np@[i]@, np@[j]@)),
                of == (|i: int, j: int| wolf_term_s(*s, *w, i, j)),
                mk == (|k: int| mask@[k]),
                md == (|i: int, j: int|
                    if mk(i) || mk(j) {
                        nf(i, j) - of(i, j)
                    } else {
                        0
                    }),
            decreases n - j,
        {
            let t: i128 = if mask[i] || mask[j] {
                let pi = np[i];
                let pj = np[j];
                let tn = wolf::wolf_term_at(s, w, i, j, &pi, &pj);
                let to = wolf::wolf_term(s, w, i, j);
                tn - to
            } else {
                0
            };
            proof {
                assert(t == rowf(j as int));
            }
            row = row + t;
            j = j + 1;
        }
        proof {
            assert(row == sum1(|j: int| md(i as int, j), i as int + 1, n as int)) by {
                lemma_sum1_congruence(rowf, |j: int| md(i as int, j), i as int + 1, n as int);
            }
            assert(-(FX_B2_ROW_CAP) <= row <= FX_B2_ROW_CAP);
        }
        acc = acc + row;
        i = i + 1;
    }
    proof {
        assert(acc == sum_pairs(md, 0, n as int));
        let mn = |i: int, j: int|
            if mk(i) || mk(j) {
                nf(i, j)
            } else {
                0
            };
        let mo = |i: int, j: int|
            if mk(i) || mk(j) {
                of(i, j)
            } else {
                0
            };
        lemma_sum_pairs_linear(mo, md, |i: int, j: int| mo(i, j) + md(i, j), 0, n as int);
        lemma_sum_pairs_congruence(|i: int, j: int| mo(i, j) + md(i, j), mn, 0, n as int);
        assert forall|i: int, j: int| 0 <= i < j < n as int && !mk(i) && !mk(j) implies #[trigger] of(
            i,
            j,
        ) == nf(i, j) by {
            assert(np@[i] == s.particles@[i].position);
            assert(np@[j] == s.particles@[j].position);
        }
        lemma_sum_pairs_masked_delta(of, nf, mk, 0, n as int);
    }
    acc
}

/// Apply a masked move to the structure factors: per wave index, the
/// linear sum changes only by the moved particles' phase terms, so the
/// new table is the old one plus a sum over the mask — the core
/// algorithmic fact the cache exploits.
#[verifier::rlimit(100)]
fn update_sk(
    s: &System,
    e: &Ewald,
    sk: &Vec<(i128, i128)>,
    mask: &Vec<bool>,
    np: &Vec<Vector3D>,
) -> (r: Vec<(i128, i128)>)
    requires
        sys_ok(*s),
        ewald::ewald_ok(*e),
        mask@.len() == sys_len(*s),
        np@.len() == sys_len(*s),
        forall|i: int| 0 <= i < sys_len(*s) ==> v3_ok(#[trigger] np@[i]),
        forall|i: int| 0 <= i < sys_len(*s) && !mask@[i] ==> np@[i] == s.particles@[i].position,
        sk@.len() == n_waves(*e),
        forall|m: int|
            0 <= m < n_waves(*e) ==> (#[trigger] sk@[m]).0 == sk_re_s(
                *s,
                dec_x(*e, m),
                dec_y(*e, m),
                dec_z(*e, m),
            ) && sk@[m].1 == sk_im_s(*s, dec_x(*e, m), dec_y(*e, m), dec_z(*e, m)),
    ensures
        r@.len() == n_waves(*e),
        forall|m: int|
            0 <= m < n_waves(*e) ==> (#[trigger] r@[m]).0 == sk_re_at_s(
                *s,
                np@,
                dec_x(*e, m),
                dec_y(*e, m),
                dec_z(*e, m),
            ) && r@[m].1 == sk_im_at_s(*s, np@, dec_x(*e, m), dec_y(*e, m), dec_z(*e, m)),
{
    let n = s.particles.len();
    let w: usize = 2 * (e.kmax as usize) + 1;
    proof {
        assert(1 <= w as int <= 129);
        assert(1 <= (w as int) * (w as int) <= 16641 && 1 <= (w as int) * (w as int) * (
        w as int) <= 2146689) by (nonlinear_arith)
            requires
                1 <= w as int <= 129,
        ;
    }
    let nw: usize = w * w * w;
    let k = e.kmax as i64;
    let mut r: Vec<(i128, i128)> = Vec::new();
    let mut m: usize = 0;
    while m < nw
        invariant
            0 <= m <= nw,
            nw == n_waves(*e) <= 2146689,
            w == ewald::wave_w(*e),
            1 <= w as int <= 129,
            1 <= (w as int) * (w as int) <= 16641,
            nw == (w as int) * (w as int) * (w as int),
            k == e.kmax as i64,
            n == sys_len(*s),
            sys_ok(*s),
            ewald::ewald_ok(*e),
            mask@.len() == n && np@.len() == n,
            forall|t: int| 0 <= t < n ==> v3_ok(#[trigger] np@[t]),
            forall|t: int| 0 <= t < n && !mask@[t] ==> np@[t] == s.particles@[t].position,
            sk@.len() == nw,
            forall|t: int|
                0 <= t < nw ==> (#[trigger] sk@[t]).0 == sk_re_s(
                    *s,
                    dec_x(*e, t),
                    dec_y(*e, t),
                    dec_z(*e, t),
                ) && sk@[t].1 == sk_im_s(*s, dec_x(*e, t), dec_y(*e, t), dec_z(*e, t)),
            r@.len() == m,
            forall|t: int|
                0 <= t < m ==> (#[trigger] r@[t]).0 == sk_re_at_s(
                    *s,
                    np@,
                    dec_x(*e, t),
                    dec_y(*e, t),
                    dec_z(*e, t),
                ) && r@[t].1 == sk_im_at_s(*s, np@, dec_x(*e, t), dec_y(*e, t), dec_z(*e, t)),
        decreases nw - m,
    {
        let nx: i64 = (m / (w * w)) as i64 - k;
        let ny: i64 = ((m / w) % w) as i64 - k;
        let nz: i64 = (m % w) as i64 - k;
        proof {
            assert((m as int) / ((w * w) as int) < w as int) by (nonlinear_arith)
                requires
                    m < w * w * w && w > 0,
            ;
            assert(nx == dec_x(*e, m as int));
            assert(ny == dec_y(*e, m as int));
            assert(nz == dec_z(*e, m as int));
        }
        let ghost fo_re = |i: int| sk_re_term_s(*s, i, nx as int, ny as int, nz as int);
        let ghost fn_re = |i: int| sk_re_term_at_s(*s, i, np@[i]@, nx as int, ny as int, nz as int);
        let ghost fo_im = |i: int| sk_im_term_s(*s, i, nx as int, ny as int, nz as int);
        let ghost fn_im = |i: int| sk_im_term_at_s(*s, i, np@[i]@, nx as int, ny as int, nz as int);
        let ghost mk = |i: int| mask@[i];
        let ghost md_re = |i: int|
            if mk(i) {
                fn_re(i) - fo_re(i)
            } else {
                0
            };
        let ghost md_im = |i: int|
            if mk(i) {
                fn_im(i) - fo_im(i)
            } else {
                0
            };
        let mut dre: i128 = 0;
        let mut dim: i128 = 0;
        let mut i: usize = 0;
        while i < n
            invariant
                0 <= i <= n,
                n == sys_len(*s),
                sys_ok(*s),
                mask@.len() == n && np@.len() == n,
                forall|t: int| 0 <= t < n ==> v3_ok(#[trigger] np@[t]),
                dre == sum1(md_re, 0, i as int),
                dim == sum1(md_im, 0, i as int),
                -(i as i128 * fx::FX_BOUND2) <= dre <= i as i128 * fx::FX_BOUND2,
                -(i as i128 * fx::FX_BOUND2) <= dim <= i as i128 * fx::FX_BOUND2,
                fo_re == (|i: int| sk_re_term_s(*s, i, nx as int, ny as int, nz as int)),
                fn_re == (|i: int|
                    sk_re_term_at_s(*s, i, np@[i]@, nx as int, ny as int, nz as int)),
                fo_im == (|i: int| sk_im_term_s(*s, i, nx as int, ny as int, nz as int)),
                fn_im == (|i: int|
                    sk_im_term_at_s(*s, i, np@[i]@, nx as int, ny as int, nz as int)),
                mk == (|i: int| mask@[i]),
                md_re == (|i: int|
                    if mk(i) {
                        fn_re(i) - fo_re(i)
                    } else {
                        0
                    }),
                md_im == (|i: int|
                    if mk(i) {
                        fn_im(i) - fo_im(i)
                    } else {
                        0
                    }),
            decreases n - i,
        {
            if mask[i] {
                let pnew = np[i];
                let pold = s.particles[i].position;
                let tn = ewald::sk_term_at(s, i, &pnew, nx, ny, nz);
                let to = ewald::sk_term_at(s, i, &pold, nx, ny, nz);
                dre = dre + (tn.0 - to.0);
                dim = dim + (tn.1 - to.1);
                proof {
                    assert(tn.0 - to.0 == md_re(i as int));
                    assert(tn.1 - to.1 == md_im(i as int));
                }
            } else {
                proof {
                    assert(md_re(i as int) == 0);
                    assert(md_im(i as int) == 0);
                }
            }
            i = i + 1;
        }
        let old_pair = sk[m];
        proof {
            assert forall|t: int| 0 <= t < n implies -fx::FX_BOUND <= #[trigger] fo_re(t)
                <= fx::FX_BOUND && -fx::FX_BOUND <= fo_im(t) <= fx::FX_BOUND by {}
            lemma_sum1_abs_bound(fo_re, 0, n as int, fx::FX_BOUND as int);
            lemma_sum1_abs_bound(fo_im, 0, n as int, fx::FX_BOUND as int);
            assert(n as int * fx::FX_BOUND <= 1048576 * fx::FX_BOUND);
            lemma_sum1_masked_delta(fo_re, fn_re, mk, 0, n as int);
            lemma_sum1_masked_delta(fo_im, fn_im, mk, 0, n as int);
            let mn_re = |t: int|
                if mk(t) {
                    fn_re(t)
                } else {
                    0
                };
            let mo_re = |t: int|
                if mk(t) {
                    fo_re(t)
                } else {
                    0
                };
            lemma_sum1_linear(mo_re, md_re, |t: int| mo_re(t) + md_re(t), 0, n as int);
            lemma_sum1_congruence(|t: int| mo_re(t) + md_re(t), mn_re, 0, n as int);
            let mn_im = |t: int|
                if mk(t) {
                    fn_im(t)
                } else {
                    0
                };
            let mo_im = |t: int|
                if mk(t) {
                    fo_im(t)
                } else {
                    0
                };
            lemma_sum1_linear(mo_im, md_im, |t: int| mo_im(t) + md_im(t), 0, n as int);
            lemma_sum1_congruence(|t: int| mo_im(t) + md_im(t), mn_im, 0, n as int);
            assert forall|t: int| 0 <= t < n && !mk(t) implies #[trigger] fo_re(t) == fn_re(t)
                && fo_im(t) == fn_im(t) by {
                assert(np@[t] == s.particles@[t].position);
            }
        }
        let new_re: i128 = old_pair.0 + dre;
        let new_im: i128 = old_pair.1 + dim;
        r.push((new_re, new_im));
        m = m + 1;
    }
    r
}

/// The reciprocal-space energy computed from a given structure-factor
/// table.
fn recip_from_sk(s: &System, e: &Ewald, skv: &Vec<(i128, i128)>) -> (r: i128)
    requires
        sys_ok(*s),
        ewald::ewald_ok(*e),
        skv@.len() == n_waves(*e),
    ensures
        r == sum1(
            |m: int| recip_term_sk(*s, *e, m, skv@[m].0 as int, skv@[m].1 as int),
            0,
            n_waves(*e),
        ),
        -(2146689i128 * fx::FX_BOUND) <= r <= 2146689i128 * fx::FX_BOUND,
{
    let ghost f = |m: int| recip_term_sk(*s, *e, m, skv@[m].0 as int, skv@[m].1 as int);
    let w: usize = 2 * (e.kmax as usize) + 1;
    proof {
        assert(1 <= w as int <= 129);
        assert(1 <= (w as int) * (w as int) <= 16641 && 1 <= (w as int) * (w as int) * (
        w as int) <= 2146689) by (nonlinear_arith)
            requires
                1 <= w as int <= 129,
        ;
    }
    let nw: usize = w * w * w;
    let mut acc: i128 = 0;
    let mut m: usize = 0;
    while m < nw
        invariant
            0 <= m <= nw,
            nw == n_waves(*e) <= 2146689,
            sys_ok(*s),
            ewald::ewald_ok(*e),
            skv@.len() == nw,
            acc == sum1(f, 0, m as int),
            -(m as i128 * fx::FX_BOUND) <= acc <= m as i128 * fx::FX_BOUND,
            f == (|m: int| recip_term_sk(*s, *e, m, skv@[m].0 as int, skv@[m].1 as int)),
        decreases nw - m,
    {
        let sk = skv[m];
        let t = ewald::recip_term(s, e, m, sk.0, sk.1);
        proof {
            assert(t == f(m as int));
        }
        acc = acc + t;
        m = m + 1;
    }
    acc
}

impl EnergyCache {
    /// Price the move of the explicitly enumerated particles to the
    /// given new positions, without touching the cached state: the
    /// returned value is exactly the total-energy change the move would
    /// cause, and probing twice with the same input returns the same
    /// value. The priced move is remembered so that a following
    /// `update` can adopt it.
    #[verifier::rlimit(100)]
    pub fn move_particles_cost(
        &mut self,
        s: &System,
        idxes: &Vec<usize>,
        newpos: &Vec<Vector3D>,
    ) -> (r: i128)
        requires
            cache_valid(*old(self), *s),
            idxes@.len() == newpos@.len(),
            forall|t: int| 0 <= t < idxes@.len() ==> (#[trigger] idxes@[t]) < sys_len(*s),
            forall|t1: int, t2: int|
                0 <= t1 < t2 < idxes@.len() ==> #[trigger] idxes@[t1] != #[trigger] idxes@[t2],
            forall|t: int| 0 <= t < newpos@.len() ==> v3_ok(#[trigger] newpos@[t]),
        ensures
            final(self).short_total == old(self).short_total,
            final(self).global_total == old(self).global_total,
            final(self).sk == old(self).sk,
            cache_valid(*final(self), *s),
            final(self).probed@ == *s,
            pending_ok(*final(self)),
            final(self).pending matches Some(p) && ({
                &&& p.mask@.len() == sys_len(*s)
                &&& p.np@.len() == sys_len(*s)
                &&& forall|i: int|
                    0 <= i < sys_len(*s) ==> ((#[trigger] p.mask@[i]) <==> moved_idx(idxes@, i))
                &&& forall|t: int|
                    0 <= t < idxes@.len() ==> p.np@[#[trigger] idxes@[t] as int] == newpos@[t]
                &&& forall|i: int|
                    0 <= i < sys_len(*s) && !p.mask@[i] ==> (#[trigger] p.np@[i])
                        == s.particles@[i].position
                &&& r == (p.new_short + p.new_global) - (old(self).short_total + old(
                    self,
                ).global_total)
                &&& forall|s1: System|
                    #[trigger] moved_to(*s, s1, p.mask@, p.np@) ==> r == pe_total_s(s1)
                        - pe_total_s(*s)
            }),
    {
        let n = s.particles.len();
        let nt = idxes.len();
        let mut mask: Vec<bool> = Vec::new();
        let mut i: usize = 0;
        while i < n
            invariant
                0 <= i <= n,
                mask@.len() == i,
                forall|u: int| 0 <= u < i ==> !(#[trigger] mask@[u]),
            decreases n - i,
        {
            mask.push(false);
            i = i + 1;
        }
        let mut t: usize = 0;
        while t < nt
            invariant
                0 <= t <= nt,
                nt == idxes@.len(),
                n == sys_len(*s),
                mask@.len() == n,
                forall|u: int| 0 <= u < nt ==> (#[trigger] idxes@[u]) < n,
                forall|u: int|
                    0 <= u < n ==> ((#[trigger] mask@[u]) <==> exists|v: int|
                        0 <= v < t && idxes@[v] == u),
            decreases nt - t,
        {
            let ix = idxes[t];
            mask.set(ix, true);
            t = t + 1;
        }
        let mut np: Vec<Vector3D> = Vec::new();
        i = 0;
        while i < n
            invariant
                0 <= i <= n,
                n == sys_len(*s),
                sys_ok(*s),
                np@.len() == i,
                forall|u: int| 0 <= u < i ==> #[trigger] np@[u] == s.particles@[u].position,
            decreases n - i,
        {
            np.push(s.particles[i].position);
            i = i + 1;
        }
        t = 0;
        while t < nt
            invariant
                0 <= t <= nt,
                nt == idxes@.len() == newpos@.len(),
                n == sys_len(*s),
                sys_ok(*s),
                np@.len() == n,
                forall|u: int| 0 <= u < nt ==> (#[trigger] idxes@[u]) < n,
                forall|u1: int, u2: int|
                    0 <= u1 < u2 < nt ==> #[trigger] idxes@[u1] != #[trigger] idxes@[u2],
                forall|u: int| 0 <= u < nt ==> v3_ok(#[trigger] newpos@[u]),
                forall|v: int| 0 <= v < t ==> np@[#[trigger] idxes@[v] as int] == newpos@[v],
                forall|u: int|
                    0 <= u < n && !(exists|v: int| 0 <= v < t && idxes@[v] == u) ==> (
                    #[trigger] np@[u]) == s.particles@[u].position,
            decreases nt - t,
        {
            let ix = idxes[t];
            let pv = newpos[t];
            np.set(ix, pv);
            t = t + 1;
        }
        proof {
            assert forall|u: int| 0 <= u < n implies v3_ok(#[trigger] np@[u]) by {
                if exists|v: int| 0 <= v < nt && idxes@[v] == u {
                    let v = choose|v: int| 0 <= v < nt && idxes@[v] == u;
                    assert(np@[u] == newpos@[v]);
                } else {
                    assert(np@[u] == s.particles@[u].position);
                }
            }
            assert forall|u: int| 0 <= u < n && !mask@[u] implies (#[trigger] np@[u])
                == s.particles@[u].position by {}
        }
        let d_pairs = masked_pair_delta(s, &mask, &np);
        proof {
            lemma_pair_term_bounds(*s);
            lemma_pair_sum_bound(*s, pair_new_fn(*s, np@));
            lemma_pair_sum_bound(*s, pair_fn(*s));
        }
        let gcopy = s.global;
        match gcopy {
            Option::Some(GlobalPotential::Ewald(e)) => {
                let d_real = masked_ewald_real_delta(s, &e, &mask, &np);
                let new_sk = update_sk(s, &e, &self.sk, &mask, &np);
                let recip_old = recip_from_sk(s, &e, &self.sk);
                let recip_new = recip_from_sk(s, &e, &new_sk);
                proof {
                    lemma_solver_term_bounds(*s);
                    crate::energy::sums::lemma_sum_pairs_abs_bound(
                        |i: int, j: int| ewald::ewald_real_term_at_s(*s, e, i, j, np@[i]@, np@[j]@),
                        0,
                        n as int,
                        fx::FX_BOUND as int,
                    );
                    crate::energy::sums::lemma_sum_pairs_abs_bound(
                        |i: int, j: int| ewald::ewald_real_term_s(*s, e, i, j),
                        0,
                        n as int,
                        fx::FX_BOUND as int,
                    );
                    assert((n as int) * ((n as int) * fx::FX_BOUND) <= 1048576 * (1048576
                        * fx::FX_BOUND)) by (nonlinear_arith)
                        requires
                            0 <= n as int <= 1048576,
                    ;
                }
                let is_periodic = match s.cell.shape() {
                    crate::sys::cell::CellShape::Orthorhombic => true,
                    crate::sys::cell::CellShape::Infinite => false,
                };
                let d_global: i128 = if is_periodic {
                    d_real + (recip_new - recip_old)
                } else {
                    0
                };
                let new_short: i128 = self.short_total + d_pairs;
                let new_global: i128 = self.global_total + d_global;
                let r: i128 = d_pairs + d_global;
                let ghost maskv = mask@;
                let ghost npv = np@;
                self.pending = Option::Some(
                    PendingMove { mask, np, new_short, new_global, new_sk },
                );
                self.probed = Ghost(*s);
                proof {
                    assert forall|s1: System| #[trigger] moved_to(*s, s1, maskv, npv) implies {
                        &&& new_short == pe_pairs_s(s1) + tail_s(s1)
                        &&& new_global == global_s(s1)
                        &&& r == pe_total_s(s1) - pe_total_s(*s)
                        &&& (match s1.global {
                            Option::Some(GlobalPotential::Ewald(e1)) => {
                                &&& self.pending->Some_0.new_sk@.len() == n_waves(e1)
                                &&& forall|m: int|
                                    0 <= m < n_waves(e1) ==> (#[trigger] self.pending->Some_0.new_sk@[m]).0
                                        == sk_re_s(s1, dec_x(e1, m), dec_y(e1, m), dec_z(e1, m))
                                        && self.pending->Some_0.new_sk@[m].1 == sk_im_s(
                                        s1,
                                        dec_x(e1, m),
                                        dec_y(e1, m),
                                        dec_z(e1, m),
                                    )
                            },
                            _ => true,
                        })
                    } by {
                        assert forall|i: int, j: int| 0 <= i < j < n as int implies #[trigger] pair_fn(
                            s1,
                        )(i, j) == pair_new_fn(*s, npv)(i, j) by {
                            lemma_pair_term_frame(*s, s1, maskv, npv, i, j);
                        }
                        lemma_sum_pairs_congruence(pair_fn(s1), pair_new_fn(*s, npv), 0, n as int);
                        lemma_tail_frame(*s, s1, maskv, npv);
                        assert forall|i: int, j: int| 0 <= i < j < n as int implies
                            #[trigger] ewald::ewald_real_term_s(s1, e, i, j)
                                == ewald::ewald_real_term_at_s(*s, e, i, j, npv[i]@, npv[j]@) by {
                            lemma_ewald_real_frame(*s, s1, maskv, npv, e, i, j);
                        }
                        lemma_sum_pairs_congruence(
                            |i: int, j: int| ewald::ewald_real_term_s(s1, e, i, j),
                            |i: int, j: int| ewald::ewald_real_term_at_s(
                                *s,
                                e,
                                i,
                                j,
                                npv[i]@,
                                npv[j]@,
                            ),
                            0,
                            n as int,
                        );
                        lemma_self_frame(*s, s1, maskv, npv);
                        assert forall|m: int| 0 <= m < n_waves(e) implies (
                        #[trigger] new_sk@[m]).0 == sk_re_s(
                            s1,
                            dec_x(e, m),
                            dec_y(e, m),
                            dec_z(e, m),
                        ) && new_sk@[m].1 == sk_im_s(s1, dec_x(e, m), dec_y(e, m), dec_z(e, m)) by {
                            let nx = dec_x(e, m);
                            let ny = dec_y(e, m);
                            let nz = dec_z(e, m);
                            assert forall|i: int| 0 <= i < n as int implies #[trigger] sk_re_term_s(
                                s1,
                                i,
                                nx,
                                ny,
                                nz,
                            ) == sk_re_term_at_s(*s, i, npv[i]@, nx, ny, nz) && sk_im_term_s(
                                s1,
                                i,
                                nx,
                                ny,
                                nz,
                            ) == sk_im_term_at_s(*s, i, npv[i]@, nx, ny, nz) by {
                                lemma_sk_term_frame(*s, s1, maskv, npv, i, nx, ny, nz);
                            }
                            lemma_sum1_congruence(
                                |i: int| sk_re_term_s(s1, i, nx, ny, nz),
                                |i: int| sk_re_term_at_s(*s, i, npv[i]@, nx, ny, nz),
                                0,
                                n as int,
                            );
                            lemma_sum1_congruence(
                                |i: int| sk_im_term_s(s1, i, nx, ny, nz),
                                |i: int| sk_im_term_at_s(*s, i, npv[i]@, nx, ny, nz),
                                0,
                                n as int,
                            );
                        }
                        assert forall|m: int| 0 <= m < n_waves(e) implies #[trigger] recip_term_sk(
                            s1,
                            e,
                            m,
                            new_sk@[m].0 as int,
                            new_sk@[m].1 as int,
                        ) == recip_term_sk(*s, e, m, new_sk@[m].0 as int, new_sk@[m].1 as int) by {}
                        lemma_sum1_congruence(
                            |m: int| recip_term_sk(*s, e, m, new_sk@[m].0 as int, new_sk@[m].1 as int),
                            |m: int| ewald::recip_term_s(s1, e, m),
                            0,
                            n_waves(e),
                        );
                        lemma_sum1_congruence(
                            |m: int| recip_term_sk(
                                *s,
                                e,
                                m,
                                old(self).sk@[m].0 as int,
                                old(self).sk@[m].1 as int,
                            ),
                            |m: int| ewald::recip_term_s(*s, e, m),
                            0,
                            n_waves(e),
                        );
                    }
                    lemma_short_bound(*s);
                    lemma_global_bound(*s);
                }
                r
            },
            Option::Some(GlobalPotential::Wolf(w)) => {
                let d_global = masked_wolf_delta(s, &w, &mask, &np);
                proof {
                    lemma_solver_term_bounds(*s);
                    crate::energy::sums::lemma_sum_pairs_abs_bound(
                        |i: int, j: int| wolf_term_at_s(*s, w, i, j, np@[i]@, np@[j]@),
                        0,
                        n as int,
                        fx::FX_BOUND as int,
                    );
                    crate::energy::sums::lemma_sum_pairs_abs_bound(
                        |i: int, j: int| wolf_term_s(*s, w, i, j),
                        0,
                        n as int,
                        fx::FX_BOUND as int,
                    );
                    assert((n as int) * ((n as int) * fx::FX_BOUND) <= 1048576 * (1048576
                        * fx::FX_BOUND)) by (nonlinear_arith)
                        requires
                            0 <= n as int <= 1048576,
                    ;
                }
                let new_short: i128 = self.short_total + d_pairs;
                let new_global: i128 = self.global_total + d_global;
                let r: i128 = d_pairs + d_global;
                let ghost maskv = mask@;
                let ghost npv = np@;
                self.pending = Option::Some(
                    PendingMove { mask, np, new_short, new_global, new_sk: Vec::new() },
                );
                self.probed = Ghost(*s);
                proof {
                    assert forall|s1: System| #[trigger] moved_to(*s, s1, maskv, npv) implies {
                        &&& new_short == pe_pairs_s(s1) + tail_s(s1)
                        &&& new_global == global_s(s1)
                        &&& r == pe_total_s(s1) - pe_total_s(*s)
                    } by {
                        assert forall|i: int, j: int| 0 <= i < j < n as int implies #[trigger] pair_fn(
                            s1,
                        )(i, j) == pair_new_fn(*s, npv)(i, j) by {
                            lemma_pair_term_frame(*s, s1, maskv, npv, i, j);
                        }
                        lemma_sum_pairs_congruence(pair_fn(s1), pair_new_fn(*s, npv), 0, n as int);
                        lemma_tail_frame(*s, s1, maskv, npv);
                        assert forall|i: int, j: int| 0 <= i < j < n as int implies
                            #[trigger] wolf_term_s(s1, w, i, j) == wolf_term_at_s(
                            *s,
                            w,
                            i,
                            j,
                            npv[i]@,
                            npv[j]@,
                        ) by {
                            lemma_wolf_frame(*s, s1, maskv, npv, w, i, j);
                        }
                        lemma_sum_pairs_congruence(
                            |i: int, j: int| wolf_term_s(s1, w, i, j),
                            |i: int, j: int| wolf_term_at_s(*s, w, i, j, npv[i]@, npv[j]@),
                            0,
                            n as int,
                        );
                        lemma_self_frame(*s, s1, maskv, npv);
                    }
                    lemma_short_bound(*s);
                    lemma_global_bound(*s);
                }
                r
            },
            Option::None => {
                let new_short: i128 = self.short_total + d_pairs;
                let new_global: i128 = self.global_total;
                let r: i128 = d_pairs;
                let ghost maskv = mask@;
                let ghost npv = np@;
                self.pending = Option::Some(
                    PendingMove { mask, np, new_short, new_global, new_sk: Vec::new() },
                );
                self.probed = Ghost(*s);
                proof {
                    assert forall|s1: System| #[trigger] moved_to(*s, s1, maskv, npv) implies {
                        &&& new_short == pe_pairs_s(s1) + tail_s(s1)
                        &&& new_global == global_s(s1)
                        &&& r == pe_total_s(s1) - pe_total_s(*s)
                    } by {
                        assert forall|i: int, j: int| 0 <= i < j < n as int implies #[trigger] pair_fn(
                            s1,
                        )(i, j) == pair_new_fn(*s, npv)(i, j) by {
                            lemma_pair_term_frame(*s, s1, maskv, npv, i, j);
                        }
                        lemma_sum_pairs_congruence(pair_fn(s1), pair_new_fn(*s, npv), 0, n as int);
                        lemma_tail_frame(*s, s1, maskv, npv);
                    }
                    lemma_short_bound(*s);
                    lemma_global_bound(*s);
                }
                r
            },
        }
    }

    /// Price the rigid move of one molecule: the explicitly enumerated
    /// particles are exactly the molecule's particles, in increasing
    /// index order, paired with the entries of `newpos`.
    pub fn move_molecule_cost(
        &mut self,
        s: &System,
        molid: usize,
        newpos: &Vec<Vector3D>,
    ) -> (r: i128)
        requires
            cache_valid(*old(self), *s),
            newpos@.len() == mol_count_s(*s, molid as int),
            forall|t: int| 0 <= t < newpos@.len() ==> v3_ok(#[trigger] newpos@[t]),
        ensures
            final(self).short_total == old(self).short_total,
            final(self).global_total == old(self).global_total,
            final(self).sk == old(self).sk,
            cache_valid(*final(self), *s),
            final(self).probed@ == *s,
            pending_ok(*final(self)),
            final(self).pending matches Some(p) && ({
                &&& p.mask@.len() == sys_len(*s)
                &&& forall|i: int|
                    0 <= i < sys_len(*s) ==> ((#[trigger] p.mask@[i]) <==> s.molids@[i] == molid)
                &&& forall|i: int|
                    0 <= i < sys_len(*s) && !p.mask@[i] ==> (#[trigger] p.np@[i])
                        == s.particles@[i].position
                &&& r == (p.new_short + p.new_global) - (old(self).short_total + old(
                    self,
                ).global_total)
                &&& forall|s1: System|
                    #[trigger] moved_to(*s, s1, p.mask@, p.np@) ==> r == pe_total_s(s1)
                        - pe_total_s(*s)
            }),
    {
        let idxes = s.molecule(molid);
        proof {
            lemma_molecule_count(*s, molid as int, idxes@);
        }
        let r = self.move_particles_cost(s, &idxes, newpos);
        proof {
            assert forall|i: int| 0 <= i < sys_len(*s) implies (moved_idx(idxes@, i) <==> s.molids@[i]
                == molid) by {
                if s.molids@[i] == molid {
                    assert(exists|t: int| 0 <= t < idxes@.len() && idxes@[t] == i);
                }
            }
        }
        r
    }

    /// Price a rigid move of every molecule at once: `newpos` lists a
    /// new position for every particle.
    pub fn move_all_rigid_molecules_cost(&mut self, s: &System, newpos: &Vec<Vector3D>) -> (r: i128)
        requires
            cache_valid(*old(self), *s),
            newpos@.len() == sys_len(*s),
            forall|t: int| 0 <= t < newpos@.len() ==> v3_ok(#[trigger] newpos@[t]),
        ensures
            final(self).short_total == old(self).short_total,
            final(self).global_total == old(self).global_total,
            final(self).sk == old(self).sk,
            cache_valid(*final(self), *s),
            final(self).probed@ == *s,
            pending_ok(*final(self)),
            final(self).pending matches Some(p) && ({
                &&& p.mask@.len() == sys_len(*s)
                &&& forall|t: int| 0 <= t < sys_len(*s) ==> (#[trigger] p.np@[t]) == newpos@[t]
                &&& r == (p.new_short + p.new_global) - (old(self).short_total + old(
                    self,
                ).global_total)
                &&& forall|s1: System|
                    #[trigger] moved_to(*s, s1, p.mask@, p.np@) ==> r == pe_total_s(s1)
                        - pe_total_s(*s)
            }),
    {
        let n = s.particles.len();
        let mut idxes: Vec<usize> = Vec::new();
        let mut i: usize = 0;
        while i < n
            invariant
                0 <= i <= n,
                idxes@.len() == i,
                forall|t: int| 0 <= t < i ==> #[trigger] idxes@[t] == t,
            decreases n - i,
        {
            idxes.push(i);
            i = i + 1;
        }
        let r = self.move_particles_cost(s, &idxes, newpos);
        proof {
            let p = self.pending->Some_0;
            assert forall|t: int| 0 <= t < sys_len(*s) implies (#[trigger] p.np@[t])
                == newpos@[t] by {
                assert(idxes@[t] == t);
                assert(p.np@[idxes@[t] as int] == newpos@[t]);
            }
        }
        r
    }

    /// Adopt the last priced move: the system must hold exactly the
    /// probed configuration with that move applied, and the cache folds
    /// the priced deltas into its running state — in work proportional
    /// to the move, since the expensive sums were already computed by
    /// the probe. With no call here (a rejected move), the cached state
    /// still describes the unmoved system, which the driver restores.
    pub fn update(&mut self, s: &System)
        requires
            pending_ok(*old(self)),
            sys_ok(*s),
            old(self).pending matches Some(p) && moved_to(old(self).probed@, *s, p.mask@, p.np@),
        ensures
            cache_valid(*final(self), *s),
            final(self).pending is None,
    {
        let mut pend: Option<PendingMove> = Option::None;
        core::mem::swap(&mut pend, &mut self.pending);
        match pend {
            Option::Some(p) => {
                self.short_total = p.new_short;
                self.global_total = p.new_global;
                self.sk = p.new_sk;
                proof {
                    lemma_short_bound(*s);
                    lemma_global_bound(*s);
                }
            },
            Option::None => {
                proof {
                    assert(false);
                }
            },
        }
    }
}

/// The number of particles a molecule's index list enumerates is the
/// molecule's particle count.
proof fn lemma_molecule_count(s: System, molid: int, idxes: Seq<usize>)
    requires
        sys_ok(s),
        forall|t: int|
            0 <= t < idxes.len() ==> (#[trigger] idxes[t]) < sys_len(s) && s.molids@[idxes[t] as int]
                == molid,
        forall|i: int|
            0 <= i < sys_len(s) && s.molids@[i] == molid ==> exists|t: int|
                0 <= t < idxes.len() && idxes[t] == i,
        forall|t1: int, t2: int|
            0 <= t1 < t2 < idxes.len() ==> #[trigger] idxes[t1] < #[trigger] idxes[t2],
    ensures
        idxes.len() == mol_count_s(s, molid),
    decreases sys_len(s),
{
    lemma_sorted_member_count(s, molid, idxes, mol_ind(s, molid), sys_len(s));
}

/// A strictly increasing enumeration of the indices below `hi` that
/// satisfy a membership predicate has as many entries as the indicator
/// sum counts.
proof fn lemma_sorted_member_count(
    s: System,
    molid: int,
    idxes: Seq<usize>,
    f: spec_fn(int) -> int,
    hi: int,
)
    requires
        0 <= hi,
        forall|i: int|
            #[trigger] f(i) == (if s.molids@[i] == molid {
                1int
            } else {
                0int
            }),
        forall|t: int|
            0 <= t < idxes.len() ==> (#[trigger] idxes[t]) < hi && s.molids@[idxes[t] as int]
                == molid,
        forall|i: int|
            0 <= i < hi && s.molids@[i] == molid ==> exists|t: int|
                0 <= t < idxes.len() && idxes[t] == i,
        forall|t1: int, t2: int|
            0 <= t1 < t2 < idxes.len() ==> #[trigger] idxes[t1] < #[trigger] idxes[t2],
    ensures
        idxes.len() == crate::energy::sums::sum1(f, 0, hi),
    decreases hi,
{
    if hi == 0 {
        if idxes.len() > 0 {
            assert(idxes[0] < 0);
        }
    } else {
        let last = hi - 1;
        if s.molids@[last] == molid {
            let t0 = choose|t: int| 0 <= t < idxes.len() && idxes[t] == last;
            assert(t0 == idxes.len() - 1) by {
                if t0 < idxes.len() - 1 {
                    assert(idxes[t0] < idxes[idxes.len() - 1]);
                    assert(idxes[idxes.len() - 1] < hi);
                }
            }
            let rest = idxes.drop_last();
            assert(rest.len() == idxes.len() - 1);
            assert forall|t: int| 0 <= t < rest.len() implies (#[trigger] rest[t]) < last
                && s.molids@[rest[t] as int] == molid by {
                assert(rest[t] == idxes[t]);
                assert(idxes[t] < idxes[idxes.len() - 1]);
            }
            assert forall|i: int| 0 <= i < last && s.molids@[i] == molid implies exists|t: int|
                0 <= t < rest.len() && rest[t] == i by {
                let tw = choose|t: int| 0 <= t < idxes.len() && idxes[t] == i;
                assert(tw < idxes.len() - 1) by {
                    if tw == idxes.len() - 1 {
                        assert(idxes[tw] == last);
                    }
                }
                assert(rest[tw] == i);
            }
            assert forall|t1: int, t2: int| 0 <= t1 < t2 < rest.len() implies #[trigger] rest[t1]
                < #[trigger] rest[t2] by {
                assert(rest[t1] == idxes[t1] && rest[t2] == idxes[t2]);
            }
            lemma_sorted_member_count(s, molid, rest, f, last);
        } else {
            assert forall|t: int| 0 <= t < idxes.len() implies (#[trigger] idxes[t]) < last
                && s.molids@[idxes[t] as int] == molid by {
                assert(idxes[t] < hi);
                if idxes[t] == last {
                    assert(s.molids@[last] == molid);
                }
            }
            lemma_sorted_member_count(s, molid, idxes, f, last);
        }
    }
}

/// Rigid-move invariance for translations: when the moved positions are
/// an exact common translation of one molecule's particles, every pair
/// term internal to that molecule is unchanged — the minimum-image
/// separation of two points moved by the same exact offset is identical
/// — so pricing such a move needs no intramolecular work. An exact
/// rotation has no such identity here: rotating fixed-point coordinates
/// rounds them, so only translations enjoy exact invariance.
pub proof fn lemma_rigid_translation_pairs(
    s0: System,
    s1: System,
    mask: Seq<bool>,
    np: Seq<Vector3D>,
    d: crate::types::vectors::Vec3S,
)
    requires
        moved_to(s0, s1, mask, np),
        forall|i: int|
            0 <= i < sys_len(s0) && mask[i] ==> (#[trigger] np[i])@.x == s0.particles@[i].position@.x
                + d.x && np[i]@.y == s0.particles@[i].position@.y + d.y && np[i]@.z
                == s0.particles@[i].position@.z + d.z,
    ensures
        forall|i: int, j: int|
            0 <= i < sys_len(s0) && 0 <= j < sys_len(s0) && mask[i] && mask[j]
                ==> #[trigger] pair_term_s(s1, i, j) == pair_term_s(s0, i, j),
{
    assert forall|i: int, j: int|
        0 <= i < sys_len(s0) && 0 <= j < sys_len(s0) && mask[i] && mask[j]
            implies #[trigger] pair_term_s(s1, i, j) == pair_term_s(s0, i, j) by {
        lemma_pair_term_frame(s0, s1, mask, np, i, j);
        let a = s0.particles@[i].position@;
        let b = s0.particles@[j].position@;
        assert(crate::types::vectors::v3_sub(np[j]@, np[i]@)
            == crate::types::vectors::v3_sub(b, a));
        assert(crate::sys::cell::min_image_s(s0.cell, np[i]@, np[j]@)
            == crate::sys::cell::min_image_s(s0.cell, a, b));
        assert forall|e: int| 0 <= e < s0.pairs@.len() implies #[trigger] entry_term_at_s(
            s0,
            s0.pairs@[e],
            i,
            j,
            np[i]@,
            np[j]@,
        ) == entry_term_at_s(s0, s0.pairs@[e], i, j, a, b) by {}
        lemma_sum1_congruence(
            |e: int| entry_term_at_s(s0, s0.pairs@[e], i, j, np[i]@, np[j]@),
            |e: int| entry_term_at_s(s0, s0.pairs@[e], i, j, a, b),
            0,
            s0.pairs@.len() as int,
        );
    }
}

/// Toggling the tail flag of one registered interaction changes the
/// total potential energy by exactly that entry's analytic tail
/// correction, and nothing else: the pair sums and the long-range
/// solver do not read the flag.
pub proof fn lemma_tail_correction_difference(s0: System, s1: System, k: int)
    requires
        sys_ok(s0),
        sys_ok(s1),
        s1.cell == s0.cell,
        s1.particles@ == s0.particles@,
        s1.bonds@ == s0.bonds@,
        s1.molids@ == s0.molids@,
        s1.kinds@ == s0.kinds@,
        s1.global == s0.global,
        s1.pairs@.len() == s0.pairs@.len(),
        0 <= k < s0.pairs@.len(),
        forall|e: int| 0 <= e < s0.pairs@.len() && e != k ==> s1.pairs@[e] == #[trigger] s0.pairs@[e],
        s0.pairs@[k].tail == false,
        s1.pairs@[k] == (crate::energy::potentials::PairInteraction {
            tail: true,
            ..s0.pairs@[k]
        }),
    ensures
        pe_total_s(s1) - pe_total_s(s0) == tail_entry_s(s1, s1.pairs@[k]),
{
    let n = sys_len(s0);
    // the pair sums agree entry by entry: no entry term reads the flag
    assert forall|i: int, j: int| 0 <= i < j < n implies #[trigger] pair_fn(s1)(i, j) == pair_fn(
        s0,
    )(i, j) by {
        assert forall|e: int| 0 <= e < s0.pairs@.len() implies #[trigger] entry_term_at_s(
            s1,
            s1.pairs@[e],
            i,
            j,
            s1.particles@[i].position@,
            s1.particles@[j].position@,
        ) == entry_term_at_s(
            s0,
            s0.pairs@[e],
            i,
            j,
            s0.particles@[i].position@,
            s0.particles@[j].position@,
        ) by {
            assert(crate::sys::system::bonded(s1, i, j) == crate::sys::system::bonded(s0, i, j));
        }
        lemma_sum1_congruence(
            |e: int| entry_term_at_s(
                s1,
                s1.pairs@[e],
                i,
                j,
                s1.particles@[i].position@,
                s1.particles@[j].position@,
            ),
            |e: int| entry_term_at_s(
                s0,
                s0.pairs@[e],
                i,
                j,
                s0.particles@[i].position@,
                s0.particles@[j].position@,
            ),
            0,
            s0.pairs@.len() as int,
        );
    }
    lemma_sum_pairs_congruence(pair_fn(s1), pair_fn(s0), 0, n);
    // the long-range solver reads no pair entry at all
    match s0.global {
        Option::Some(GlobalPotential::Ewald(e)) => {
            assert forall|i: int, j: int| 0 <= i < j < n implies
                #[trigger] ewald::ewald_real_term_s(s1, e, i, j) == ewald::ewald_real_term_s(
                s0,
                e,
                i,
                j,
            ) by {
                assert(crate::sys::system::bonded(s1, i, j) == crate::sys::system::bonded(
                    s0,
                    i,
                    j,
                ));
            }
            lemma_sum_pairs_congruence(
                |i: int, j: int| ewald::ewald_real_term_s(s1, e, i, j),
                |i: int, j: int| ewald::ewald_real_term_s(s0, e, i, j),
                0,
                n,
            );
            lemma_sum1_congruence(
                |i: int| ewald::ewald_self_term_s(s1, e, i),
                |i: int| ewald::ewald_self_term_s(s0, e, i),
                0,
                n,
            );
            assert forall|m: int| 0 <= m < n_waves(e) implies #[trigger] ewald::recip_term_s(
                s1,
                e,
                m,
            ) == ewald::recip_term_s(s0, e, m) by {
                let nx = dec_x(e, m);
                let ny = dec_y(e, m);
                let nz = dec_z(e, m);
                lemma_sum1_congruence(
                    |i: int| sk_re_term_s(s1, i, nx, ny, nz),
                    |i: int| sk_re_term_s(s0, i, nx, ny, nz),
                    0,
                    n,
                );
                lemma_sum1_congruence(
                    |i: int| sk_im_term_s(s1, i, nx, ny, nz),
                    |i: int| sk_im_term_s(s0, i, nx, ny, nz),
                    0,
                    n,
                );
            }
            lemma_sum1_congruence(
                |m: int| ewald::recip_term_s(s1, e, m),
                |m: int| ewald::recip_term_s(s0, e, m),
                0,
                n_waves(e),
            );
        },
        Option::Some(GlobalPotential::Wolf(w)) => {
            assert forall|i: int, j: int| 0 <= i < j < n implies #[trigger] wolf_term_s(s1, w, i, j)
                == wolf_term_s(s0, w, i, j) by {
                assert(crate::sys::system::bonded(s1, i, j) == crate::sys::system::bonded(
                    s0,
                    i,
                    j,
                ));
            }
            lemma_sum_pairs_congruence(
                |i: int, j: int| wolf_term_s(s1, w, i, j),
                |i: int, j: int| wolf_term_s(s0, w, i, j),
                0,
                n,
            );
            lemma_sum1_congruence(
                |i: int| wolf::wolf_self_term_s(s1, w, i),
                |i: int| wolf::wolf_self_term_s(s0, w, i),
                0,
                n,
            );
        },
        Option::None => {},
    }
    // the tail sums differ in the toggled entry alone, whose correction
    // was zero before the toggle
    let f0 = |e: int| tail_entry_s(s0, s0.pairs@[e]);
    let f1 = |e: int| tail_entry_s(s1, s1.pairs@[e]);
    let mk = |e: int| e == k;
    assert forall|e: int| 0 <= e < s0.pairs@.len() && !mk(e) implies #[trigger] f0(e) == f1(e) by {
        lemma_count_frame(s0, s1, s0.pairs@[e].ki as int);
        lemma_count_frame(s0, s1, s0.pairs@[e].kj as int);
    }
    crate::energy::sums::lemma_sum1_masked_delta(f0, f1, mk, 0, s0.pairs@.len() as int);
    lemma_single_point_sum(f1, mk, k, 0, s0.pairs@.len() as int);
    lemma_single_point_sum(f0, mk, k, 0, s0.pairs@.len() as int);
    assert(f0(k) == 0);
}

/// A sum masked to a single index is that index's term.
proof fn lemma_single_point_sum(f: spec_fn(int) -> int, mk: spec_fn(int) -> bool, k: int, lo: int, hi: int)
    requires
        lo <= k < hi,
        forall|e: int| #[trigger] mk(e) <==> e == k,
    ensures
        sum1(
            |e: int|
                if mk(e) {
                    f(e)
                } else {
                    0
                },
            lo,
            hi,
        ) == f(k),
    decreases hi - lo,
{
    if hi - 1 > k {
        lemma_single_point_sum(f, mk, k, lo, hi - 1);
    } else {
        lemma_zero_sum(
            |e: int|
                if mk(e) {
                    f(e)
                } else {
                    0
                },
            lo,
            hi - 1,
        );
    }
}

/// A sum of zeros is zero.
proof fn lemma_zero_sum(f: spec_fn(int) -> int, lo: int, hi: int)
    requires
        forall|e: int| lo <= e < hi ==> #[trigger] f(e) == 0,
    ensures
        sum1(f, lo, hi) == 0,
    decreases hi - lo,
{
    if hi > lo {
        lemma_zero_sum(f, lo, hi - 1);
    }
}

/// The Lennard-Jones tail correction is never positive when the cutoff
/// is at least the length scale of the potential: the attractive part
/// dominates the truncated region.
pub proof fn lemma_lj_tail_nonpositive(sigma: i128, epsilon: i128, rc: i128)
    requires
        0 <= sigma <= rc,
        0 < rc <= fx::FX_BOUND,
        0 <= epsilon <= fx::FX_BOUND,
    ensures
        crate::energy::potentials::pot_tail_s(
            crate::energy::potentials::PairPotential::LennardJones { sigma, epsilon },
            rc as int,
        ) <= 0,
{
    let sc = fx::fx_div(sigma as int, rc as int);
    assert(0 <= sc <= fx::FX_SCALE) by (nonlinear_arith)
        requires
            0 <= sigma <= rc && rc > 0 && sc == fx::fx_div(sigma as int, rc as int),
    ;
    lemma_unit_mul(sc, sc);
    let sc2 = fx::fx_mul(sc, sc);
    lemma_unit_mul(sc2, sc);
    let sc3 = fx::fx_mul(sc2, sc);
    lemma_unit_mul(sc3, sc3);
    let sc6 = fx::fx_mul(sc3, sc3);
    lemma_unit_mul(sc6, sc3);
    let sc9 = fx::fx_mul(sc6, sc3);
    lemma_unit_mul(crate::energy::potentials::FX_THIRD as int, sc9);
    let third9 = fx::fx_mul(crate::energy::potentials::FX_THIRD as int, sc9);
    assert(sc9 <= sc3);
    assert(third9 <= sc3);
    let t = fx::fx_sub(third9, sc3);
    assert(t <= 0);
    crate::fx::lemma_fx_mul_nonneg(sigma as int, sigma as int);
    crate::fx::lemma_fx_mul_nonneg(fx::fx_mul(sigma as int, sigma as int), sigma as int);
    crate::fx::lemma_fx_mul_nonneg(
        epsilon as int,
        fx::fx_mul(fx::fx_mul(sigma as int, sigma as int), sigma as int),
    );
    crate::fx::lemma_fx_mul_nonneg(
        crate::energy::potentials::FX_EIGHT_PI_THIRD as int,
        fx::fx_mul(
            epsilon as int,
            fx::fx_mul(fx::fx_mul(sigma as int, sigma as int), sigma as int),
        ),
    );
    let pref = fx::fx_mul(
        crate::energy::potentials::FX_EIGHT_PI_THIRD as int,
        fx::fx_mul(
            epsilon as int,
            fx::fx_mul(fx::fx_mul(sigma as int, sigma as int), sigma as int),
        ),
    );
    lemma_nonneg_times_nonpos(pref, t);
}

/// The Lennard-Jones tail correction is strictly negative when the
/// parameters keep clear of the resolution floor: unit-or-larger length
/// and energy scales, and a cutoff between two and four length scales.
/// Without such bounds a minute correction can truncate to exactly zero
/// at the fixed-point resolution, which is why the general law above
/// states only non-positivity.
pub proof fn lemma_lj_tail_strictly_negative(sigma: i128, epsilon: i128, rc: i128)
    requires
        fx::FX_SCALE <= sigma,
        fx::FX_SCALE <= epsilon <= fx::FX_BOUND,
        2 * sigma <= rc,
        rc <= 4 * sigma,
        0 < rc <= fx::FX_BOUND,
        sigma <= fx::FX_BOUND,
    ensures
        crate::energy::potentials::pot_tail_s(
            crate::energy::potentials::PairPotential::LennardJones { sigma, epsilon },
            rc as int,
        ) < 0,
{
    let sc_lo: int = 274877906943;
    let sc_hi: int = 549755813888;
    let sc = fx::fx_div(sigma as int, rc as int);
    assert(sigma * fx::FX_SCALE >= sc_lo * rc) by (nonlinear_arith)
        requires
            rc <= 4 * sigma && rc > 0 && 4 * sc_lo < fx::FX_SCALE,
    ;
    assert(sigma * fx::FX_SCALE < (sc_hi + 1) * rc) by (nonlinear_arith)
        requires
            2 * sigma <= rc && rc > 0 && fx::FX_SCALE == 2 * sc_hi,
    ;
    crate::fx::lemma_fx_div_lb(sigma as int, rc as int, sc_lo);
    crate::fx::lemma_fx_div_ub(sigma as int, rc as int, sc_hi);
    let sc2 = fx::fx_mul(sc, sc);
    assert(sc * sc >= 68719476735 * fx::FX_SCALE && sc * sc <= 274877906944 * fx::FX_SCALE)
        by (nonlinear_arith)
        requires
            274877906943 <= sc <= 549755813888,
    ;
    crate::fx::lemma_fx_mul_lb(sc, sc, 68719476735);
    crate::fx::lemma_fx_mul_ub(sc, sc, 274877906944);
    let sc3 = fx::fx_mul(sc2, sc);
    assert(sc2 * sc >= 17179869183 * fx::FX_SCALE && sc2 * sc <= 137438953472 * fx::FX_SCALE)
        by (nonlinear_arith)
        requires
            68719476735 <= sc2 <= 274877906944 && 274877906943 <= sc <= 549755813888,
    ;
    crate::fx::lemma_fx_mul_lb(sc2, sc, 17179869183);
    crate::fx::lemma_fx_mul_ub(sc2, sc, 137438953472);
    let sc6 = fx::fx_mul(sc3, sc3);
    assert(sc3 * sc3 >= 0 && sc3 * sc3 <= 17179869184 * fx::FX_SCALE) by (nonlinear_arith)
        requires
            0 <= sc3 <= 137438953472,
    ;
    crate::fx::lemma_fx_mul_lb(sc3, sc3, 0);
    crate::fx::lemma_fx_mul_ub(sc3, sc3, 17179869184);
    let sc9 = fx::fx_mul(sc6, sc3);
    assert(sc6 * sc3 >= 0 && sc6 * sc3 <= 2147483648 * fx::FX_SCALE) by (nonlinear_arith)
        requires
            0 <= sc6 <= 17179869184 && 0 <= sc3 <= 137438953472,
    ;
    crate::fx::lemma_fx_mul_lb(sc6, sc3, 0);
    crate::fx::lemma_fx_mul_ub(sc6, sc3, 2147483648);
    let third9 = fx::fx_mul(crate::energy::potentials::FX_THIRD as int, sc9);
    assert(crate::energy::potentials::FX_THIRD * sc9 >= 0 && crate::energy::potentials::FX_THIRD
        * sc9 <= 2147483648 * fx::FX_SCALE) by (nonlinear_arith)
        requires
            0 <= sc9 <= 2147483648 && 0 < crate::energy::potentials::FX_THIRD < fx::FX_SCALE,
    ;
    crate::fx::lemma_fx_mul_lb(crate::energy::potentials::FX_THIRD as int, sc9, 0);
    crate::fx::lemma_fx_mul_ub(crate::energy::potentials::FX_THIRD as int, sc9, 2147483648);
    let t = fx::fx_sub(third9, sc3);
    assert(t <= -8589934592);
    let s2 = fx::fx_mul(sigma as int, sigma as int);
    assert(sigma * sigma >= (fx::FX_SCALE - 1) * fx::FX_SCALE) by (nonlinear_arith)
        requires
            fx::FX_SCALE <= sigma,
    ;
    crate::fx::lemma_fx_mul_lb(sigma as int, sigma as int, fx::FX_SCALE - 1);
    let s3 = fx::fx_mul(s2, sigma as int);
    assert(s2 * sigma >= (fx::FX_SCALE - 2) * fx::FX_SCALE) by (nonlinear_arith)
        requires
            s2 >= fx::FX_SCALE - 1 && sigma >= fx::FX_SCALE,
    ;
    crate::fx::lemma_fx_mul_lb(s2, sigma as int, fx::FX_SCALE - 2);
    let es3 = fx::fx_mul(epsilon as int, s3);
    assert(epsilon * s3 >= (fx::FX_SCALE - 3) * fx::FX_SCALE) by (nonlinear_arith)
        requires
            epsilon >= fx::FX_SCALE && s3 >= fx::FX_SCALE - 2,
    ;
    crate::fx::lemma_fx_mul_lb(epsilon as int, s3, fx::FX_SCALE - 3);
    let pref = fx::fx_mul(crate::energy::potentials::FX_EIGHT_PI_THIRD as int, es3);
    assert(crate::energy::potentials::FX_EIGHT_PI_THIRD * es3 >= 8 * fx::FX_SCALE * fx::FX_SCALE)
        by (nonlinear_arith)
        requires
            es3 >= fx::FX_SCALE - 3 && crate::energy::potentials::FX_EIGHT_PI_THIRD
                == 9211247072954 && fx::FX_SCALE == 1099511627776,
    ;
    assert(8 * fx::FX_SCALE * fx::FX_SCALE == (8 * fx::FX_SCALE) * fx::FX_SCALE)
        by (nonlinear_arith);
    crate::fx::lemma_fx_mul_lb(
        crate::energy::potentials::FX_EIGHT_PI_THIRD as int,
        es3,
        8 * fx::FX_SCALE,
    );
    crate::fx::lemma_fx_mul_neg_right(pref, -t);
    assert(fx::fx_mul(pref, -(-t)) == fx::fx_mul(pref, t));
    assert(pref * (-t) >= 68719476736 * fx::FX_SCALE) by (nonlinear_arith)
        requires
            pref >= 8 * fx::FX_SCALE && -t >= 8589934592 && fx::FX_SCALE == 1099511627776,
    ;
    crate::fx::lemma_fx_mul_lb(pref, -t, 68719476736);
}

/// Multiplying two values in the unit interval shrinks toward zero:
/// the product stays between zero and either factor.
proof fn lemma_unit_mul(a: int, b: int)
    requires
        0 <= a <= fx::FX_SCALE,
        0 <= b <= fx::FX_SCALE,
    ensures
        0 <= fx::fx_mul(a, b) <= b,
        fx::fx_mul(a, b) <= a,
{
    assert(0 <= a * b && a * b <= fx::FX_SCALE * b && a * b <= a * fx::FX_SCALE)
        by (nonlinear_arith)
        requires
            0 <= a <= fx::FX_SCALE && 0 <= b <= fx::FX_SCALE,
    ;
    assert(fx::fx_tdiv(a * b, fx::FX_SCALE as int) <= b && fx::fx_tdiv(a * b, fx::FX_SCALE as int)
        >= 0) by (nonlinear_arith)
        requires
            0 <= a * b <= fx::FX_SCALE * b,
    ;
    assert(fx::fx_tdiv(a * b, fx::FX_SCALE as int) <= a) by (nonlinear_arith)
        requires
            0 <= a * b <= a * fx::FX_SCALE,
    ;
}

/// A non-negative value times a non-positive one is non-positive.
proof fn lemma_nonneg_times_nonpos(a: int, t: int)
    requires
        a >= 0,
        t <= 0,
    ensures
        fx::fx_mul(a, t) <= 0,
{
    assert(a * t <= 0) by (nonlinear_arith)
        requires
            a >= 0 && t <= 0,
    ;
}

} // verus!
