//! Particles, molecules and the interaction registry, gathered in the
//! `System` type that every evaluator and cache reads.

use crate::energy::potentials::{inter_ok, PairInteraction, PairPotential, PairRestriction};
use crate::energy::{global_ok, GlobalPotential};
use crate::fx;
use crate::sys::cell::{cell_ok, CellShape, UnitCell};
use crate::sys::ConfigError;
use crate::types::vectors::{v3_ok, Vec3S, Vector3D};
use vstd::prelude::*;

verus! {

/// Largest accepted particle count.
pub const SYSTEM_MAX_PARTICLES: usize = 1048576;

/// One particle: a named point mass with a charge, a position and a
/// velocity.
#[derive(Clone, Debug)]
pub struct Particle {
    /// Species name of the particle.
    pub name: String,
    /// Kind index, assigned by the system from the name.
    pub kind: u32,
    /// Mass; non-negative.
    pub mass: i128,
    /// Electric charge.
    pub charge: i128,
    /// Position.
    pub position: Vector3D,
    /// Velocity.
    pub velocity: Vector3D,
}

/// The particle's numeric fields are representable and its mass is
/// non-negative.
pub open spec fn part_ok(p: Particle) -> bool {
    0 <= p.mass <= fx::FX_BOUND && fx::fx_ok(p.charge) && v3_ok(p.position) && v3_ok(p.velocity)
}

impl Particle {
    /// A particle of the given species, at rest at the origin, with no
    /// mass and no charge until they are set.
    pub fn new(name: &str) -> (r: Particle)
        ensures
            r.name@ == name@,
            r.kind == 0,
            r.mass == 0 && r.charge == 0,
            r.position@ == (Vec3S { x: 0, y: 0, z: 0 }) && r.velocity@ == (Vec3S {
                x: 0,
                y: 0,
                z: 0,
            }),
            part_ok(r),
    {
        Particle {
            name: name.to_string(),
            kind: 0,
            mass: 0,
            charge: 0,
            position: Vector3D::zero(),
            velocity: Vector3D::zero(),
        }
    }

    /// The species name.
    pub fn name(&self) -> (r: &str)
        ensures
            r@ == self.name@,
    {
        self.name.as_str()
    }
}

/// The simulated system: a unit cell, particles with their molecule
/// membership and bonds, and the registered interactions.
pub struct System {
    /// The unit cell.
    pub cell: UnitCell,
    /// The particles.
    pub particles: Vec<Particle>,
    /// Molecule id of each particle.
    pub molids: Vec<usize>,
    /// Bonds between particles, as index pairs.
    pub bonds: Vec<(usize, usize)>,
    /// Kind names: `kinds[k]` is the species name of kind `k`.
    pub kinds: Vec<String>,
    /// Registered pairwise interactions.
    pub pairs: Vec<PairInteraction>,
    /// The active long-range solver, if any.
    pub global: Option<GlobalPotential>,
    /// Current simulation step.
    pub step: u64,
}

/// Well-formedness of a system: every stored quantity is representable,
/// every index in range, and the particle count within the supported
/// limit.
pub open spec fn sys_ok(s: System) -> bool {
    &&& cell_ok(s.cell)
    &&& s.particles@.len() == s.molids@.len()
    &&& s.particles@.len() <= SYSTEM_MAX_PARTICLES
    &&& forall|i: int|
        0 <= i < s.particles@.len() ==> part_ok(#[trigger] s.particles@[i]) && s.particles@[i].kind
            < s.kinds@.len()
    &&& forall|i: int| 0 <= i < s.molids@.len() ==> #[trigger] s.molids@[i] < s.particles@.len()
    &&& forall|k: int|
        0 <= k < s.bonds@.len() ==> (#[trigger] s.bonds@[k]).0 < s.particles@.len()
            && s.bonds@[k].1 < s.particles@.len() && s.bonds@[k].0 != s.bonds@[k].1
    &&& s.pairs@.len() <= 1024
    &&& forall|e: int| 0 <= e < s.pairs@.len() ==> inter_ok(#[trigger] s.pairs@[e])
    &&& match s.global {
        Option::Some(g) => global_ok(g),
        Option::None => true,
    }
}

/// Number of particles.
pub open spec fn sys_len(s: System) -> int {
    s.particles@.len() as int
}

/// Two particles are directly bonded.
pub open spec fn bonded(s: System, i: int, j: int) -> bool {
    exists|k: int|
        0 <= k < s.bonds@.len() && ((#[trigger] s.bonds@[k]).0 == i && s.bonds@[k].1 == j || (
        s.bonds@[k].0 == j && s.bonds@[k].1 == i))
}

/// Does a restriction let the pair `(i, j)` interact?
pub open spec fn allowed(s: System, r: PairRestriction, i: int, j: int) -> bool {
    match r {
        PairRestriction::NoRestriction => true,
        PairRestriction::ExcludeIntraMolecular => s.molids@[i] != s.molids@[j],
        PairRestriction::ExcludeInterMolecular => s.molids@[i] == s.molids@[j],
        PairRestriction::ExcludeBonded => !bonded(s, i, j),
    }
}

impl System {
    /// An empty system with an infinite cell.
    pub fn new() -> (r: System)
        ensures
            sys_ok(r),
            sys_len(r) == 0,
            r.cell.shape == CellShape::Infinite,
            r.pairs@.len() == 0 && r.kinds@.len() == 0 && r.bonds@.len() == 0,
            r.global is None,
            r.step == 0,
    {
        System {
            cell: UnitCell::new(),
            particles: Vec::new(),
            molids: Vec::new(),
            bonds: Vec::new(),
            kinds: Vec::new(),
            pairs: Vec::new(),
            global: Option::None,
            step: 0,
        }
    }

    /// An empty system with the given cell.
    pub fn with_cell(cell: UnitCell) -> (r: System)
        requires
            cell_ok(cell),
        ensures
            sys_ok(r),
            sys_len(r) == 0,
            r.cell == cell,
            r.pairs@.len() == 0 && r.kinds@.len() == 0 && r.bonds@.len() == 0,
            r.global is None,
            r.step == 0,
    {
        System {
            cell,
            particles: Vec::new(),
            molids: Vec::new(),
            bonds: Vec::new(),
            kinds: Vec::new(),
            pairs: Vec::new(),
            global: Option::None,
            step: 0,
        }
    }

    /// Number of particles in the system.
    pub fn size(&self) -> (r: usize)
        ensures
            r == sys_len(*self),
    {
        self.particles.len()
    }

    /// The unit cell.
    pub fn cell(&self) -> (r: UnitCell)
        ensures
            r == self.cell,
    {
        self.cell
    }

    /// The current simulation step.
    pub fn step(&self) -> (r: u64)
        ensures
            r == self.step,
    {
        self.step
    }

    /// Advance the simulation step counter.
    pub fn increment_step(&mut self)
        requires
            old(self).step < u64::MAX,
        ensures
            final(self).step == old(self).step + 1,
            final(self).cell == old(self).cell && final(self).particles == old(self).particles && final(self).molids
                == old(self).molids && final(self).bonds == old(self).bonds && final(self).kinds == old(self).kinds && final(self).pairs == old(self).pairs && final(self).global == old(self).global,
    {
        self.step = self.step + 1;
    }

    /// Find the kind index for a species name, registering the name if it
    /// is new.
    fn kind_of(&mut self, name: &String) -> (k: u32)
        requires
            old(self).kinds@.len() < 4294967295,
        ensures
            final(self).cell == old(self).cell && final(self).particles == old(self).particles && final(self).molids
                == old(self).molids && final(self).bonds == old(self).bonds && final(self).pairs == old(self).pairs && final(self).global == old(self).global && final(self).step == old(self).step,
            old(self).kinds@.len() <= final(self).kinds@.len() <= old(self).kinds@.len() + 1,
            forall|i: int| 0 <= i < old(self).kinds@.len() ==> final(self).kinds@[i] == old(self).kinds@[i],
            k < final(self).kinds@.len(),
            final(self).kinds@[k as int]@ == name@,
    {
        let n = self.kinds.len();
        let mut i: usize = 0;
        while i < n
            invariant
                0 <= i <= n,
                n == self.kinds@.len(),
                n < 4294967295,
                *self == *old(self),
            decreases n - i,
        {
            if self.kinds[i] == *name {
                return i as u32;
            }
            i = i + 1;
        }
        self.kinds.push(name.clone());
        n as u32
    }

    /// Add a particle: its kind is resolved from its name, its numeric
    /// fields are clamped into the representable range (a negative mass
    /// to zero), and it forms a new molecule of its own.
    pub fn add_particle(&mut self, p: Particle)
        requires
            sys_ok(*old(self)),
            sys_len(*old(self)) < SYSTEM_MAX_PARTICLES,
            old(self).kinds@.len() < 4294967295,
        ensures
            sys_ok(*final(self)),
            sys_len(*final(self)) == sys_len(*old(self)) + 1,
            final(self).cell == old(self).cell && final(self).bonds == old(self).bonds && final(self).pairs == old(self).pairs && final(self).global == old(self).global && final(self).step == old(self).step,
            forall|i: int|
                0 <= i < sys_len(*old(self)) ==> final(self).particles@[i] == old(self).particles@[i]
                    && final(self).molids@[i] == old(self).molids@[i],
            ({
                let q = final(self).particles@[sys_len(*old(self))];
                q.name@ == p.name@ && q.position@ == (Vector3D {
                    x: fx::fx_clamp(p.position.x as int) as i128,
                    y: fx::fx_clamp(p.position.y as int) as i128,
                    z: fx::fx_clamp(p.position.z as int) as i128,
                })@ && q.velocity@ == (Vector3D {
                    x: fx::fx_clamp(p.velocity.x as int) as i128,
                    y: fx::fx_clamp(p.velocity.y as int) as i128,
                    z: fx::fx_clamp(p.velocity.z as int) as i128,
                })@ && q.charge == fx::fx_clamp(p.charge as int) && q.mass == (if fx::fx_clamp(
                    p.mass as int,
                ) < 0 {
                    0int
                } else {
                    fx::fx_clamp(p.mass as int)
                })
            }),
            final(self).molids@[sys_len(*old(self))] == sys_len(*old(self)),
    {
        let kind = self.kind_of(&p.name);
        let mass0 = fx::clamp(p.mass);
        let mass = if mass0 < 0 {
            0
        } else {
            mass0
        };
        let q = Particle {
            name: p.name,
            kind,
            mass,
            charge: fx::clamp(p.charge),
            position: Vector3D {
                x: fx::clamp(p.position.x),
                y: fx::clamp(p.position.y),
                z: fx::clamp(p.position.z),
            },
            velocity: Vector3D {
                x: fx::clamp(p.velocity.x),
                y: fx::clamp(p.velocity.y),
                z: fx::clamp(p.velocity.z),
            },
        };
        let n = self.particles.len();
        self.particles.push(q);
        self.molids.push(n);
    }

    /// Position of particle `i`.
    pub fn position(&self, i: usize) -> (r: Vector3D)
        requires
            sys_ok(*self),
            i < sys_len(*self),
        ensures
            r == self.particles@[i as int].position,
            v3_ok(r),
    {
        self.particles[i].position
    }

    /// Move particle `i`; the components are clamped into the
    /// representable range. This bypasses the energy cache: a cache
    /// holding this system must be re-initialized or told through its
    /// own update path.
    pub fn set_position(&mut self, i: usize, v: Vector3D)
        requires
            sys_ok(*old(self)),
            i < sys_len(*old(self)),
        ensures
            sys_ok(*final(self)),
            sys_len(*final(self)) == sys_len(*old(self)),
            final(self).cell == old(self).cell && final(self).molids == old(self).molids && final(self).bonds == old(self).bonds && final(self).kinds == old(self).kinds && final(self).pairs == old(self).pairs
                && final(self).global == old(self).global && final(self).step == old(self).step,
            forall|j: int|
                0 <= j < sys_len(*final(self)) && j != i ==> final(self).particles@[j] == old(self).particles@[j],
            final(self).particles@[i as int].position@ == (Vector3D {
                x: fx::fx_clamp(v.x as int) as i128,
                y: fx::fx_clamp(v.y as int) as i128,
                z: fx::fx_clamp(v.z as int) as i128,
            })@,
            final(self).particles@[i as int].name == old(self).particles@[i as int].name
                && final(self).particles@[i as int].kind == old(self).particles@[i as int].kind
                && final(self).particles@[i as int].mass == old(self).particles@[i as int].mass
                && final(self).particles@[i as int].charge == old(self).particles@[i as int].charge
                && final(self).particles@[i as int].velocity == old(self).particles@[i as int].velocity,
    {
        let w = Vector3D { x: fx::clamp(v.x), y: fx::clamp(v.y), z: fx::clamp(v.z) };
        let p = &self.particles[i];
        let q = Particle {
            name: p.name.clone(),
            kind: p.kind,
            mass: p.mass,
            charge: p.charge,
            position: w,
            velocity: p.velocity,
        };
        self.particles.set(i, q);
    }

    /// Velocity of particle `i`.
    pub fn velocity(&self, i: usize) -> (r: Vector3D)
        requires
            sys_ok(*self),
            i < sys_len(*self),
        ensures
            r == self.particles@[i as int].velocity,
            v3_ok(r),
    {
        self.particles[i].velocity
    }

    /// Set the velocity of particle `i`; the components are clamped into
    /// the representable range.
    pub fn set_velocity(&mut self, i: usize, v: Vector3D)
        requires
            sys_ok(*old(self)),
            i < sys_len(*old(self)),
        ensures
            sys_ok(*final(self)),
            sys_len(*final(self)) == sys_len(*old(self)),
            final(self).cell == old(self).cell && final(self).molids == old(self).molids && final(self).bonds == old(self).bonds && final(self).kinds == old(self).kinds && final(self).pairs == old(self).pairs
                && final(self).global == old(self).global && final(self).step == old(self).step,
            forall|j: int|
                0 <= j < sys_len(*final(self)) && j != i ==> final(self).particles@[j] == old(self).particles@[j],
            final(self).particles@[i as int].velocity@ == (Vector3D {
                x: fx::fx_clamp(v.x as int) as i128,
                y: fx::fx_clamp(v.y as int) as i128,
                z: fx::fx_clamp(v.z as int) as i128,
            })@,
            final(self).particles@[i as int].name == old(self).particles@[i as int].name
                && final(self).particles@[i as int].kind == old(self).particles@[i as int].kind
                && final(self).particles@[i as int].mass == old(self).particles@[i as int].mass
                && final(self).particles@[i as int].charge == old(self).particles@[i as int].charge
                && final(self).particles@[i as int].position == old(self).particles@[i as int].position,
    {
        let w = Vector3D { x: fx::clamp(v.x), y: fx::clamp(v.y), z: fx::clamp(v.z) };
        let p = &self.particles[i];
        let q = Particle {
            name: p.name.clone(),
            kind: p.kind,
            mass: p.mass,
            charge: p.charge,
            position: p.position,
            velocity: w,
        };
        self.particles.set(i, q);
    }

    /// Mass of particle `i`.
    pub fn mass(&self, i: usize) -> (r: i128)
        requires
            sys_ok(*self),
            i < sys_len(*self),
        ensures
            r == self.particles@[i as int].mass,
            0 <= r <= fx::FX_BOUND,
    {
        self.particles[i].mass
    }

    /// Charge of particle `i`.
    pub fn charge(&self, i: usize) -> (r: i128)
        requires
            sys_ok(*self),
            i < sys_len(*self),
        ensures
            r == self.particles@[i as int].charge,
            fx::fx_ok(r),
    {
        self.particles[i].charge
    }

    /// Set the charge of particle `i`, clamped into the representable
    /// range.
    pub fn set_charge(&mut self, i: usize, c: i128)
        requires
            sys_ok(*old(self)),
            i < sys_len(*old(self)),
        ensures
            sys_ok(*final(self)),
            sys_len(*final(self)) == sys_len(*old(self)),
            final(self).cell == old(self).cell && final(self).molids == old(self).molids && final(self).bonds == old(self).bonds && final(self).kinds == old(self).kinds && final(self).pairs == old(self).pairs
                && final(self).global == old(self).global && final(self).step == old(self).step,
            forall|j: int|
                0 <= j < sys_len(*final(self)) && j != i ==> final(self).particles@[j] == old(self).particles@[j],
            final(self).particles@[i as int].charge == fx::fx_clamp(c as int),
            final(self).particles@[i as int].name == old(self).particles@[i as int].name
                && final(self).particles@[i as int].kind == old(self).particles@[i as int].kind
                && final(self).particles@[i as int].mass == old(self).particles@[i as int].mass
                && final(self).particles@[i as int].position == old(self).particles@[i as int].position
                && final(self).particles@[i as int].velocity == old(self).particles@[i as int].velocity,
    {
        let p = &self.particles[i];
        let q = Particle {
            name: p.name.clone(),
            kind: p.kind,
            mass: p.mass,
            charge: fx::clamp(c),
            position: p.position,
            velocity: p.velocity,
        };
        self.particles.set(i, q);
    }

    /// Set the mass of particle `i`, clamped into `[0, FX_BOUND]`.
    pub fn set_mass(&mut self, i: usize, m: i128)
        requires
            sys_ok(*old(self)),
            i < sys_len(*old(self)),
        ensures
            sys_ok(*final(self)),
            sys_len(*final(self)) == sys_len(*old(self)),
            final(self).cell == old(self).cell && final(self).molids == old(self).molids && final(self).bonds == old(self).bonds && final(self).kinds == old(self).kinds && final(self).pairs == old(self).pairs
                && final(self).global == old(self).global && final(self).step == old(self).step,
            forall|j: int|
                0 <= j < sys_len(*final(self)) && j != i ==> final(self).particles@[j] == old(self).particles@[j],
            final(self).particles@[i as int].mass == (if fx::fx_clamp(m as int) < 0 {
                0int
            } else {
                fx::fx_clamp(m as int)
            }),
            final(self).particles@[i as int].name == old(self).particles@[i as int].name
                && final(self).particles@[i as int].kind == old(self).particles@[i as int].kind
                && final(self).particles@[i as int].charge == old(self).particles@[i as int].charge
                && final(self).particles@[i as int].position == old(self).particles@[i as int].position
                && final(self).particles@[i as int].velocity == old(self).particles@[i as int].velocity,
    {
        let m0 = fx::clamp(m);
        let m1 = if m0 < 0 {
            0
        } else {
            m0
        };
        let p = &self.particles[i];
        let q = Particle {
            name: p.name.clone(),
            kind: p.kind,
            mass: m1,
            charge: p.charge,
            position: p.position,
            velocity: p.velocity,
        };
        self.particles.set(i, q);
    }

    /// Molecule id of particle `i`.
    pub fn molid(&self, i: usize) -> (r: usize)
        requires
            sys_ok(*self),
            i < sys_len(*self),
        ensures
            r == self.molids@[i as int],
    {
        self.molids[i]
    }

    /// The particles of molecule `m`, in increasing index order.
    pub fn molecule(&self, m: usize) -> (r: Vec<usize>)
        requires
            sys_ok(*self),
        ensures
            forall|t: int|
                0 <= t < r@.len() ==> #[trigger] r@[t] < sys_len(*self) && self.molids@[r@[t] as int]
                    == m,
            forall|i: int|
                0 <= i < sys_len(*self) && self.molids@[i] == m ==> exists|t: int|
                    0 <= t < r@.len() && r@[t] == i,
            forall|t1: int, t2: int|
                0 <= t1 < t2 < r@.len() ==> #[trigger] r@[t1] < #[trigger] r@[t2],
    {
        let n = self.particles.len();
        let mut r: Vec<usize> = Vec::new();
        let mut i: usize = 0;
        while i < n
            invariant
                0 <= i <= n,
                n == sys_len(*self),
                sys_ok(*self),
                forall|t: int|
                    0 <= t < r@.len() ==> #[trigger] r@[t] < i && self.molids@[r@[t] as int] == m,
                forall|j: int|
                    0 <= j < i && self.molids@[j] == m ==> exists|t: int|
                        0 <= t < r@.len() && r@[t] == j,
                forall|t1: int, t2: int|
                0 <= t1 < t2 < r@.len() ==> #[trigger] r@[t1] < #[trigger] r@[t2],
            decreases n - i,
        {
            if self.molids[i] == m {
                let ghost old_r = r@;
                r.push(i);
                proof {
                    assert forall|j: int|
                        0 <= j < i + 1 && self.molids@[j] == m implies exists|t: int|
                        0 <= t < r@.len() && r@[t] == j by {
                        if j < i {
                            let t = choose|t: int| 0 <= t < old_r.len() && old_r[t] == j;
                            assert(r@[t] == j);
                        } else {
                            assert(r@[r@.len() - 1] == j);
                        }
                    }
                }
            }
            i = i + 1;
        }
        r
    }

    /// Add a bond between particles `i` and `j`, merging their molecules:
    /// every particle of either molecule ends with the smaller of the two
    /// molecule ids. Particle indices are stable; an out-of-range or
    /// degenerate pair is a configuration error.
    pub fn add_bond(&mut self, i: usize, j: usize) -> (r: Result<(), ConfigError>)
        requires
            sys_ok(*old(self)),
        ensures
            sys_ok(*final(self)),
            r is Ok <==> (i < sys_len(*old(self)) && j < sys_len(*old(self)) && i != j),
            r is Err ==> *final(self) == *old(self),
            r is Ok ==> {
                &&& final(self).cell == old(self).cell && final(self).particles == old(self).particles
                    && final(self).kinds == old(self).kinds && final(self).pairs == old(self).pairs
                    && final(self).global == old(self).global && final(self).step == old(self).step
                &&& final(self).bonds@ == old(self).bonds@.push((i, j))
                &&& ({
                    let mi = old(self).molids@[i as int];
                    let mj = old(self).molids@[j as int];
                    let lo = if mi < mj {
                        mi
                    } else {
                        mj
                    };
                    forall|t: int|
                        0 <= t < final(self).molids@.len() ==> final(self).molids@[t] == (if old(self).molids@[t]
                            == mi || old(self).molids@[t] == mj {
                            lo
                        } else {
                            old(self).molids@[t]
                        })
                })
            },
    {
        let n = self.particles.len();
        if i >= n || j >= n || i == j {
            return Err(ConfigError::IndexOutOfRange);
        }
        let mi = self.molids[i];
        let mj = self.molids[j];
        let lo = if mi < mj {
            mi
        } else {
            mj
        };
        let mut t: usize = 0;
        while t < n
            invariant
                0 <= t <= n,
                n == sys_len(*self) == sys_len(*old(self)),
                self.molids@.len() == n,
                self.cell == old(self).cell && self.particles == old(self).particles && self.bonds
                    == old(self).bonds && self.kinds == old(self).kinds && self.pairs == old(self).pairs && self.global == old(self).global && self.step == old(self).step,
                lo < n,
                forall|u: int|
                    0 <= u < t ==> self.molids@[u] == (if old(self).molids@[u] == mi || old(self).molids@[u] == mj {
                        lo as usize
                    } else {
                        old(self).molids@[u]
                    }),
                forall|u: int| t <= u < n ==> self.molids@[u] == old(self).molids@[u],
            decreases n - t,
        {
            let cur = self.molids[t];
            if cur == mi || cur == mj {
                self.molids.set(t, lo);
            }
            t = t + 1;
        }
        self.bonds.push((i, j));
        Ok(())
    }

    /// The bonds of the system, as index pairs.
    pub fn bonds(&self) -> (r: &Vec<(usize, usize)>)
        ensures
            r@ == self.bonds@,
    {
        &self.bonds
    }

    /// Register a pairwise interaction between two species. The cutoff
    /// must be positive, and under a periodic cell no larger than half
    /// the shortest cell vector; violating either is a configuration
    /// error, reported here rather than as a wrong energy later.
    pub fn add_pair_interaction(
        &mut self,
        name_i: &str,
        name_j: &str,
        potential: PairPotential,
        cutoff: i128,
        restriction: PairRestriction,
        tail: bool,
    ) -> (r: Result<(), ConfigError>)
        requires
            sys_ok(*old(self)),
            old(self).kinds@.len() < 4294967294,
            crate::energy::potentials::pot_ok(potential),
        ensures
            sys_ok(*final(self)),
            final(self).cell == old(self).cell && final(self).particles == old(self).particles && final(self).molids
                == old(self).molids && final(self).bonds == old(self).bonds && final(self).global == old(self).global && final(self).step == old(self).step,
            r is Err ==> final(self).pairs == old(self).pairs && final(self).kinds == old(self).kinds,
            r is Ok <==> (0 < cutoff <= fx::FX_BOUND && old(self).pairs@.len() < 1024 && (old(
                self,
            ).cell.shape == CellShape::Orthorhombic ==> 2 * cutoff
                <= crate::sys::cell::min_length_s(old(self).cell))),
            r is Ok ==> ({
                &&& final(self).pairs@.len() == old(self).pairs@.len() + 1
                &&& forall|e: int|
                    0 <= e < old(self).pairs@.len() ==> final(self).pairs@[e] == old(self).pairs@[e]
                &&& ({
                    let en = final(self).pairs@[old(self).pairs@.len() as int];
                    en.potential == potential && en.cutoff == cutoff && en.restriction
                        == restriction && en.tail == tail && en.ki < final(self).kinds@.len() && en.kj
                        < final(self).kinds@.len() && final(self).kinds@[en.ki as int]@ == name_i@
                        && final(self).kinds@[en.kj as int]@ == name_j@
                })
            }),
    {
        if cutoff <= 0 || cutoff > fx::FX_BOUND {
            return Err(ConfigError::NonPositiveCutoff);
        }
        if self.pairs.len() >= 1024 {
            return Err(ConfigError::InteractionTableFull);
        }
        match self.cell.shape() {
            CellShape::Orthorhombic => {
                let m = self.cell.min_length();
                if 2 * cutoff > m {
                    return Err(ConfigError::CutoffTooLarge);
                }
            },
            CellShape::Infinite => {},
        }
        let ni = name_i.to_string();
        let nj = name_j.to_string();
        let ki = self.kind_of(&ni);
        let kj = self.kind_of(&nj);
        self.pairs.push(
            PairInteraction { ki, kj, potential, cutoff, restriction, tail },
        );
        Ok(())
    }

    /// The registered pairwise interactions.
    pub fn pair_interactions(&self) -> (r: &Vec<PairInteraction>)
        ensures
            r@ == self.pairs@,
    {
        &self.pairs
    }

    /// The active long-range solver.
    pub fn global_potential(&self) -> (r: Option<GlobalPotential>)
        ensures
            r == self.global,
    {
        self.global
    }

    /// Install or replace the long-range solver wholesale. Under a
    /// periodic cell its real-space cutoff must be no larger than half
    /// the shortest cell vector.
    pub fn set_global_potential(&mut self, g: GlobalPotential) -> (r: Result<(), ConfigError>)
        requires
            sys_ok(*old(self)),
            global_ok(g),
        ensures
            sys_ok(*final(self)),
            final(self).cell == old(self).cell && final(self).particles == old(self).particles && final(self).molids
                == old(self).molids && final(self).bonds == old(self).bonds && final(self).kinds == old(self).kinds && final(self).pairs == old(self).pairs && final(self).step == old(self).step,
            r is Ok <==> (old(self).cell.shape == CellShape::Orthorhombic ==> 2
                * crate::energy::global_cutoff(g) <= crate::sys::cell::min_length_s(old(self).cell)),
            r is Ok ==> final(self).global == Option::Some(g),
            r is Err ==> final(self).global == old(self).global,
    {
        match self.cell.shape() {
            CellShape::Orthorhombic => {
                let m = self.cell.min_length();
                let rc = match g {
                    GlobalPotential::Ewald(e) => e.rcut(),
                    GlobalPotential::Wolf(w) => w.rcut(),
                };
                if 2 * rc > m {
                    return Err(ConfigError::CutoffTooLarge);
                }
            },
            CellShape::Infinite => {},
        }
        self.global = Option::Some(g);
        Ok(())
    }
}

} // verus!
