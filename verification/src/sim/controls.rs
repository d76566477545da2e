//! Controls over simulation parameters: velocity-rescaling and
//! Berendsen thermostats, and removal of the global translation and
//! rotation of the system.

use crate::energy::evaluator::{temperature, temperature_s};
use crate::fx;
use crate::sys::system::{sys_len, sys_ok, System};
use crate::sys::ConfigError;
use crate::types::matrix::{m3_inverse, m3_mul_v, Mat3S};
use crate::types::vectors::{v3_add, v3_cross, v3_dot, v3_scale, v3_sub, Vec3S, Vector3D};
use vstd::math::abs;
use vstd::prelude::*;

verus! {

/// Trait for controlling some parameter of a system during a
/// simulation.
pub trait Control {
    /// Called once at the beginning of the simulation run.
    fn setup(&mut self, system: &System)
        requires
            sys_ok(*system),
    ;

    /// Apply the control to the system.
    fn control(&mut self, system: &mut System)
        requires
            sys_ok(*old(system)),
        ensures
            sys_ok(*final(system)),
    ;

    /// Called once at the end of the simulation run.
    fn finish(&mut self, system: &System)
        requires
            sys_ok(*system),
    ;
}

/// Trait for controls usable as thermostats.
pub trait Thermostat: Control {

}

/// Everything of the system except the velocities is kept: the cell,
/// the interactions, the molecules and bonds, and every per-particle
/// field but the velocity.
pub open spec fn only_velocities_changed(s0: System, s1: System) -> bool {
    &&& sys_len(s1) == sys_len(s0)
    &&& s1.cell == s0.cell && s1.pairs@ == s0.pairs@ && s1.bonds@ == s0.bonds@ && s1.molids@
        == s0.molids@ && s1.kinds@ == s0.kinds@ && s1.global == s0.global
    &&& forall|i: int|
        0 <= i < sys_len(s0) ==> {
            let p0 = s0.particles@[i];
            let p1 = #[trigger] s1.particles@[i];
            p1.name == p0.name && p1.kind == p0.kind && p1.mass == p0.mass && p1.charge
                == p0.charge && p1.position == p0.position
        }
}

/// Every velocity scaled by a common factor, the other fields kept.
pub open spec fn velocities_scaled(s0: System, s1: System, f: int) -> bool {
    &&& sys_len(s1) == sys_len(s0)
    &&& s1.cell == s0.cell && s1.pairs@ == s0.pairs@ && s1.bonds@ == s0.bonds@ && s1.molids@
        == s0.molids@ && s1.kinds@ == s0.kinds@ && s1.global == s0.global
    &&& forall|i: int|
        0 <= i < sys_len(s0) ==> {
            let p0 = s0.particles@[i];
            let p1 = #[trigger] s1.particles@[i];
            p1.name == p0.name && p1.kind == p0.kind && p1.mass == p0.mass && p1.charge
                == p0.charge && p1.position == p0.position && p1.velocity@ == v3_scale(
                p0.velocity@,
                f,
            )
        }
}

/// Scale every velocity in the system by `f`.
fn scale_velocities(system: &mut System, f: i128)
    requires
        sys_ok(*old(system)),
        fx::fx_ok(f),
    ensures
        sys_ok(*final(system)),
        velocities_scaled(*old(system), *final(system), f as int),
{
    let n = system.size();
    let mut i: usize = 0;
    while i < n
        invariant
            0 <= i <= n,
            n == sys_len(*system) == sys_len(*old(system)),
            sys_ok(*system),
            fx::fx_ok(f),
            system.cell == old(system).cell && system.pairs@ == old(system).pairs@
                && system.bonds@ == old(system).bonds@ && system.molids@ == old(system).molids@
                && system.kinds@ == old(system).kinds@ && system.global == old(system).global,
            forall|t: int|
                i <= t < n ==> #[trigger] system.particles@[t] == old(system).particles@[t],
            forall|t: int|
                0 <= t < i ==> {
                    let p0 = old(system).particles@[t];
                    let p1 = #[trigger] system.particles@[t];
                    p1.name == p0.name && p1.kind == p0.kind && p1.mass == p0.mass && p1.charge
                        == p0.charge && p1.position == p0.position && p1.velocity@ == v3_scale(
                        p0.velocity@,
                        f as int,
                    )
                },
        decreases n - i,
    {
        let v = system.velocity(i);
        let w = v.scale(f);
        system.set_velocity(i, w);
        i = i + 1;
    }
}

/// Velocity-rescaling thermostat: when the instantaneous temperature
/// leaves the tolerance band around the target, every velocity is
/// rescaled by `sqrt(T_target / T_instant)`.
pub struct RescaleThermostat {
    /// Target temperature.
    pub temperature: i128,
    /// Tolerance band half-width.
    pub tol: i128,
}

impl RescaleThermostat {
    /// Create a thermostat at the given temperature, with a tolerance of
    /// five percent of it. A negative temperature is a configuration
    /// error.
    pub fn new(temperature: i128) -> (r: Result<RescaleThermostat, ConfigError>)
        ensures
            r is Ok <==> 0 <= temperature <= fx::FX_BOUND,
            r matches Ok(t) ==> t.temperature == temperature && t.tol == fx::fx_tdiv(
                temperature as int,
                20,
            ),
    {
        if temperature < 0 || temperature > fx::FX_BOUND {
            Err(ConfigError::NonPositiveSplitting)
        } else {
            let tol = crate::math::divi(temperature, 20);
            Ok(RescaleThermostat { temperature, tol })
        }
    }

    /// Create a thermostat at the given temperature and tolerance.
    pub fn with_tolerance(temperature: i128, tol: i128) -> (r: Result<
        RescaleThermostat,
        ConfigError,
    >)
        ensures
            r is Ok <==> (0 <= temperature <= fx::FX_BOUND && 0 <= tol <= fx::FX_BOUND),
            r matches Ok(t) ==> t.temperature == temperature && t.tol == tol,
    {
        if temperature < 0 || temperature > fx::FX_BOUND || tol < 0 || tol > fx::FX_BOUND {
            Err(ConfigError::NonPositiveSplitting)
        } else {
            Ok(RescaleThermostat { temperature, tol })
        }
    }
}

impl Control for RescaleThermostat {
    fn setup(&mut self, system: &System)
        ensures
            *final(self) == *old(self),
    {
    }

    fn control(&mut self, system: &mut System)
        ensures
            *final(self) == *old(self),
            sys_ok(*final(system)),
            abs(
                fx::fx_sub(
                    temperature_s(*old(system)),
                    fx::fx_clamp(old(self).temperature as int),
                ),
            ) <= fx::fx_clamp(old(self).tol as int) ==> *final(system) == *old(system),
            abs(
                fx::fx_sub(
                    temperature_s(*old(system)),
                    fx::fx_clamp(old(self).temperature as int),
                ),
            ) > fx::fx_clamp(old(self).tol as int) ==> velocities_scaled(
                *old(system),
                *final(system),
                crate::math::fx_sqrt(
                    vstd::math::max(
                        0,
                        fx::fx_div(
                            fx::fx_clamp(old(self).temperature as int),
                            temperature_s(*old(system)),
                        ),
                    ),
                ),
            ),
    {
        let tt = fx::clamp(self.temperature);
        let tol = fx::clamp(self.tol);
        let t_inst = temperature(system);
        let dev = fx::abs_val(fx::sub(t_inst, tt));
        if dev > tol {
            let fdv = fx::div(tt, t_inst);
            let fpos = if fdv < 0 {
                0
            } else {
                fdv
            };
            let f = crate::math::sqrt(fpos);
            scale_velocities(system, f);
        }
    }

    fn finish(&mut self, system: &System)
        ensures
            *final(self) == *old(self),
    {
    }
}

impl Thermostat for RescaleThermostat {

}

/// Berendsen thermostat: the temperature relaxes exponentially toward
/// the target, each step scaling the velocities by
/// `sqrt(1 + (T_target / T_instant - 1) / tau)`.
pub struct BerendsenThermostat {
    /// Target temperature.
    pub temperature: i128,
    /// Relaxation timestep, in units of the integration timestep.
    pub tau: i128,
}

impl BerendsenThermostat {
    /// Create a thermostat at the given temperature and timestep. A
    /// negative temperature or timestep is a configuration error.
    pub fn new(temperature: i128, tau: i128) -> (r: Result<BerendsenThermostat, ConfigError>)
        ensures
            r is Ok <==> (0 <= temperature <= fx::FX_BOUND && 0 <= tau <= fx::FX_BOUND),
            r matches Ok(t) ==> t.temperature == temperature && t.tau == tau,
    {
        if temperature < 0 || temperature > fx::FX_BOUND || tau < 0 || tau > fx::FX_BOUND {
            Err(ConfigError::NonPositiveSplitting)
        } else {
            Ok(BerendsenThermostat { temperature, tau })
        }
    }
}

/// The Berendsen scaling factor, with a negative radicand (possible at
/// extreme parameters) clamped to zero rather than left undefined.
pub open spec fn berendsen_factor_s(t_target: int, tau: int, t_inst: int) -> int {
    let rad = fx::fx_add(
        fx::FX_SCALE as int,
        fx::fx_mul(
            fx::fx_div(fx::FX_SCALE as int, tau),
            fx::fx_sub(fx::fx_div(t_target, t_inst), fx::FX_SCALE as int),
        ),
    );
    if rad < 0 {
        0
    } else {
        crate::math::fx_sqrt(rad)
    }
}

impl Control for BerendsenThermostat {
    fn setup(&mut self, system: &System)
        ensures
            *final(self) == *old(self),
    {
    }

    fn control(&mut self, system: &mut System)
        ensures
            *final(self) == *old(self),
            sys_ok(*final(system)),
            velocities_scaled(
                *old(system),
                *final(system),
                berendsen_factor_s(
                    fx::fx_clamp(old(self).temperature as int),
                    fx::fx_clamp(old(self).tau as int),
                    temperature_s(*old(system)),
                ),
            ),
    {
        let tt = fx::clamp(self.temperature);
        let tau = fx::clamp(self.tau);
        let t_inst = temperature(system);
        let rad = fx::add(
            fx::FX_SCALE,
            fx::mul(fx::div(fx::FX_SCALE, tau), fx::sub(fx::div(tt, t_inst), fx::FX_SCALE)),
        );
        let f = if rad < 0 {
            0
        } else {
            crate::math::sqrt(rad)
        };
        scale_velocities(system, f);
    }

    fn finish(&mut self, system: &System)
        ensures
            *final(self) == *old(self),
    {
    }
}

impl Thermostat for BerendsenThermostat {

}

/// Total mass of the system, as a saturating fold.
pub open spec fn total_mass_fold(s: System, i: int) -> int
    decreases i,
{
    if i <= 0 {
        0
    } else {
        fx::fx_add(total_mass_fold(s, i - 1), s.particles@[i - 1].mass as int)
    }
}

/// Momentum-weighted mean velocity, as a saturating fold of
/// `v m / M`.
pub open spec fn com_velocity_fold(s: System, total_mass: int, i: int) -> Vec3S
    decreases i,
{
    if i <= 0 {
        Vec3S { x: 0, y: 0, z: 0 }
    } else {
        v3_add(
            com_velocity_fold(s, total_mass, i - 1),
            v3_scale(
                s.particles@[i - 1].velocity@,
                fx::fx_div(s.particles@[i - 1].mass as int, total_mass),
            ),
        )
    }
}

/// Remove the global translation of the system: the mean
/// momentum-weighted velocity is subtracted from every particle.
pub struct RemoveTranslation;

impl RemoveTranslation {
    /// Create a new `RemoveTranslation` control.
    pub fn new() -> (r: RemoveTranslation)
        ensures
            r == RemoveTranslation,
    {
        RemoveTranslation
    }
}

impl Control for RemoveTranslation {
    fn setup(&mut self, system: &System)
        ensures
            *final(self) == *old(self),
    {
    }

    fn control(&mut self, system: &mut System)
        ensures
            *final(self) == *old(self),
            sys_ok(*final(system)),
            only_velocities_changed(*old(system), *final(system)),
            forall|i: int|
                0 <= i < sys_len(*final(system)) ==> (#[trigger] final(system).particles@[i]).velocity@
                    == v3_sub(
                    old(system).particles@[i].velocity@,
                    com_velocity_fold(
                        *old(system),
                        total_mass_fold(*old(system), sys_len(*old(system))),
                        sys_len(*old(system)),
                    ),
                ),
    {
        let n = system.size();
        let mut mass: i128 = 0;
        let mut i: usize = 0;
        while i < n
            invariant
                0 <= i <= n,
                n == sys_len(*system),
                sys_ok(*system),
                fx::fx_ok(mass),
                mass == total_mass_fold(*system, i as int),
            decreases n - i,
        {
            mass = fx::add(mass, system.mass(i));
            i = i + 1;
        }
        let mut com = Vector3D::zero();
        i = 0;
        while i < n
            invariant
                0 <= i <= n,
                n == sys_len(*system),
                sys_ok(*system),
                fx::fx_ok(mass),
                crate::types::vectors::v3_ok(com),
                com@ == com_velocity_fold(*system, mass as int, i as int),
            decreases n - i,
        {
            let p = system.velocity(i);
            let m = system.mass(i);
            com = com.add_v(&p.scale(fx::div(m, mass)));
            i = i + 1;
        }
        let ghost s0 = *system;
        i = 0;
        while i < n
            invariant
                0 <= i <= n,
                n == sys_len(*system) == sys_len(s0),
                sys_ok(*system),
                crate::types::vectors::v3_ok(com),
                system.cell == s0.cell && system.pairs@ == s0.pairs@ && system.bonds@ == s0.bonds@
                    && system.molids@ == s0.molids@ && system.kinds@ == s0.kinds@ && system.global
                    == s0.global,
                forall|t: int| i <= t < n ==> #[trigger] system.particles@[t] == s0.particles@[t],
                forall|t: int|
                    0 <= t < i ==> {
                        let p0 = s0.particles@[t];
                        let p1 = #[trigger] system.particles@[t];
                        p1.name == p0.name && p1.kind == p0.kind && p1.mass == p0.mass
                            && p1.charge == p0.charge && p1.position == p0.position
                            && p1.velocity@ == v3_sub(p0.velocity@, com@)
                    },
            decreases n - i,
        {
            let v = system.velocity(i);
            system.set_velocity(i, v.sub_v(&com));
            i = i + 1;
        }
    }

    fn finish(&mut self, system: &System)
        ensures
            *final(self) == *old(self),
    {
    }
}

/// Angular-momentum fold: `sum m (p - com) x v`.
pub open spec fn angular_momentum_fold(s: System, com: Vec3S, i: int) -> Vec3S
    decreases i,
{
    if i <= 0 {
        Vec3S { x: 0, y: 0, z: 0 }
    } else {
        let p = s.particles@[i - 1];
        v3_add(
            angular_momentum_fold(s, com, i - 1),
            v3_scale(v3_cross(v3_sub(p.position@, com), p.velocity@), p.mass as int),
        )
    }
}

/// Mass-weighted mean position, as a saturating fold.
pub open spec fn com_position_fold(s: System, total_mass: int, i: int) -> Vec3S
    decreases i,
{
    if i <= 0 {
        Vec3S { x: 0, y: 0, z: 0 }
    } else {
        v3_add(
            com_position_fold(s, total_mass, i - 1),
            v3_scale(
                s.particles@[i - 1].position@,
                fx::fx_div(s.particles@[i - 1].mass as int, total_mass),
            ),
        )
    }
}

/// Remove the global rotation of the system: the velocity each particle
/// has from the system's net angular motion about its center of mass is
/// subtracted.
pub struct RemoveRotation;

impl RemoveRotation {
    /// Create a new `RemoveRotation` control.
    pub fn new() -> (r: RemoveRotation)
        ensures
            r == RemoveRotation,
    {
        RemoveRotation
    }
}

/// Inertia-like fold: `sum -m (p - com) (x) (p - com)` entry-wise, the
/// trace-corrected form the angular solve uses.
pub open spec fn inertia_fold(s: System, com: Vec3S, i: int) -> Mat3S
    decreases i,
{
    if i <= 0 {
        Mat3S { m00: 0, m01: 0, m02: 0, m10: 0, m11: 0, m12: 0, m20: 0, m21: 0, m22: 0 }
    } else {
        let p = s.particles@[i - 1];
        let d = v3_sub(p.position@, com);
        crate::types::matrix::m3_sub(
            inertia_fold(s, com, i - 1),
            crate::types::matrix::m3_scale(
                Mat3S {
                    m00: fx::fx_mul(d.x, d.x),
                    m01: fx::fx_mul(d.x, d.y),
                    m02: fx::fx_mul(d.x, d.z),
                    m10: fx::fx_mul(d.y, d.x),
                    m11: fx::fx_mul(d.y, d.y),
                    m12: fx::fx_mul(d.y, d.z),
                    m20: fx::fx_mul(d.z, d.x),
                    m21: fx::fx_mul(d.z, d.y),
                    m22: fx::fx_mul(d.z, d.z),
                },
                p.mass as int,
            ),
        )
    }
}

/// The inertia fold with its trace added back on the diagonal.
pub open spec fn inertia_corrected(s: System, com: Vec3S, i: int) -> Mat3S {
    let m = inertia_fold(s, com, i);
    let tr = fx::fx_add(fx::fx_add(m.m00, m.m11), m.m22);
    Mat3S {
        m00: fx::fx_add(m.m00, tr),
        m01: m.m01,
        m02: m.m02,
        m10: m.m10,
        m11: fx::fx_add(m.m11, tr),
        m12: m.m12,
        m20: m.m20,
        m21: m.m21,
        m22: fx::fx_add(m.m22, tr),
    }
}

/// The angular velocity the control removes: `I^-1 L` about the center
/// of mass.
pub open spec fn angular_velocity_s(s: System) -> Vec3S {
    let mass = total_mass_fold(s, sys_len(s));
    let com = com_position_fold(s, mass, sys_len(s));
    let moment = angular_momentum_fold(s, com, sys_len(s));
    m3_mul_v(m3_inverse(inertia_corrected(s, com, sys_len(s))), moment)
}

impl Control for RemoveRotation {
    fn setup(&mut self, system: &System)
        ensures
            *final(self) == *old(self),
    {
    }

    fn control(&mut self, system: &mut System)
        ensures
            *final(self) == *old(self),
            sys_ok(*final(system)),
            only_velocities_changed(*old(system), *final(system)),
            forall|i: int|
                0 <= i < sys_len(*final(system)) ==> (#[trigger] final(system).particles@[i]).velocity@
                    == v3_sub(
                    old(system).particles@[i].velocity@,
                    v3_cross(
                        v3_sub(
                            old(system).particles@[i].position@,
                            com_position_fold(
                                *old(system),
                                total_mass_fold(*old(system), sys_len(*old(system))),
                                sys_len(*old(system)),
                            ),
                        ),
                        angular_velocity_s(*old(system)),
                    ),
                ),
    {
        let n = system.size();
        let mut mass: i128 = 0;
        let mut i: usize = 0;
        while i < n
            invariant
                0 <= i <= n,
                n == sys_len(*system),
                sys_ok(*system),
                fx::fx_ok(mass),
                mass == total_mass_fold(*system, i as int),
            decreases n - i,
        {
            mass = fx::add(mass, system.mass(i));
            i = i + 1;
        }
        let mut com = Vector3D::zero();
        i = 0;
        while i < n
            invariant
                0 <= i <= n,
                n == sys_len(*system),
                sys_ok(*system),
                fx::fx_ok(mass),
                crate::types::vectors::v3_ok(com),
                com@ == com_position_fold(*system, mass as int, i as int),
            decreases n - i,
        {
            let p = system.position(i);
            let m = system.mass(i);
            com = com.add_v(&p.scale(fx::div(m, mass)));
            i = i + 1;
        }
        let mut moment = Vector3D::zero();
        i = 0;
        while i < n
            invariant
                0 <= i <= n,
                n == sys_len(*system),
                sys_ok(*system),
                crate::types::vectors::v3_ok(com),
                crate::types::vectors::v3_ok(moment),
                moment@ == angular_momentum_fold(*system, com@, i as int),
            decreases n - i,
        {
            let p = system.position(i);
            let v = system.velocity(i);
            let m = system.mass(i);
            let d = p.sub_v(&com);
            moment = moment.add_v(&d.cross(&v).scale(m));
            i = i + 1;
        }
        let mut inertia = crate::types::matrix::Matrix3::zero();
        i = 0;
        while i < n
            invariant
                0 <= i <= n,
                n == sys_len(*system),
                sys_ok(*system),
                crate::types::vectors::v3_ok(com),
                crate::types::matrix::m3_ok(inertia),
                inertia@ == inertia_fold(*system, com@, i as int),
            decreases n - i,
        {
            let p = system.position(i);
            let m = system.mass(i);
            let d = p.sub_v(&com);
            let outer = crate::types::matrix::Matrix3::new(
                fx::mul(d.x, d.x),
                fx::mul(d.x, d.y),
                fx::mul(d.x, d.z),
                fx::mul(d.y, d.x),
                fx::mul(d.y, d.y),
                fx::mul(d.y, d.z),
                fx::mul(d.z, d.x),
                fx::mul(d.z, d.y),
                fx::mul(d.z, d.z),
            );
            inertia = inertia.sub_m(&outer.scale(m));
            i = i + 1;
        }
        let tr = inertia.trace();
        let corrected = crate::types::matrix::Matrix3::new(
            fx::add(inertia.m00, tr),
            inertia.m01,
            inertia.m02,
            inertia.m10,
            fx::add(inertia.m11, tr),
            inertia.m12,
            inertia.m20,
            inertia.m21,
            fx::add(inertia.m22, tr),
        );
        let angular = corrected.inverse().mul_v(&moment);
        let ghost s0 = *system;
        proof {
            assert(angular@ == angular_velocity_s(s0));
        }
        i = 0;
        while i < n
            invariant
                0 <= i <= n,
                n == sys_len(*system) == sys_len(s0),
                sys_ok(*system),
                crate::types::vectors::v3_ok(com),
                crate::types::vectors::v3_ok(angular),
                com@ == com_position_fold(s0, total_mass_fold(s0, n as int), n as int),
                angular@ == angular_velocity_s(s0),
                system.cell == s0.cell && system.pairs@ == s0.pairs@ && system.bonds@ == s0.bonds@
                    && system.molids@ == s0.molids@ && system.kinds@ == s0.kinds@ && system.global
                    == s0.global,
                forall|t: int| i <= t < n ==> #[trigger] system.particles@[t] == s0.particles@[t],
                forall|t: int|
                    0 <= t < i ==> {
                        let p0 = s0.particles@[t];
                        let p1 = #[trigger] system.particles@[t];
                        p1.name == p0.name && p1.kind == p0.kind && p1.mass == p0.mass
                            && p1.charge == p0.charge && p1.position == p0.position
                            && p1.velocity@ == v3_sub(
                            p0.velocity@,
                            v3_cross(v3_sub(p0.position@, com@), angular@),
                        )
                    },
            decreases n - i,
        {
            let p = system.position(i);
            let v = system.velocity(i);
            let d = p.sub_v(&com);
            system.set_velocity(i, v.sub_v(&d.cross(&angular)));
            i = i + 1;
        }
    }

    fn finish(&mut self, system: &System)
        ensures
            *final(self) == *old(self),
    {
    }
}

/// Run an inner control only every `frequency` calls.
pub struct Alternator<T> {
    /// How often the inner control runs.
    pub frequency: u64,
    /// Calls seen since the last run.
    pub count: u64,
    /// The inner control.
    pub inner: T,
}

impl<T> Alternator<T> {
    /// Wrap `inner` to run once every `frequency` calls.
    pub fn new(frequency: u64, inner: T) -> (r: Alternator<T>)
        requires
            frequency > 0,
        ensures
            r.frequency == frequency && r.count == 0 && r.inner == inner,
    {
        Alternator { frequency, count: 0, inner }
    }

    /// Count a call and decide whether the inner control runs now; a
    /// zero frequency behaves as one, running every call.
    pub fn can_run(&mut self) -> (r: bool)
        ensures
            final(self).frequency == old(self).frequency,
            final(self).inner == old(self).inner,
            ({
                let fq = if old(self).frequency == 0 {
                    1int
                } else {
                    old(self).frequency as int
                };
                let inc = if old(self).count == u64::MAX {
                    1int
                } else {
                    old(self).count as int + 1
                };
                final(self).count == inc % fq
            }),
            r <==> final(self).count == 0,
    {
        let fq: u64 = if self.frequency == 0 {
            1
        } else {
            self.frequency
        };
        if self.count == u64::MAX {
            self.count = 0;
        }
        self.count = (self.count + 1) % fq;
        self.count == 0
    }
}

impl<T: Control> Control for Alternator<T> {
    fn setup(&mut self, system: &System) {
        self.inner.setup(system);
    }

    fn control(&mut self, system: &mut System)
        ensures
            final(self).frequency == old(self).frequency,
            ({
                let fq = if old(self).frequency == 0 {
                    1int
                } else {
                    old(self).frequency as int
                };
                let inc = if old(self).count == u64::MAX {
                    1int
                } else {
                    old(self).count as int + 1
                };
                &&& final(self).count == inc % fq
                &&& (inc % fq != 0 ==> *final(system) == *old(system) && final(self).inner == old(
                    self,
                ).inner)
            }),
    {
        if self.can_run() {
            self.inner.control(system);
        }
    }

    fn finish(&mut self, system: &System) {
        self.inner.finish(system);
    }
}

} // verus!
