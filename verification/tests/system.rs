use lumol_energy::energy::evaluator::temperature;
use lumol_energy::energy::ewald::Ewald;
use lumol_energy::energy::potentials::{PairPotential, PairRestriction};
use lumol_energy::energy::GlobalPotential;
use lumol_energy::fx;
use lumol_energy::sim::controls::{
    Alternator, BerendsenThermostat, Control, RemoveRotation, RemoveTranslation,
    RescaleThermostat,
};
use lumol_energy::sim::min::{Minimization, Tolerance};
use lumol_energy::sim::simulations::{output_due, sanity_check};
use lumol_energy::sys::apply_particle_permutation;
use lumol_energy::sys::cell::{CellShape, UnitCell};
use lumol_energy::sys::system::{Particle, System};
use lumol_energy::sys::ConfigError;
use lumol_energy::types::vectors::Vector3D;

fn v_milli(x: i64, y: i64, z: i64) -> Vector3D {
    Vector3D::new(fx::of_milli(x), fx::of_milli(y), fx::of_milli(z))
}

#[test]
fn cell() {
    let cell = UnitCell::cubic(fx::of_int(67)).unwrap();
    assert_eq!(cell.a(), fx::of_int(67));
    assert_eq!(cell.b(), fx::of_int(67));
    assert_eq!(cell.c(), fx::of_int(67));
    assert_eq!(cell.shape(), CellShape::Orthorhombic);
    assert_eq!(cell.volume(), fx::of_int(67 * 67 * 67));
    assert_eq!(cell.alpha(), fx::of_int(90));

    assert_eq!(UnitCell::cubic(0).unwrap_err(), ConfigError::NonPositiveCell);
    assert_eq!(UnitCell::cubic(-5).unwrap_err(), ConfigError::NonPositiveCell);
}

#[test]
fn minimum_image() {
    let cell = UnitCell::cubic(fx::of_int(10)).unwrap();
    let a = v_milli(500, 0, 0);
    let b = v_milli(9500, 0, 0);
    let d = cell.min_image(&a, &b);
    // the image of the separation 9 is -1
    assert_eq!(d.x, fx::of_int(-1));
    assert_eq!(d.y, 0);
}

#[test]
fn particles_and_molecules() {
    let mut s = System::new();
    assert_eq!(s.size(), 0);
    s.add_particle(Particle::new("O"));
    s.add_particle(Particle::new("H"));
    s.add_particle(Particle::new("H"));
    assert_eq!(s.size(), 3);
    assert_eq!(s.particles[0].name(), "O");
    assert_eq!(s.particles[1].name(), "H");
    // every particle starts as its own molecule
    assert_eq!(s.molid(0), 0);
    assert_eq!(s.molid(1), 1);
    assert_eq!(s.molid(2), 2);

    s.add_bond(0, 1).unwrap();
    s.add_bond(0, 2).unwrap();
    assert_eq!(s.molid(0), s.molid(1));
    assert_eq!(s.molid(1), s.molid(2));
    let mol = s.molecule(s.molid(0));
    assert_eq!(mol, vec![0, 1, 2]);

    assert_eq!(s.add_bond(0, 9).unwrap_err(), ConfigError::IndexOutOfRange);
    assert_eq!(s.add_bond(1, 1).unwrap_err(), ConfigError::IndexOutOfRange);
}

#[test]
fn permutations() {
    let mut bonds: Vec<[u64; 2]> = vec![[1, 2], [2, 3], [0, 1]];
    let permutations = vec![(1usize, 2usize), (2usize, 3usize), (3usize, 4usize)];
    apply_particle_permutation(&mut bonds, permutations);
    // each endpoint moves by the first applicable permutation only
    assert_eq!(bonds, vec![[2, 3], [3, 4], [0, 2]]);
}

#[test]
fn interaction_configuration_errors() {
    let cell = UnitCell::cubic(fx::of_int(10)).unwrap();
    let mut s = System::with_cell(cell);
    let lj = PairPotential::LennardJones { sigma: fx::of_int(1), epsilon: fx::of_int(1) };
    assert_eq!(
        s.add_pair_interaction("A", "A", lj, 0, PairRestriction::NoRestriction, false)
            .unwrap_err(),
        ConfigError::NonPositiveCutoff
    );
    // a cutoff beyond half the shortest cell vector breaks the
    // minimum-image convention and is rejected
    assert_eq!(
        s.add_pair_interaction("A", "A", lj, fx::of_int(6), PairRestriction::NoRestriction, false)
            .unwrap_err(),
        ConfigError::CutoffTooLarge
    );
    assert!(s
        .add_pair_interaction("A", "A", lj, fx::of_int(5), PairRestriction::NoRestriction, false)
        .is_ok());

    assert_eq!(Ewald::new(0, 7).unwrap_err(), ConfigError::NonPositiveCutoff);
    assert_eq!(Ewald::new(fx::of_int(4), 1000).unwrap_err(), ConfigError::ReciprocalSpaceTooLarge);
    assert_eq!(
        Ewald::with_eta(fx::of_int(4), 7, -3).unwrap_err(),
        ConfigError::NonPositiveSplitting
    );
    let ew = Ewald::new(fx::of_int(6), 7).unwrap();
    assert_eq!(
        s.set_global_potential(GlobalPotential::Ewald(ew)).unwrap_err(),
        ConfigError::CutoffTooLarge
    );
}

#[test]
fn restriction_excludes_bonded_pair() {
    let cell = UnitCell::cubic(fx::of_int(10)).unwrap();
    let mut s = System::with_cell(cell);
    for x in [0i64, 1500] {
        let mut p = Particle::new("C");
        p.mass = fx::of_int(12);
        p.position = v_milli(x, 0, 0);
        s.add_particle(p);
    }
    s.add_pair_interaction(
        "C",
        "C",
        PairPotential::LennardJones { sigma: fx::of_int(1), epsilon: fx::of_int(1) },
        fx::of_int(4),
        PairRestriction::ExcludeBonded,
        false,
    )
    .unwrap();
    let before = lumol_energy::energy::evaluator::potential_energy(&s);
    assert!(before != 0);
    s.add_bond(0, 1).unwrap();
    assert_eq!(lumol_energy::energy::evaluator::potential_energy(&s), 0);
}

#[test]
fn negative_temperature_rescale() {
    assert!(RescaleThermostat::new(fx::of_int(-56)).is_err());
}

#[test]
fn negative_temperature_berendsen() {
    assert!(BerendsenThermostat::new(fx::of_int(-56), fx::of_int(1000)).is_err());
}

#[test]
fn remove_translation() {
    let cell = UnitCell::cubic(fx::of_int(20)).unwrap();
    let mut system = System::with_cell(cell);
    for _ in 0..2 {
        let mut p = Particle::new("Ag");
        p.mass = fx::of_int(1);
        system.add_particle(p);
    }
    system.set_position(1, v_milli(1000, 1000, 1000));
    system.set_velocity(0, v_milli(1000, 2000, 0));
    system.set_velocity(1, v_milli(1000, 0, 0));

    let mut control = Alternator::new(4, RemoveTranslation::new());

    // the three first controls do nothing
    for _ in 0..3 {
        control.control(&mut system);
        assert_eq!(system.velocity(0).x, fx::of_int(1));
        assert_eq!(system.velocity(1).y, 0);
    }

    // the fourth removes the global translation
    control.control(&mut system);
    assert_eq!(system.velocity(0).x, 0);
    assert_eq!(system.velocity(0).y, fx::of_int(1));
    assert_eq!(system.velocity(1).x, 0);
    assert_eq!(system.velocity(1).y, fx::of_int(-1));
}

#[test]
fn remove_rotation() {
    let cell = UnitCell::cubic(fx::of_int(20)).unwrap();
    let mut system = System::with_cell(cell);
    for _ in 0..2 {
        let mut p = Particle::new("Ag");
        p.mass = fx::of_int(1);
        system.add_particle(p);
    }
    system.set_position(1, v_milli(1000, 0, 0));
    system.set_velocity(0, v_milli(0, 1000, 0));
    system.set_velocity(1, v_milli(0, -1000, 2000));

    let mut control = RemoveRotation::new();
    control.control(&mut system);
    // the rotation about the center of mass is gone; the shared vertical
    // drift survives
    let v0 = system.velocity(0);
    let v1 = system.velocity(1);
    let eps = 4;
    assert!(v0.x.abs() <= eps && v0.y.abs() <= eps);
    assert!(v1.x.abs() <= eps && v1.y.abs() <= eps);
    assert!((v0.z - fx::of_int(1)).abs() <= eps);
    assert!((v1.z - fx::of_int(1)).abs() <= eps);
}

#[test]
fn rescale_thermostat() {
    let cell = UnitCell::cubic(fx::of_int(20)).unwrap();
    let mut system = System::with_cell(cell);
    for _ in 0..8 {
        let mut p = Particle::new("He");
        p.mass = fx::of_int(1);
        system.add_particle(p);
    }
    for i in 0..8 {
        system.set_velocity(i, v_milli(600, 0, 0));
    }
    let t0 = temperature(&system);
    // far tolerance: nothing happens
    let mut lax = RescaleThermostat::with_tolerance(t0 / 2, t0).unwrap();
    lax.control(&mut system);
    assert_eq!(temperature(&system), t0);
    // tight tolerance: the temperature is rescaled toward the target
    let mut tight = RescaleThermostat::with_tolerance(t0 / 2, t0 / 100).unwrap();
    tight.control(&mut system);
    let t1 = temperature(&system);
    assert!((t1 - t0 / 2).abs() < t0 / 50, "{} vs {}", t1, t0 / 2);
}

#[test]
fn minimization_convergence() {
    let tol = Tolerance { energy: fx::of_milli(10), force2: fx::of_milli(10) };
    let mut min = Minimization::with_tolerance(tol);
    assert!(!min.converged());
    min.setup(fx::of_int(100));

    // a big step with large forces: not converged
    min.propagate(fx::of_int(90), fx::of_int(5));
    assert!(!min.converged());
    // forces fall under the criterion
    min.propagate(fx::of_int(85), fx::of_milli(5));
    assert!(min.converged());

    // energy criterion alone
    let mut min2 = Minimization::with_tolerance(tol);
    min2.setup(fx::of_int(100));
    min2.propagate(fx::of_milli(99000), fx::of_int(5));
    assert!(!min2.converged());
    min2.propagate(fx::of_milli(98995), fx::of_int(5));
    assert!(min2.converged());
    // a converged run ignores further steps
    min2.propagate(fx::of_int(0), fx::of_int(999));
    assert!(min2.converged());
}

#[test]
fn sanity_check_flags_runaways() {
    let cell = UnitCell::cubic(fx::of_int(10)).unwrap();
    let mut s = System::with_cell(cell);
    s.add_particle(Particle::new("He"));
    assert!(!sanity_check(&s));
    s.set_velocity(0, Vector3D::new(fx::of_int(2000), 0, 0));
    assert!(sanity_check(&s));
    s.set_velocity(0, Vector3D::new(0, 0, 0));
    s.set_position(0, Vector3D::new(fx::of_int(2000000), 0, 0));
    assert!(sanity_check(&s));

    assert!(output_due(0, 10));
    assert!(!output_due(5, 10));
    assert!(output_due(20, 10));
}
