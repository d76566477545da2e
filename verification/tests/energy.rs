use lumol_energy::energy::cache::EnergyCache;
use lumol_energy::energy::evaluator::{
    forces, kinetic_energy, potential_energy, tail_total, Compute, PotentialEnergy, TotalEnergy,
    Volume,
};
use lumol_energy::energy::ewald::{ewald_energy, Ewald};
use lumol_energy::energy::potentials::{PairPotential, PairRestriction};
use lumol_energy::energy::wolf::{wolf_energy, Wolf};
use lumol_energy::energy::GlobalPotential;
use lumol_energy::fx;
use lumol_energy::sys::cell::UnitCell;
use lumol_energy::sys::system::{Particle, System};
use lumol_energy::types::vectors::Vector3D;

const SCALE: f64 = 1099511627776.0;

fn to_f64(raw: i128) -> f64 {
    (raw as f64) / SCALE
}

fn v_milli(x: i64, y: i64, z: i64) -> Vector3D {
    Vector3D::new(fx::of_milli(x), fx::of_milli(y), fx::of_milli(z))
}

/// Two charges +1 and -1 at distance 1.5 in a cubic cell of side 10,
/// under the Ewald solver.
fn charged_pair() -> System {
    let cell = UnitCell::cubic(fx::of_int(10)).unwrap();
    let mut s = System::with_cell(cell);
    let mut a = Particle::new("A");
    a.charge = fx::of_int(1);
    a.mass = fx::of_int(1);
    s.add_particle(a);
    let mut b = Particle::new("B");
    b.charge = fx::of_int(-1);
    b.mass = fx::of_int(1);
    b.position = v_milli(1500, 0, 0);
    s.add_particle(b);
    let ew = Ewald::new(fx::of_int(4), 7).unwrap();
    s.set_global_potential(GlobalPotential::Ewald(ew)).unwrap();
    s
}

#[test]
fn ewald_reference_value() {
    // reference computed independently with double-precision arithmetic
    // for the same parameters: rcut 4, kmax 7, eta = pi / 4
    let s = charged_pair();
    let e = to_f64(potential_energy(&s));
    let reference = -0.6715386191972252;
    assert!(
        ((e - reference) / reference).abs() < 1e-6,
        "ewald energy {} vs reference {}",
        e,
        reference
    );
}

#[test]
fn ewald_probe_matches_brute_force() {
    // moving one particle: the probe must equal the before/after
    // difference of full recomputations, identically
    let mut s = charged_pair();
    let mut cache = EnergyCache::new();
    cache.init(&s);
    let before = potential_energy(&s);

    let newpos = vec![v_milli(1750, 250, 0)];
    let idxes = vec![1usize];
    let cost = cache.move_particles_cost(&s, &idxes, &newpos);

    let mut moved = charged_pair();
    moved.set_position(1, v_milli(1750, 250, 0));
    let after = potential_energy(&moved);
    assert_eq!(cost, after - before);
}

#[test]
fn cache_agrees_with_full_recompute_after_commit() {
    let mut s = charged_pair();
    let mut cache = EnergyCache::new();
    cache.init(&s);
    assert_eq!(cache.current_total(), potential_energy(&s));

    // a sequence of accepted moves, committing each
    let moves: [(usize, i64, i64, i64); 3] = [(1, 1750, 0, 0), (0, 250, -500, 125), (1, 2000, 500, 250)];
    for (idx, x, y, z) in moves {
        let newpos = vec![v_milli(x, y, z)];
        let idxes = vec![idx];
        let cost = cache.move_particles_cost(&s, &idxes, &newpos);
        let before = cache.current_total();
        s.set_position(idx, v_milli(x, y, z));
        cache.update(&s);
        assert_eq!(cache.current_total(), before + cost);
        assert_eq!(cache.current_total(), potential_energy(&s));
    }
}

#[test]
fn probe_is_pure() {
    let mut s = charged_pair();
    let mut cache = EnergyCache::new();
    cache.init(&s);
    let total0 = cache.current_total();
    let pe0 = potential_energy(&s);

    let newpos = vec![v_milli(1750, 0, 0)];
    let idxes = vec![1usize];
    let c1 = cache.move_particles_cost(&s, &idxes, &newpos);
    let c2 = cache.move_particles_cost(&s, &idxes, &newpos);
    assert_eq!(c1, c2);
    assert_eq!(cache.current_total(), total0);
    assert_eq!(potential_energy(&s), pe0);
}

#[test]
fn structure_factors_match_reinitialization() {
    // committing an incremental update must give exactly the structure
    // factors a fresh initialization computes
    let mut s = charged_pair();
    let mut cache = EnergyCache::new();
    cache.init(&s);

    let newpos = vec![v_milli(1750, 250, -125)];
    let idxes = vec![1usize];
    let _ = cache.move_particles_cost(&s, &idxes, &newpos);
    s.set_position(1, v_milli(1750, 250, -125));
    cache.update(&s);

    let mut fresh = EnergyCache::new();
    fresh.init(&s);
    assert_eq!(cache.sk.len(), fresh.sk.len());
    for m in 0..cache.sk.len() {
        assert_eq!(cache.sk[m], fresh.sk[m], "structure factor {} drifted", m);
    }
    assert_eq!(cache.current_total(), fresh.current_total());
}

/// A rocksalt arrangement of 64 alternating unit charges in a cubic
/// cell of side 4.
fn rocksalt() -> System {
    let cell = UnitCell::cubic(fx::of_int(4)).unwrap();
    let mut s = System::with_cell(cell);
    for x in 0..4i64 {
        for y in 0..4i64 {
            for z in 0..4i64 {
                let name = if (x + y + z) % 2 == 0 { "Na" } else { "Cl" };
                let mut p = Particle::new(name);
                p.charge = if (x + y + z) % 2 == 0 {
                    fx::of_int(1)
                } else {
                    fx::of_int(-1)
                };
                p.mass = fx::of_int(1);
                p.position = Vector3D::new(fx::of_int(x), fx::of_int(y), fx::of_int(z));
                s.add_particle(p);
            }
        }
    }
    s
}

#[test]
fn ewald_wolf_cross_check() {
    // the two solvers approximate the same physical quantity: with
    // reasonably tuned parameters they agree within a few percent
    let mut se = rocksalt();
    let ew = Ewald::new(fx::of_int(2), 8).unwrap();
    se.set_global_potential(GlobalPotential::Ewald(ew)).unwrap();
    let e_ewald = to_f64(potential_energy(&se));

    let mut sw = rocksalt();
    let w = Wolf::with_alpha(fx::of_int(2), fx::of_int(1)).unwrap();
    sw.set_global_potential(GlobalPotential::Wolf(w)).unwrap();
    let e_wolf = to_f64(potential_energy(&sw));

    // the Ewald value is the Madelung energy of this lattice
    let madelung = -64.0 * 1.747565 / 2.0;
    assert!(((e_ewald - madelung) / madelung).abs() < 1e-4);
    assert!(((e_ewald - e_wolf) / e_ewald).abs() < 0.05, "{} vs {}", e_ewald, e_wolf);
}

fn lj_pair(tail: bool) -> System {
    let cell = UnitCell::cubic(fx::of_int(10)).unwrap();
    let mut s = System::with_cell(cell);
    for x in [0i64, 1500] {
        let mut p = Particle::new("He");
        p.mass = fx::of_int(4);
        p.position = v_milli(x, 0, 0);
        s.add_particle(p);
    }
    s.add_pair_interaction(
        "He",
        "He",
        PairPotential::LennardJones { sigma: fx::of_int(1), epsilon: fx::of_milli(200) },
        fx::of_int(4),
        PairRestriction::NoRestriction,
        tail,
    )
    .unwrap();
    s
}

#[test]
fn tail_correction_sign_and_magnitude() {
    let s_plain = lj_pair(false);
    let s_tail = lj_pair(true);
    assert_eq!(tail_total(&s_plain), 0);
    let diff = potential_energy(&s_tail) - potential_energy(&s_plain);
    // the energy difference is exactly the analytic correction term
    assert_eq!(diff, tail_total(&s_tail));
    // and the correction is strictly negative for this attractive tail
    assert!(diff < 0, "tail correction {} should be negative", to_f64(diff));
    // magnitude check against the analytic formula in double precision:
    // 2 * (8 pi eps sigma^3 / 3) (n_i n_j / V) ((sigma/rc)^9 / 3 - (sigma/rc)^3)
    // with n_i = n_j = 2 of the same kind, so the factor 2 is absent
    let eps = 0.2f64;
    let sc: f64 = 1.0 / 4.0;
    let expected = (8.0 * std::f64::consts::PI * eps / 3.0) * (4.0 / 1000.0)
        * (sc.powi(9) / 3.0 - sc.powi(3));
    assert!(((to_f64(diff) - expected) / expected).abs() < 1e-6);
}

#[test]
fn lj_energy_value() {
    // 4 eps ((s/r)^12 - (s/r)^6) at r = 1.5, sigma = 1, eps = 0.2
    let s = lj_pair(false);
    let e = to_f64(potential_energy(&s)) - to_f64(tail_total(&s));
    let r6 = (1.0f64 / 1.5f64).powi(6);
    let expected = 4.0 * 0.2 * (r6 * r6 - r6);
    assert!((e - expected).abs() < 1e-9, "{} vs {}", e, expected);
}

#[test]
fn rigid_molecule_translation_cost() {
    // a bonded pair moved rigidly: the molecule cost must equal the full
    // before/after difference, identically
    let mut s = lj_pair(false);
    s.add_bond(0, 1).unwrap();
    let mut extra = Particle::new("He");
    extra.mass = fx::of_int(4);
    extra.position = v_milli(4000, 3000, 0);
    s.add_particle(extra);

    let mut cache = EnergyCache::new();
    cache.init(&s);
    let before = potential_energy(&s);

    let d = v_milli(500, 250, -250);
    let molid = s.molid(0);
    let members = s.molecule(molid);
    let mut newpos = Vec::new();
    for &i in &members {
        newpos.push(s.position(i).add_v(&d));
    }
    let cost = cache.move_molecule_cost(&s, molid, &newpos);

    for (t, &i) in members.iter().enumerate() {
        s.set_position(i, newpos[t]);
    }
    let after = potential_energy(&s);
    assert_eq!(cost, after - before);
    cache.update(&s);
    assert_eq!(cache.current_total(), after);
}

#[test]
fn move_all_rigid_molecules() {
    let mut s = lj_pair(false);
    let mut cache = EnergyCache::new();
    cache.init(&s);
    let before = potential_energy(&s);
    let newpos = vec![v_milli(250, 0, 0), v_milli(1750, 0, 0)];
    let cost = cache.move_all_rigid_molecules_cost(&s, &newpos);
    s.set_position(0, newpos[0]);
    s.set_position(1, newpos[1]);
    assert_eq!(cost, potential_energy(&s) - before);
}

#[test]
fn forces_are_opposite_and_repulsive() {
    // two particles closer than sigma repel: the force on the first
    // points away from the second, and the pair forces cancel
    let cell = UnitCell::cubic(fx::of_int(10)).unwrap();
    let mut s = System::with_cell(cell);
    for x in [0i64, 900] {
        let mut p = Particle::new("He");
        p.mass = fx::of_int(4);
        p.position = v_milli(x, 0, 0);
        s.add_particle(p);
    }
    s.add_pair_interaction(
        "He",
        "He",
        PairPotential::LennardJones { sigma: fx::of_int(1), epsilon: fx::of_milli(200) },
        fx::of_int(4),
        PairRestriction::NoRestriction,
        false,
    )
    .unwrap();
    let f = forces(&s);
    assert!(f[0].x < 0, "repulsive force should push the first particle back");
    assert!(f[1].x > 0);
    assert_eq!(f[0].x + f[1].x, 0);
    assert_eq!(f[0].y, 0);
    assert_eq!(f[0].z, 0);
}

#[test]
fn energy() {
    let mut s = lj_pair(false);
    s.set_velocity(0, v_milli(100, 0, 0));
    let kinetic = kinetic_energy(&s);
    let potential = potential_energy(&s);
    let total = TotalEnergy.compute(&s);
    assert_eq!(kinetic + potential, total);
    // m v^2 / 2 with m = 4, v = 0.1
    assert!((to_f64(kinetic) - 0.02).abs() < 1e-9);
    assert_eq!(potential, PotentialEnergy.compute(&s));
}

#[test]
fn volume() {
    let s = lj_pair(false);
    let v = Volume.compute(&s);
    assert_eq!(v, fx::of_int(1000));
}

#[test]
fn harmonic_pair_energy() {
    let cell = UnitCell::cubic(fx::of_int(10)).unwrap();
    let mut s = System::with_cell(cell);
    for x in [0i64, 1300] {
        let mut p = Particle::new("F");
        p.mass = fx::of_int(19);
        p.position = v_milli(x, 0, 0);
        s.add_particle(p);
    }
    s.add_pair_interaction(
        "F",
        "F",
        PairPotential::Harmonic { k: fx::of_int(300), x0: fx::of_milli(1200) },
        fx::of_int(4),
        PairRestriction::NoRestriction,
        false,
    )
    .unwrap();
    // k/2 (r - x0)^2 = 150 * 0.01 = 1.5
    let e = to_f64(potential_energy(&s));
    assert!((e - 1.5).abs() < 1e-8, "{}", e);
}

#[test]
fn wolf_energy_matches_direct_sum() {
    let mut s = charged_pair();
    let w = Wolf::new(fx::of_int(5)).unwrap();
    s.set_global_potential(GlobalPotential::Wolf(w)).unwrap();
    // reference computed independently in double precision for
    // rcut 5, alpha = pi / 5
    let reference = -0.8306989730971309;
    let e = to_f64(potential_energy(&s));
    assert!(((e - reference) / reference).abs() < 1e-6, "{}", e);
}

#[test]
fn solver_energy_entry_points_agree() {
    let s = charged_pair();
    match s.global_potential() {
        Some(GlobalPotential::Ewald(e)) => {
            assert_eq!(ewald_energy(&s, &e), potential_energy(&s));
        },
        _ => panic!("expected the Ewald solver"),
    }
    let mut sw = rocksalt();
    let w = Wolf::with_alpha(fx::of_int(2), fx::of_int(1)).unwrap();
    sw.set_global_potential(GlobalPotential::Wolf(w)).unwrap();
    match sw.global_potential() {
        Some(GlobalPotential::Wolf(w)) => {
            assert_eq!(wolf_energy(&sw, &w), potential_energy(&sw));
        },
        _ => panic!("expected the Wolf solver"),
    }
}

#[test]
fn tail_correction_strictness_bounds() {
    // within the bounds of the strict-negativity law (unit scales,
    // cutoff between two and four length scales) the correction is
    // visibly below zero, not merely non-positive
    let cell = UnitCell::cubic(fx::of_int(20)).unwrap();
    let mut s = System::with_cell(cell);
    for x in [0i64, 1500] {
        let mut p = Particle::new("Ar");
        p.mass = fx::of_int(40);
        p.position = v_milli(x, 0, 0);
        s.add_particle(p);
    }
    s.add_pair_interaction(
        "Ar",
        "Ar",
        PairPotential::LennardJones { sigma: fx::of_int(2), epsilon: fx::of_int(1) },
        fx::of_int(5),
        PairRestriction::NoRestriction,
        true,
    )
    .unwrap();
    assert!(tail_total(&s) < 0);
}
