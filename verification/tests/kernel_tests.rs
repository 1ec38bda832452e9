use cloth_sim::forces::{spring_force, step_particle, SimParams};
use cloth_sim::limits::SCALE;
use cloth_sim::math::{clamp_i128, isqrt_u128, tdiv_i128};
use cloth_sim::topology::Particle;
use cloth_sim::topology::{Spring, SpringClass};
use cloth_sim::vec3::{Force3, Vec3};

fn particle(px: i64, py: i64, pz: i64, vx: i64, vy: i64, vz: i64) -> Particle {
    Particle {
        position: Vec3 { x: px, y: py, z: pz },
        velocity: Vec3 { x: vx, y: vy, z: vz },
    }
}

#[test]
fn isqrt_exact_values() {
    assert_eq!(isqrt_u128(0), 0);
    assert_eq!(isqrt_u128(1), 1);
    assert_eq!(isqrt_u128(8), 2);
    assert_eq!(isqrt_u128(9), 3);
    assert_eq!(isqrt_u128(800), 28);
    assert_eq!(isqrt_u128(u128::MAX), (1u128 << 64) - 1);
}

#[test]
fn division_rounds_toward_zero() {
    assert_eq!(tdiv_i128(7, 2), 3);
    assert_eq!(tdiv_i128(-7, 2), -3);
    assert_eq!(tdiv_i128(0, 5), 0);
    assert_eq!(tdiv_i128(-1, 5), 0);
}

#[test]
fn clamp_saturates() {
    assert_eq!(clamp_i128(5, 10), 5);
    assert_eq!(clamp_i128(11, 10), 10);
    assert_eq!(clamp_i128(-11, 10), -10);
}

#[test]
fn spring_at_rest_length_gives_zero_force() {
    let pa = Vec3 { x: 0, y: 0, z: 0 };
    let pb = Vec3 { x: 20, y: 0, z: 0 };
    let f = spring_force(&pa, &pb, 5, 20);
    assert_eq!(f, Force3 { x: 0, y: 0, z: 0 });
}

#[test]
fn stretched_spring_pulls_toward_neighbour() {
    let pa = Vec3 { x: 0, y: 0, z: 0 };
    let pb = Vec3 { x: 30, y: 0, z: 0 };
    // measured length 30, rest 20: force 5 * 10 along +x
    let f = spring_force(&pa, &pb, 5, 20);
    assert_eq!(f, Force3 { x: 50, y: 0, z: 0 });
}

#[test]
fn compressed_spring_pushes_apart() {
    let pa = Vec3 { x: 0, y: 0, z: 0 };
    let pb = Vec3 { x: 10, y: 0, z: 0 };
    // measured length 10, rest 20: force 5 * (-10) along +x, away from pb
    let f = spring_force(&pa, &pb, 5, 20);
    assert_eq!(f, Force3 { x: -50, y: 0, z: 0 });
}

#[test]
fn coinciding_endpoints_give_zero_force() {
    let pa = Vec3 { x: 3, y: 4, z: 5 };
    let f = spring_force(&pa, &pa, 5, 20);
    assert_eq!(f, Force3 { x: 0, y: 0, z: 0 });
}

#[test]
fn spring_forces_obey_newtons_third_law() {
    // a 3-4-12 triple: measured length exactly 13
    let pa = Vec3 { x: 1, y: 2, z: 3 };
    let pb = Vec3 { x: 4, y: 6, z: 15 };
    let fab = spring_force(&pa, &pb, 7, 5);
    let fba = spring_force(&pb, &pa, 7, 5);
    assert_eq!(fab.x, -fba.x);
    assert_eq!(fab.y, -fba.y);
    assert_eq!(fab.z, -fba.z);
    // and the force is not zero, so the check is not vacuous
    assert!(fab.x != 0 || fab.y != 0 || fab.z != 0);
}

#[test]
fn gravity_accelerates_a_free_particle() {
    // one particle, no springs, gravity -16 per time unit squared, dt one
    // time unit: velocity gains -16 * mass / mass, position follows
    let ps = vec![particle(0, 1000, 0, 0, 0, 0)];
    let springs: Vec<Spring> = vec![];
    let params = SimParams {
        gravity: Vec3 { x: 0, y: -16, z: 0 },
        damping: 0,
        mass: 4,
        dt: SCALE,
    };
    let next = step_particle(&ps, 0, &springs, &params);
    assert_eq!(next.velocity, Vec3 { x: 0, y: -16, z: 0 });
    assert_eq!(next.position, Vec3 { x: 0, y: 1000 - 16, z: 0 });
}

#[test]
fn damping_opposes_velocity() {
    // damping of one SCALE unit removes the whole velocity's worth of
    // force: mass 1, dt 1 time unit
    let ps = vec![particle(0, 0, 0, 100, 0, 0)];
    let springs: Vec<Spring> = vec![];
    let params = SimParams {
        gravity: Vec3 { x: 0, y: 0, z: 0 },
        damping: SCALE / 2,
        mass: 1,
        dt: SCALE,
    };
    let next = step_particle(&ps, 0, &springs, &params);
    // damping force = -50, velocity 100 - 50 = 50, position 0 + 50
    assert_eq!(next.velocity, Vec3 { x: 50, y: 0, z: 0 });
    assert_eq!(next.position, Vec3 { x: 50, y: 0, z: 0 });
}

#[test]
fn two_particles_one_spring_move_symmetrically() {
    // one spring stretched along x, no gravity, no damping: the particles
    // accelerate toward each other by the same amount
    let ps = vec![particle(0, 0, 0, 0, 0, 0), particle(30, 0, 0, 0, 0, 0)];
    let springs = vec![Spring {
        stiffness: 5,
        rest_length: 20,
        particle_a: 0,
        particle_b: 1,
        class: SpringClass::Adjacent,
    }];
    let params = SimParams {
        gravity: Vec3 { x: 0, y: 0, z: 0 },
        damping: 0,
        mass: 1,
        dt: SCALE,
    };
    let a = step_particle(&ps, 0, &springs, &params);
    let b = step_particle(&ps, 1, &springs, &params);
    assert_eq!(a.velocity, Vec3 { x: 50, y: 0, z: 0 });
    assert_eq!(b.velocity, Vec3 { x: -50, y: 0, z: 0 });
    assert_eq!(a.velocity.x, -b.velocity.x);
}
