use cloth_sim::config::{ConfigError, SimConfig};
use cloth_sim::diagnostics::diagnostic_record;
use cloth_sim::forces::SimParams;
use cloth_sim::limits::{DIAG_CAPACITY, SCALE};
use cloth_sim::sim::{Simulation, UpdateOutcome};
use cloth_sim::state::SimState;
use cloth_sim::topology::{Particle, Spring, SpringClass};
use cloth_sim::vec3::Vec3;

fn equilibrium_config() -> SimConfig {
    // grid 4x4, zero gravity, zero damping, unit mass, dt 0.01 time units
    SimConfig {
        grid_size: 4,
        half_spacing: 10,
        displacement: 100,
        stiffness_structural: 50,
        stiffness_shear: 40,
        stiffness_bend: 30,
        gravity: Vec3 { x: 0, y: 0, z: 0 },
        damping: 0,
        mass: 1,
        dt: SCALE / 100,
        workgroup_size: 8,
        generation_interval: 1_600_000,
        diagnostics_enabled: false,
    }
}

#[test]
fn state_construction_rejects_bad_configs() {
    let mut c = equilibrium_config();
    c.workgroup_size = 7;
    match SimState::new(&c) {
        Err(ConfigError::ParticleCountNotDivisible) => (),
        _ => panic!("a 16-particle grid with workgroups of 7 must be rejected"),
    }
}

#[test]
fn tick_flips_the_buffer_roles() {
    let mut state = SimState::new(&equilibrium_config()).unwrap();
    assert_eq!(state.current_index(), 0);
    let before: Vec<Particle> = state.buffer_at(0).clone();
    state.tick();
    // the buffer that was current was the kernel's read source, never its
    // write target: it is bitwise untouched, and the tag flipped
    assert_eq!(state.current_index(), 1);
    assert_eq!(state.buffer_at(0), &before);
    state.tick();
    assert_eq!(state.current_index(), 0);
}

#[test]
fn both_buffers_start_identical() {
    let state = SimState::new(&equilibrium_config()).unwrap();
    assert_eq!(state.buffer_at(0), state.buffer_at(1));
}

#[test]
fn equilibrium_grid_is_unchanged_by_a_tick() {
    // every generated spring starts exactly at its rest length and every
    // velocity at zero; with gravity and damping off, one tick changes
    // nothing
    let mut state = SimState::new(&equilibrium_config()).unwrap();
    let before: Vec<Particle> = state.current_particles().clone();
    state.tick();
    assert_eq!(state.current_particles(), &before);
    // and the equilibrium persists over further ticks
    state.tick();
    state.tick();
    assert_eq!(state.current_particles(), &before);
}

#[test]
fn gravity_moves_the_sheet_down() {
    let mut c = equilibrium_config();
    c.gravity = Vec3 { x: 0, y: -16, z: 0 };
    c.dt = SCALE;
    let mut state = SimState::new(&c).unwrap();
    let before: Vec<Particle> = state.current_particles().clone();
    state.tick();
    let after = state.current_particles();
    for (b, a) in before.iter().zip(after.iter()) {
        assert_eq!(a.velocity, Vec3 { x: 0, y: -16, z: 0 });
        assert_eq!(a.position.y, b.position.y - 16);
        assert_eq!(a.position.x, b.position.x);
        assert_eq!(a.position.z, b.position.z);
    }
}

#[test]
fn dispatch_count_is_exact() {
    let state = SimState::new(&equilibrium_config()).unwrap();
    assert_eq!(state.particle_count(), 16);
    assert_eq!(state.dispatch_count(), 2);
}

#[test]
fn update_is_idle_until_the_interval_elapses() {
    let mut sim = Simulation::new(&equilibrium_config(), 0).unwrap();
    for now in [100_000u64, 800_000, 1_600_000] {
        match sim.update(now) {
            UpdateOutcome::Idle => (),
            _ => panic!("no tick may fire before the interval has elapsed"),
        }
    }
    match sim.update(1_600_001) {
        UpdateOutcome::Stepped => (),
        _ => panic!("the first update past the interval must tick, without diagnostics"),
    }
    // the interval now counts from the recorded tick time
    match sim.update(3_200_001) {
        UpdateOutcome::Idle => (),
        _ => panic!("a second tick within the new interval must not fire"),
    }
}

#[test]
fn update_with_diagnostics_returns_a_record() {
    let mut c = equilibrium_config();
    c.diagnostics_enabled = true;
    let mut sim = Simulation::new(&c, 0).unwrap();
    match sim.update(1_600_001) {
        UpdateOutcome::SteppedWithDiagnostics(d) => {
            // equilibrium: gravity off, all springs at rest
            assert_eq!(d.gravity_force.x, 0);
            assert_eq!(d.gravity_force.y, 0);
            assert_eq!(d.gravity_force.z, 0);
            assert_eq!(d.spring_total.x, 0);
            assert_eq!(d.spring_total.y, 0);
            assert_eq!(d.spring_total.z, 0);
            assert_eq!(d.final_force.x, 0);
            assert_eq!(d.final_force.y, 0);
            assert_eq!(d.final_force.z, 0);
            // particle 0 is a corner of a 4x4 grid: structural right and
            // down, shear down-right, bend right and down
            assert_eq!(d.spring_contributions.len(), 5);
        },
        _ => panic!("a tick with diagnostics enabled must return the record"),
    }
}

#[test]
fn diagnostic_record_reports_the_force_breakdown() {
    let ps = vec![
        Particle { position: Vec3 { x: 0, y: 0, z: 0 }, velocity: Vec3 { x: 0, y: 0, z: 0 } },
        Particle { position: Vec3 { x: 30, y: 0, z: 0 }, velocity: Vec3 { x: 0, y: 0, z: 0 } },
    ];
    let springs = vec![Spring {
        stiffness: 5,
        rest_length: 20,
        particle_a: 0,
        particle_b: 1,
        class: SpringClass::Adjacent,
    }];
    let params = SimParams {
        gravity: Vec3 { x: 0, y: -16, z: 0 },
        damping: 0,
        mass: 2,
        dt: SCALE,
    };
    let d = diagnostic_record(&ps, 0, &springs, &params);
    assert_eq!(d.gravity_force.y, -32);
    assert_eq!(d.spring_contributions.len(), 1);
    assert_eq!(d.spring_contributions[0].x, 50);
    assert_eq!(d.spring_total.x, 50);
    assert_eq!(d.final_force.x, 50);
    assert_eq!(d.final_force.y, -32);
    assert_eq!(d.final_force.z, 0);
}

#[test]
fn diagnostic_contributions_are_capped() {
    // forty springs incident on particle 0: only the first DIAG_CAPACITY
    // contributions are recorded, while the total sums them all
    let ps = vec![
        Particle { position: Vec3 { x: 0, y: 0, z: 0 }, velocity: Vec3 { x: 0, y: 0, z: 0 } },
        Particle { position: Vec3 { x: 30, y: 0, z: 0 }, velocity: Vec3 { x: 0, y: 0, z: 0 } },
    ];
    let mut springs = Vec::new();
    for _ in 0..40 {
        springs.push(Spring {
            stiffness: 5,
            rest_length: 20,
            particle_a: 0,
            particle_b: 1,
            class: SpringClass::Adjacent,
        });
    }
    let params = SimParams {
        gravity: Vec3 { x: 0, y: 0, z: 0 },
        damping: 0,
        mass: 1,
        dt: SCALE,
    };
    let d = diagnostic_record(&ps, 0, &springs, &params);
    assert_eq!(d.spring_contributions.len(), DIAG_CAPACITY);
    assert_eq!(d.spring_total.x, 40 * 50);
}

#[test]
fn parameters_can_be_replaced_between_ticks() {
    let mut state = SimState::new(&equilibrium_config()).unwrap();
    let mut params = state.params();
    params.gravity = Vec3 { x: 0, y: -16, z: 0 };
    params.dt = SCALE;
    state.set_params(params);
    let before: Vec<Particle> = state.current_particles().clone();
    state.tick();
    let after = state.current_particles();
    assert_eq!(after[0].position.y, before[0].position.y - 16);
}
