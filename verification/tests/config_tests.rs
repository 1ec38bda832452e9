use cloth_sim::config::{validate, ConfigError, SimConfig};
use cloth_sim::limits::{
    DAMPING_LIMIT, DT_LIMIT, GRAVITY_LIMIT, MASS_LIMIT, MAX_DISPLACEMENT, MAX_GRID_SIZE,
    MAX_HALF_SPACING, STIFFNESS_LIMIT,
};
use cloth_sim::vec3::Vec3;

fn base_config() -> SimConfig {
    SimConfig {
        grid_size: 4,
        half_spacing: 10,
        displacement: 100,
        stiffness_structural: 50,
        stiffness_shear: 40,
        stiffness_bend: 30,
        gravity: Vec3 { x: 0, y: -16, z: 0 },
        damping: 100,
        mass: 1,
        dt: 655,
        workgroup_size: 8,
        generation_interval: 1_600_000,
        diagnostics_enabled: false,
    }
}

#[test]
fn a_sound_configuration_is_accepted() {
    assert_eq!(validate(&base_config()), Ok(()));
}

#[test]
fn grid_too_small_is_rejected() {
    let mut c = base_config();
    c.grid_size = 1;
    assert_eq!(validate(&c), Err(ConfigError::GridTooSmall));
}

#[test]
fn grid_too_large_is_rejected() {
    let mut c = base_config();
    c.grid_size = MAX_GRID_SIZE + 1;
    assert_eq!(validate(&c), Err(ConfigError::GridTooLarge));
}

#[test]
fn spacing_out_of_range_is_rejected() {
    let mut c = base_config();
    c.half_spacing = 0;
    assert_eq!(validate(&c), Err(ConfigError::SpacingOutOfRange));
    c.half_spacing = MAX_HALF_SPACING + 1;
    assert_eq!(validate(&c), Err(ConfigError::SpacingOutOfRange));
}

#[test]
fn displacement_out_of_range_is_rejected() {
    let mut c = base_config();
    c.displacement = MAX_DISPLACEMENT + 1;
    assert_eq!(validate(&c), Err(ConfigError::DisplacementOutOfRange));
}

#[test]
fn stiffness_out_of_range_is_rejected() {
    let mut c = base_config();
    c.stiffness_shear = -1;
    assert_eq!(validate(&c), Err(ConfigError::StiffnessOutOfRange));
    c.stiffness_shear = STIFFNESS_LIMIT + 1;
    assert_eq!(validate(&c), Err(ConfigError::StiffnessOutOfRange));
}

#[test]
fn gravity_out_of_range_is_rejected() {
    let mut c = base_config();
    c.gravity.y = -(GRAVITY_LIMIT + 1);
    assert_eq!(validate(&c), Err(ConfigError::GravityOutOfRange));
}

#[test]
fn damping_out_of_range_is_rejected() {
    let mut c = base_config();
    c.damping = DAMPING_LIMIT + 1;
    assert_eq!(validate(&c), Err(ConfigError::DampingOutOfRange));
}

#[test]
fn mass_out_of_range_is_rejected() {
    let mut c = base_config();
    c.mass = 0;
    assert_eq!(validate(&c), Err(ConfigError::MassOutOfRange));
    c.mass = MASS_LIMIT + 1;
    assert_eq!(validate(&c), Err(ConfigError::MassOutOfRange));
}

#[test]
fn time_step_out_of_range_is_rejected() {
    let mut c = base_config();
    c.dt = -1;
    assert_eq!(validate(&c), Err(ConfigError::TimeStepOutOfRange));
    c.dt = DT_LIMIT + 1;
    assert_eq!(validate(&c), Err(ConfigError::TimeStepOutOfRange));
}

#[test]
fn zero_workgroup_is_rejected() {
    let mut c = base_config();
    c.workgroup_size = 0;
    assert_eq!(validate(&c), Err(ConfigError::WorkgroupSizeZero));
}

#[test]
fn indivisible_particle_count_is_rejected() {
    let mut c = base_config();
    // 16 particles cannot be split into groups of 5: fail fast, since a
    // clamped dispatch would simulate only a subset of the particles
    c.workgroup_size = 5;
    assert_eq!(validate(&c), Err(ConfigError::ParticleCountNotDivisible));
}
