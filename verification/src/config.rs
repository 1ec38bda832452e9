//! Construction-time configuration and its validation. Configuration
//! errors are detected at initialization and are fatal: in particular a
//! particle count that is not an exact multiple of the workgroup size is
//! rejected rather than rounded, since a clamped dispatch would silently
//! simulate only a subset of the particles.

use crate::forces::SimParams;
use crate::limits::{
    DAMPING_LIMIT, DT_LIMIT, GRAVITY_LIMIT, MASS_LIMIT, MAX_DISPLACEMENT, MAX_GRID_SIZE,
    MAX_HALF_SPACING, STIFFNESS_LIMIT,
};
use crate::topology::GridModel;
use crate::vec3::{v3_in_range, Vec3};
use vstd::prelude::*;

verus! {

/// Everything the simulation is built from: grid shape, spring stiffness
/// per class, physical constants, dispatch geometry, scheduler interval and
/// the diagnostics switch.
#[derive(Clone, Copy, Debug, PartialEq, Eq, Structural)]
pub struct SimConfig {
    /// Side length of the particle grid (rows == cols).
    pub grid_size: u32,
    /// Half the distance between adjacent particles, in length units.
    pub half_spacing: i64,
    /// Initial vertical offset of the whole sheet.
    pub displacement: i64,
    /// Stiffness of the structural (adjacent-neighbour) springs.
    pub stiffness_structural: i64,
    /// Stiffness of the shear (diagonal-neighbour) springs.
    pub stiffness_shear: i64,
    /// Stiffness of the bend (two-apart) springs.
    pub stiffness_bend: i64,
    /// Gravity acceleration.
    pub gravity: Vec3,
    /// Velocity damping coefficient, in `SCALE` units.
    pub damping: i64,
    /// Particle mass.
    pub mass: i64,
    /// Time step, in `SCALE` units.
    pub dt: i64,
    /// How many particles one parallel dispatch group covers.
    pub workgroup_size: u32,
    /// Wall-clock nanoseconds between simulation ticks.
    pub generation_interval: u64,
    /// Whether each tick also produces a diagnostic record.
    pub diagnostics_enabled: bool,
}

/// Why a configuration was rejected.
#[derive(Clone, Copy, Debug, PartialEq, Eq, Structural)]
pub enum ConfigError {
    /// The grid needs at least two cells per side to have any spring.
    GridTooSmall,
    /// The grid side exceeds `MAX_GRID_SIZE`.
    GridTooLarge,
    /// The half-spacing is not in `(0, MAX_HALF_SPACING]`.
    SpacingOutOfRange,
    /// The vertical displacement exceeds `MAX_DISPLACEMENT` in magnitude.
    DisplacementOutOfRange,
    /// A spring stiffness is not in `[0, STIFFNESS_LIMIT]`.
    StiffnessOutOfRange,
    /// A gravity component exceeds `GRAVITY_LIMIT` in magnitude.
    GravityOutOfRange,
    /// The damping coefficient is not in `[0, DAMPING_LIMIT]`.
    DampingOutOfRange,
    /// The mass is not in `[1, MASS_LIMIT]`.
    MassOutOfRange,
    /// The time step is not in `[0, DT_LIMIT]`.
    TimeStepOutOfRange,
    /// The workgroup size is zero.
    WorkgroupSizeZero,
    /// The particle count is not an exact multiple of the workgroup size.
    ParticleCountNotDivisible,
}

impl SimConfig {
    /// The grid parameters of this configuration.
    pub open spec fn grid_model(self) -> GridModel {
        GridModel {
            n: self.grid_size as int,
            h: self.half_spacing as int,
            k_structural: self.stiffness_structural as int,
            k_shear: self.stiffness_shear as int,
            k_bend: self.stiffness_bend as int,
        }
    }

    /// The kernel parameter block of this configuration.
    pub open spec fn spec_params(self) -> SimParams {
        SimParams {
            gravity: self.gravity,
            damping: self.damping,
            mass: self.mass,
            dt: self.dt,
        }
    }

    /// How many particles the grid holds.
    pub open spec fn particle_count(self) -> int {
        self.grid_size * self.grid_size
    }

    /// A configuration the simulation can be built from.
    pub open spec fn valid(self) -> bool {
        &&& self.grid_model().wf()
        &&& -MAX_DISPLACEMENT <= self.displacement <= MAX_DISPLACEMENT
        &&& self.spec_params().wf()
        &&& self.workgroup_size >= 1
        &&& self.particle_count() % (self.workgroup_size as int) == 0
    }

    /// The kernel parameter block, as a value.
    pub fn params(&self) -> (r: SimParams)
        ensures
            r == self.spec_params(),
    {
        SimParams {
            gravity: self.gravity,
            damping: self.damping,
            mass: self.mass,
            dt: self.dt,
        }
    }
}

/// The validation outcome: the first violated bound, in the order the
/// bounds are tested.
pub open spec fn spec_validate(c: SimConfig) -> Result<(), ConfigError> {
    if c.grid_size < 2 {
        Result::Err(ConfigError::GridTooSmall)
    } else if c.grid_size > MAX_GRID_SIZE {
        Result::Err(ConfigError::GridTooLarge)
    } else if c.half_spacing <= 0 || c.half_spacing > MAX_HALF_SPACING {
        Result::Err(ConfigError::SpacingOutOfRange)
    } else if c.displacement < -MAX_DISPLACEMENT || c.displacement > MAX_DISPLACEMENT {
        Result::Err(ConfigError::DisplacementOutOfRange)
    } else if c.stiffness_structural < 0 || c.stiffness_structural > STIFFNESS_LIMIT
        || c.stiffness_shear < 0 || c.stiffness_shear > STIFFNESS_LIMIT
        || c.stiffness_bend < 0 || c.stiffness_bend > STIFFNESS_LIMIT {
        Result::Err(ConfigError::StiffnessOutOfRange)
    } else if !v3_in_range(c.gravity@, GRAVITY_LIMIT as int) {
        Result::Err(ConfigError::GravityOutOfRange)
    } else if c.damping < 0 || c.damping > DAMPING_LIMIT {
        Result::Err(ConfigError::DampingOutOfRange)
    } else if c.mass < 1 || c.mass > MASS_LIMIT {
        Result::Err(ConfigError::MassOutOfRange)
    } else if c.dt < 0 || c.dt > DT_LIMIT {
        Result::Err(ConfigError::TimeStepOutOfRange)
    } else if c.workgroup_size == 0 {
        Result::Err(ConfigError::WorkgroupSizeZero)
    } else if c.particle_count() % (c.workgroup_size as int) != 0 {
        Result::Err(ConfigError::ParticleCountNotDivisible)
    } else {
        Result::Ok(())
    }
}

/// Checks every configuration bound; accepts exactly the valid
/// configurations and names the first violated bound otherwise.
pub fn validate(c: &SimConfig) -> (r: Result<(), ConfigError>)
    ensures
        r == spec_validate(*c),
        r is Ok <==> c.valid(),
{
    if c.grid_size < 2 {
        return Err(ConfigError::GridTooSmall);
    }
    if c.grid_size > MAX_GRID_SIZE {
        return Err(ConfigError::GridTooLarge);
    }
    if c.half_spacing <= 0 || c.half_spacing > MAX_HALF_SPACING {
        return Err(ConfigError::SpacingOutOfRange);
    }
    if c.displacement < -MAX_DISPLACEMENT || c.displacement > MAX_DISPLACEMENT {
        return Err(ConfigError::DisplacementOutOfRange);
    }
    if c.stiffness_structural < 0 || c.stiffness_structural > STIFFNESS_LIMIT
        || c.stiffness_shear < 0 || c.stiffness_shear > STIFFNESS_LIMIT
        || c.stiffness_bend < 0 || c.stiffness_bend > STIFFNESS_LIMIT {
        return Err(ConfigError::StiffnessOutOfRange);
    }
    if c.gravity.x < -GRAVITY_LIMIT || c.gravity.x > GRAVITY_LIMIT
        || c.gravity.y < -GRAVITY_LIMIT || c.gravity.y > GRAVITY_LIMIT
        || c.gravity.z < -GRAVITY_LIMIT || c.gravity.z > GRAVITY_LIMIT {
        return Err(ConfigError::GravityOutOfRange);
    }
    if c.damping < 0 || c.damping > DAMPING_LIMIT {
        return Err(ConfigError::DampingOutOfRange);
    }
    if c.mass < 1 || c.mass > MASS_LIMIT {
        return Err(ConfigError::MassOutOfRange);
    }
    if c.dt < 0 || c.dt > DT_LIMIT {
        return Err(ConfigError::TimeStepOutOfRange);
    }
    if c.workgroup_size == 0 {
        return Err(ConfigError::WorkgroupSizeZero);
    }
    assert(c.grid_size * c.grid_size <= MAX_GRID_SIZE * MAX_GRID_SIZE) by (nonlinear_arith)
        requires 2 <= c.grid_size <= MAX_GRID_SIZE;
    let count: u32 = c.grid_size * c.grid_size;
    if count % c.workgroup_size != 0 {
        return Err(ConfigError::ParticleCountNotDivisible);
    }
    Ok(())
}

} // verus!
