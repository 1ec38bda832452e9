//! Named bounds of the simulation's integer arithmetic. They keep every
//! intermediate of the kernel exactly representable in machine integers;
//! configuration validation enforces them once, at initialization.

use vstd::prelude::*;

verus! {

/// Fixed-point unit of the dimensionless coefficients: a time step of
/// `SCALE` is one time unit, a damping coefficient of `SCALE` removes one
/// velocity unit per velocity unit.
pub const SCALE: i64 = 0x1_0000;

/// Positions and velocities are clamped into `[-COORD_LIMIT, COORD_LIMIT]`
/// after integration, the integer analogue of floating-point saturation.
pub const COORD_LIMIT: i64 = 0x100_0000_0000;

/// Largest admissible spring stiffness.
pub const STIFFNESS_LIMIT: i64 = 0x8_0000;

/// Largest admissible spring rest length.
pub const REST_LENGTH_LIMIT: i64 = 0x400_0000_0000;

/// Largest admissible magnitude of a gravity-acceleration component.
pub const GRAVITY_LIMIT: i64 = 0x10_0000;

/// Largest admissible particle mass (the smallest is 1).
pub const MASS_LIMIT: i64 = 0x10_0000;

/// Largest admissible damping coefficient, in `SCALE` units.
pub const DAMPING_LIMIT: i64 = 0x10_0000;

/// Largest admissible time step, in `SCALE` units.
pub const DT_LIMIT: i64 = 0x10_0000;

/// Largest admissible grid side length.
pub const MAX_GRID_SIZE: u32 = 4096;

/// Largest admissible half-spacing between neighbouring particles.
pub const MAX_HALF_SPACING: i64 = 0x10_0000;

/// Largest admissible magnitude of the initial vertical displacement.
pub const MAX_DISPLACEMENT: i64 = 0x1_0000_0000;

/// How many per-spring force contributions the diagnostic record can hold;
/// contributions past the cap are deliberately not recorded.
pub const DIAG_CAPACITY: usize = 32;

} // verus!
