//! A verified cloth simulation core: a grid of point masses joined by
//! structural, shear and bend springs, advanced in discrete ticks by a
//! force-accumulation kernel over double-buffered particle state, under a
//! scheduler that is decoupled from the render cadence.
//!
//! All continuous quantities (positions, velocities, forces, the time step)
//! are exact integers in caller-chosen units; the `SCALE` constant fixes the
//! fixed-point unit for the dimensionless coefficients (time step, damping).

pub mod config;
pub mod diagnostics;
pub mod forces;
pub mod limits;
pub mod math;
pub mod scheduler;
pub mod sim;
pub mod spring_count;
pub mod state;
pub mod topology;
pub mod vec3;
