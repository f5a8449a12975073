//! A physics core for rigid axis-aligned boxes on a ring-shaped world.
//!
//! The world wraps around on the x-axis and is unbounded on the y-axis. All
//! quantities are signed integers: a position counts length quanta, a time
//! step counts time quanta, and velocity, acceleration, force and mass are
//! expressed in the units that follow from those two. Every contract is stated
//! over mathematical integers, so the laws of the integrator and of the
//! separation algorithm hold exactly.

pub mod vector;
pub mod wraparound;
pub mod separation;
pub mod collision;
pub mod physics;
pub mod grounded;
pub mod speed_clamps;
pub mod simulation;
