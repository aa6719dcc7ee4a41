//! A population of cell-like organisms on a bounded plane: they drift along a
//! gradient field, collide, feed on a light field, balance energy and health, and
//! divide. Every quantity is held in fixed point (`constants::SCALE` units to one
//! whole), so that each step of the simulation is stated and proved exactly.

pub mod constants;
pub mod fixed;
pub mod field;
pub mod random;
pub mod cell;
pub mod motion;
pub mod homeostasis;
pub mod collision;
pub mod simulation;
pub mod lifecycle;
pub mod environment;
pub mod appearance;
