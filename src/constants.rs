use vstd::prelude::*;

verus! {

/// Number of fixed-point units in one simulation unit (pixels, mass, energy, ...).
pub const SCALE: i64 = 1_000_000;

/// Width of the simulation domain, in whole pixels.
pub const WIDTH: u32 = 2560;
/// Height of the simulation domain, in whole pixels.
pub const HEIGHT: u32 = 1440;
/// Width of the domain in fixed-point units.
pub const WIDTH_UNITS: i64 = 2_560_000_000;
/// Height of the domain in fixed-point units.
pub const HEIGHT_UNITS: i64 = 1_440_000_000;

/// Number of seed cells placed by a new environment.
pub const NUM_CELLS: usize = 200;

/// Spring constant of an ordinary collision (-7.5).
pub const COLLIDE_SPRING: i64 = -7_500_000;
/// Damped spring constant between a parent and its fresh child (-0.4).
pub const POST_REPRODUCTION_COLLIDE_SPRING: i64 = -400_000;
/// Ticks after a reproduction during which the damped spring applies.
pub const GRACE_AGE: i64 = 30;
/// Friction coefficient (0.075).
pub const FRICTION_COEFF: i64 = 75_000;
/// Bound of the per-tick Brownian jitter on each velocity component (0.01).
pub const BROWNIAN_MOTION: i64 = 10_000;
/// Squared distance used in place of zero for coincident cells (0.1 square units).
pub const COINCIDENT_DIST_SQ: i64 = 100_000_000_000;

/// Number of strips over which the lens of two overlapping disks is integrated.
pub const LENS_STRIPS: i64 = 64;

/// pi is taken as 355 / 113 in the radius and area formulas.
pub const PI_NUM: i64 = 355;
pub const PI_DEN: i64 = 113;

/// Full health and energy of a new cell (100 units).
pub const HEALTH_FULL: i64 = 100_000_000;

/// Smallest mass a cell can have (one mass unit).
pub const MIN_MASS: i64 = 1_000_000;
/// Largest mass a cell can have (one million mass units).
pub const MAX_MASS: i64 = 1_000_000_000_000;
/// Largest magnitude of a velocity component (1000 pixels per tick).
pub const MAX_VEL: i64 = 1_000_000_000;
/// Largest health or energy capacity.
pub const MAX_CAPACITY: i64 = 1_000_000_000_000;
/// Largest magnitude of a light value of the field.
pub const MAX_LIGHT: i64 = 10_000_000;
/// Largest magnitude of a gradient component of the field.
pub const MAX_GRADIENT: i64 = 10_000_000;
/// Largest simulation step, creation step or age.
pub const MAX_STEP: i64 = 1_000_000_000_000_000;

/// Smallest reproduction cost a child may inherit (36 mass units).
pub const MIN_REPRODUCTION_COST: i64 = 36_000_000;
/// Largest reproduction cost a child may inherit.
pub const MAX_REPRODUCTION_COST: i64 = 100_000_000_000;
/// Bound of the mutation of the reproduction cost per generation (2 mass units).
pub const COST_MUTATION: i64 = 2_000_000;
/// Bound of the hue mutation per generation (0.04 of a turn).
pub const COLOR_MUTATE_MAGNITUDE: i64 = 40_000;
/// Share of the energy capacity above which a cell accumulates toward a birth (0.1).
pub const REPRODUCTION_THRESHOLD: i64 = 100_000;
/// Base reproduction rate per tick (0.02).
pub const REPRODUCTION_RATE: i64 = 20_000;
/// Bounds of the random reproduction multiplier: from 0.5 up to, but not including, 1.5.
pub const VARIATION_MIN: i64 = 500_000;
pub const VARIATION_MAX: i64 = 1_500_000;
/// Light consumption efficiency is mass divided by this.
pub const EFFICIENCY_DIVISOR: i64 = 2000;

} // verus!
