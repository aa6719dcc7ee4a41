use vstd::prelude::*;
use crate::constants::{
    COLOR_MUTATE_MAGNITUDE, COST_MUTATION, EFFICIENCY_DIVISOR, HEIGHT_UNITS, MAX_CAPACITY,
    MAX_LIGHT, MAX_MASS, MAX_REPRODUCTION_COST, MAX_STEP, MAX_VEL, MIN_MASS,
    MIN_REPRODUCTION_COST, PI_DEN, PI_NUM, SCALE, WIDTH_UNITS,
};
use crate::fixed::{floor_sqrt, is_floor_sqrt, isqrt};
use crate::constants::HEALTH_FULL;
use crate::random::draw_in;

verus! {

/// A colour in hue / saturation / value / alpha form, each channel in fixed point.
/// The simulation only carries colours and perturbs the hue; it never reads them.
#[derive(Clone, Copy, Debug, PartialEq, Eq, Structural)]
pub struct Color {
    pub hue: i64,
    pub saturation: i64,
    pub value: i64,
    pub alpha: i64,
}

impl Color {
    pub open spec fn wf(&self) -> bool {
        &&& 0 <= self.hue < SCALE
        &&& 0 <= self.saturation <= SCALE
        &&& 0 <= self.value <= SCALE
        &&& 0 <= self.alpha <= SCALE
    }

    /// `self` is `parent` with its hue turned by less than the mutation bound.
    pub open spec fn is_mutation_of(&self, parent: Color) -> bool {
        &&& {
            let shift = wrap_hue(self.hue - parent.hue);
            shift < COLOR_MUTATE_MAGNITUDE || shift >= SCALE - COLOR_MUTATE_MAGNITUDE
        }
        &&& self.saturation == parent.saturation
        &&& self.value == parent.value
        &&& self.alpha == parent.alpha
    }
}

/// A hue taken modulo one full turn.
pub open spec fn wrap_hue(h: int) -> int {
    h % (SCALE as int)
}

/// Argument of the square root that gives the radius: `mass / pi`, in squared units.
pub open spec fn radius_arg(mass: int) -> int {
    mass * (SCALE as int) * (PI_DEN as int) / (PI_NUM as int)
}

/// The radius of a disk of area `mass`, rounded down to a unit.
pub open spec fn radius_matches(radius: int, mass: int) -> bool {
    is_floor_sqrt(radius, radius_arg(mass))
}

/// Light consumption efficiency of a cell of mass `mass`.
pub open spec fn efficiency_of(mass: int) -> int {
    mass / EFFICIENCY_DIVISOR as int
}

/// The floor of the Euclidean norm of a velocity.
pub open spec fn speed_matches(speed: int, vx: int, vy: int) -> bool {
    is_floor_sqrt(speed, vx * vx + vy * vy)
}

/// An organism of the simulation. Every quantity is in fixed point: `SCALE` units
/// make one pixel, one mass unit, one energy unit, one whole of a ratio.
#[derive(Clone, Copy, Debug)]
pub struct Cell {
    pub id: i64,
    /// Identity of the progenitor, or -1 for a seed cell.
    pub parent_id: i64,
    pub creation_step: i64,
    pub age: i64,
    pub alive: bool,
    pub reproducing: bool,
    pub reproduce_now: bool,
    pub last_reproduction_age: i64,
    pub x_pos: i64,
    pub y_pos: i64,
    pub x_vel: i64,
    pub y_vel: i64,
    pub speed: i64,
    pub mass: i64,
    pub radius: i64,
    pub health: i64,
    pub health_capacity: i64,
    pub health_restore_rate: i64,
    pub health_decay_rate: i64,
    pub energy: i64,
    pub energy_capacity: i64,
    pub energy_decay_rate: i64,
    pub light_exposure: i64,
    pub light_consumption_efficiency: i64,
    pub reproduction_cost: i64,
    pub reproduction_progress: i64,
    pub membrane_color: Color,
    pub inside_color: Color,
    pub nucleus_color: Color,
}

impl Cell {
    /// The radius and the efficiency agree with the mass.
    pub open spec fn mass_consistent(&self) -> bool {
        &&& MIN_MASS <= self.mass <= MAX_MASS
        &&& radius_matches(self.radius as int, self.mass as int)
        &&& self.light_consumption_efficiency == efficiency_of(self.mass as int)
    }

    /// Health and energy lie within their capacities.
    pub open spec fn balances_in_range(&self) -> bool {
        &&& 0 < self.health_capacity <= MAX_CAPACITY
        &&& 0 <= self.health <= self.health_capacity
        &&& 0 < self.energy_capacity <= MAX_CAPACITY
        &&& 0 <= self.energy <= self.energy_capacity
    }

    /// The cell lies inside the domain.
    pub open spec fn in_domain(&self) -> bool {
        &&& 0 <= self.x_pos <= WIDTH_UNITS
        &&& 0 <= self.y_pos <= HEIGHT_UNITS
    }

    /// The cell lies within one tick's travel of the domain.
    pub open spec fn near_domain(&self) -> bool {
        &&& -MAX_VEL <= self.x_pos <= WIDTH_UNITS + MAX_VEL
        &&& -MAX_VEL <= self.y_pos <= HEIGHT_UNITS + MAX_VEL
    }

    /// The invariant of a cell.
    pub open spec fn wf(&self) -> bool {
        &&& self.valid()
        &&& self.in_domain()
    }

    /// The invariant of a cell in the middle of a tick, while it may stand outside
    /// the domain before its boundary handling. Besides the consistency of the derived
    /// quantities, it holds the bounds of the fixed-point model, which the library keeps:
    /// a mass of at least one unit (`MIN_MASS`) and at most `MAX_MASS`, velocity
    /// components within `MAX_VEL`, and enough mass gained on the way to a birth for
    /// both halves to keep at least one unit.
    pub open spec fn valid(&self) -> bool {
        &&& 0 <= self.id
        &&& -1 <= self.parent_id
        &&& 0 <= self.creation_step <= MAX_STEP
        &&& -MAX_STEP <= self.age <= MAX_STEP
        &&& -MAX_STEP <= self.last_reproduction_age <= MAX_STEP
        &&& self.near_domain()
        &&& -MAX_VEL <= self.x_vel <= MAX_VEL
        &&& -MAX_VEL <= self.y_vel <= MAX_VEL
        &&& 0 <= self.speed <= 2 * MAX_VEL
        &&& self.mass_consistent()
        &&& self.balances_in_range()
        &&& 0 <= self.health_restore_rate <= SCALE
        &&& 0 <= self.health_decay_rate <= SCALE
        &&& 0 <= self.energy_decay_rate <= SCALE
        &&& -MAX_LIGHT <= self.light_exposure <= MAX_LIGHT
        &&& MIN_REPRODUCTION_COST <= self.reproduction_cost <= MAX_REPRODUCTION_COST
        &&& 0 <= self.reproduction_progress < SCALE
        // The mass gained on the way to a birth covers the child's share: each unit of
        // progress comes with at least 36 mass units, half of which the bounds claim.
        &&& self.mass >= MIN_MASS + 18 * self.reproduction_progress
        &&& self.reproduce_now ==> self.mass >= 2 * MIN_MASS + 36 * self.reproduction_progress
        &&& self.membrane_color.wf()
        &&& self.inside_color.wf()
        &&& self.nucleus_color.wf()
    }
}

/// `c` is a seed cell with identity `id` created at step `loop_step`: no parent, a mass
/// from 81 to 256 (exactly 256 for cell 1), a slow random velocity, full health and
/// energy, the adult rates, its disk inside the domain, and progress below one half.
pub open spec fn is_seed(c: Cell, id: int, loop_step: int) -> bool {
    &&& c.wf()
    &&& c.id == id
    &&& c.parent_id == -1
    &&& c.creation_step == loop_step
    &&& c.age == 0
    &&& c.alive
    &&& !c.reproducing
    &&& !c.reproduce_now
    &&& c.last_reproduction_age == 0
    &&& id == 1 ==> c.mass == 256 * SCALE
    &&& id != 1 ==> 81 * SCALE <= c.mass <= 256 * SCALE
    &&& c.reproduction_cost == c.mass
    &&& c.radius <= c.x_pos <= WIDTH_UNITS - c.radius
    &&& c.radius <= c.y_pos <= HEIGHT_UNITS - c.radius
    &&& -SCALE / 2 <= c.x_vel < SCALE / 2
    &&& -SCALE / 2 <= c.y_vel < SCALE / 2
    &&& speed_matches(c.speed as int, c.x_vel as int, c.y_vel as int)
    &&& c.health == HEALTH_FULL && c.health_capacity == HEALTH_FULL
    &&& c.energy == HEALTH_FULL && c.energy_capacity == HEALTH_FULL
    &&& c.health_restore_rate == 20_000
    &&& c.health_decay_rate == 10_000
    &&& c.energy_decay_rate == 10_000
    &&& c.light_exposure == 0
    &&& 0 <= c.reproduction_progress < SCALE / 2
}

impl Cell {
    /// A seed cell with identity `id`, created at step `loop_step`, with a random mass,
    /// velocity, colours and reproduction progress, placed at random inside the domain.
    /// Cell 1 is the white marker cell of mass 256.
    pub fn new(id: i64, loop_step: i64) -> (c: Cell)
        requires
            0 <= id,
            0 <= loop_step <= MAX_STEP,
        ensures
            is_seed(c, id as int, loop_step as int),
    {
        let mut mass = draw_in(81 * SCALE, 256 * SCALE - 1);
        let x_vel = draw_in(-SCALE / 2, SCALE / 2 - 1);
        let y_vel = draw_in(-SCALE / 2, SCALE / 2 - 1);
        let mut membrane_color = Color { hue: draw_in(0, SCALE - 1), saturation: SCALE, value: SCALE, alpha: SCALE };
        let mut inside_color = Color { hue: draw_in(0, SCALE - 1), saturation: SCALE, value: SCALE, alpha: SCALE };
        let nucleus_color = Color { hue: draw_in(0, SCALE - 1), saturation: SCALE, value: SCALE, alpha: SCALE };
        let reproduction_progress = draw_in(0, SCALE / 2 - 1);
        if id == 1 {
            let white = Color { hue: 0, saturation: 0, value: SCALE, alpha: SCALE };
            membrane_color = white;
            inside_color = white;
            mass = 256 * SCALE;
        }
        let radius = radius_for_mass(mass);
        let x_pos = draw_in(radius, WIDTH_UNITS - radius);
        let y_pos = draw_in(radius, HEIGHT_UNITS - radius);
        Cell {
            id,
            parent_id: -1,
            creation_step: loop_step,
            age: 0,
            alive: true,
            reproducing: false,
            reproduce_now: false,
            last_reproduction_age: 0,
            x_pos,
            y_pos,
            x_vel,
            y_vel,
            speed: speed_of(x_vel, y_vel),
            mass,
            radius,
            health: HEALTH_FULL,
            health_capacity: HEALTH_FULL,
            health_restore_rate: 20_000,
            health_decay_rate: 10_000,
            energy: HEALTH_FULL,
            energy_capacity: HEALTH_FULL,
            energy_decay_rate: 10_000,
            light_exposure: 0,
            light_consumption_efficiency: mass / EFFICIENCY_DIVISOR,
            reproduction_cost: mass,
            reproduction_progress,
            membrane_color,
            inside_color,
            nucleus_color,
        }
    }

    /// The offspring of a reproduction: a young cell with the given mass, position and
    /// velocity, full health and energy, the faster restore and decay rates of early life,
    /// colours whose hues are perturbed by less than the mutation bound, and a
    /// reproduction cost within the cost mutation of `reproductive_cost`, kept within the
    /// viable range.
    pub fn new_from_reproduction(
        id: i64,
        parent_id: i64,
        creation_step: i64,
        mass: i64,
        x_pos: i64,
        y_pos: i64,
        x_vel: i64,
        y_vel: i64,
        membrane_color: Color,
        inside_color: Color,
        nucleus_color: Color,
        reproductive_cost: i64,
    ) -> (c: Cell)
        requires
            0 <= id,
            -1 <= parent_id,
            0 <= creation_step <= MAX_STEP,
            MIN_MASS <= mass <= MAX_MASS,
            0 <= x_pos <= WIDTH_UNITS,
            0 <= y_pos <= HEIGHT_UNITS,
            -MAX_VEL <= x_vel <= MAX_VEL,
            -MAX_VEL <= y_vel <= MAX_VEL,
            membrane_color.wf(),
            inside_color.wf(),
            nucleus_color.wf(),
            MIN_REPRODUCTION_COST - COST_MUTATION < reproductive_cost <= MAX_REPRODUCTION_COST,
        ensures
            c.wf(),
            c.id == id,
            c.parent_id == parent_id,
            c.creation_step == creation_step,
            c.age == 0,
            c.alive,
            !c.reproducing,
            !c.reproduce_now,
            c.last_reproduction_age == 0,
            c.mass == mass,
            c.x_pos == x_pos && c.y_pos == y_pos,
            c.x_vel == x_vel && c.y_vel == y_vel,
            speed_matches(c.speed as int, x_vel as int, y_vel as int),
            c.health == HEALTH_FULL && c.health_capacity == HEALTH_FULL,
            c.energy == HEALTH_FULL && c.energy_capacity == HEALTH_FULL,
            c.health_restore_rate == 200_000,
            c.health_decay_rate == 100_000,
            c.energy_decay_rate == 10_000,
            c.light_exposure == 0,
            c.reproduction_progress == 0,
            c.membrane_color.is_mutation_of(membrane_color),
            c.inside_color.is_mutation_of(inside_color),
            c.nucleus_color.is_mutation_of(nucleus_color),
            reproductive_cost - COST_MUTATION <= c.reproduction_cost < reproductive_cost + COST_MUTATION,
    {
        let membrane_color = mutate_hue(membrane_color, draw_in(-COLOR_MUTATE_MAGNITUDE, COLOR_MUTATE_MAGNITUDE - 1));
        let inside_color = mutate_hue(inside_color, draw_in(-COLOR_MUTATE_MAGNITUDE, COLOR_MUTATE_MAGNITUDE - 1));
        let nucleus_color = mutate_hue(nucleus_color, draw_in(-COLOR_MUTATE_MAGNITUDE, COLOR_MUTATE_MAGNITUDE - 1));
        // A draw from the mutation window, conditioned on staying viable.
        let lo = if reproductive_cost - COST_MUTATION < MIN_REPRODUCTION_COST {
            MIN_REPRODUCTION_COST
        } else {
            reproductive_cost - COST_MUTATION
        };
        let hi = if reproductive_cost + COST_MUTATION - 1 > MAX_REPRODUCTION_COST {
            MAX_REPRODUCTION_COST
        } else {
            reproductive_cost + COST_MUTATION - 1
        };
        let reproduction_cost = draw_in(lo, hi);
        Cell {
            id,
            parent_id,
            creation_step,
            age: 0,
            alive: true,
            reproducing: false,
            reproduce_now: false,
            last_reproduction_age: 0,
            x_pos,
            y_pos,
            x_vel,
            y_vel,
            speed: speed_of(x_vel, y_vel),
            mass,
            radius: radius_for_mass(mass),
            health: HEALTH_FULL,
            health_capacity: HEALTH_FULL,
            health_restore_rate: 200_000,
            health_decay_rate: 100_000,
            energy: HEALTH_FULL,
            energy_capacity: HEALTH_FULL,
            energy_decay_rate: 10_000,
            light_exposure: 0,
            light_consumption_efficiency: mass / EFFICIENCY_DIVISOR,
            reproduction_cost,
            reproduction_progress: 0,
            membrane_color,
            inside_color,
            nucleus_color,
        }
    }
}

/// `c` with its hue turned by `shift`, taken modulo one turn.
pub fn mutate_hue(c: Color, shift: i64) -> (r: Color)
    requires
        c.wf(),
        -COLOR_MUTATE_MAGNITUDE <= shift < COLOR_MUTATE_MAGNITUDE,
    ensures
        r.wf(),
        r.hue == wrap_hue(c.hue + shift),
        r.is_mutation_of(c),
{
    let h = c.hue + shift;
    let hue = if h < 0 { h + SCALE } else if h >= SCALE { h - SCALE } else { h };
    assert(hue == wrap_hue(c.hue + shift));
    assert(wrap_hue(hue - c.hue) == wrap_hue(shift as int));
    Color { hue, saturation: c.saturation, value: c.value, alpha: c.alpha }
}

pub proof fn lemma_radius_arg_bounds(mass: int)
    requires
        MIN_MASS <= mass <= MAX_MASS,
    ensures
        1 <= radius_arg(mass) <= 400_000_000_000_000_000,
{
    let p = mass * 113_000_000;
    assert(p >= 113_000_000_000_000) by (nonlinear_arith) requires mass >= 1_000_000, p == mass * 113_000_000;
    assert(p <= 113_000_000_000_000_000_000) by (nonlinear_arith)
        requires mass <= 1_000_000_000_000, p == mass * 113_000_000;
    assert(mass * (SCALE as int) * (PI_DEN as int) == p) by (nonlinear_arith) requires p == mass * 113_000_000;
}

pub proof fn lemma_radius_bounds(radius: int, mass: int)
    requires
        MIN_MASS <= mass <= MAX_MASS,
        radius_matches(radius, mass),
    ensures
        0 < radius < 720_000_000,
{
    lemma_radius_arg_bounds(mass);
    if radius >= 720_000_000 {
        assert(radius * radius >= 720_000_000 * 720_000_000) by (nonlinear_arith)
            requires radius >= 720_000_000;
    }
}

/// Radius of a disk of area `mass`.
pub fn radius_for_mass(mass: i64) -> (r: i64)
    requires
        MIN_MASS <= mass <= MAX_MASS,
    ensures
        radius_matches(r as int, mass as int),
        r as int == floor_sqrt(radius_arg(mass as int)),
        0 < r < 720_000_000,
{
    let scaled: u128 = (mass as u128) * 1_000_000;
    let arg: u128 = scaled * 113 / 355;
    assert(arg == radius_arg(mass as int));
    proof {
        lemma_radius_arg_bounds(mass as int);
    }
    let r = isqrt(arg as u64);
    proof {
        lemma_radius_bounds(r as int, mass as int);
    }
    r as i64
}

/// Floor of the Euclidean norm of a velocity.
pub fn speed_of(vx: i64, vy: i64) -> (s: i64)
    requires
        -MAX_VEL <= vx <= MAX_VEL,
        -MAX_VEL <= vy <= MAX_VEL,
    ensures
        speed_matches(s as int, vx as int, vy as int),
        s as int == floor_sqrt(vx * vx + vy * vy),
        0 <= s <= 2 * MAX_VEL,
{
    assert(0 <= vx * vx <= 1_000_000_000_000_000_000) by (nonlinear_arith)
        requires -1_000_000_000 <= vx <= 1_000_000_000;
    assert(0 <= vy * vy <= 1_000_000_000_000_000_000) by (nonlinear_arith)
        requires -1_000_000_000 <= vy <= 1_000_000_000;
    let sq: i128 = (vx as i128) * (vx as i128) + (vy as i128) * (vy as i128);
    let s = isqrt(sq as u64);
    assert(s <= 2_000_000_000) by (nonlinear_arith)
        requires s * s <= 2_000_000_000_000_000_000, s >= 0;
    s as i64
}

} // verus!
