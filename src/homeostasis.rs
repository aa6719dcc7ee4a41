use vstd::prelude::*;
use crate::cell::{radius_for_mass, efficiency_of, radius_arg, Cell};
use crate::constants::{
    EFFICIENCY_DIVISOR, MAX_MASS, REPRODUCTION_RATE, REPRODUCTION_THRESHOLD, SCALE,
    VARIATION_MAX, VARIATION_MIN,
};
use crate::field::{light_at, sample_light, terrain_wf};
use crate::fixed::{clamp, div_trunc_i128, floor_sqrt, fx_mul, lemma_div_trunc_bound, min};
use crate::random::draw_in;

verus! {

/// The cell after it reads the light field under it.
pub open spec fn after_light(c: Cell, t: Seq<Vec<i64>>) -> Cell {
    Cell { light_exposure: light_at(t, c.x_pos as int, c.y_pos as int), ..c }
}

/// Energy spent this tick on restoring health: the restoration rate of the
/// capacity, but no more than the health missing.
pub open spec fn restoration_cost(c: Cell) -> int {
    min(
        fx_mul(c.health_restore_rate as int, c.health_capacity as int),
        c.health_capacity - c.health,
    )
}

/// Energy after one balance: metabolism and restoration are paid, light income is
/// earned, and the result is clamped to the capacity.
pub open spec fn energy_balance(c: Cell) -> int {
    clamp(
        c.energy - fx_mul(c.energy_decay_rate as int, c.mass as int) - restoration_cost(c)
            + fx_mul(c.light_exposure as int, c.light_consumption_efficiency as int) * 100,
        0,
        c.energy_capacity as int,
    )
}

/// The cell after its energy balance.
pub open spec fn after_energy(c: Cell) -> Cell {
    Cell { energy: energy_balance(c) as i64, ..c }
}

/// Health after the decay of this tick, which never takes it below zero.
pub open spec fn decayed_health(c: Cell) -> int {
    c.health - min(fx_mul(c.health_decay_rate as int, c.health_capacity as int), c.health as int)
}

/// Health after one balance: decay, then a restoration bounded by the restoration
/// rate, by the health missing and by the energy available.
pub open spec fn health_balance(c: Cell) -> int {
    let h = decayed_health(c);
    h + min(
        min(fx_mul(c.health_restore_rate as int, c.health_capacity as int), c.health_capacity - h),
        c.energy as int,
    )
}

/// The cell after its health balance; a cell whose health reaches zero dies.
pub open spec fn after_health(c: Cell) -> Cell {
    let h = health_balance(c);
    Cell { health: h as i64, alive: c.alive && h > 0, ..c }
}

/// Share of the way to a birth gained this tick, for a random multiplier `variation`.
pub open spec fn progress_step(variation: int) -> int {
    fx_mul(REPRODUCTION_RATE as int, variation)
}

/// Mass, and energy, that this tick's progress costs.
pub open spec fn progress_cost(c: Cell, variation: int) -> int {
    fx_mul(c.reproduction_cost as int, progress_step(variation))
}

/// The cell has enough energy to work toward a birth.
pub open spec fn can_reproduce(c: Cell) -> bool {
    c.energy >= fx_mul(c.energy_capacity as int, REPRODUCTION_THRESHOLD as int)
}

/// The cell after one tick of reproduction, for a random multiplier `variation`. A
/// cell with enough energy pays energy into mass and gains progress; when the progress
/// reaches one whole, the birth is flagged.
pub open spec fn after_reproduction(c: Cell, variation: int) -> Cell {
    if can_reproduce(c) {
        let cost = progress_cost(c, variation);
        let mass = min(c.mass + cost, MAX_MASS as int);
        let progress = c.reproduction_progress + progress_step(variation);
        let grown = Cell {
            reproducing: true,
            energy: clamp(c.energy - cost, 0, c.energy_capacity as int) as i64,
            mass: mass as i64,
            radius: floor_sqrt(radius_arg(mass)) as i64,
            light_consumption_efficiency: efficiency_of(mass) as i64,
            reproduction_progress: progress as i64,
            ..c
        };
        if progress >= SCALE {
            Cell {
                reproduction_progress: 0,
                reproducing: false,
                reproduce_now: true,
                last_reproduction_age: c.age,
                ..grown
            }
        } else {
            grown
        }
    } else {
        Cell { reproducing: can_reproduce(c), ..c }
    }
}

fn mul_scaled(a: i64, b: i64) -> (r: i64)
    requires
        -2_000_000_000_000 <= a <= 2_000_000_000_000,
        -2_000_000_000_000 <= b <= 2_000_000_000_000,
    ensures
        r as int == fx_mul(a as int, b as int),
        -4_000_000_000_000_000_000 <= r <= 4_000_000_000_000_000_000,
{
    assert(-4_000_000_000_000_000_000_000_000 <= a * b <= 4_000_000_000_000_000_000_000_000)
        by (nonlinear_arith)
        requires
            -2_000_000_000_000 <= a <= 2_000_000_000_000,
            -2_000_000_000_000 <= b <= 2_000_000_000_000;
    let p = (a as i128) * (b as i128);
    let r = div_trunc_i128(p, SCALE as i128);
    proof {
        lemma_div_trunc_bound(p as int, SCALE as int, 4_000_000_000_000_000_000_000_000);
        assert(-4_000_000_000_000_000_000 <= r <= 4_000_000_000_000_000_000) by {
            if p >= 0 {
                assert(p / 1_000_000 <= 4_000_000_000_000_000_000) by (nonlinear_arith)
                    requires 0 <= p <= 4_000_000_000_000_000_000_000_000;
            } else {
                assert((-p) / 1_000_000 <= 4_000_000_000_000_000_000) by (nonlinear_arith)
                    requires 0 <= -p <= 4_000_000_000_000_000_000_000_000;
            }
        }
    }
    r as i64
}

impl Cell {
    /// Reads the light field under the cell into its light exposure.
    pub fn update_light_exposure_sense(&mut self, terrain: &Vec<Vec<i64>>)
        requires
            old(self).wf(),
            terrain_wf(terrain@),
        ensures
            *final(self) == after_light(*old(self), terrain@),
            final(self).wf(),
    {
        self.light_exposure = sample_light(terrain, self.x_pos, self.y_pos);
    }

    /// The energy balance of one tick; energy stays within `[0, energy_capacity]`.
    pub fn update_energy(&mut self)
        requires
            old(self).valid(),
        ensures
            *final(self) == after_energy(*old(self)),
            final(self).valid(),
            0 <= final(self).energy <= final(self).energy_capacity,
    {
        let metabolism = mul_scaled(self.energy_decay_rate, self.mass);
        let restore = mul_scaled(self.health_restore_rate, self.health_capacity);
        let missing = self.health_capacity - self.health;
        let restoration = if restore <= missing { restore } else { missing };
        let income = mul_scaled(self.light_exposure, self.light_consumption_efficiency);
        let e: i128 = self.energy as i128 - metabolism as i128 - restoration as i128
            + (income as i128) * 100;
        self.energy = if e < 0 {
            0
        } else if e > self.energy_capacity as i128 {
            self.energy_capacity
        } else {
            e as i64
        };
    }

    /// The health balance of one tick; health stays within `[0, health_capacity]`, and
    /// a cell whose health reaches zero is dead for good.
    pub fn update_health(&mut self)
        requires
            old(self).valid(),
        ensures
            *final(self) == after_health(*old(self)),
            final(self).valid(),
            0 <= final(self).health <= final(self).health_capacity,
            final(self).alive <==> old(self).alive && final(self).health > 0,
    {
        let decay = mul_scaled(self.health_decay_rate, self.health_capacity);
        self.health = self.health - if decay <= self.health { decay } else { self.health };
        let restore = mul_scaled(self.health_restore_rate, self.health_capacity);
        let missing = self.health_capacity - self.health;
        let room = if restore <= missing { restore } else { missing };
        self.health = self.health + if room <= self.energy { room } else { self.energy };
        if self.health <= 0 {
            self.health = 0;
            self.alive = false;
        }
    }

    /// One tick of reproduction for the random multiplier `variation`. The mass stops
    /// at `MAX_MASS`, a bound of the fixed-point model.
    pub fn update_and_check_reproduction_with(&mut self, variation: i64)
        requires
            old(self).valid(),
            VARIATION_MIN <= variation < VARIATION_MAX,
        ensures
            *final(self) == after_reproduction(*old(self), variation as int),
            final(self).valid(),
    {
        let ready = self.energy >= mul_scaled(self.energy_capacity, REPRODUCTION_THRESHOLD);
        self.reproducing = ready;
        if ready {
            let step = mul_scaled(REPRODUCTION_RATE, variation);
            assert(10_000 <= step <= 30_000) by (nonlinear_arith)
                requires step == (20_000 * variation) / 1_000_000, 500_000 <= variation <= 1_500_000;
            let cost = mul_scaled(self.reproduction_cost, step);
            assert(36 * step <= cost <= 3_000_000_000 * 1000) by (nonlinear_arith)
                requires
                    cost == (self.reproduction_cost * step) / 1_000_000,
                    36_000_000 <= self.reproduction_cost <= 100_000_000_000,
                    10_000 <= step <= 30_000;
            let e = self.energy - cost;
            self.energy = if e < 0 { 0 } else { e };
            let m = self.mass + cost;
            self.mass = if m > MAX_MASS { MAX_MASS } else { m };
            self.radius = radius_for_mass(self.mass);
            self.light_consumption_efficiency = self.mass / EFFICIENCY_DIVISOR;
            self.reproduction_progress = self.reproduction_progress + step;
            if self.reproduction_progress >= SCALE {
                self.reproduction_progress = 0;
                self.reproducing = false;
                self.reproduce_now = true;
                self.last_reproduction_age = self.age;
            }
        }
    }

    /// One tick of reproduction with a fresh random multiplier in `[0.5, 1.5)`.
    pub fn update_and_check_reproduction(&mut self)
        requires
            old(self).valid(),
        ensures
            exists|v: int|
                VARIATION_MIN <= v < VARIATION_MAX && *final(self) == #[trigger] after_reproduction(
                    *old(self),
                    v,
                ),
            final(self).valid(),
    {
        let variation = draw_in(VARIATION_MIN, VARIATION_MAX - 1);
        self.update_and_check_reproduction_with(variation);
    }
}

} // verus!
