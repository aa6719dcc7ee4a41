use vstd::prelude::*;
use crate::cell::{speed_of, Cell};
use crate::constants::{
    BROWNIAN_MOTION, FRICTION_COEFF, HEIGHT_UNITS, MAX_STEP, MAX_VEL, SCALE, WIDTH_UNITS,
};
use crate::field::{gradient_at, gradient_wf, sample_gradient};
use crate::fixed::{clamp, div_trunc, div_trunc_i128, floor_sqrt, lemma_div_trunc_bound};
use crate::random::draw_in;

verus! {

pub open spec fn abs(v: int) -> int {
    if v < 0 { -v } else { v }
}

/// A velocity component pushed by a gradient component, held within the speed bound.
pub open spec fn pushed(v: int, g: int) -> int {
    clamp(v + g, -MAX_VEL as int, MAX_VEL as int)
}

/// A velocity component after friction and a jitter of `j`, held within the speed bound.
pub open spec fn drifted(v: int, j: int) -> int {
    clamp(
        div_trunc(v * (SCALE - FRICTION_COEFF), SCALE as int) + j,
        -MAX_VEL as int,
        MAX_VEL as int,
    )
}

/// Position and velocity along one axis after reflection off the walls at 0 and
/// `extent`, for a disk of radius `r`.
pub open spec fn reflect_axis(pos: int, vel: int, r: int, extent: int) -> (int, int) {
    if pos + r >= extent {
        (extent - r, -abs(vel))
    } else if pos - r <= 0 {
        (r, abs(vel))
    } else {
        (pos, vel)
    }
}

/// The cell after its age is brought to step `loop_step`.
pub open spec fn after_age(c: Cell, loop_step: int) -> Cell {
    Cell { age: (loop_step - c.creation_step) as i64, ..c }
}

/// The cell after the gradient under it is added to its velocity.
pub open spec fn after_velocity(c: Cell, g: Seq<Vec<(i64, i64)>>) -> Cell {
    let gv = gradient_at(g, c.x_pos as int, c.y_pos as int);
    let vx = pushed(c.x_vel as int, gv.0 as int);
    let vy = pushed(c.y_vel as int, gv.1 as int);
    Cell { x_vel: vx as i64, y_vel: vy as i64, speed: floor_sqrt(vx * vx + vy * vy) as i64, ..c }
}

/// The cell after friction, the jitter `(jx, jy)` and one tick of travel.
pub open spec fn after_position(c: Cell, jx: int, jy: int) -> Cell {
    let vx = drifted(c.x_vel as int, jx);
    let vy = drifted(c.y_vel as int, jy);
    Cell {
        x_vel: vx as i64,
        y_vel: vy as i64,
        speed: floor_sqrt(vx * vx + vy * vy) as i64,
        x_pos: (c.x_pos + vx) as i64,
        y_pos: (c.y_pos + vy) as i64,
        ..c
    }
}

/// The cell after reflection off the walls of the domain.
pub open spec fn after_boundary(c: Cell) -> Cell {
    let (x, vx) = reflect_axis(c.x_pos as int, c.x_vel as int, c.radius as int, WIDTH_UNITS as int);
    let (y, vy) = reflect_axis(c.y_pos as int, c.y_vel as int, c.radius as int, HEIGHT_UNITS as int);
    Cell { x_pos: x as i64, x_vel: vx as i64, y_pos: y as i64, y_vel: vy as i64, ..c }
}

/// The jitter bound holds of a draw.
pub open spec fn jitter_ok(j: int) -> bool {
    -BROWNIAN_MOTION <= j < BROWNIAN_MOTION
}

fn drift_component(v: i64, j: i64) -> (r: i64)
    requires
        -MAX_VEL <= v <= MAX_VEL,
        jitter_ok(j as int),
    ensures
        r as int == drifted(v as int, j as int),
{
    let slowed = div_trunc_i128((v as i128) * ((SCALE - FRICTION_COEFF) as i128), SCALE as i128);
    proof {
        lemma_div_trunc_bound(v * (SCALE - FRICTION_COEFF), SCALE as int, MAX_VEL * SCALE);
    }
    let w = slowed as i64 + j;
    if w < -MAX_VEL { -MAX_VEL } else if w > MAX_VEL { MAX_VEL } else { w }
}

impl Cell {
    /// Sets the age to the number of steps since creation.
    pub fn update_age(&mut self, loop_step: i64)
        requires
            old(self).valid(),
            0 <= loop_step <= MAX_STEP,
        ensures
            *final(self) == after_age(*old(self), loop_step as int),
            final(self).valid(),
    {
        self.age = loop_step - self.creation_step;
    }

    /// Adds the gradient under the cell to its velocity and refreshes its speed. Each
    /// component is held within `MAX_VEL` (1000 pixels per tick), a bound of the
    /// fixed-point model that the field's forces never reach.
    pub fn update_velocity(&mut self, gradient: &Vec<Vec<(i64, i64)>>)
        requires
            old(self).wf(),
            gradient_wf(gradient@),
        ensures
            *final(self) == after_velocity(*old(self), gradient@),
            final(self).wf(),
    {
        let (dx, dy) = sample_gradient(gradient, self.x_pos, self.y_pos);
        let vx = self.x_vel + dx;
        let vy = self.y_vel + dy;
        self.x_vel = if vx < -MAX_VEL { -MAX_VEL } else if vx > MAX_VEL { MAX_VEL } else { vx };
        self.y_vel = if vy < -MAX_VEL { -MAX_VEL } else if vy > MAX_VEL { MAX_VEL } else { vy };
        self.speed = speed_of(self.x_vel, self.y_vel);
    }

    /// Applies friction and the jitter `(jitter_x, jitter_y)` to the velocity, refreshes
    /// the speed, then moves the cell by its velocity. Each velocity component is held
    /// within `MAX_VEL`.
    pub fn update_position_with(&mut self, jitter_x: i64, jitter_y: i64)
        requires
            old(self).wf(),
            jitter_ok(jitter_x as int),
            jitter_ok(jitter_y as int),
        ensures
            *final(self) == after_position(*old(self), jitter_x as int, jitter_y as int),
            final(self).valid(),
    {
        self.x_vel = drift_component(self.x_vel, jitter_x);
        self.y_vel = drift_component(self.y_vel, jitter_y);
        self.speed = speed_of(self.x_vel, self.y_vel);
        self.x_pos = self.x_pos + self.x_vel;
        self.y_pos = self.y_pos + self.y_vel;
    }

    /// Applies friction and a fresh random jitter to the velocity, then moves the cell.
    pub fn update_position(&mut self)
        requires
            old(self).wf(),
        ensures
            exists|jx: int, jy: int|
                jitter_ok(jx) && jitter_ok(jy) && *final(self) == #[trigger] after_position(
                    *old(self),
                    jx,
                    jy,
                ),
            final(self).valid(),
    {
        let jitter_x = draw_in(-BROWNIAN_MOTION, BROWNIAN_MOTION - 1);
        let jitter_y = draw_in(-BROWNIAN_MOTION, BROWNIAN_MOTION - 1);
        self.update_position_with(jitter_x, jitter_y);
    }

    /// Reflects the cell off each wall that its disk reaches: the disk is put back to
    /// touch the wall and the velocity across that wall turned inward.
    pub fn handle_boundary_collision(&mut self)
        requires
            old(self).valid(),
        ensures
            *final(self) == after_boundary(*old(self)),
            final(self).wf(),
            final(self).radius <= final(self).x_pos <= WIDTH_UNITS - final(self).radius,
            final(self).radius <= final(self).y_pos <= HEIGHT_UNITS - final(self).radius,
    {
        proof {
            crate::cell::lemma_radius_bounds(self.radius as int, self.mass as int);
        }
        // Right boundary
        if self.x_pos + self.radius >= WIDTH_UNITS {
            self.x_pos = WIDTH_UNITS - self.radius;
            self.x_vel = if self.x_vel < 0 { self.x_vel } else { -self.x_vel };
        }
        // Left boundary
        if self.x_pos - self.radius <= 0 {
            self.x_pos = self.radius;
            self.x_vel = if self.x_vel < 0 { -self.x_vel } else { self.x_vel };
        }
        // Bottom boundary
        if self.y_pos + self.radius >= HEIGHT_UNITS {
            self.y_pos = HEIGHT_UNITS - self.radius;
            self.y_vel = if self.y_vel < 0 { self.y_vel } else { -self.y_vel };
        }
        // Top boundary
        if self.y_pos - self.radius <= 0 {
            self.y_pos = self.radius;
            self.y_vel = if self.y_vel < 0 { -self.y_vel } else { self.y_vel };
        }
    }
}

/// After boundary handling the disk lies inside the domain, and on each axis where it
/// reached a wall its velocity points away from that wall.
pub proof fn lemma_reflection(c: Cell)
    requires
        c.valid(),
    ensures
        after_boundary(c).radius <= after_boundary(c).x_pos <= WIDTH_UNITS - after_boundary(c).radius,
        after_boundary(c).radius <= after_boundary(c).y_pos <= HEIGHT_UNITS - after_boundary(c).radius,
        c.x_pos + c.radius >= WIDTH_UNITS ==> after_boundary(c).x_vel == -abs(c.x_vel as int),
        c.x_pos + c.radius < WIDTH_UNITS && c.x_pos - c.radius <= 0 ==> after_boundary(c).x_vel == abs(c.x_vel as int),
        c.y_pos + c.radius >= HEIGHT_UNITS ==> after_boundary(c).y_vel == -abs(c.y_vel as int),
        c.y_pos + c.radius < HEIGHT_UNITS && c.y_pos - c.radius <= 0 ==> after_boundary(c).y_vel == abs(c.y_vel as int),
{
    crate::cell::lemma_radius_bounds(c.radius as int, c.mass as int);
}

} // verus!
