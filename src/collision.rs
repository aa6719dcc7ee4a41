use vstd::prelude::*;
use crate::cell::{lemma_radius_bounds, Cell};
use crate::motion::abs;
use crate::constants::{
    COINCIDENT_DIST_SQ, COLLIDE_SPRING, GRACE_AGE, LENS_STRIPS, MAX_LIGHT, MAX_VEL, PI_DEN, PI_NUM,
    POST_REPRODUCTION_COLLIDE_SPRING,
};
use crate::fixed::{clamp, div_trunc, div_trunc_i128, floor_sqrt, isqrt, lemma_div_trunc_bound, min};

verus! {

/// Squared distance between the centres, with a small positive value in place of
/// zero for coincident cells.
pub open spec fn dist_sq(c1: Cell, c2: Cell) -> int {
    let dx = c1.x_pos - c2.x_pos;
    let dy = c1.y_pos - c2.y_pos;
    if dx * dx + dy * dy == 0 { COINCIDENT_DIST_SQ as int } else { dx * dx + dy * dy }
}

/// The disks of the two cells overlap.
pub open spec fn overlapping(c1: Cell, c2: Cell) -> bool {
    dist_sq(c1, c2) < (c1.radius + c2.radius) * (c1.radius + c2.radius)
}

/// Edge `k` of the strips that cut the lens of two partly overlapping disks across
/// their centre line. Disk 1 is centred at 0 and disk 2 at `d` on that line; the lens
/// spans `[d - r2, r1]`, cut into `LENS_STRIPS` strips.
pub open spec fn strip_edge(r1: int, r2: int, d: int, k: int) -> int {
    d - r2 + k * (r1 + r2 - d) / (LENS_STRIPS as int)
}

/// Half the length of the chord common to both disks at abscissa `x`.
pub open spec fn common_half_chord(r1: int, r2: int, d: int, x: int) -> int {
    min(floor_sqrt(r1 * r1 - x * x), floor_sqrt(r2 * r2 - (d - x) * (d - x)))
}

/// Area of the first `k` strips of the lens, each as wide as the strip and as tall as
/// the common chord at its middle.
pub open spec fn lens_strips(r1: int, r2: int, d: int, k: int) -> int
    decreases k,
{
    if k <= 0 {
        0
    } else {
        let a = strip_edge(r1, r2, d, k - 1);
        let b = strip_edge(r1, r2, d, k);
        lens_strips(r1, r2, d, k - 1) + (b - a) * 2 * common_half_chord(r1, r2, d, a + (b - a) / 2)
    }
}

/// Area of the lens where two disks of radii `r1` and `r2`, `d` apart, partly overlap:
/// the integral of the common chord along the centre line, by the midpoint rule.
pub open spec fn lens_area(r1: int, r2: int, d: int) -> int {
    lens_strips(r1, r2, d, LENS_STRIPS as int)
}

/// The share of the disk of radius `r` (one of `r1`, `r2`) that the other disk leaves
/// uncovered, as a numerator and a denominator: all of it when the radii are equal;
/// the ring outside the smaller disk when that one is engulfed; otherwise its area less
/// the lens, over its area, with pi as 355 / 113.
pub open spec fn uncovered(r: int, r1: int, r2: int, d: int) -> (int, int) {
    let small = if r1 <= r2 { r1 } else { r2 };
    let big = if r1 <= r2 { r2 } else { r1 };
    if r1 == r2 {
        (1, 1)
    } else if d <= big - small {
        (r * r - small * small, r * r)
    } else {
        let den = PI_NUM * r * r;
        (clamp(den - PI_DEN * lens_area(r1, r2, d), 0, den), den)
    }
}

/// A light exposure reduced by the share of the disk of radius `r` that is covered.
pub open spec fn shaded(light: int, r: int, r1: int, r2: int, d: int) -> int {
    let (num, den) = uncovered(r, r1, r2, d);
    div_trunc(light * num, den)
}

/// A parent and its child, both within the grace age of their last reproduction.
pub open spec fn in_grace(c1: Cell, c2: Cell) -> bool {
    &&& c1.age - c1.last_reproduction_age <= GRACE_AGE
    &&& c2.age - c2.last_reproduction_age <= GRACE_AGE
    &&& (c1.id == c2.parent_id || c1.parent_id == c2.id)
}

/// Magnitude of the spring constant of the pair.
pub open spec fn spring(c1: Cell, c2: Cell) -> int {
    if in_grace(c1, c2) { -POST_REPRODUCTION_COLLIDE_SPRING } else { -COLLIDE_SPRING }
}

/// Velocity change along one axis of a cell of mass `mass`, pushed away by the
/// spring force over the displacement `d` of the axis.
pub open spec fn push(overlap: int, k: int, d: int, mass: int, dist: int) -> int {
    div_trunc(overlap * k * d, mass * dist)
}

/// The pair after their collision: velocities pushed apart in inverse proportion to
/// mass, light exposures reduced by the share of each disk that is covered. Cells
/// that do not overlap are left as they are.
pub open spec fn collide(c1: Cell, c2: Cell) -> (Cell, Cell) {
    if overlapping(c1, c2) {
        let dx = c1.x_pos - c2.x_pos;
        let dy = c1.y_pos - c2.y_pos;
        let dist = floor_sqrt(dist_sq(c1, c2));
        let overlap = c1.radius + c2.radius - dist;

        let k = spring(c1, c2);
        (
            Cell {
                light_exposure: shaded(c1.light_exposure as int, c1.radius as int, c1.radius as int, c2.radius as int, dist) as i64,
                x_vel: clamp(c1.x_vel + push(overlap, k, dx, c1.mass as int, dist), -MAX_VEL as int, MAX_VEL as int) as i64,
                y_vel: clamp(c1.y_vel + push(overlap, k, dy, c1.mass as int, dist), -MAX_VEL as int, MAX_VEL as int) as i64,
                ..c1
            },
            Cell {
                light_exposure: shaded(c2.light_exposure as int, c2.radius as int, c1.radius as int, c2.radius as int, dist) as i64,
                x_vel: clamp(c2.x_vel - push(overlap, k, dx, c2.mass as int, dist), -MAX_VEL as int, MAX_VEL as int) as i64,
                y_vel: clamp(c2.y_vel - push(overlap, k, dy, c2.mass as int, dist), -MAX_VEL as int, MAX_VEL as int) as i64,
                ..c2
            },
        )
    } else {
        (c1, c2)
    }
}

proof fn lemma_share_bound(light: int, f: int, d: int)
    requires
        0 <= f <= d,
        0 < d,
        -MAX_LIGHT <= light <= MAX_LIGHT,
    ensures
        -MAX_LIGHT <= div_trunc(light * f, d) <= MAX_LIGHT,
        light >= 0 ==> 0 <= div_trunc(light * f, d) <= light,
{
    if light >= 0 {
        assert(light * f <= light * d) by (nonlinear_arith) requires 0 <= light, 0 <= f <= d;
        assert(0 <= light * f) by (nonlinear_arith) requires 0 <= light, 0 <= f;
        assert((light * f) / d <= (light * d) / d) by (nonlinear_arith)
            requires light * f <= light * d, 0 < d, 0 <= light * f;
        assert((light * d) / d == light) by (nonlinear_arith) requires 0 < d;
        assert((light * f) / d >= 0) by (nonlinear_arith) requires 0 <= light * f, 0 < d;
    } else {
        assert((-light) * f <= (-light) * d) by (nonlinear_arith) requires 0 <= -light, 0 <= f <= d;
        assert(0 <= (-light) * f) by (nonlinear_arith) requires 0 <= -light, 0 <= f;
        assert(((-light) * f) / d <= ((-light) * d) / d) by (nonlinear_arith)
            requires (-light) * f <= (-light) * d, 0 < d, 0 <= (-light) * f;
        assert(((-light) * d) / d == -light) by (nonlinear_arith) requires 0 < d;
        assert(((-light) * f) / d >= 0) by (nonlinear_arith) requires 0 <= (-light) * f, 0 < d;
        assert(-(light * f) == (-light) * f) by (nonlinear_arith);
    }
}

/// The strip edges rise from the start of the lens to its end.
proof fn lemma_strip_edges(len: int, k: int)
    requires
        len > 0,
        0 <= k < LENS_STRIPS,
    ensures
        0 <= k * len / (LENS_STRIPS as int) <= (k + 1) * len / (LENS_STRIPS as int) <= len,
{
    assert(0 <= k * len <= (k + 1) * len <= 64 * len) by (nonlinear_arith) requires len > 0, 0 <= k < 64;
    assert(k * len / 64 <= (k + 1) * len / 64) by (nonlinear_arith) requires 0 <= k * len <= (k + 1) * len;
    assert((k + 1) * len / 64 <= (64 * len) / 64) by (nonlinear_arith) requires 0 <= (k + 1) * len <= 64 * len;
    assert((64 * len) / 64 == len) by (nonlinear_arith);
    assert(k * len / 64 >= 0) by (nonlinear_arith) requires k * len >= 0;
}

fn floor_root(n: i128) -> (r: i128)
    requires
        0 <= n <= 720_000_000 * 720_000_000,
    ensures
        r == floor_sqrt(n as int),
        0 <= r <= 720_000_000,
{
    let r = isqrt(n as u64);
    assert(r <= 720_000_000) by (nonlinear_arith)
        requires r * r <= n, n <= 720_000_000 * 720_000_000, 0 <= r;
    r as i128
}

/// The lens area of two partly overlapping disks.
fn lens_area_of(r1: i64, r2: i64, d: i128) -> (a: i128)
    requires
        0 < r1 < 720_000_000,
        0 < r2 < 720_000_000,
        r1 - r2 < d,
        r2 - r1 < d,
        d < r1 + r2,
    ensures
        a == lens_area(r1 as int, r2 as int, d as int),
        0 <= a <= 64 * 1_440_000_000 * 1_440_000_000,
{
    let r1: i128 = r1 as i128;
    let r2: i128 = r2 as i128;
    let len: i128 = r1 + r2 - d;
    let mut acc: i128 = 0;
    let mut k: i128 = 0;
    while k < 64
        invariant
            0 < r1 < 720_000_000,
            0 < r2 < 720_000_000,
            r1 - r2 < d < r1 + r2,
            r2 - r1 < d,
            len == r1 + r2 - d,
            0 <= k <= 64,
            acc == lens_strips(r1 as int, r2 as int, d as int, k as int),
            0 <= acc <= k * 1_440_000_000 * 1_440_000_000,
        decreases 64 - k,
    {
        proof {
            lemma_strip_edges(len as int, k as int);
        }
        assert(0 <= k * len <= (k + 1) * len <= 64 * 1_440_000_000) by (nonlinear_arith)
            requires 0 <= k < 64, 0 < len < 1_440_000_000;
        let a: i128 = d - r2 + k * len / LENS_STRIPS as i128;
        let b: i128 = d - r2 + (k + 1) * len / LENS_STRIPS as i128;
        assert(a == strip_edge(r1 as int, r2 as int, d as int, k as int));
        assert(b == strip_edge(r1 as int, r2 as int, d as int, k + 1));
        assert(d - r2 <= a <= b <= r1);
        let x: i128 = a + (b - a) / 2;
        assert(a <= x <= b);
        assert(-r1 < x <= r1 && -r2 < d - x <= r2);
        assert(0 <= r1 * r1 - x * x <= 720_000_000 * 720_000_000) by (nonlinear_arith)
            requires -r1 < x <= r1, 0 < r1 < 720_000_000;
        let y: i128 = d - x;
        assert(0 <= r2 * r2 - y * y <= 720_000_000 * 720_000_000) by (nonlinear_arith)
            requires -r2 < y <= r2, 0 < r2 < 720_000_000;
        assert(x * x <= r1 * r1 && r1 * r1 <= 720_000_000 * 720_000_000) by (nonlinear_arith)
            requires -r1 < x <= r1, 0 < r1 < 720_000_000;
        assert(y * y <= r2 * r2 && r2 * r2 <= 720_000_000 * 720_000_000) by (nonlinear_arith)
            requires -r2 < y <= r2, 0 < r2 < 720_000_000;
        let h1 = floor_root(r1 * r1 - x * x);
        let h2 = floor_root(r2 * r2 - y * y);
        let h: i128 = if h1 <= h2 { h1 } else { h2 };
        assert(0 <= (b - a) * 2 * h <= 1_440_000_000 * 1_440_000_000) by (nonlinear_arith)
            requires 0 <= b - a <= len, len < 1_440_000_000, 0 <= h <= 720_000_000;
        acc = acc + (b - a) * 2 * h;
        k = k + 1;
    }
    acc
}

/// The uncovered share of the disk of radius `r`, one of `r1` and `r2`.
fn uncovered_share(r: i64, r1: i64, r2: i64, d: i128) -> (s: (i128, i128))
    requires
        0 < r1 < 720_000_000,
        0 < r2 < 720_000_000,
        r == r1 || r == r2,
        1 <= d < r1 + r2,
    ensures
        (s.0 as int, s.1 as int) == uncovered(r as int, r1 as int, r2 as int, d as int),
        0 <= s.0 <= s.1,
        0 < s.1 <= 355 * 720_000_000 * 720_000_000,
{
    let small: i128 = if r1 <= r2 { r1 as i128 } else { r2 as i128 };
    let big: i128 = if r1 <= r2 { r2 as i128 } else { r1 as i128 };
    let rr: i128 = r as i128;
    assert(0 < rr * rr <= 720_000_000 * 720_000_000) by (nonlinear_arith) requires 0 < rr < 720_000_000;
    if r1 == r2 {
        (1, 1)
    } else if d <= big - small {
        assert(small * small <= rr * rr) by (nonlinear_arith) requires 0 < small <= rr;
        (rr * rr - small * small, rr * rr)
    } else {
        assert(0 < 355 * rr * rr <= 355 * 720_000_000 * 720_000_000) by (nonlinear_arith)
            requires 0 < rr < 720_000_000;
        let den: i128 = 355 * rr * rr;
        let lens = lens_area_of(r1, r2, d);
        let num: i128 = den - 113 * lens;
        let num: i128 = if num < 0 { 0 } else if num > den { den } else { num };
        (num, den)
    }
}

/// A light exposure reduced by the share of the disk of radius `r` that is covered.
fn shade(light: i64, r: i64, r1: i64, r2: i64, d: i128) -> (s: i64)
    requires
        0 < r1 < 720_000_000,
        0 < r2 < 720_000_000,
        r == r1 || r == r2,
        1 <= d < r1 + r2,
        -MAX_LIGHT <= light <= MAX_LIGHT,
    ensures
        s as int == shaded(light as int, r as int, r1 as int, r2 as int, d as int),
        -MAX_LIGHT <= s <= MAX_LIGHT,
{
    let (num, den) = uncovered_share(r, r1, r2, d);
    assert(-10_000_000 * 355 * 720_000_000 * 720_000_000 <= light * num <= 10_000_000 * 355 * 720_000_000 * 720_000_000)
        by (nonlinear_arith)
        requires 0 <= num <= den, den <= 355 * 720_000_000 * 720_000_000, -10_000_000 <= light <= 10_000_000;
    let s = div_trunc_i128((light as i128) * num, den);
    proof {
        lemma_share_bound(light as int, num as int, den as int);
    }
    s as i64
}

fn push_exec(overlap: i128, k: i128, d: i128, mass: i64, dist: i128) -> (p: i128)
    requires
        0 < overlap <= 1_440_000_000,
        0 < k <= 7_500_000,
        -2_560_000_000 <= d <= 2_560_000_000,
        1 <= mass <= 1_000_000_000_000,
        1 <= dist <= 3_000_000_000,
    ensures
        p as int == push(overlap as int, k as int, d as int, mass as int, dist as int),
        -30_000_000_000_000_000_000_000_000 <= p <= 30_000_000_000_000_000_000_000_000,
{
    assert(0 < overlap * k <= 1_440_000_000 * 7_500_000) by (nonlinear_arith)
        requires 0 < overlap <= 1_440_000_000, 0 < k <= 7_500_000;
    let ok: i128 = overlap * k;
    assert(-30_000_000_000_000_000_000_000_000 <= ok * d <= 30_000_000_000_000_000_000_000_000)
        by (nonlinear_arith)
        requires 0 < ok <= 1_440_000_000 * 7_500_000, -2_560_000_000 <= d <= 2_560_000_000;
    assert(1 <= mass * dist <= 3_000_000_000 * 1_000_000_000_000) by (nonlinear_arith)
        requires 1 <= mass <= 1_000_000_000_000, 1 <= dist <= 3_000_000_000;
    let num: i128 = ok * d;
    let den: i128 = (mass as i128) * dist;
    proof {
        lemma_div_trunc_bound(num as int, den as int, 30_000_000_000_000_000_000_000_000);
    }
    div_trunc_i128(num, den)
}

fn nudge(v: i64, delta: i128) -> (r: i64)
    requires
        -MAX_VEL <= v <= MAX_VEL,
        -30_000_000_000_000_000_000_000_000 <= delta <= 30_000_000_000_000_000_000_000_000,
    ensures
        r as int == clamp(v + delta, -MAX_VEL as int, MAX_VEL as int),
{
    let w: i128 = v as i128 + delta;
    if w < -MAX_VEL as i128 {
        -MAX_VEL
    } else if w > MAX_VEL as i128 {
        MAX_VEL
    } else {
        w as i64
    }
}

fn separation(c1: &Cell, c2: &Cell) -> (r: (i128, i128, i128))
    requires
        c1.in_domain(),
        c2.in_domain(),
    ensures
        r.0 == c1.x_pos - c2.x_pos,
        r.1 == c1.y_pos - c2.y_pos,
        r.2 == dist_sq(*c1, *c2),
        1 <= r.2 <= 2_560_000_000 * 2_560_000_000 + 1_440_000_000 * 1_440_000_000,
{
    let dx: i128 = c1.x_pos as i128 - c2.x_pos as i128;
    let dy: i128 = c1.y_pos as i128 - c2.y_pos as i128;
    assert(0 <= dx * dx <= 2_560_000_000 * 2_560_000_000) by (nonlinear_arith)
        requires -2_560_000_000 <= dx <= 2_560_000_000;
    assert(0 <= dy * dy <= 1_440_000_000 * 1_440_000_000) by (nonlinear_arith)
        requires -1_440_000_000 <= dy <= 1_440_000_000;
    let mut distance_squared: i128 = dx * dx + dy * dy;
    if distance_squared == 0 {
        distance_squared = COINCIDENT_DIST_SQ as i128;
    }
    (dx, dy, distance_squared)
}

impl Cell {
    /// Resolves the collision of `self` with `cell2`: where their disks overlap, they are
    /// pushed apart by a spring force, damped between a parent and its fresh child, and,
    /// when their radii differ, each one's light exposure is reduced by the share of its
    /// disk that the other covers. A velocity is held within 1000 pixels per tick, a
    /// bound of the fixed-point model that the field's forces never reach.
    #[verifier::rlimit(40)]
    pub fn handle_cell_collision(&mut self, cell2: &mut Cell)
        requires
            old(self).wf(),
            old(cell2).wf(),
        ensures
            (*final(self), *final(cell2)) == collide(*old(self), *old(cell2)),
            final(self).wf(),
            final(cell2).wf(),
    {
        proof {
            lemma_radius_bounds(self.radius as int, self.mass as int);
            lemma_radius_bounds(cell2.radius as int, cell2.mass as int);
        }
        let (dx, dy, distance_squared) = separation(self, cell2);
        let min_dist: i128 = self.radius as i128 + cell2.radius as i128;
        assert(min_dist * min_dist <= 1_440_000_000 * 1_440_000_000) by (nonlinear_arith)
            requires 0 < min_dist <= 1_440_000_000;
        if distance_squared < min_dist * min_dist {
            let distance: i128 = isqrt(distance_squared as u64) as i128;
            assert(distance < min_dist) by (nonlinear_arith)
                requires
                    distance * distance <= distance_squared,
                    distance_squared < min_dist * min_dist,
                    0 <= distance,
                    0 < min_dist;
            assert(distance >= 1) by (nonlinear_arith)
                requires
                    distance_squared >= 1,
                    distance_squared < (distance + 1) * (distance + 1),
                    0 <= distance;
            let overlap: i128 = min_dist - distance;
            let light1 = shade(self.light_exposure, self.radius, self.radius, cell2.radius, distance);
            let light2 = shade(cell2.light_exposure, cell2.radius, self.radius, cell2.radius, distance);
            let grace = self.age - self.last_reproduction_age <= GRACE_AGE
                && cell2.age - cell2.last_reproduction_age <= GRACE_AGE
                && (self.id == cell2.parent_id || self.parent_id == cell2.id);
            let k: i128 = if grace {
                -POST_REPRODUCTION_COLLIDE_SPRING as i128
            } else {
                -COLLIDE_SPRING as i128
            };
            let p1x = push_exec(overlap, k, dx, self.mass, distance);
            let p1y = push_exec(overlap, k, dy, self.mass, distance);
            let p2x = push_exec(overlap, k, dx, cell2.mass, distance);
            let p2y = push_exec(overlap, k, dy, cell2.mass, distance);
            self.light_exposure = light1;
            cell2.light_exposure = light2;
            self.x_vel = nudge(self.x_vel, p1x);
            self.y_vel = nudge(self.y_vel, p1y);
            cell2.x_vel = nudge(cell2.x_vel, -p2x);
            cell2.y_vel = nudge(cell2.y_vel, -p2y);
        }
    }
}

/// Two cells of equal mass, both at rest, that collide receive velocity changes of
/// equal magnitude and opposite sign on each axis.
pub proof fn lemma_collision_symmetry(c1: Cell, c2: Cell)
    requires
        c1.wf(),
        c2.wf(),
        c1.mass == c2.mass,
        c1.x_vel == 0 && c1.y_vel == 0,
        c2.x_vel == 0 && c2.y_vel == 0,
    ensures
        collide(c1, c2).0.x_vel == -collide(c1, c2).1.x_vel,
        collide(c1, c2).0.y_vel == -collide(c1, c2).1.y_vel,
{
}

/// In an overlapping pair the rounded distance is at least one unit and below the sum
/// of the radii, and the spring is positive.
proof fn lemma_overlap_geometry(c1: Cell, c2: Cell)
    requires
        c1.wf(),
        c2.wf(),
        overlapping(c1, c2),
    ensures
        1 <= floor_sqrt(dist_sq(c1, c2)) < c1.radius + c2.radius,
        (c1.radius + c2.radius - floor_sqrt(dist_sq(c1, c2))) * spring(c1, c2) > 0,
{
    lemma_radius_bounds(c1.radius as int, c1.mass as int);
    lemma_radius_bounds(c2.radius as int, c2.mass as int);
    let dx = c1.x_pos - c2.x_pos;
    let dy = c1.y_pos - c2.y_pos;
    let d2 = dist_sq(c1, c2);
    let min_dist = c1.radius + c2.radius;
    assert(dx * dx + dy * dy >= 0) by (nonlinear_arith);
    crate::fixed::lemma_floor_sqrt_exists(d2);
    let dist = floor_sqrt(d2);
    assert(dist < min_dist) by (nonlinear_arith)
        requires dist * dist <= d2, d2 < min_dist * min_dist, 0 <= dist, 0 < min_dist;
    assert(dist >= 1) by (nonlinear_arith)
        requires d2 >= 1, d2 < (dist + 1) * (dist + 1), 0 <= dist;
    let overlap = min_dist - dist;
    let k = spring(c1, c2);
    assert(overlap * k > 0) by (nonlinear_arith) requires overlap > 0, k > 0;
}

/// Two colliding cells of equal mass receive velocity changes of equal magnitude and
/// opposite sign on each axis, except where a velocity is held at the speed bound.
/// Cells level with each other gain no velocity across their common line.
pub proof fn lemma_collision_symmetry_general(c1: Cell, c2: Cell)
    requires
        c1.wf(),
        c2.wf(),
        c1.mass == c2.mass,
    ensures
        collide(c1, c2).0.x_vel - c1.x_vel == -(collide(c1, c2).1.x_vel - c2.x_vel)
            || collide(c1, c2).0.x_vel == MAX_VEL || collide(c1, c2).0.x_vel == -MAX_VEL
            || collide(c1, c2).1.x_vel == MAX_VEL || collide(c1, c2).1.x_vel == -MAX_VEL,
        collide(c1, c2).0.y_vel - c1.y_vel == -(collide(c1, c2).1.y_vel - c2.y_vel)
            || collide(c1, c2).0.y_vel == MAX_VEL || collide(c1, c2).0.y_vel == -MAX_VEL
            || collide(c1, c2).1.y_vel == MAX_VEL || collide(c1, c2).1.y_vel == -MAX_VEL,
        c1.y_pos == c2.y_pos ==> collide(c1, c2).0.y_vel == c1.y_vel && collide(c1, c2).1.y_vel == c2.y_vel,
{
    if overlapping(c1, c2) && c1.y_pos == c2.y_pos {
        lemma_overlap_geometry(c1, c2);
        let dist = floor_sqrt(dist_sq(c1, c2));
        let overlap = c1.radius + c2.radius - dist;
        let k = spring(c1, c2);
        let dy = c1.y_pos - c2.y_pos;
        assert(overlap * k * dy == 0) by (nonlinear_arith) requires dy == 0;
        assert(c1.mass * dist > 0 && c2.mass * dist > 0) by (nonlinear_arith)
            requires c1.mass > 0, c2.mass > 0, dist > 0;
    }
}

/// The collision impulse is repulsive: each cell's velocity changes away from the
/// other along each axis of their displacement, so the cells do not draw nearer.
#[verifier::rlimit(30)]
pub proof fn lemma_collision_repulsive(c1: Cell, c2: Cell)
    requires
        c1.wf(),
        c2.wf(),
    ensures
        (collide(c1, c2).0.x_vel - c1.x_vel) * (c1.x_pos - c2.x_pos) >= 0,
        (collide(c1, c2).1.x_vel - c2.x_vel) * (c1.x_pos - c2.x_pos) <= 0,
        (collide(c1, c2).0.y_vel - c1.y_vel) * (c1.y_pos - c2.y_pos) >= 0,
        (collide(c1, c2).1.y_vel - c2.y_vel) * (c1.y_pos - c2.y_pos) <= 0,
{
    lemma_radius_bounds(c1.radius as int, c1.mass as int);
    lemma_radius_bounds(c2.radius as int, c2.mass as int);
    if overlapping(c1, c2) {
        lemma_overlap_geometry(c1, c2);
        let dx = c1.x_pos - c2.x_pos;
        let dy = c1.y_pos - c2.y_pos;
        let dist = floor_sqrt(dist_sq(c1, c2));
        let min_dist = c1.radius + c2.radius;
        let overlap = min_dist - dist;
        let k = spring(c1, c2);
        assert(overlap * k > 0) by (nonlinear_arith) requires overlap > 0, k > 0;
        lemma_push_sign(overlap * k, dx, c1.mass as int, dist);
        lemma_push_sign(overlap * k, dx, c2.mass as int, dist);
        lemma_push_sign(overlap * k, dy, c1.mass as int, dist);
        lemma_push_sign(overlap * k, dy, c2.mass as int, dist);
        assert(overlap * k * dx == (overlap * k) * dx) by (nonlinear_arith);
        assert(overlap * k * dy == (overlap * k) * dy) by (nonlinear_arith);
        let p1x = push(overlap, k, dx, c1.mass as int, dist);
        let p2x = push(overlap, k, dx, c2.mass as int, dist);
        let p1y = push(overlap, k, dy, c1.mass as int, dist);
        let p2y = push(overlap, k, dy, c2.mass as int, dist);
        lemma_clamped_step(c1.x_vel as int, p1x, dx);
        lemma_clamped_step(c2.x_vel as int, -p2x, -dx);
        lemma_clamped_step(c1.y_vel as int, p1y, dy);
        lemma_clamped_step(c2.y_vel as int, -p2y, -dy);
        let w2x = clamp(c2.x_vel - p2x, -MAX_VEL as int, MAX_VEL as int) - c2.x_vel;
        let w2y = clamp(c2.y_vel - p2y, -MAX_VEL as int, MAX_VEL as int) - c2.y_vel;
        assert(w2x * dx <= 0) by (nonlinear_arith) requires w2x * (-dx) >= 0;
        assert(w2y * dy <= 0) by (nonlinear_arith) requires w2y * (-dy) >= 0;
        let (a, b) = collide(c1, c2);
        assert(a.x_vel == clamp(c1.x_vel + p1x, -MAX_VEL as int, MAX_VEL as int));
        assert(a.y_vel == clamp(c1.y_vel + p1y, -MAX_VEL as int, MAX_VEL as int));
        assert(b.x_vel - c2.x_vel == w2x);
        assert(b.y_vel - c2.y_vel == w2y);
    }
}

proof fn lemma_push_sign(ok: int, d: int, mass: int, dist: int)
    requires
        ok > 0,
        mass > 0,
        dist > 0,
    ensures
        d >= 0 ==> div_trunc(ok * d, mass * dist) >= 0,
        d <= 0 ==> div_trunc(ok * d, mass * dist) <= 0,
{
    assert(mass * dist > 0) by (nonlinear_arith) requires mass > 0, dist > 0;
    if d >= 0 {
        assert(ok * d >= 0) by (nonlinear_arith) requires ok > 0, d >= 0;
        lemma_div_trunc_bound(ok * d, mass * dist, ok * d);
    } else {
        assert(ok * d <= 0) by (nonlinear_arith) requires ok > 0, d <= 0;
        lemma_div_trunc_bound(ok * d, mass * dist, -(ok * d));
    }
}

proof fn lemma_clamped_step(v: int, p: int, d: int)
    requires
        -MAX_VEL <= v <= MAX_VEL,
        d >= 0 ==> p >= 0,
        d <= 0 ==> p <= 0,
    ensures
        (clamp(v + p, -MAX_VEL as int, MAX_VEL as int) - v) * d >= 0,
{
    let w = clamp(v + p, -MAX_VEL as int, MAX_VEL as int) - v;
    if d >= 0 {
        assert(w >= 0);
        assert(w * d >= 0) by (nonlinear_arith) requires w >= 0, d >= 0;
    } else {
        assert(w <= 0);
        assert(w * d >= 0) by (nonlinear_arith) requires w <= 0, d <= 0;
    }
}

/// Two cells at rest that collide and then travel one tick at their new velocities end
/// no closer than they started.
pub proof fn lemma_collision_separates(c1: Cell, c2: Cell)
    requires
        c1.wf(),
        c2.wf(),
        c1.x_vel == 0 && c1.y_vel == 0,
        c2.x_vel == 0 && c2.y_vel == 0,
    ensures
        ({
            let (a, b) = collide(c1, c2);
            let ex = (c1.x_pos + a.x_vel) - (c2.x_pos + b.x_vel);
            let ey = (c1.y_pos + a.y_vel) - (c2.y_pos + b.y_vel);
            let dx = c1.x_pos - c2.x_pos;
            let dy = c1.y_pos - c2.y_pos;
            ex * ex + ey * ey >= dx * dx + dy * dy
        }),
{
    lemma_collision_repulsive(c1, c2);
    let (a, b) = collide(c1, c2);
    let dx = c1.x_pos - c2.x_pos;
    let dy = c1.y_pos - c2.y_pos;
    let ux = a.x_vel - b.x_vel;
    let uy = a.y_vel - b.y_vel;
    assert(ux * dx >= 0) by (nonlinear_arith)
        requires a.x_vel * dx >= 0, b.x_vel * dx <= 0, ux == a.x_vel - b.x_vel;
    assert(uy * dy >= 0) by (nonlinear_arith)
        requires a.y_vel * dy >= 0, b.y_vel * dy <= 0, uy == a.y_vel - b.y_vel;
    assert((dx + ux) * (dx + ux) >= dx * dx) by (nonlinear_arith) requires ux * dx >= 0;
    assert((dy + uy) * (dy + uy) >= dy * dy) by (nonlinear_arith) requires uy * dy >= 0;
}

/// Two cells of equal mass at rest, level with each other and overlapping deeply enough
/// for the spring force to move them (the overlap times the spring constant at least
/// their mass), receive non-zero velocity changes of equal magnitude and opposite sign
/// along their centre line, none across it, and after one tick of travel stand
/// strictly farther apart.
pub proof fn lemma_level_collision_pushes_apart(c1: Cell, c2: Cell)
    requires
        c1.wf(),
        c2.wf(),
        c1.mass == c2.mass,
        c1.x_vel == 0 && c1.y_vel == 0,
        c2.x_vel == 0 && c2.y_vel == 0,
        c1.y_pos == c2.y_pos,
        c1.x_pos != c2.x_pos,
        overlapping(c1, c2),
        (c1.radius + c2.radius - abs(c1.x_pos - c2.x_pos)) * spring(c1, c2) >= c1.mass,
    ensures
        collide(c1, c2).0.x_vel != 0,
        collide(c1, c2).0.x_vel == -collide(c1, c2).1.x_vel,
        collide(c1, c2).0.y_vel == 0 && collide(c1, c2).1.y_vel == 0,
        ({
            let (a, b) = collide(c1, c2);
            let ex = (c1.x_pos + a.x_vel) - (c2.x_pos + b.x_vel);
            let dx = c1.x_pos - c2.x_pos;
            ex * ex > dx * dx
        }),
{
    lemma_collision_symmetry_general(c1, c2);
    lemma_overlap_geometry(c1, c2);
    let dx = c1.x_pos - c2.x_pos;
    let ad = abs(dx);
    assert(dx * dx > 0) by (nonlinear_arith) requires dx != 0;
    assert(dist_sq(c1, c2) == dx * dx);
    assert(ad * ad == dx * dx) by (nonlinear_arith) requires ad == dx || ad == -dx;
    assert(dx * dx < (ad + 1) * (ad + 1)) by (nonlinear_arith) requires ad * ad == dx * dx, ad >= 0;
    crate::fixed::lemma_floor_sqrt_unique(ad, dx * dx);
    let dist = floor_sqrt(dist_sq(c1, c2));
    assert(dist == ad);
    let ok = (c1.radius + c2.radius - dist) * spring(c1, c2);
    let m = c1.mass as int;
    assert(ok / m >= 1) by (nonlinear_arith) requires ok >= m, m > 0;
    assert(ok >= 0);
    vstd::arithmetic::div_mod::lemma_div_multiples_vanish_quotient(ad, ok, m);
    assert(ad * ok == ok * ad && ad * m == m * ad) by (nonlinear_arith);
    let p = push(c1.radius + c2.radius - dist, spring(c1, c2), dx, m, dist);
    let o = c1.radius + c2.radius - dist;
    let k = spring(c1, c2);
    assert(o * k * dx == ok * dx) by (nonlinear_arith) requires ok == o * k;
    if dx > 0 {
        assert(ok * dx >= 0) by (nonlinear_arith) requires ok >= 0, dx > 0;
        assert(p == ok / m);
    } else {
        assert(ok * dx <= 0) by (nonlinear_arith) requires ok >= 0, dx < 0;
        assert(-(ok * dx) == ok * ad) by (nonlinear_arith) requires ad == -dx;
        assert(p == -(ok / m));
    }
    let (a, b) = collide(c1, c2);
    assert(a.x_vel == clamp(p, -MAX_VEL as int, MAX_VEL as int));
    let ex = (c1.x_pos + a.x_vel) - (c2.x_pos + b.x_vel);
    assert(ex == dx + 2 * a.x_vel);
    if dx > 0 {
        assert(a.x_vel >= 1);
        assert(ex * ex > dx * dx) by (nonlinear_arith) requires ex > dx, dx > 0;
    } else {
        assert(a.x_vel <= -1);
        assert(ex * ex > dx * dx) by (nonlinear_arith) requires ex < dx, dx < 0;
    }
}

} // verus!
