use vstd::prelude::*;
use crate::cell::Cell;
use crate::collision::collide;
use crate::constants::{
    BROWNIAN_MOTION, HEIGHT_UNITS, MAX_STEP, SCALE, VARIATION_MAX, VARIATION_MIN, WIDTH_UNITS,
};
use crate::field::{gradient_at, gradient_wf, terrain_wf};
use crate::fixed::div_trunc;
use crate::homeostasis::{after_energy, after_health, after_light, after_reproduction};
use crate::motion::{after_age, after_boundary, after_position, after_velocity, jitter_ok};
use crate::lifecycle::{
    after_birth, birth_count, births_done, ids_below, ids_increasing, lemma_births_before_bounds,
    lemma_survivors, living, remove_dead_cells, reproduce_now, LifecycleError,
};
use crate::random::draw_in;

verus! {

/// One cell's update of a tick, in order: age, gradient push, friction, jitter and
/// travel, reflection off the walls, light reading, energy balance, health balance,
/// reproduction. The light read here replaces any shading from this tick's collisions.
pub open spec fn after_tick(
    c: Cell,
    terrain: Seq<Vec<i64>>,
    gradient: Seq<Vec<(i64, i64)>>,
    loop_step: int,
    jx: int,
    jy: int,
    variation: int,
) -> Cell {
    let moved = after_boundary(
        after_position(after_velocity(after_age(c, loop_step), gradient), jx, jy),
    );
    after_reproduction(after_health(after_energy(after_light(moved, terrain))), variation)
}

/// The random draws of one cell's tick are within their bounds.
pub open spec fn draws_ok(jx: int, jy: int, variation: int) -> bool {
    jitter_ok(jx) && jitter_ok(jy) && VARIATION_MIN <= variation < VARIATION_MAX
}

impl Cell {
    /// One cell's update of a tick with the given jitter and reproduction multiplier.
    pub fn update_with(
        &mut self,
        terrain: &Vec<Vec<i64>>,
        gradient: &Vec<Vec<(i64, i64)>>,
        loop_step: i64,
        jitter_x: i64,
        jitter_y: i64,
        variation: i64,
    )
        requires
            old(self).wf(),
            terrain_wf(terrain@),
            gradient_wf(gradient@),
            0 <= loop_step <= MAX_STEP,
            draws_ok(jitter_x as int, jitter_y as int, variation as int),
        ensures
            *final(self) == after_tick(
                *old(self),
                terrain@,
                gradient@,
                loop_step as int,
                jitter_x as int,
                jitter_y as int,
                variation as int,
            ),
            final(self).wf(),
    {
        self.update_age(loop_step);
        self.update_velocity(gradient);
        self.update_position_with(jitter_x, jitter_y);
        self.handle_boundary_collision();
        self.update_light_exposure_sense(terrain);
        self.update_energy();
        self.update_health();
        self.update_and_check_reproduction_with(variation);
    }

    /// One cell's update of a tick, with fresh random jitter and multiplier.
    pub fn update(&mut self, terrain: &Vec<Vec<i64>>, gradient: &Vec<Vec<(i64, i64)>>, loop_step: i64)
        requires
            old(self).wf(),
            terrain_wf(terrain@),
            gradient_wf(gradient@),
            0 <= loop_step <= MAX_STEP,
        ensures
            tick_of(*old(self), *final(self), terrain@, gradient@, loop_step as int),
            final(self).wf(),
    {
        let jitter_x = draw_in(-BROWNIAN_MOTION, BROWNIAN_MOTION - 1);
        let jitter_y = draw_in(-BROWNIAN_MOTION, BROWNIAN_MOTION - 1);
        let variation = draw_in(VARIATION_MIN, VARIATION_MAX - 1);
        self.update_with(terrain, gradient, loop_step, jitter_x, jitter_y, variation);
    }
}

/// The two populations have the same length and the same identity at each place.
pub open spec fn same_ids(a: Seq<Cell>, b: Seq<Cell>) -> bool {
    &&& a.len() == b.len()
    &&& forall|i: int| 0 <= i < a.len() ==> (#[trigger] a[i]).id == b[i].id
}

/// `after` is `before` after its update of a tick, for some draws within bounds.
pub open spec fn tick_of(
    before: Cell,
    after: Cell,
    terrain: Seq<Vec<i64>>,
    gradient: Seq<Vec<(i64, i64)>>,
    loop_step: int,
) -> bool {
    exists|jx: int, jy: int, v: int|
        draws_ok(jx, jy, v) && after == #[trigger] after_tick(before, terrain, gradient, loop_step, jx, jy, v)
}

/// `after` is `before` after every cell's update of a tick, each with draws of its own.
pub open spec fn ticked(
    before: Seq<Cell>,
    after: Seq<Cell>,
    terrain: Seq<Vec<i64>>,
    gradient: Seq<Vec<(i64, i64)>>,
    loop_step: int,
) -> bool {
    &&& before.len() == after.len()
    &&& forall|i: int|
        0 <= i < before.len() ==> tick_of(#[trigger] before[i], after[i], terrain, gradient, loop_step)
}

/// Every cell of the population is well formed.
pub open spec fn all_wf(s: Seq<Cell>) -> bool {
    forall|i: int| 0 <= i < s.len() ==> (#[trigger] s[i]).wf()
}

/// The population after the collision of the pair `(i, j)`.
pub open spec fn collide_pair_at(s: Seq<Cell>, i: int, j: int) -> Seq<Cell> {
    let (a, b) = collide(s[i], s[j]);
    s.update(i, a).update(j, b)
}

/// The population after the collisions of `i` with each of `i + 1, ..., j - 1`, in order.
pub open spec fn collide_row(s: Seq<Cell>, i: int, j: int) -> Seq<Cell>
    decreases j - i,
{
    if j <= i + 1 {
        s
    } else {
        collide_pair_at(collide_row(s, i, j - 1), i, j - 1)
    }
}

/// The population after the collisions of every pair `(a, b)` with `a < b` and `a < i`,
/// in lexicographic order.
pub open spec fn collide_rows(s: Seq<Cell>, i: int) -> Seq<Cell>
    decreases i,
{
    if i <= 0 {
        s
    } else {
        let p = collide_rows(s, i - 1);
        collide_row(p, i - 1, p.len() as int)
    }
}

/// The population after the collisions of every pair of distinct cells.
pub open spec fn collide_all(s: Seq<Cell>) -> Seq<Cell> {
    collide_rows(s, s.len() as int)
}

/// Resolves the collisions of every pair of distinct cells exactly once, pair `(i, j)`
/// with `i < j` in lexicographic order.
pub fn handle_collisions(cells: &mut Vec<Cell>)
    requires
        all_wf(old(cells)@),
    ensures
        final(cells)@ == collide_all(old(cells)@),
        all_wf(final(cells)@),
        same_ids(old(cells)@, final(cells)@),
{
    let len = cells.len();
    let mut i: usize = 0;
    while i < len
        invariant
            len == cells@.len(),
            i <= len,
            all_wf(cells@),
            same_ids(old(cells)@, cells@),
            cells@ == collide_rows(old(cells)@, i as int),
        decreases len - i,
    {
        let ghost row_start = cells@;
        let mut j: usize = i + 1;
        while j < len
            invariant
                len == cells@.len(),
                i < len,
                i + 1 <= j <= len,
                all_wf(cells@),
                same_ids(old(cells)@, cells@),
                row_start.len() == len,
                cells@ == collide_row(row_start, i as int, j as int),
            decreases len - j,
        {
            let mut c1 = cells[i];
            let mut c2 = cells[j];
            c1.handle_cell_collision(&mut c2);
            proof {
                assert(collide_pair_at(cells@, i as int, j as int) == cells@.update(i as int, c1).update(
                    j as int,
                    c2,
                ));
            }
            cells.set(i, c1);
            cells.set(j, c2);
            j = j + 1;
        }
        i = i + 1;
    }
}

/// Runs every cell's update of a tick, each with fresh random draws.
pub fn update_each(
    cells: &mut Vec<Cell>,
    terrain: &Vec<Vec<i64>>,
    gradient: &Vec<Vec<(i64, i64)>>,
    loop_step: i64,
)
    requires
        all_wf(old(cells)@),
        terrain_wf(terrain@),
        gradient_wf(gradient@),
        0 <= loop_step <= MAX_STEP,
    ensures
        ticked(old(cells)@, final(cells)@, terrain@, gradient@, loop_step as int),
        all_wf(final(cells)@),
        same_ids(old(cells)@, final(cells)@),
{
    let len = cells.len();
    let mut i: usize = 0;
    while i < len
        invariant
            len == cells@.len(),
            len == old(cells)@.len(),
            i <= len,
            terrain_wf(terrain@),
            gradient_wf(gradient@),
            0 <= loop_step <= MAX_STEP,
            all_wf(cells@),
            forall|k: int| i <= k < len ==> cells@[k] == old(cells)@[k],
            forall|k: int|
                0 <= k < i ==> tick_of(#[trigger] old(cells)@[k], cells@[k], terrain@, gradient@, loop_step as int),
            same_ids(old(cells)@, cells@),
        decreases len - i,
    {
        let mut c = cells[i];
        c.update(terrain, gradient, loop_step);
        cells.set(i, c);
        i = i + 1;
    }
}

/// One tick of the population, in order: births for the cells flagged last tick, with
/// identities from the run's counter `next_id` on; removal of the dead; the collision
/// of every pair; then every cell's own update. Returns the counter's next value, so
/// that no identity is ever handed out twice. Fails, changing nothing, when the
/// identities of the births do not fit in an `i64`.
pub fn update_cells(
    cells: &mut Vec<Cell>,
    terrain: &Vec<Vec<i64>>,
    gradient: &Vec<Vec<(i64, i64)>>,
    loop_step: i64,
    next_id: i64,
) -> (r: Result<i64, LifecycleError>)
    requires
        all_wf(old(cells)@),
        ids_below(old(cells)@, next_id as int),
        0 <= next_id,
        terrain_wf(terrain@),
        gradient_wf(gradient@),
        0 <= loop_step <= MAX_STEP,
    ensures
        r is Err <==> next_id + birth_count(old(cells)@) > i64::MAX,
        r is Err ==> final(cells)@ == old(cells)@,
        r is Ok ==> r->Ok_0 == next_id + birth_count(old(cells)@),
        r is Ok ==> exists|born: Seq<Cell>|
            births_done(old(cells)@, born, loop_step as int, next_id as int)
                && #[trigger] ticked(
                collide_all(living(born)),
                final(cells)@,
                terrain@,
                gradient@,
                loop_step as int,
            ),
        r is Ok ==> ids_below(final(cells)@, r->Ok_0 as int),
        r is Ok && ids_increasing(old(cells)@) ==> ids_increasing(final(cells)@),
        all_wf(final(cells)@),
{
    let ghost before = cells@;
    let next = match reproduce_now(cells, loop_step, next_id) {
        Ok(next) => next,
        Err(e) => {
            return Err(e);
        },
    };
    let ghost born = cells@;
    proof {
        let n = before.len() as int;
        lemma_births_before_bounds(before, n);
        if ids_increasing(before) {
            assert forall|i: int, j: int| 0 <= i < j < born.len() implies (#[trigger] born[i]).id < (#[trigger] born[j]).id by {
                if j < n {
                    assert(born[i] == after_birth(before[i]));
                    assert(born[j] == after_birth(before[j]));
                } else if i < n {
                    assert(born[i] == after_birth(before[i]));
                    assert(born[n + (j - n)].id == next_id + (j - n));
                } else {
                    assert(born[n + (i - n)].id == next_id + (i - n));
                    assert(born[n + (j - n)].id == next_id + (j - n));
                }
            }
        }
    }
    remove_dead_cells(cells);
    proof {
        lemma_survivors(born, born.len() as int, next as int);
    }
    let ghost kept = cells@;
    handle_collisions(cells);
    let ghost collided = cells@;
    update_each(cells, terrain, gradient, loop_step);
    proof {
        assert forall|i: int| 0 <= i < kept.len() implies (#[trigger] kept[i]).id == cells@[i].id by {
            assert(kept[i].id == collided[i].id);
        }
        if ids_increasing(before) {
            assert forall|i: int, j: int| 0 <= i < j < cells@.len() implies (#[trigger] cells@[i]).id < (#[trigger] cells@[j]).id by {
                assert(kept[i].id == cells@[i].id);
                assert(kept[j].id == cells@[j].id);
            }
        }
        assert forall|i: int| 0 <= i < cells@.len() implies (#[trigger] cells@[i]).id < next by {
            assert(kept[i].id == cells@[i].id);
        }
    }
    Ok(next)
}

/// A cell at rest whose disk lies inside the domain, on a point of zero gradient, with
/// no jitter, keeps its place and stays at rest through its update of a tick.
pub proof fn lemma_resting_cell_stays(
    c: Cell,
    terrain: Seq<Vec<i64>>,
    gradient: Seq<Vec<(i64, i64)>>,
    loop_step: int,
    variation: int,
)
    requires
        c.wf(),
        c.x_vel == 0 && c.y_vel == 0,
        gradient_at(gradient, c.x_pos as int, c.y_pos as int) == (0i64, 0i64),
        c.radius <= c.x_pos <= WIDTH_UNITS - c.radius,
        c.radius <= c.y_pos <= HEIGHT_UNITS - c.radius,
    ensures
        after_tick(c, terrain, gradient, loop_step, 0, 0, variation).x_pos == c.x_pos,
        after_tick(c, terrain, gradient, loop_step, 0, 0, variation).y_pos == c.y_pos,
        after_tick(c, terrain, gradient, loop_step, 0, 0, variation).x_vel == 0,
        after_tick(c, terrain, gradient, loop_step, 0, 0, variation).y_vel == 0,
{
    let aged = after_age(c, loop_step);
    let pushed = after_velocity(aged, gradient);
    assert(pushed.x_vel == 0 && pushed.y_vel == 0);
    let moved = after_position(pushed, 0, 0);
    assert(div_trunc(0, SCALE as int) == 0);
    assert(moved.x_vel == 0 && moved.y_vel == 0);
    assert(moved.x_pos == c.x_pos && moved.y_pos == c.y_pos);
}

} // verus!
