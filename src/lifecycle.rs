use vstd::prelude::*;
use crate::cell::{efficiency_of, lemma_radius_bounds, radius_arg, radius_for_mass, Cell};
use crate::constants::{
    COST_MUTATION, EFFICIENCY_DIVISOR, HEALTH_FULL, HEIGHT_UNITS, MAX_STEP, WIDTH_UNITS,
};
use crate::fixed::{floor_sqrt, isqrt};
use crate::motion::abs;
use crate::random::draw_in;
use crate::simulation::all_wf;

verus! {

/// Why a lifecycle phase could not run.
#[derive(Clone, Copy, Debug, PartialEq, Eq, Structural)]
pub enum LifecycleError {
    /// The identities that the births need do not fit in an `i64`.
    IdOverflow,
}

/// Number of cells among the first `i` that are flagged to give birth.
pub open spec fn births_before(s: Seq<Cell>, i: int) -> int
    decreases i,
{
    if i <= 0 {
        0
    } else {
        births_before(s, i - 1) + if s[i - 1].reproduce_now { 1int } else { 0 }
    }
}

/// Number of cells flagged to give birth.
pub open spec fn birth_count(s: Seq<Cell>) -> int {
    births_before(s, s.len() as int)
}

/// A parent after giving birth: half its mass is gone and its flag is cleared. Other
/// cells are unchanged.
pub open spec fn after_birth(c: Cell) -> Cell {
    if c.reproduce_now {
        let m = c.mass - c.mass / 2;
        Cell {
            mass: m as i64,
            radius: floor_sqrt(radius_arg(m)) as i64,
            light_consumption_efficiency: efficiency_of(m) as i64,
            reproduce_now: false,
            ..c
        }
    } else {
        c
    }
}

/// `(dx, dy)` lies at distance `h` from the origin, to within one unit: its squared
/// length is between `h * h - 2 * h` and `h * h`.
pub open spec fn at_distance(dx: int, dy: int, h: int) -> bool {
    &&& abs(dx) <= h
    &&& abs(dy) <= h
    &&& h * h - 2 * h <= dx * dx + dy * dy <= h * h
}

/// The child stands half a radius of the parent away from it, to within one unit.
pub open spec fn placed_near(ch: Cell, p: Cell) -> bool {
    at_distance(ch.x_pos - p.x_pos, ch.y_pos - p.y_pos, p.radius / 2)
}

/// `ch` is a newborn child of `p` with identity `id`, created at step `loop_step`: it has
/// the other half of the parent's mass, stands half a radius from the parent, moves with
/// the parent's velocity, and starts with full health and energy.
pub open spec fn is_child_of(ch: Cell, p: Cell, id: int, loop_step: int) -> bool {
    &&& ch.wf()
    &&& ch.id == id
    &&& ch.parent_id == p.id
    &&& ch.creation_step == loop_step
    &&& ch.age == 0
    &&& ch.alive
    &&& !ch.reproduce_now
    &&& ch.mass == p.mass / 2
    &&& placed_near(ch, p)
    &&& ch.x_vel == p.x_vel
    &&& ch.y_vel == p.y_vel
    &&& ch.health == HEALTH_FULL && ch.health_capacity == HEALTH_FULL
    &&& ch.energy == HEALTH_FULL && ch.energy_capacity == HEALTH_FULL
    &&& ch.reproduction_progress == 0
    &&& ch.membrane_color.is_mutation_of(p.membrane_color)
    &&& ch.inside_color.is_mutation_of(p.inside_color)
    &&& ch.nucleus_color.is_mutation_of(p.nucleus_color)
    &&& p.reproduction_cost - COST_MUTATION <= ch.reproduction_cost < p.reproduction_cost + COST_MUTATION
}

/// What `reproduce_now` does when it succeeds: every flagged parent gives half its
/// mass to a child, and the children are appended in the order of their parents, with
/// the identities `first_id, first_id + 1, ...`.
pub open spec fn births_done(old: Seq<Cell>, new: Seq<Cell>, loop_step: int, first_id: int) -> bool {
    let n = old.len() as int;
    &&& new.len() == n + birth_count(old)
    &&& forall|i: int| 0 <= i < n ==> new[i] == #[trigger] after_birth(old[i])
    &&& forall|i: int|
        0 <= i < n && (#[trigger] old[i]).reproduce_now ==> is_child_of(
            new[n + births_before(old, i)],
            old[i],
            first_id + births_before(old, i),
            loop_step,
        )
    &&& forall|k: int| 0 <= k < birth_count(old) ==> (#[trigger] new[n + k]).id == first_id + k
}

pub proof fn lemma_births_before_bounds(s: Seq<Cell>, i: int)
    requires
        0 <= i <= s.len(),
    ensures
        0 <= births_before(s, i) <= i,
    decreases i,
{
    if i > 0 {
        lemma_births_before_bounds(s, i - 1);
    }
}

pub proof fn lemma_births_before_mono(s: Seq<Cell>, i: int, j: int)
    requires
        0 <= i <= j <= s.len(),
    ensures
        0 <= births_before(s, i) <= births_before(s, j) <= j,
    decreases j - i,
{
    lemma_births_before_bounds(s, j);
    if i < j {
        lemma_births_before_mono(s, i, j - 1);
    } else {
        lemma_births_before_bounds(s, i);
    }
}

/// A random offset at distance `h` from the origin, to within one unit: the first
/// coordinate is drawn uniformly, the second completes the distance with a random sign.
fn radial_offset(h: i64) -> (r: (i64, i64))
    requires
        0 <= h <= 400_000_000,
    ensures
        at_distance(r.0 as int, r.1 as int, h as int),
{
    let ox = draw_in(-h, h);
    assert(0 <= ox * ox <= h * h && h * h <= 160_000_000_000_000_000) by (nonlinear_arith)
        requires -h <= ox <= h, h <= 400_000_000;
    let rest: i64 = h * h - ox * ox;
    let root = isqrt(rest as u64);
    assert(root <= h) by (nonlinear_arith)
        requires root * root <= rest, rest <= h * h, 0 <= root, 0 <= h;
    let mag = root as i64;
    assert(rest - mag * mag <= 2 * mag) by (nonlinear_arith)
        requires rest < (mag + 1) * (mag + 1);
    let oy = if draw_in(0, 1) == 0 { mag } else { -mag };
    assert(oy * oy == mag * mag) by (nonlinear_arith) requires oy == mag || oy == -mag;
    (ox, oy)
}

/// The child of `parent`, with the given identity, placed at a random point half a
/// radius from the parent. On an axis where that point would leave the domain the
/// offset is mirrored, which keeps the distance.
fn child_of(parent: &Cell, id: i64, loop_step: i64) -> (ch: Cell)
    requires
        parent.wf(),
        parent.reproduce_now,
        0 <= id,
        0 <= loop_step <= MAX_STEP,
    ensures
        is_child_of(ch, *parent, id as int, loop_step as int),
{
    proof {
        lemma_radius_bounds(parent.radius as int, parent.mass as int);
    }
    let (x_offset, y_offset) = radial_offset(parent.radius / 2);
    let x = parent.x_pos + x_offset;
    let y = parent.y_pos + y_offset;
    let child_x = if x < 0 || x > WIDTH_UNITS { parent.x_pos - x_offset } else { x };
    let child_y = if y < 0 || y > HEIGHT_UNITS { parent.y_pos - y_offset } else { y };
    assert((child_x - parent.x_pos) * (child_x - parent.x_pos) == x_offset * x_offset) by (nonlinear_arith)
        requires child_x - parent.x_pos == x_offset || child_x - parent.x_pos == -x_offset;
    assert((child_y - parent.y_pos) * (child_y - parent.y_pos) == y_offset * y_offset) by (nonlinear_arith)
        requires child_y - parent.y_pos == y_offset || child_y - parent.y_pos == -y_offset;
    Cell::new_from_reproduction(
        id,
        parent.id,
        loop_step,
        parent.mass / 2,
        child_x,
        child_y,
        parent.x_vel,
        parent.y_vel,
        parent.membrane_color,
        parent.inside_color,
        parent.nucleus_color,
        parent.reproduction_cost,
    )
}

/// Gives every flagged parent a child, appended in the order of the parents, with the
/// identities `next_id, next_id + 1, ...`; `next_id` is the run's counter, above every
/// identity handed out so far. Returns the counter's next value. Fails, changing
/// nothing, when those identities do not fit in an `i64`.
pub fn reproduce_now(cells: &mut Vec<Cell>, loop_step: i64, next_id: i64) -> (r: Result<i64, LifecycleError>)
    requires
        all_wf(old(cells)@),
        ids_below(old(cells)@, next_id as int),
        0 <= loop_step <= MAX_STEP,
        0 <= next_id,
    ensures
        r is Err <==> next_id + birth_count(old(cells)@) > i64::MAX,
        r is Err ==> final(cells)@ == old(cells)@ && r == Err::<i64, LifecycleError>(LifecycleError::IdOverflow),
        r is Ok ==> r->Ok_0 == next_id + birth_count(old(cells)@),
        r is Ok ==> births_done(old(cells)@, final(cells)@, loop_step as int, next_id as int),
        r is Ok ==> forall|j: int, k: int|
            0 <= j < old(cells)@.len() && old(cells)@.len() <= k < final(cells)@.len()
                ==> (#[trigger] old(cells)@[j]).id < (#[trigger] final(cells)@[k]).id,
        r is Ok ==> ids_below(final(cells)@, r->Ok_0 as int),
        all_wf(final(cells)@),
{
    let first_id = next_id;
    let n = cells.len();
    let mut births: usize = 0;
    let mut i: usize = 0;
    while i < n
        invariant
            n == cells@.len(),
            i <= n,
            births == births_before(cells@, i as int),
            births <= i,
        decreases n - i,
    {
        proof {
            lemma_births_before_bounds(cells@, i as int);
        }
        if cells[i].reproduce_now {
            births = births + 1;
        }
        i = i + 1;
    }
    if births as u64 > (i64::MAX - first_id) as u64 {
        return Err(LifecycleError::IdOverflow);
    }
    let count = births as i64;
    let ghost before = cells@;
    let mut children: Vec<Cell> = Vec::new();
    let mut i: usize = 0;
    while i < n
        invariant
            n == cells@.len(),
            n == before.len(),
            i <= n,
            count == birth_count(before),
            first_id + count <= i64::MAX,
            0 <= first_id,
            0 <= loop_step <= MAX_STEP,
            all_wf(before),
            all_wf(cells@),
            all_wf(children@),
            children@.len() == births_before(before, i as int),
            forall|k: int| 0 <= k < i ==> cells@[k] == #[trigger] after_birth(before[k]),
            forall|k: int| i <= k < n ==> cells@[k] == before[k],
            forall|k: int|
                0 <= k < i && (#[trigger] before[k]).reproduce_now ==> is_child_of(
                    children@[births_before(before, k)],
                    before[k],
                    first_id + births_before(before, k),
                    loop_step as int,
                ),
            forall|k: int| 0 <= k < children@.len() ==> (#[trigger] children@[k]).id == first_id + k,
        decreases n - i,
    {
        proof {
            lemma_births_before_mono(before, i as int, n as int);
            lemma_births_before_mono(before, i as int + 1, n as int);
        }
        let parent = cells[i];
        proof {
            assert forall|k: int| 0 <= k < i && (#[trigger] before[k]).reproduce_now implies births_before(before, k) < births_before(before, i as int) by {
                lemma_births_before_mono(before, k + 1, i as int);
            }
        }
        if parent.reproduce_now {
            let id = first_id + children.len() as i64;
            let child = child_of(&parent, id, loop_step);
            let ghost earlier = children@;
            children.push(child);
            proof {
                assert forall|k: int|
                    0 <= k < i + 1 && (#[trigger] before[k]).reproduce_now implies is_child_of(
                        children@[births_before(before, k)],
                        before[k],
                        first_id + births_before(before, k),
                        loop_step as int,
                    ) by {
                    if k < i {
                        lemma_births_before_mono(before, k + 1, i as int);
                        lemma_births_before_bounds(before, k);
                        assert(births_before(before, k + 1) == births_before(before, k) + 1);
                        assert(births_before(before, k) < earlier.len());
                        assert(children@[births_before(before, k)] == earlier[births_before(before, k)]);
                    }
                }
            }
            let m = parent.mass - parent.mass / 2;
            let mut p = parent;
            p.mass = m;
            p.radius = radius_for_mass(m);
            p.light_consumption_efficiency = m / EFFICIENCY_DIVISOR;
            p.reproduce_now = false;
            cells.set(i, p);
        }
        i = i + 1;
    }
    let ghost parents = cells@;
    let ghost born = children@;
    cells.append(&mut children);
    proof {
        assert forall|k: int| 0 <= k < n && (#[trigger] before[k]).reproduce_now implies births_before(before, k) < count by {
            lemma_births_before_mono(before, k + 1, n as int);
        }
        assert forall|k: int| 0 <= k < born.len() implies cells@[n + k] == born[k] by {}
        assert forall|k: int| 0 <= k < n && (#[trigger] before[k]).reproduce_now implies is_child_of(
            cells@[n + births_before(before, k)],
            before[k],
            first_id + births_before(before, k),
            loop_step as int,
        ) by {
            lemma_births_before_mono(before, k + 1, n as int);
            lemma_births_before_bounds(before, k);
            assert(births_before(before, k + 1) == births_before(before, k) + 1);
            assert(cells@[n + births_before(before, k)] == born[births_before(before, k)]);
        }
        assert forall|k: int| 0 <= k < count implies (#[trigger] cells@[n + k]).id == first_id + k by {
            assert(cells@[n + k] == born[k]);
        }
        assert forall|j: int, k: int|
            0 <= j < n && n <= k < cells@.len() implies (#[trigger] before[j]).id < (#[trigger] cells@[k]).id by {
            assert(cells@[n + (k - n)].id == first_id + (k - n));
        }
        assert forall|k: int| 0 <= k < cells@.len() implies (#[trigger] cells@[k]).id < first_id + count by {
            if k < n {
                assert(cells@[k] == after_birth(before[k]));
            } else {
                assert(cells@[n + (k - n)].id == first_id + (k - n));
            }
        }
        assert forall|k: int| 0 <= k < n implies cells@[k] == #[trigger] after_birth(before[k]) by {
            assert(cells@[k] == parents[k]);
        }
    }
    Ok(first_id + count)
}

/// The living cells among the first `i`, in their order.
pub open spec fn survivors(s: Seq<Cell>, i: int) -> Seq<Cell>
    decreases i,
{
    if i <= 0 {
        Seq::empty()
    } else {
        let p = survivors(s, i - 1);
        if s[i - 1].alive { p.push(s[i - 1]) } else { p }
    }
}

/// The living cells of the population, in their order.
pub open spec fn living(s: Seq<Cell>) -> Seq<Cell> {
    survivors(s, s.len() as int)
}

/// Identities increase strictly along the population.
pub open spec fn ids_increasing(s: Seq<Cell>) -> bool {
    forall|i: int, j: int| 0 <= i < j < s.len() ==> (#[trigger] s[i]).id < (#[trigger] s[j]).id
}

/// Every identity of the population is below `bound`.
pub open spec fn ids_below(s: Seq<Cell>, bound: int) -> bool {
    forall|i: int| 0 <= i < s.len() ==> (#[trigger] s[i]).id < bound
}

/// Pruning keeps only living cells, keeps them well formed, and keeps identities
/// increasing and below any bound they were below.
pub proof fn lemma_survivors(s: Seq<Cell>, i: int, bound: int)
    requires
        0 <= i <= s.len(),
    ensures
        survivors(s, i).len() <= i,
        forall|k: int| 0 <= k < survivors(s, i).len() ==> (#[trigger] survivors(s, i)[k]).alive,
        all_wf(s) ==> all_wf(survivors(s, i)),
        ids_below(s, bound) ==> ids_below(survivors(s, i), bound),
        ids_increasing(s) ==> ids_increasing(survivors(s, i)),
        ids_increasing(s) && i < s.len() ==> ids_below(survivors(s, i), s[i].id as int),
    decreases i,
{
    if i > 0 {
        lemma_survivors(s, i - 1, bound);
        lemma_survivors(s, i - 1, s[i - 1].id as int);
        let p = survivors(s, i - 1);
        if s[i - 1].alive {
            let q = p.push(s[i - 1]);
            assert forall|k: int| 0 <= k < q.len() implies (#[trigger] q[k]).alive by {
                if k < p.len() {
                    assert(q[k] == p[k]);
                }
            }
            if all_wf(s) {
                assert forall|k: int| 0 <= k < q.len() implies (#[trigger] q[k]).wf() by {
                    if k < p.len() {
                        assert(q[k] == p[k]);
                    }
                }
            }
            if ids_below(s, bound) {
                assert forall|k: int| 0 <= k < q.len() implies (#[trigger] q[k]).id < bound by {
                    if k < p.len() {
                        assert(q[k] == p[k]);
                    }
                }
            }
            if ids_increasing(s) {
                assert forall|a: int, b: int| 0 <= a < b < q.len() implies (#[trigger] q[a]).id < (#[trigger] q[b]).id by {
                    assert(q[a] == p[a]);
                    if b < p.len() {
                        assert(q[b] == p[b]);
                    }
                }
                if i < s.len() {
                    assert forall|k: int| 0 <= k < q.len() implies (#[trigger] q[k]).id < s[i].id by {
                        if k < p.len() {
                            assert(q[k] == p[k]);
                        }
                    }
                }
            }
        } else if ids_increasing(s) && i < s.len() {
            assert(s[i - 1].id < s[i].id);
        }
    }
}

/// Removes the dead cells, keeping the order of the living ones.
pub fn remove_dead_cells(cells: &mut Vec<Cell>)
    ensures
        final(cells)@ == living(old(cells)@),
        forall|k: int| 0 <= k < final(cells)@.len() ==> (#[trigger] final(cells)@[k]).alive,
{
    let mut kept: Vec<Cell> = Vec::new();
    let mut i: usize = 0;
    while i < cells.len()
        invariant
            i <= cells@.len(),
            kept@ == survivors(cells@, i as int),
        decreases cells@.len() - i,
    {
        if cells[i].alive {
            kept.push(cells[i]);
        }
        i = i + 1;
    }
    proof {
        lemma_survivors(cells@, cells@.len() as int, 0);
    }
    *cells = kept;
}

/// A birth conserves mass: the parent's mass after it plus the child's mass is the
/// parent's mass before it. The child's identity is above every identity present
/// before the birth.
pub proof fn lemma_birth_conserves_mass(
    old: Seq<Cell>,
    new: Seq<Cell>,
    loop_step: int,
    first_id: int,
    i: int,
)
    requires
        births_done(old, new, loop_step, first_id),
        ids_below(old, first_id),
        0 <= i < old.len(),
        old[i].reproduce_now,
    ensures
        new[i].mass + new[old.len() + births_before(old, i)].mass == old[i].mass,
        forall|k: int| 0 <= k < old.len() ==> (#[trigger] old[k]).id < new[old.len() + births_before(old, i)].id,
{
    lemma_births_before_bounds(old, i);
    assert(new[i] == after_birth(old[i]));
    assert(is_child_of(new[old.len() + births_before(old, i)], old[i], first_id + births_before(old, i), loop_step));
}

} // verus!
