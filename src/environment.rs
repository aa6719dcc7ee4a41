use vstd::prelude::*;
use crate::cell::{is_seed, Cell};
use crate::constants::{MAX_STEP, NUM_CELLS};
use crate::field::{calculate_gradient, gradient_wf, is_gradient_of, terrain_wf};
use crate::lifecycle::{lemma_births_before_bounds, birth_count, births_done, ids_below, ids_increasing, living, LifecycleError};
use crate::simulation::{all_wf, collide_all, ticked, update_cells};

verus! {

/// The world: the population, the light field and its gradient, and the next
/// identity to hand out.
pub struct Environment {
    pub cells: Vec<Cell>,
    pub terrain: Vec<Vec<i64>>,
    pub gradient: Vec<Vec<(i64, i64)>>,
    /// Every identity handed out so far is below this one.
    pub next_id: i64,
}

impl Environment {
    /// The invariant of the world: cells are well formed, their identities increase
    /// along the population and lie below `next_id`, and the fields are well formed.
    pub open spec fn wf(&self) -> bool {
        &&& all_wf(self.cells@)
        &&& ids_increasing(self.cells@)
        &&& ids_below(self.cells@, self.next_id as int)
        &&& 0 <= self.next_id
        &&& terrain_wf(self.terrain@)
        &&& gradient_wf(self.gradient@)
    }

    /// A world on the light field `terrain`, with its gradient, and `NUM_CELLS` seed
    /// cells with the identities `0, 1, ...`, created at step `loop_step`, each as
    /// `Cell::new` makes it.
    pub fn new(terrain: Vec<Vec<i64>>, loop_step: i64) -> (env: Environment)
        requires
            terrain_wf(terrain@),
            0 <= loop_step <= MAX_STEP,
        ensures
            env.wf(),
            env.terrain@ == terrain@,
            is_gradient_of(env.gradient@, terrain@),
            env.cells@.len() == NUM_CELLS,
            forall|i: int| 0 <= i < NUM_CELLS ==> is_seed(#[trigger] env.cells@[i], i, loop_step as int),
            env.next_id == NUM_CELLS,
    {
        let gradient = calculate_gradient(&terrain);
        let mut cells: Vec<Cell> = Vec::new();
        let mut ii: usize = 0;
        while ii < NUM_CELLS
            invariant
                ii <= NUM_CELLS,
                0 <= loop_step <= MAX_STEP,
                cells@.len() == ii,
                all_wf(cells@),
                forall|i: int| 0 <= i < ii ==> is_seed(#[trigger] cells@[i], i, loop_step as int),
            decreases NUM_CELLS - ii,
        {
            cells.push(Cell::new(ii as i64, loop_step));
            ii = ii + 1;
        }
        Environment { cells, terrain, gradient, next_id: NUM_CELLS as i64 }
    }

    /// One tick of the world, in order: births for the cells flagged last tick, with
    /// identities from `next_id` on; removal of the dead; the collision of every pair;
    /// then every cell's own update. Fails, changing nothing, when the identities of
    /// the births do not fit in an `i64`.
    pub fn update(&mut self, loop_step: i64) -> (r: Result<(), LifecycleError>)
        requires
            old(self).wf(),
            0 <= loop_step <= MAX_STEP,
        ensures
            final(self).wf(),
            final(self).terrain == old(self).terrain,
            final(self).gradient == old(self).gradient,
            r is Err <==> old(self).next_id + birth_count(old(self).cells@) > i64::MAX,
            r is Err ==> final(self).cells@ == old(self).cells@ && final(self).next_id == old(self).next_id,
            r is Ok ==> final(self).next_id == old(self).next_id + birth_count(old(self).cells@),
            r is Ok ==> exists|born: Seq<Cell>|
                births_done(old(self).cells@, born, loop_step as int, old(self).next_id as int)
                    && #[trigger] ticked(
                    collide_all(living(born)),
                    final(self).cells@,
                    old(self).terrain@,
                    old(self).gradient@,
                    loop_step as int,
                ),
    {
        proof {
            lemma_births_before_bounds(self.cells@, self.cells@.len() as int);
        }
        let result = update_cells(&mut self.cells, &self.terrain, &self.gradient, loop_step, self.next_id);
        match result {
            Ok(next) => {
                self.next_id = next;
                Ok(())
            },
            Err(e) => Err(e),
        }
    }

    /// Replaces the light field; the gradient is kept as it was.
    pub fn update_terrain(&mut self, terrain: Vec<Vec<i64>>)
        requires
            old(self).wf(),
            terrain_wf(terrain@),
        ensures
            final(self).wf(),
            final(self).terrain@ == terrain@,
            final(self).cells == old(self).cells,
            final(self).gradient == old(self).gradient,
            final(self).next_id == old(self).next_id,
    {
        self.terrain = terrain;
    }
}

/// In a well-formed world every cell's health and energy lie within their capacities.
pub proof fn lemma_balances_in_range(env: Environment)
    requires
        env.wf(),
    ensures
        forall|i: int|
            0 <= i < env.cells@.len() ==> {
                &&& 0 <= (#[trigger] env.cells@[i]).health <= env.cells@[i].health_capacity
                &&& 0 <= env.cells@[i].energy <= env.cells@[i].energy_capacity
            },
{
    assert forall|i: int| 0 <= i < env.cells@.len() implies {
        &&& 0 <= (#[trigger] env.cells@[i]).health <= env.cells@[i].health_capacity
        &&& 0 <= env.cells@[i].energy <= env.cells@[i].energy_capacity
    } by {
        assert(env.cells@[i].wf());
    }
}

/// In a well-formed world every cell's radius is the radius of a disk of area its mass.
pub proof fn lemma_radius_matches_mass(env: Environment)
    requires
        env.wf(),
    ensures
        forall|i: int|
            0 <= i < env.cells@.len() ==> crate::cell::radius_matches(
                (#[trigger] env.cells@[i]).radius as int,
                env.cells@[i].mass as int,
            ),
{
    assert forall|i: int| 0 <= i < env.cells@.len() implies crate::cell::radius_matches(
        (#[trigger] env.cells@[i]).radius as int,
        env.cells@[i].mass as int,
    ) by {
        assert(env.cells@[i].wf());
    }
}

/// In a well-formed world no two cells share an identity, and every identity is below
/// the next one to be handed out.
pub proof fn lemma_ids_distinct(env: Environment)
    requires
        env.wf(),
    ensures
        forall|i: int, j: int|
            0 <= i < env.cells@.len() && 0 <= j < env.cells@.len() && i != j ==> (#[trigger] env.cells@[i]).id
                != (#[trigger] env.cells@[j]).id,
        forall|i: int| 0 <= i < env.cells@.len() ==> (#[trigger] env.cells@[i]).id < env.next_id,
{
    assert forall|i: int, j: int|
        0 <= i < env.cells@.len() && 0 <= j < env.cells@.len() && i != j implies (#[trigger] env.cells@[i]).id
            != (#[trigger] env.cells@[j]).id by {
        if i < j {
            assert(env.cells@[i].id < env.cells@[j].id);
        } else {
            assert(env.cells@[j].id < env.cells@[i].id);
        }
    }
}

} // verus!
