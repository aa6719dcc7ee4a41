use evolution_sim::appearance::{cell_lighting, ColorPart};
use evolution_sim::random::generate_non_zero_integer;
use evolution_sim::cell::{mutate_hue, radius_for_mass, speed_of, Cell, Color};
use evolution_sim::constants::{HEIGHT_UNITS, NUM_CELLS, SCALE, WIDTH_UNITS};
use evolution_sim::environment::Environment;
use evolution_sim::field::{calculate_gradient, grid_index_of, sample_light};
use evolution_sim::fixed::isqrt;
use evolution_sim::lifecycle::{remove_dead_cells, reproduce_now, LifecycleError};
use evolution_sim::simulation::{handle_collisions, update_cells};

fn color(hue: i64) -> Color {
    Color { hue, saturation: SCALE, value: SCALE, alpha: SCALE }
}

fn cell_at(id: i64, x_px: i64, y_px: i64, mass: i64) -> Cell {
    Cell {
        id,
        parent_id: -1,
        creation_step: 0,
        age: 0,
        alive: true,
        reproducing: false,
        reproduce_now: false,
        last_reproduction_age: 0,
        x_pos: x_px * SCALE,
        y_pos: y_px * SCALE,
        x_vel: 0,
        y_vel: 0,
        speed: 0,
        mass,
        radius: radius_for_mass(mass),
        health: 100 * SCALE,
        health_capacity: 100 * SCALE,
        health_restore_rate: 20_000,
        health_decay_rate: 10_000,
        energy: 100 * SCALE,
        energy_capacity: 100 * SCALE,
        energy_decay_rate: 10_000,
        light_exposure: 0,
        light_consumption_efficiency: mass / 2000,
        reproduction_cost: mass,
        reproduction_progress: 0,
        membrane_color: color(100_000),
        inside_color: color(200_000),
        nucleus_color: color(300_000),
    }
}

fn uniform_terrain(w: usize, h: usize, light: i64) -> Vec<Vec<i64>> {
    vec![vec![light; h]; w]
}

fn dist_sq(a: &Cell, b: &Cell) -> i128 {
    let dx = (a.x_pos - b.x_pos) as i128;
    let dy = (a.y_pos - b.y_pos) as i128;
    dx * dx + dy * dy
}

#[test]
fn isqrt_exact_values() {
    assert_eq!(isqrt(0), 0);
    assert_eq!(isqrt(1), 1);
    assert_eq!(isqrt(15), 3);
    assert_eq!(isqrt(16), 4);
    assert_eq!(isqrt(u64::MAX), 4_294_967_295);
}

#[test]
fn radius_follows_area_formula() {
    // sqrt(100 / pi) = 5.6418958...
    assert_eq!(radius_for_mass(100 * SCALE), 5_641_895);
    // sqrt(256 / pi) = 9.0270333..., rounded down after the division by 355 / 113
    assert_eq!(radius_for_mass(256 * SCALE), 9_027_032);
}

#[test]
fn speed_is_euclidean_norm() {
    assert_eq!(speed_of(3 * SCALE, -4 * SCALE), 5 * SCALE);
    assert_eq!(speed_of(0, 0), 0);
}

#[test]
fn grid_index_rounds_and_clamps() {
    assert_eq!(grid_index_of(1_499_999, 10), 1);
    assert_eq!(grid_index_of(1_500_000, 10), 2);
    assert_eq!(grid_index_of(500 * SCALE, 10), 9);
}

#[test]
fn light_sample_reads_rounded_cell() {
    let mut t = uniform_terrain(4, 4, 0);
    t[2][3] = 700_000;
    assert_eq!(sample_light(&t, 2_400_000, 2_600_000), 700_000);
    assert_eq!(sample_light(&t, 2_400_000, 9_000_000), 700_000);
}

#[test]
fn gradient_is_downhill_central_difference() {
    // light rises by 4 units per cell along x
    let t: Vec<Vec<i64>> = (0..4).map(|x| vec![x * 4 * SCALE; 3]).collect();
    let g = calculate_gradient(&t);
    assert_eq!(g.len(), 4);
    for column in &g {
        assert_eq!(column.len(), 3);
        for v in column {
            assert_eq!(*v, (-4 * SCALE, 0));
        }
    }
    let thin = calculate_gradient(&uniform_terrain(2, 5, SCALE));
    assert!(thin.iter().all(|c| c.iter().all(|v| *v == (0, 0))));
}

#[test]
fn hue_mutation_wraps_around() {
    assert_eq!(mutate_hue(color(10_000), -30_000).hue, 980_000);
    assert_eq!(mutate_hue(color(990_000), 20_000).hue, 10_000);
    assert_eq!(mutate_hue(color(500_000), 5_000).hue, 505_000);
}

#[test]
fn scenario_resting_cell_one_tick() {
    let terrain = uniform_terrain(300, 300, 500_000);
    let gradient = calculate_gradient(&terrain);
    let mut c = cell_at(0, 100, 100, 100 * SCALE);
    c.health = 50 * SCALE;
    c.update_with(&terrain, &gradient, 1, 0, 0, SCALE);
    assert_eq!(c.x_pos, 100 * SCALE);
    assert_eq!(c.y_pos, 100 * SCALE);
    assert_eq!((c.x_vel, c.y_vel), (0, 0));
    assert_eq!(c.age, 1);
    assert_eq!(c.light_exposure, 500_000);
    // energy: 100 - 1 (metabolism) - 2 (restoration) + 2.5 (light) - 2 (reproduction)
    assert_eq!(c.energy, 97_500_000);
    // health: 50 - 1 (decay) + 2 (restoration)
    assert_eq!(c.health, 51 * SCALE);
    assert_eq!(c.mass, 102 * SCALE);
    assert_eq!(c.radius, radius_for_mass(102 * SCALE));
    assert_eq!(c.light_consumption_efficiency, 102 * SCALE / 2000);
    assert_eq!(c.reproduction_progress, 20_000);
    assert!(c.reproducing);
    assert!(c.alive);
}

#[test]
fn energy_balance_clamps_to_capacity() {
    let mut c = cell_at(0, 100, 100, 100 * SCALE);
    c.light_exposure = 10 * SCALE;
    c.update_energy();
    assert_eq!(c.energy, c.energy_capacity);
    let mut d = cell_at(0, 100, 100, 100 * SCALE);
    d.energy = 500_000;
    d.light_exposure = -10 * SCALE;
    d.update_energy();
    assert_eq!(d.energy, 0);
}

#[test]
fn health_restoration_needs_energy() {
    let mut c = cell_at(0, 100, 100, 100 * SCALE);
    c.health = 50 * SCALE;
    c.energy = 300_000;
    c.update_health();
    // 50 - 1 of decay, then only the 0.3 of energy available
    assert_eq!(c.health, 49_300_000);
    assert!(c.alive);
}

#[test]
fn scenario_overlapping_pair_separates() {
    let mass = 100 * SCALE;
    let r = radius_for_mass(mass);
    let mut a = cell_at(1, 200, 200, mass);
    let mut b = cell_at(2, 200, 200, mass);
    b.x_pos = a.x_pos - (2 * r - SCALE);
    let before = dist_sq(&a, &b);
    a.handle_cell_collision(&mut b);
    assert!(a.x_vel > 0);
    assert!(b.x_vel < 0);
    a.update_position_with(0, 0);
    b.update_position_with(0, 0);
    assert!(dist_sq(&a, &b) > before);
}

#[test]
fn collision_of_equal_masses_is_symmetric() {
    let mass = 150 * SCALE;
    let mut a = cell_at(1, 300, 300, mass);
    let mut b = cell_at(2, 305, 300, mass);
    a.handle_cell_collision(&mut b);
    assert!(a.x_vel != 0);
    assert_eq!(a.x_vel, -b.x_vel);
    assert_eq!(a.y_vel, 0);
    assert_eq!(b.y_vel, 0);
}

#[test]
fn collision_push_is_inverse_to_mass() {
    let mut a = cell_at(1, 300, 300, 100 * SCALE);
    let mut b = cell_at(2, 306, 300, 200 * SCALE);
    a.handle_cell_collision(&mut b);
    assert!(a.x_vel < 0 && b.x_vel > 0);
    assert!(a.x_vel.abs() > b.x_vel.abs());
}

#[test]
fn grace_spring_is_gentler_for_parent_and_child() {
    let mut p = cell_at(1, 300, 300, 100 * SCALE);
    let mut c = cell_at(2, 305, 300, 100 * SCALE);
    c.parent_id = 1;
    let mut q = cell_at(3, 300, 300, 100 * SCALE);
    let mut s = cell_at(4, 305, 300, 100 * SCALE);
    p.handle_cell_collision(&mut c);
    q.handle_cell_collision(&mut s);
    assert!(p.x_vel.abs() < q.x_vel.abs());
}

#[test]
fn equal_radii_do_not_shade() {
    let mut a = cell_at(1, 300, 300, 100 * SCALE);
    let mut b = cell_at(2, 303, 300, 100 * SCALE);
    a.light_exposure = SCALE;
    b.light_exposure = SCALE;
    a.handle_cell_collision(&mut b);
    assert_eq!((a.light_exposure, b.light_exposure), (SCALE, SCALE));
}

#[test]
fn collision_shades_light_by_lens_area() {
    // masses 100 and 200, 8 px apart: the lens covers 42.18 square px, so the smaller
    // disk keeps 0.5782 of its light and the larger 0.7891
    let mut a = cell_at(1, 300, 300, 100 * SCALE);
    let mut b = cell_at(2, 308, 300, 200 * SCALE);
    a.light_exposure = SCALE;
    b.light_exposure = SCALE;
    a.handle_cell_collision(&mut b);
    assert_eq!(a.light_exposure, 577_998);
    assert_eq!(b.light_exposure, 788_999);
    assert!((a.light_exposure - 578_236).abs() < 1_000);
    assert!((b.light_exposure - 789_118).abs() < 1_000);
}

#[test]
fn engulfed_disk_is_fully_shaded() {
    let mut a = cell_at(1, 300, 300, 25 * SCALE);
    let mut b = cell_at(2, 301, 300, 400 * SCALE);
    a.light_exposure = SCALE;
    b.light_exposure = SCALE;
    a.handle_cell_collision(&mut b);
    assert_eq!(a.light_exposure, 0);
    // the larger disk keeps 1 - 25 / 400 of its light, up to rounding of the radii
    assert!((b.light_exposure - 937_500).abs() < 100);
}

#[test]
fn distant_cells_do_not_interact() {
    let mut a = cell_at(1, 100, 100, 100 * SCALE);
    let mut b = cell_at(2, 200, 100, 100 * SCALE);
    a.light_exposure = SCALE;
    a.handle_cell_collision(&mut b);
    assert_eq!((a.x_vel, b.x_vel, a.light_exposure), (0, 0, SCALE));
}

#[test]
fn all_pairs_collide_once() {
    let mut cells = vec![
        cell_at(0, 300, 300, 100 * SCALE),
        cell_at(1, 305, 300, 100 * SCALE),
        cell_at(2, 900, 900, 100 * SCALE),
    ];
    handle_collisions(&mut cells);
    assert!(cells[0].x_vel < 0 && cells[1].x_vel > 0);
    assert_eq!(cells[0].x_vel, -cells[1].x_vel);
    assert_eq!(cells[2].x_vel, 0);
}

#[test]
fn reflection_off_right_and_bottom_walls() {
    let mut c = cell_at(0, 10, 10, 100 * SCALE);
    c.x_pos = WIDTH_UNITS + 3 * SCALE;
    c.y_pos = HEIGHT_UNITS;
    c.x_vel = 2 * SCALE;
    c.y_vel = SCALE;
    c.handle_boundary_collision();
    assert_eq!(c.x_pos, WIDTH_UNITS - c.radius);
    assert_eq!(c.y_pos, HEIGHT_UNITS - c.radius);
    assert_eq!((c.x_vel, c.y_vel), (-2 * SCALE, -SCALE));
}

#[test]
fn reflection_off_left_wall() {
    let mut c = cell_at(0, 10, 10, 100 * SCALE);
    c.x_pos = -SCALE;
    c.x_vel = -3 * SCALE;
    c.handle_boundary_collision();
    assert_eq!(c.x_pos, c.radius);
    assert_eq!(c.x_vel, 3 * SCALE);
    assert_eq!(c.y_pos, 10 * SCALE);
}

#[test]
fn scenario_birth_after_full_progress() {
    let mut c = cell_at(7, 400, 400, 100 * SCALE);
    c.reproduction_progress = 990_000;
    c.age = 12;
    c.update_and_check_reproduction_with(SCALE);
    assert!(c.reproduce_now);
    assert!(!c.reproducing);
    assert_eq!(c.reproduction_progress, 0);
    assert_eq!(c.last_reproduction_age, 12);
    let mass_before = c.mass;
    assert_eq!(mass_before, 102 * SCALE);
    let mut cells = vec![c, cell_at(3, 900, 900, 100 * SCALE)];
    assert_eq!(reproduce_now(&mut cells, 5, 8), Ok(9));
    assert_eq!(cells.len(), 3);
    let child = cells[2];
    assert_eq!(child.id, 8);
    assert_eq!(child.parent_id, 7);
    assert_eq!(child.creation_step, 5);
    assert_eq!(child.mass, mass_before / 2);
    assert_eq!(cells[0].mass + child.mass, mass_before);
    assert_eq!(cells[0].radius, radius_for_mass(cells[0].mass));
    assert!(!cells[0].reproduce_now);
    assert_eq!((child.health, child.energy), (100 * SCALE, 100 * SCALE));
    assert_eq!((child.health_restore_rate, child.health_decay_rate), (200_000, 100_000));
    let half = (radius_for_mass(mass_before) / 2) as i128;
    let dx = (child.x_pos - cells[0].x_pos) as i128;
    let dy = (child.y_pos - cells[0].y_pos) as i128;
    assert!(half * half - 2 * half <= dx * dx + dy * dy && dx * dx + dy * dy <= half * half);
    assert!(child.reproduction_cost >= 100 * SCALE - 2 * SCALE);
    assert!(child.reproduction_cost < 100 * SCALE + 2 * SCALE);
    assert_eq!(cells[1].mass, 100 * SCALE);
}

#[test]
fn progress_continues_while_birth_pending() {
    let mut c = cell_at(7, 400, 400, 100 * SCALE);
    c.reproduce_now = true;
    c.update_and_check_reproduction_with(SCALE);
    assert_eq!(c.mass, 102 * SCALE);
    assert_eq!(c.energy, 98 * SCALE);
    assert_eq!(c.reproduction_progress, 20_000);
    assert!(c.reproducing);
    assert!(c.reproduce_now);
}

#[test]
fn pruned_ids_are_not_reissued() {
    let mut a = cell_at(0, 400, 400, 100 * SCALE);
    a.reproduce_now = true;
    let mut b = cell_at(1, 800, 400, 100 * SCALE);
    b.alive = false;
    let mut cells = vec![a, b];
    remove_dead_cells(&mut cells);
    assert_eq!(cells.len(), 1);
    assert_eq!(reproduce_now(&mut cells, 2, 2), Ok(3));
    assert_eq!(cells[1].id, 2);
    assert_eq!(cells[1].parent_id, 0);
}

#[test]
fn children_get_consecutive_ids() {
    let mut a = cell_at(4, 400, 400, 100 * SCALE);
    let mut b = cell_at(9, 800, 400, 100 * SCALE);
    a.reproduce_now = true;
    b.reproduce_now = true;
    let mut cells = vec![a, b];
    assert_eq!(reproduce_now(&mut cells, 3, 20), Ok(22));
    assert_eq!((cells[2].id, cells[2].parent_id), (20, 4));
    assert_eq!((cells[3].id, cells[3].parent_id), (21, 9));
}

#[test]
fn id_overflow_is_reported() {
    let mut a = cell_at(4, 400, 400, 100 * SCALE);
    a.reproduce_now = true;
    let mut cells = vec![a];
    assert_eq!(reproduce_now(&mut cells, 3, i64::MAX), Err(LifecycleError::IdOverflow));
    assert_eq!(cells.len(), 1);
    assert!(cells[0].reproduce_now);
    let mut more = vec![cells[0]];
    assert_eq!(reproduce_now(&mut more, 3, i64::MAX - 1), Ok(i64::MAX));
    assert_eq!(more[1].id, i64::MAX - 1);
}

#[test]
fn scenario_death_at_zero_health() {
    let mut c = cell_at(1, 400, 400, 100 * SCALE);
    c.health = SCALE;
    c.energy = 0;
    c.update_health();
    assert_eq!(c.health, 0);
    assert!(!c.alive);
    let mut cells = vec![cell_at(0, 100, 100, 100 * SCALE), c, cell_at(2, 700, 100, 100 * SCALE)];
    remove_dead_cells(&mut cells);
    assert_eq!(cells.len(), 2);
    assert_eq!((cells[0].id, cells[1].id), (0, 2));
}

#[test]
fn seeds_are_random_and_inside_the_domain() {
    let cells: Vec<Cell> = (0..20).map(|i| Cell::new(i, 0)).collect();
    for c in &cells {
        if c.id == 1 {
            assert_eq!(c.mass, 256 * SCALE);
            assert_eq!(c.membrane_color.saturation, 0);
        } else {
            assert!(81 * SCALE <= c.mass && c.mass <= 256 * SCALE);
        }
        assert!(c.radius <= c.x_pos && c.x_pos <= WIDTH_UNITS - c.radius);
        assert!(c.radius <= c.y_pos && c.y_pos <= HEIGHT_UNITS - c.radius);
        assert_eq!(c.reproduction_cost, c.mass);
        assert!(c.reproduction_progress < SCALE / 2);
    }
    let first = cells[0].mass;
    assert!(cells.iter().any(|c| c.mass != first));
    assert!(cells.iter().any(|c| c.x_pos != cells[0].x_pos));
}

#[test]
fn jitter_is_drawn_afresh() {
    let mut moved = 0;
    for _ in 0..20 {
        let mut c = cell_at(0, 500, 500, 100 * SCALE);
        c.update_position();
        assert!(c.x_vel.abs() < 10_000 && c.y_vel.abs() < 10_000);
        if c.x_vel != 0 || c.y_vel != 0 {
            moved += 1;
        }
    }
    assert!(moved > 0);
}

#[test]
fn child_colours_are_mutated_within_bounds() {
    let p = cell_at(0, 500, 500, 100 * SCALE);
    let mut changed = false;
    for i in 0..10 {
        let c = Cell::new_from_reproduction(
            i + 1, 0, 1, 50 * SCALE, p.x_pos, p.y_pos, 0, 0,
            p.membrane_color, p.inside_color, p.nucleus_color, 35 * SCALE,
        );
        let shift = (c.membrane_color.hue - p.membrane_color.hue).rem_euclid(SCALE);
        assert!(shift < 40_000 || shift >= SCALE - 40_000);
        assert!(c.reproduction_cost >= 36 * SCALE && c.reproduction_cost < 37 * SCALE);
        if c.membrane_color.hue != p.membrane_color.hue || c.reproduction_cost != 36 * SCALE {
            changed = true;
        }
    }
    assert!(changed);
}

#[test]
fn population_tick_keeps_invariants() {
    let terrain = uniform_terrain(64, 64, 800_000);
    let gradient = calculate_gradient(&terrain);
    let mut cells: Vec<Cell> = (0..10).map(|i| Cell::new(i, 0)).collect();
    let mut next_id: i64 = 10;
    for step in 1..30 {
        next_id = update_cells(&mut cells, &terrain, &gradient, step, next_id).unwrap();
        assert!(cells.iter().all(|c| c.id < next_id));
        for c in &cells {
            assert!(0 <= c.health && c.health <= c.health_capacity);
            assert!(0 <= c.energy && c.energy <= c.energy_capacity);
            assert_eq!(c.radius, radius_for_mass(c.mass));
            assert!(c.radius <= c.x_pos && c.x_pos <= WIDTH_UNITS - c.radius);
        }
    }
}

#[test]
fn environment_hands_out_increasing_ids() {
    let terrain = uniform_terrain(32, 32, 900_000);
    let mut env = Environment::new(terrain, 0);
    assert_eq!(env.cells.len(), NUM_CELLS);
    assert_eq!(env.next_id, NUM_CELLS as i64);
    for step in 1..80 {
        let before = env.next_id;
        env.update(step).unwrap();
        assert!(env.next_id >= before);
        for w in env.cells.windows(2) {
            assert!(w[0].id < w[1].id);
        }
        assert!(env.cells.iter().all(|c| c.id < env.next_id && c.alive || c.id < env.next_id));
    }
    env.update_terrain(uniform_terrain(8, 8, 0));
    assert_eq!(env.terrain.len(), 8);
}

#[test]
fn lighting_follows_light_field() {
    let c = cell_at(0, 2, 2, 100 * SCALE);
    let full = cell_lighting(&c, &uniform_terrain(5, 5, SCALE), ColorPart::Inside);
    assert_eq!(full, Color { value: SCALE, ..c.inside_color });
    let dark = cell_lighting(&c, &uniform_terrain(5, 5, 0), ColorPart::Nucleus);
    assert_eq!(dark, Color { value: 200_000, ..c.nucleus_color });
    let half = cell_lighting(&c, &uniform_terrain(5, 5, 500_000), ColorPart::Membrane);
    assert_eq!(half.value, 600_000);
    assert_eq!(half.hue, c.membrane_color.hue);
    let slightly_negative = cell_lighting(&c, &uniform_terrain(5, 5, -1), ColorPart::Membrane);
    assert_eq!(slightly_negative.value, 200_000);
}

#[test]
fn non_zero_integers_avoid_zero() {
    for _ in 0..50 {
        let r = generate_non_zero_integer(-1, 1);
        assert!(r == -1 || r == 1);
        assert_eq!(generate_non_zero_integer(0, 1), 1);
        assert_eq!(generate_non_zero_integer(-1, 0), -1);
        let s = generate_non_zero_integer(3, 9);
        assert!((3..=9).contains(&s));
    }
}

#[test]
fn child_near_a_wall_stays_half_a_radius_away() {
    for _ in 0..20 {
        let mut p = cell_at(3, 0, 0, 100 * SCALE);
        p.x_pos = 0;
        p.y_pos = HEIGHT_UNITS;
        p.reproduce_now = true;
        let mut cells = vec![p];
        assert_eq!(reproduce_now(&mut cells, 1, 4), Ok(5));
        let child = cells[1];
        let half = (p.radius / 2) as i128;
        let dx = (child.x_pos - p.x_pos) as i128;
        let dy = (child.y_pos - p.y_pos) as i128;
        assert!(half * half - 2 * half <= dx * dx + dy * dy && dx * dx + dy * dy <= half * half);
        assert!(0 <= child.x_pos && child.y_pos <= HEIGHT_UNITS);
    }
}
