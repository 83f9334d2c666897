use lib_simulation::{ConfigError, CubeCell, Rules, World, HEALTH, MIN_HEALTH};

/// A deterministic 2x2x2 world: cell healths follow a fixed pattern.
fn small_world() -> World {
    let rules = Rules::new(2).unwrap();
    let mut cells = Vec::new();
    for i in 0..2u16 {
        for j in 0..2u16 {
            for k in 0..2u16 {
                let mut cell = CubeCell::new((i, j, k));
                let pos = (i * 4 + j * 2 + k) as u8;
                cell.health.health_ticks = pos * 13 % HEALTH;
                cells.push(cell);
            }
        }
    }
    World { rules, cells }
}

#[test]
fn world_new() {
    let (previous, world) = World::new(3).unwrap();
    assert_eq!(previous, world);
}

#[test]
fn new_invariants() {
    for dims in [1u16, 2, 3, 5] {
        let (previous, world) = World::new(dims).unwrap();
        assert_eq!(previous, world);
        let d = dims as usize;
        assert_eq!(world.cells.len(), d * d * d);
        assert_eq!(world.rules.dims, dims);
        for i in 0..dims {
            for j in 0..dims {
                for k in 0..dims {
                    let pos = i as usize * d * d + j as usize * d + k as usize;
                    let cell = &world.cells[pos];
                    assert_eq!(cell.index, (i, j, k));
                    assert_eq!(cell.neighbours, 0);
                    assert_eq!(cell.health.decay_ticks, MIN_HEALTH);
                    assert!(cell.health.health_ticks < HEALTH);
                }
            }
        }
    }
}

#[test]
fn world_new_zero_dims() {
    assert_eq!(World::new(0).unwrap_err(), ConfigError::ZeroDims);
}

#[test]
fn world_update() {
    let (mut previous, mut world) = World::new(2).unwrap();
    world.update(&mut previous);
    assert_ne!(world.cells, previous.cells);
}

#[test]
fn update_snapshots_the_prior_generation() {
    let (mut previous, mut world) = World::new(3).unwrap();
    let before = world.clone();
    world.update(&mut previous);
    assert_eq!(previous, before);
}

#[test]
fn update_steps_every_cell_exactly() {
    // All eight cells alive at 50 ticks: every corner of a 2-grid has exactly
    // three in-bounds neighbours, and 3 sustains, so every counter rises by 1.
    let mut world = small_world();
    for cell in world.cells.iter_mut() {
        cell.health.health_ticks = 50;
    }
    let mut previous = small_world();
    world.update(&mut previous);
    for cell in &world.cells {
        assert_eq!(cell.neighbours, 3);
        assert_eq!(cell.health.health_ticks, 51);
    }
}

#[test]
fn update_decays_unsustained_cells() {
    // All cells decaying (10 <= MIN_HEALTH): no neighbour is alive, a count
    // of zero does not sustain, so every counter falls by 1.
    let mut world = small_world();
    for cell in world.cells.iter_mut() {
        cell.health.health_ticks = 10;
    }
    let mut previous = small_world();
    world.update(&mut previous);
    for cell in &world.cells {
        assert_eq!(cell.neighbours, 0);
        assert_eq!(cell.health.health_ticks, 9);
    }
}

#[test]
fn update_task_count_independence() {
    let mut outcomes = Vec::new();
    for task_count in [1usize, 2, 3, 8, 64] {
        let mut world = small_world();
        let mut previous = small_world();
        world.update_with_tasks(&mut previous, task_count);
        outcomes.push(world.cells);
    }
    for other in &outcomes[1..] {
        assert_eq!(&outcomes[0], other, "the task count must not change the generation");
    }
}

#[test]
fn repeated_updates_stay_deterministic() {
    let mut w1 = small_world();
    let mut p1 = small_world();
    let mut w2 = small_world();
    let mut p2 = small_world();
    for _ in 0..32 {
        w1.update_with_tasks(&mut p1, 2);
        w2.update_with_tasks(&mut p2, 16);
    }
    assert_eq!(w1.cells, w2.cells);
}
