use lib_simulation::{Cell, CellStatus, ConfigError, CubeCell, Health, HealthStatus, Rules};
use lib_simulation::{HEALTH, MIN_HEALTH};

fn rules_sustaining_four() -> Rules {
    let mut rules = Rules::default();
    rules.neighbours = vec![4];
    rules
}

#[test]
fn health_new() {
    let health = Health::new(15, 5).unwrap();
    assert_eq!(health.health_ticks, 20);
    assert_eq!(health.decay_ticks, 5);
}

#[test]
fn health_new_zero_decay() {
    assert_eq!(Health::new(15, 0), Err(ConfigError::ZeroDecayTicks));
}

#[test]
fn health_saturates_at_max() {
    let health = Health::new(250, 10).unwrap();
    assert_eq!(health.health_ticks, 255);
    assert_eq!(health.decay_ticks, 10);
}

#[test]
fn health_update() {
    let rules = rules_sustaining_four();
    let cases: &[(u8, u8, u8, u8)] = &[
        (15, 5, 4, 15 + 5 + 1),
        (15, 5, 5, 15 + 5 - 1),
        (1, 1, 5, 1 + 1 - 1),
        (255, 5, 4, 255),
        (255, 5, 5, 255 - 1),
        (0, 5, 4, 0 + 5 + 1),
        (0, 5, 5, 0 + 5 - 1),
    ];
    for &(base, decay, neighbours, expected_health_ticks) in cases {
        let mut health = Health::new(base, decay).unwrap();
        health.update(&rules, neighbours);
        assert_eq!(health.health_ticks, expected_health_ticks);
    }
}

#[test]
fn health_is_alive() {
    for health_ticks in [15, 255, 5 + 1] {
        let mut health = Health::new(15, 5).unwrap();
        health.health_ticks = health_ticks;
        assert!(health.is_alive());
    }
}

#[test]
fn health_is_decaying() {
    for health_ticks in [5, 1] {
        let mut health = Health::new(15, 5).unwrap();
        health.health_ticks = health_ticks;
        assert!(health.is_decaying());
    }
}

#[test]
fn health_is_dead() {
    let mut health = Health::new(15, 5).unwrap();
    health.health_ticks = 0;
    assert!(health.is_dead());
}

#[test]
fn health_status_boundary() {
    let mut health = Health::new(0, 5).unwrap();
    assert_eq!(health.health_ticks, 5);
    assert!(health.is_decaying());
    health.health_ticks = 6;
    assert!(health.is_alive());
    health.health_ticks = 0;
    assert!(health.is_dead());
}

#[test]
fn health_hysteresis_decay_floor_and_revive() {
    let rules = rules_sustaining_four();
    let mut health = Health::new(3, 2).unwrap();
    assert_eq!(health.health_ticks, 5);
    for expected in [4, 3, 2, 1, 0] {
        health.update(&rules, 7);
        assert_eq!(health.health_ticks, expected);
    }
    health.update(&rules, 7);
    assert_eq!(health.health_ticks, 0, "a dead cell stays at the floor");
    for expected in [1, 2, 3] {
        health.update(&rules, 4);
        assert_eq!(health.health_ticks, expected, "a sustaining count revives a dead cell");
    }
    health.health_ticks = 254;
    health.update(&rules, 4);
    assert_eq!(health.health_ticks, 255);
    health.update(&rules, 4);
    assert_eq!(health.health_ticks, 255, "the counter saturates instead of wrapping");
}

#[test]
fn cube_cell_new_and_from_index() {
    let cells = [CubeCell::new((1, 2, 3)), CubeCell::from_index((1, 2, 3))];
    for cell in cells {
        assert_eq!(cell.neighbours, 0);
        assert_eq!(cell.health, Health::new(HEALTH, MIN_HEALTH).unwrap());
        assert_eq!(cell.index, (1, 2, 3));
    }
}

#[test]
fn update_neighbours() {
    let rules = Rules::new(2).unwrap();
    let cells = vec![
        CubeCell::new((0, 0, 0)),
        CubeCell::new((0, 0, 1)),
        CubeCell::new((0, 1, 0)),
        CubeCell::new((0, 1, 1)),
        CubeCell::new((1, 0, 0)),
        CubeCell::new((1, 0, 1)),
        CubeCell::new((1, 1, 0)),
        CubeCell::new((1, 1, 1)),
    ];
    let mut cell = CubeCell::new((0, 0, 0));
    cell.update_neighbours(&rules, &cells);
    assert_eq!(cell.neighbours, 3, "a corner cell counts only the in-bounds offsets");
}

#[test]
fn update_neighbours_skips_dead() {
    let rules = Rules::new(2).unwrap();
    let mut cells = Vec::new();
    for i in 0..2 {
        for j in 0..2 {
            for k in 0..2 {
                let mut cell = CubeCell::new((i, j, k));
                cell.health.health_ticks = 0;
                cells.push(cell);
            }
        }
    }
    cells[4].health.health_ticks = HEALTH; // the cell at (1, 0, 0), alive
    let mut cell = CubeCell::new((0, 0, 0));
    cell.update_neighbours(&rules, &cells);
    assert_eq!(cell.neighbours, 1);
}

#[test]
fn update_health() {
    let rules = rules_sustaining_four();
    let cases: &[(u8, u8, u8)] = &[
        (4, MIN_HEALTH, HEALTH + MIN_HEALTH + 1),
        (5, MIN_HEALTH, HEALTH + MIN_HEALTH - 1),
    ];
    for &(neighbours, decay_ticks, expected_health_ticks) in cases {
        let mut cell = CubeCell::new((1, 2, 3));
        cell.neighbours = neighbours;
        cell.update_health(&rules);
        assert_eq!(cell.health, Health { health_ticks: expected_health_ticks, decay_ticks });
    }
}

#[test]
fn clear_neighbours() {
    let mut cell = CubeCell::new((1, 2, 3));
    cell.neighbours = 10;
    assert_eq!(cell.neighbours, 10);
    cell.clear_neighbours();
    assert_eq!(cell.neighbours, 0);
}

#[test]
fn randomize_health() {
    let mut cell = CubeCell::new((1, 2, 3));
    cell.randomize_health();
    assert!(cell.health.health_ticks < HEALTH);
    assert_eq!(cell.index, (1, 2, 3));
    assert_eq!(cell.neighbours, 0);
    assert_eq!(cell.health.decay_ticks, MIN_HEALTH);
}

#[test]
fn status() {
    let mut cell = CubeCell::new((1, 2, 3));
    let actual_expected = [
        (HEALTH, CellStatus::Alive),
        (MIN_HEALTH, CellStatus::Decaying),
        (0, CellStatus::Dead),
    ];
    for (actual, expected) in actual_expected {
        cell.health.health_ticks = actual;
        let (status, magnitudes) = cell.status();
        assert_eq!(status, expected);
        assert_eq!(
            magnitudes,
            HealthStatus { max_health: HEALTH, curr_health: actual, min_health: MIN_HEALTH }
        );
    }
}

#[test]
fn cell_update_combines_scan_and_health() {
    let rules = Rules::new(2).unwrap();
    let cells = vec![
        CubeCell::new((0, 0, 0)),
        CubeCell::new((0, 0, 1)),
        CubeCell::new((0, 1, 0)),
        CubeCell::new((0, 1, 1)),
        CubeCell::new((1, 0, 0)),
        CubeCell::new((1, 0, 1)),
        CubeCell::new((1, 1, 0)),
        CubeCell::new((1, 1, 1)),
    ];
    let mut cell = CubeCell::new((0, 0, 0));
    cell.neighbours = 9; // stale count from an earlier tick; must be cleared
    cell.update(&rules, &cells);
    assert_eq!(cell.neighbours, 3);
    assert_eq!(cell.health.health_ticks, HEALTH + MIN_HEALTH + 1, "three neighbours sustain");
}
