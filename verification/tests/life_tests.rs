use life::config::{BoardConfig, LifeConfig, LifeError};
use life::grid::{Cell, Grid};
use life::rules::{display_attribute, next_state, live_neighbors, CellColor};
use life::scheduler::CellSystem;
use life::snapshot::snapshot;

use rand::rngs::StdRng;
use rand::SeedableRng;

fn cfg(width: usize, height: usize, seed: Vec<(usize, usize)>, tick_interval: i64) -> LifeConfig {
    LifeConfig { board: BoardConfig { width, height }, seed, tick_interval }
}

/// The coordinates of the alive cells, in grid order.
fn alive_cells(grid: &Grid) -> Vec<(usize, usize)> {
    grid.read_view()
        .into_iter()
        .filter(|&(_, _, alive)| alive)
        .map(|(c, r, _)| (c, r))
        .collect()
}

#[test]
fn default_board_config_is_ten_by_ten() {
    let board = BoardConfig::default();
    assert_eq!(board.width, 10);
    assert_eq!(board.height, 10);
}

#[test]
fn default_life_config() {
    let config = LifeConfig::default();
    assert_eq!(config.board.width, 10);
    assert_eq!(config.board.height, 10);
    assert_eq!(config.tick_interval, 1000);
    assert!(config.seed.is_empty());
}

#[test]
fn cell_new_assigns_fields() {
    let cell = Cell::new(4, 7, true);
    assert_eq!(cell.board_column, 4);
    assert_eq!(cell.board_row, 7);
    assert!(cell.is_alive);
    let dead = Cell::new(0, 0, false);
    assert!(!dead.is_alive);
}

#[test]
fn invalid_config_zero_width() {
    let config = cfg(0, 3, Vec::new(), 1000);
    assert_eq!(Grid::initialize_seeded(&config).unwrap_err(), LifeError::InvalidConfig);
    assert_eq!(CellSystem::new(&config).unwrap_err(), LifeError::InvalidConfig);
}

#[test]
fn invalid_config_zero_height() {
    let config = cfg(3, 0, Vec::new(), 1000);
    assert_eq!(Grid::initialize_seeded(&config).unwrap_err(), LifeError::InvalidConfig);
    let mut rng = StdRng::seed_from_u64(1);
    assert_eq!(
        Grid::initialize_random(&config, &mut rng).unwrap_err(),
        LifeError::InvalidConfig
    );
}

#[test]
fn invalid_config_negative_interval() {
    let config = cfg(3, 3, Vec::new(), -1);
    assert_eq!(Grid::initialize_seeded(&config).unwrap_err(), LifeError::InvalidConfig);
    assert_eq!(CellSystem::new(&config).unwrap_err(), LifeError::InvalidConfig);
}

#[test]
fn seeded_initialization_marks_exactly_the_seed() {
    let config = cfg(3, 3, vec![(0, 2), (1, 1)], 1000);
    let grid = Grid::initialize_seeded(&config).unwrap();
    assert!(grid.is_well_formed());
    assert_eq!(grid.width, 3);
    assert_eq!(grid.height, 3);
    assert_eq!(grid.cells.len(), 9);
    assert_eq!(alive_cells(&grid), vec![(0, 2), (1, 1)]);
}

#[test]
fn random_initialization_builds_full_board() {
    let config = cfg(5, 4, Vec::new(), 1000);
    let mut rng = StdRng::seed_from_u64(3);
    let grid = Grid::initialize_random(&config, &mut rng).unwrap();
    assert!(grid.is_well_formed());
    assert_eq!(grid.width, 5);
    assert_eq!(grid.height, 4);
    assert_eq!(grid.cells.len(), 20);
    // column-major order: the cell of column c, row r sits at c * height + r
    for (k, cell) in grid.cells.iter().enumerate() {
        assert_eq!(cell.board_column, k / 4);
        assert_eq!(cell.board_row, k % 4);
    }
}

#[test]
fn read_view_reports_every_cell() {
    let config = cfg(2, 2, vec![(1, 0)], 1000);
    let grid = Grid::initialize_seeded(&config).unwrap();
    let view = grid.read_view();
    assert_eq!(
        view,
        vec![(0, 0, false), (0, 1, false), (1, 0, true), (1, 1, false)]
    );
}

#[test]
fn all_dead_board_stays_dead() {
    let config = cfg(3, 3, Vec::new(), 1000);
    let mut grid = Grid::initialize_seeded(&config).unwrap();
    let mut sys = CellSystem::new(&config).unwrap();
    let advanced = sys.tick(&mut grid, 1000);
    assert!(advanced);
    assert!(alive_cells(&grid).is_empty());
}

#[test]
fn single_isolated_cell_dies() {
    let config = cfg(3, 3, vec![(1, 1)], 1000);
    let mut grid = Grid::initialize_seeded(&config).unwrap();
    let mut sys = CellSystem::new(&config).unwrap();
    assert!(sys.tick(&mut grid, 1000));
    assert!(alive_cells(&grid).is_empty());
}

#[test]
fn block_is_a_still_life() {
    let config = cfg(4, 4, vec![(1, 1), (1, 2), (2, 1), (2, 2)], 500);
    let mut grid = Grid::initialize_seeded(&config).unwrap();
    let mut sys = CellSystem::new(&config).unwrap();
    let block = vec![(1, 1), (1, 2), (2, 1), (2, 2)];
    assert_eq!(alive_cells(&grid), block);
    for _ in 0..5 {
        assert!(sys.tick(&mut grid, 500));
        assert_eq!(alive_cells(&grid), block);
    }
}

#[test]
fn blinker_oscillates_with_period_two() {
    let config = cfg(3, 3, vec![(1, 0), (1, 1), (1, 2)], 1000);
    let mut grid = Grid::initialize_seeded(&config).unwrap();
    let mut sys = CellSystem::new(&config).unwrap();
    assert_eq!(alive_cells(&grid), vec![(1, 0), (1, 1), (1, 2)]);
    assert!(sys.tick(&mut grid, 1000));
    assert_eq!(alive_cells(&grid), vec![(0, 1), (1, 1), (2, 1)]);
    assert!(sys.tick(&mut grid, 1500));
    assert_eq!(alive_cells(&grid), vec![(1, 0), (1, 1), (1, 2)]);
}

#[test]
fn corner_cell_sees_only_in_board_neighbors() {
    // Alone, the corner cell has zero alive neighbors and dies.
    let config = cfg(3, 3, vec![(0, 0)], 1000);
    let mut grid = Grid::initialize_seeded(&config).unwrap();
    let mut sys = CellSystem::new(&config).unwrap();
    assert!(sys.tick(&mut grid, 1000));
    assert!(alive_cells(&grid).is_empty());

    // With two of its three in-board neighbors alive it survives; the five
    // off-board positions contribute nothing.
    let config = cfg(3, 3, vec![(0, 0), (0, 1), (1, 0)], 1000);
    let mut grid = Grid::initialize_seeded(&config).unwrap();
    let snap = snapshot(&grid);
    assert_eq!(live_neighbors(&snap, 0, 0), 2);
    let mut sys = CellSystem::new(&config).unwrap();
    assert!(sys.tick(&mut grid, 1000));
    assert!(alive_cells(&grid).contains(&(0, 0)));
}

#[test]
fn scheduler_gates_until_the_interval_is_reached() {
    let config = cfg(3, 3, vec![(1, 0), (1, 1), (1, 2)], 1000);
    let mut grid = Grid::initialize_seeded(&config).unwrap();
    let mut sys = CellSystem::new(&config).unwrap();
    let before = alive_cells(&grid);
    for expected_accumulated in [300, 600, 900] {
        assert!(!sys.tick(&mut grid, 300));
        assert_eq!(sys.accumulated, expected_accumulated);
        assert_eq!(alive_cells(&grid), before);
    }
    // the call whose cumulative sum reaches the interval advances exactly one
    // generation and resets the accumulator
    assert!(sys.tick(&mut grid, 300));
    assert_eq!(sys.accumulated, 0);
    assert_eq!(alive_cells(&grid), vec![(0, 1), (1, 1), (2, 1)]);
}

#[test]
fn huge_delta_advances_at_most_one_generation() {
    // one tick with a delta of many intervals still advances one generation
    let config = cfg(3, 3, vec![(1, 0), (1, 1), (1, 2)], 10);
    let mut grid = Grid::initialize_seeded(&config).unwrap();
    let mut sys = CellSystem::new(&config).unwrap();
    assert!(sys.tick(&mut grid, 100000));
    assert_eq!(sys.accumulated, 0);
    assert_eq!(alive_cells(&grid), vec![(0, 1), (1, 1), (2, 1)]);
}

#[test]
fn identical_seeds_give_identical_runs() {
    let config = cfg(8, 8, Vec::new(), 100);
    let mut rng_a = StdRng::seed_from_u64(42);
    let mut rng_b = StdRng::seed_from_u64(42);
    let mut grid_a = Grid::initialize_random(&config, &mut rng_a).unwrap();
    let mut grid_b = Grid::initialize_random(&config, &mut rng_b).unwrap();
    assert_eq!(grid_a.read_view(), grid_b.read_view());
    let mut sys_a = CellSystem::new(&config).unwrap();
    let mut sys_b = CellSystem::new(&config).unwrap();
    for _ in 0..10 {
        assert_eq!(sys_a.tick(&mut grid_a, 100), sys_b.tick(&mut grid_b, 100));
        assert_eq!(grid_a.read_view(), grid_b.read_view());
    }
}

#[test]
fn next_state_applies_the_rule() {
    let config = cfg(3, 3, vec![(1, 0), (1, 1), (1, 2)], 1000);
    let grid = Grid::initialize_seeded(&config).unwrap();
    let snap = snapshot(&grid);
    // the blinker's center keeps two alive neighbors and survives
    assert_eq!(live_neighbors(&snap, 1, 1), 2);
    assert!(next_state(&Cell::new(1, 1, true), &snap));
    // (0, 1) is dead with exactly three alive neighbors: a birth
    assert_eq!(live_neighbors(&snap, 0, 1), 3);
    assert!(next_state(&Cell::new(0, 1, false), &snap));
    // (0, 0) is dead with two alive neighbors: stays dead
    assert_eq!(live_neighbors(&snap, 0, 0), 2);
    assert!(!next_state(&Cell::new(0, 0, false), &snap));
}

#[test]
fn snapshot_copies_the_whole_generation() {
    let config = cfg(3, 2, vec![(0, 0), (2, 1)], 1000);
    let grid = Grid::initialize_seeded(&config).unwrap();
    let snap = snapshot(&grid);
    assert_eq!(snap.width, 3);
    assert_eq!(snap.height, 2);
    assert_eq!(snap.alive.len(), grid.cells.len());
    for (k, cell) in grid.cells.iter().enumerate() {
        assert_eq!(snap.alive[k], cell.is_alive);
    }
}

#[test]
fn display_attribute_is_black_for_alive_white_for_dead() {
    assert_eq!(display_attribute(true), CellColor::Black);
    assert_eq!(display_attribute(false), CellColor::White);
}

#[test]
fn validate_accepts_positive_dimensions() {
    assert!(cfg(1, 1, Vec::new(), 0).validate());
    assert!(!cfg(0, 1, Vec::new(), 0).validate());
    assert!(!cfg(1, 0, Vec::new(), 0).validate());
    assert!(!cfg(1, 1, Vec::new(), -5).validate());
}
