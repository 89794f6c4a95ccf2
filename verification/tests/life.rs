use conway::engine::above_alive;
use conway::engine::above_left_alive;
use conway::engine::above_right_alive;
use conway::engine::below_alive;
use conway::engine::below_left_alive;
use conway::engine::below_right_alive;
use conway::engine::count_neighbours;
use conway::engine::left_alive;
use conway::engine::next_cell_state;
use conway::engine::right_alive;
use conway::engine::update;
use conway::grid::valid_grid;

#[test]
fn test_single_dead_cell_stays_dead() {
    let grid = vec![vec![false]];
    assert_eq!(update(&grid), vec![vec![false]]);
}

#[test]
fn test_single_live_cell_dies() {
    let grid = vec![vec![true]];
    assert_eq!(update(&grid), vec![vec![false]]);
}

#[test]
fn test_corner_counts_only_in_bounds_neighbours() {
    // Top-left corner of an all-live board: only right, below and
    // below-right exist, so the count is exactly 3.
    let grid = vec![vec![true, true, true], vec![true, true, true], vec![true, true, true]];
    assert_eq!(count_neighbours(&grid, (0, 0)), 3);
    // The other three corners likewise.
    assert_eq!(count_neighbours(&grid, (2, 0)), 3);
    assert_eq!(count_neighbours(&grid, (0, 2)), 3);
    assert_eq!(count_neighbours(&grid, (2, 2)), 3);
    // An edge (non-corner) cell has five in-bounds neighbours.
    assert_eq!(count_neighbours(&grid, (1, 0)), 5);
    // The centre has all eight.
    assert_eq!(count_neighbours(&grid, (1, 1)), 8);
}

#[test]
fn test_directional_probes() {
    // A board live everywhere but the centre.
    let grid = vec![vec![true, true, true], vec![true, false, true], vec![true, true, true]];
    let centre = (1usize, 1usize);
    assert!(above_alive(&grid, centre));
    assert!(above_right_alive(&grid, centre));
    assert!(above_left_alive(&grid, centre));
    assert!(left_alive(&grid, centre));
    assert!(right_alive(&grid, centre));
    assert!(below_alive(&grid, centre));
    assert!(below_right_alive(&grid, centre));
    assert!(below_left_alive(&grid, centre));
    // From the top-left corner every out-of-bounds direction reads dead,
    // and the centre (its below-right neighbour) is dead too.
    let corner = (0usize, 0usize);
    assert!(!above_alive(&grid, corner));
    assert!(!above_right_alive(&grid, corner));
    assert!(!above_left_alive(&grid, corner));
    assert!(!left_alive(&grid, corner));
    assert!(!below_left_alive(&grid, corner));
    assert!(right_alive(&grid, corner));
    assert!(below_alive(&grid, corner));
    assert!(!below_right_alive(&grid, corner));
}

#[test]
fn test_out_of_bounds_position_counts_zero() {
    let grid = vec![vec![true, true], vec![true, true]];
    assert_eq!(count_neighbours(&grid, (5, 0)), 0);
    assert_eq!(count_neighbours(&grid, (0, 5)), 0);
    assert_eq!(count_neighbours(&grid, (9, 9)), 0);
}

#[test]
fn test_rule_thresholds() {
    // Underpopulation: fewer than two neighbours kills.
    assert!(!next_cell_state(true, 0));
    assert!(!next_cell_state(true, 1));
    assert!(!next_cell_state(false, 0));
    assert!(!next_cell_state(false, 1));
    // Two neighbours keep the current state.
    assert!(next_cell_state(true, 2));
    assert!(!next_cell_state(false, 2));
    // Three neighbours give life either way.
    assert!(next_cell_state(true, 3));
    assert!(next_cell_state(false, 3));
    // Overpopulation: more than three neighbours kills.
    for n in 4..=8 {
        assert!(!next_cell_state(true, n));
        assert!(!next_cell_state(false, n));
    }
}

#[test]
fn test_glider_step() {
    // The standard glider on a 5x5 board, live at (x, y) = (2,1), (3,2),
    // (1,3), (2,3), (3,3).
    let mut grid = vec![vec![false; 5]; 5];
    for &(x, y) in &[(2usize, 1usize), (3, 2), (1, 3), (2, 3), (3, 3)] {
        grid[y][x] = true;
    }
    // One step moves it to (1,2), (3,2), (2,3), (3,3), (2,4).
    let mut expected = vec![vec![false; 5]; 5];
    for &(x, y) in &[(1usize, 2usize), (3, 2), (2, 3), (3, 3), (2, 4)] {
        expected[y][x] = true;
    }
    assert_eq!(update(&grid), expected);
}

#[test]
fn test_blinker_oscillates() {
    // A vertical blinker becomes horizontal and then vertical again.
    let vertical = vec![
        vec![false, true, false],
        vec![false, true, false],
        vec![false, true, false],
    ];
    let horizontal = vec![
        vec![false, false, false],
        vec![true, true, true],
        vec![false, false, false],
    ];
    assert_eq!(update(&vertical), horizontal);
    assert_eq!(update(&horizontal), vertical);
}

#[test]
fn test_valid_board_stays_valid() {
    let mut grid = vec![vec![false; 4]; 4];
    grid[1][1] = true;
    grid[1][2] = true;
    grid[2][1] = true;
    grid[2][2] = true;
    for _ in 0..5 {
        assert!(valid_grid(&grid));
        grid = update(&grid);
    }
    // The block is a still life: it is unchanged as well as still valid.
    assert!(valid_grid(&grid));
    assert!(grid[1][1] && grid[1][2] && grid[2][1] && grid[2][2]);
}

#[test]
fn test_update_deterministic() {
    let mut grid = vec![vec![false; 4]; 3];
    grid[0][1] = true;
    grid[1][1] = true;
    grid[1][2] = true;
    grid[2][0] = true;
    let once = update(&grid);
    let twice = update(&grid);
    assert_eq!(once, twice);
}

#[test]
fn test_dimensions_preserved() {
    let mut grid = vec![vec![false; 5]; 3];
    grid[1][2] = true;
    grid[1][3] = true;
    let next = update(&grid);
    assert_eq!(next.len(), grid.len());
    for (row, old_row) in next.iter().zip(grid.iter()) {
        assert_eq!(row.len(), old_row.len());
    }
}

#[test]
fn test_valid_grid_accepts_rectangle() {
    assert!(valid_grid(&vec![vec![false]]));
    assert!(valid_grid(&vec![vec![true, false], vec![false, true]]));
    assert!(valid_grid(&vec![vec![], vec![]]));
}

#[test]
fn test_ragged_grid_rejected() {
    assert!(!valid_grid(&vec![vec![true, false], vec![false]]));
    assert!(!valid_grid(&vec![vec![], vec![false]]));
    assert!(!valid_grid(&vec![vec![true], vec![true], vec![true, true]]));
}

#[test]
fn test_empty_grid_rejected() {
    assert!(!valid_grid(&Vec::new()));
}
