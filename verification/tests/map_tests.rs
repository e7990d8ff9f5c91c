use raycaster::fixed::FP;
use raycaster::map::GridMap;

#[test]
fn level_1_shape_and_positions() {
    let m = GridMap::new_level_1();
    assert_eq!(m.width, 10);
    assert_eq!(m.height, 10);
    assert_eq!(m.grid.len(), 10);
    for row in &m.grid {
        assert_eq!(row.len(), 10);
    }
    assert_eq!(m.start_x, FP);
    assert_eq!(m.start_y, FP);
    assert_eq!(m.end_x, 8 * FP);
    assert_eq!(m.end_y, 8 * FP);
    assert_eq!(m.grid[8][8], 'E');
}

#[test]
fn level_2_shape_and_positions() {
    let m = GridMap::new_level_2();
    assert_eq!(m.width, 10);
    assert_eq!(m.height, 10);
    assert_eq!(m.start_x, FP);
    assert_eq!(m.start_y, FP);
    assert_eq!(m.end_x, 8 * FP);
    assert_eq!(m.end_y, 8 * FP);
    assert_eq!(m.grid[6][5], ' ');
    assert_eq!(m.grid[6][6], '#');
}

#[test]
fn levels_have_walled_borders() {
    for m in [GridMap::new_level_1(), GridMap::new_level_2()] {
        for i in 0..10 {
            assert_eq!(m.grid[0][i], '#');
            assert_eq!(m.grid[9][i], '#');
            assert_eq!(m.grid[i][0], '#');
            assert_eq!(m.grid[i][9], '#');
        }
    }
}

#[test]
fn is_wall_reads_cells() {
    let m = GridMap::new_level_1();
    // Cell (1, 1) is open, cell (4, 1) is a wall, cell (2, 2) is a wall.
    assert!(!m.is_wall(FP + FP / 2, FP + FP / 2));
    assert!(m.is_wall(4 * FP + FP / 2, FP + FP / 2));
    assert!(m.is_wall(2 * FP + FP / 2, 2 * FP + FP / 2));
    // The coordinate is floored to its cell: anywhere in cell (1, 1) is open.
    assert!(!m.is_wall(FP, FP));
    assert!(!m.is_wall(2 * FP - 1, 2 * FP - 1));
}

#[test]
fn out_of_range_coordinates_are_walls() {
    let m = GridMap::new_level_1();
    // Beyond the right or bottom edge.
    assert!(m.is_wall(10 * FP, 5 * FP));
    assert!(m.is_wall(5 * FP, 10 * FP));
    assert!(m.is_wall(1000 * FP, 1000 * FP));
    assert!(m.is_wall(i64::MAX, FP));
    // Negative coordinates resolve to a border cell, which is a wall.
    assert!(m.is_wall(-FP / 2, 3 * FP + FP / 2));
    assert!(m.is_wall(3 * FP + FP / 2, -FP / 2));
    assert!(m.is_wall(-100 * FP, -100 * FP));
}

#[test]
fn is_end_position_compares_cells() {
    let m = GridMap::new_level_1();
    assert!(m.is_end_position(8 * FP + 200_000, 8 * FP + 900_000));
    assert!(m.is_end_position(8 * FP, 8 * FP));
    assert!(!m.is_end_position(7 * FP + 900_000, 8 * FP));
    assert!(!m.is_end_position(8 * FP, 9 * FP));
}
