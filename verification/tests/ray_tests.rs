use u3d_core::config::Config;
use u3d_core::errors::CoreError;
use u3d_core::fp::ONE;
use u3d_core::grid::{Cell, Grid};
use u3d_core::mathx::isqrt;
use u3d_core::ray::cast;

/// A 10 by 10 grid, all open except the single cell at column 5, row 5.
fn one_block_grid() -> Grid {
    let mut cells = vec![Cell::Open; 100];
    cells[5 * 10 + 5] = Cell::Blocked;
    Grid::new(10, 10, cells).unwrap()
}

/// A 100 by 100 pixel world over that grid: cells are 10 world units wide.
fn small_config() -> Config {
    Config::new(100, 100, 1, 1).unwrap()
}

#[test]
fn ray_along_open_row_exits_at_world_bound() {
    // from (0,0) heading 0 the ray never enters row 5, so it leaves the
    // world at x == screen width with that distance
    let grid = one_block_grid();
    let cfg = small_config();
    let rays = cast(&grid, &cfg, 0, 0, 0);
    assert_eq!(rays.len(), 1);
    let r = rays[0];
    assert_eq!(r.angle, 0);
    assert_eq!(r.hit_x, 100 * ONE);
    assert_eq!(r.hit_y, 0);
    assert_eq!(r.distance, 100 * ONE);
    assert_eq!(r.steps, 100);
}

#[test]
fn ray_from_blocked_cell_hits_immediately() {
    // cell (5,5) spans world x,y in [50,60): start in its middle
    let grid = one_block_grid();
    let cfg = small_config();
    let rays = cast(&grid, &cfg, 55 * ONE, 55 * ONE, 0);
    assert_eq!(rays.len(), 1);
    let r = rays[0];
    assert_eq!(r.distance, 0);
    assert_eq!(r.steps, 0);
    assert_eq!(r.hit_x, 55 * ONE);
    assert_eq!(r.hit_y, 55 * ONE);
}

#[test]
fn ray_into_blocked_cell_stops_at_its_edge() {
    // marching along row 5 from x = 0 stops at the first sample inside
    // column 5, i.e. at x = 50 world units
    let grid = one_block_grid();
    let cfg = small_config();
    let rays = cast(&grid, &cfg, 0, 55 * ONE, 0);
    let r = rays[0];
    assert_eq!(r.hit_x, 50 * ONE);
    assert_eq!(r.hit_y, 55 * ONE);
    assert_eq!(r.steps, 50);
    assert_eq!(r.distance, 50 * ONE);
}

#[test]
fn march_step_count_is_bounded() {
    let grid = one_block_grid();
    let cfg = small_config();
    // whatever the heading, no march may take more than twice the larger
    // screen dimension in steps
    for h in [0_i64, 8192, 16384, 30000, 40000, 65535] {
        let rays = cast(&grid, &cfg, 3 * ONE, 97 * ONE, h);
        assert!(rays[0].steps <= 200);
    }
}

#[test]
fn origin_outside_world_terminates_where_it_stands() {
    let grid = one_block_grid();
    let cfg = small_config();
    let rays = cast(&grid, &cfg, -ONE, 7 * ONE, 0);
    let r = rays[0];
    assert_eq!(r.hit_x, -ONE);
    assert_eq!(r.hit_y, 7 * ONE);
    assert_eq!(r.distance, 0);
    assert_eq!(r.steps, 0);
}

#[test]
fn grid_rejects_bad_dimensions() {
    assert!(matches!(Grid::new(0, 10, vec![]), Err(CoreError::InvalidConfiguration)));
    assert!(matches!(
        Grid::new(10, 10, vec![Cell::Open; 99]),
        Err(CoreError::InvalidConfiguration)
    ));
    assert!(matches!(Grid::new(2000, 1, vec![Cell::Open; 2000]),
        Err(CoreError::InvalidConfiguration)));
    assert!(Grid::new(10, 10, vec![Cell::Open; 100]).is_ok());
}

#[test]
fn cell_queries_are_bounds_checked() {
    let grid = one_block_grid();
    assert!(matches!(grid.try_cell_at(5, 5), Ok(Cell::Blocked)));
    assert!(matches!(grid.try_cell_at(0, 0), Ok(Cell::Open)));
    assert!(matches!(grid.try_cell_at(10, 0), Err(CoreError::OutOfBounds)));
    assert!(matches!(grid.try_cell_at(0, 10), Err(CoreError::OutOfBounds)));
    assert_eq!(grid.try_cell_at(10, 0).unwrap_err().describe(), "out of bounds");
}

#[test]
fn config_rejects_bad_values() {
    assert!(matches!(Config::new(0, 100, 1, 1), Err(CoreError::InvalidConfiguration)));
    assert!(matches!(Config::new(100, 100, 0, 1), Err(CoreError::InvalidConfiguration)));
    assert!(matches!(Config::new(100, 100, 1, 0), Err(CoreError::InvalidConfiguration)));
    assert!(matches!(Config::new(100, 100, 1, -7), Err(CoreError::InvalidConfiguration)));
    assert!(matches!(Config::new(100000, 100, 1, 1), Err(CoreError::InvalidConfiguration)));
    assert_eq!(
        Config::new(0, 1, 1, 1).unwrap_err().describe(),
        "invalid configuration"
    );
    assert!(Config::new(1920, 1080, 300, 10922).is_ok());
}

#[test]
fn integer_square_root_is_exact_floor() {
    assert_eq!(isqrt(0), 0);
    assert_eq!(isqrt(1), 1);
    assert_eq!(isqrt(3), 1);
    assert_eq!(isqrt(4), 2);
    assert_eq!(isqrt(99), 9);
    assert_eq!(isqrt(100), 10);
    assert_eq!(isqrt(1 << 60), 1 << 30);
}

#[test]
fn diagonal_distance_is_euclidean_floor() {
    // all open: a ray at a quarter of a turn marches straight down
    let grid = Grid::new(10, 10, vec![Cell::Open; 100]).unwrap();
    let cfg = small_config();
    let rays = cast(&grid, &cfg, 40 * ONE, 0, 16384);
    let r = rays[0];
    // sine at a quarter turn is exactly one: straight +y, exits past 100
    assert_eq!(r.hit_x, 40 * ONE);
    assert_eq!(r.hit_y, 100 * ONE);
    assert_eq!(r.distance, 100 * ONE);
}
