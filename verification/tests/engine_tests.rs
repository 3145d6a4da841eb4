use u3d_core::config::Config;
use u3d_core::engine::Engine;
use u3d_core::fp::ONE;
use u3d_core::grid::{Cell, Grid};
use u3d_core::input::{DirectionKey, InputEvent};
use u3d_core::project::{map_scale, shading, wall_rect, Color};

fn one_block_grid() -> Grid {
    let mut cells = vec![Cell::Open; 100];
    cells[5 * 10 + 5] = Cell::Blocked;
    Grid::new(10, 10, cells).unwrap()
}

#[test]
fn new_engine_centers_avatar() {
    let grid = one_block_grid();
    let cfg = Config::new(1920, 1080, 300, 10922).unwrap();
    let e = Engine::new(grid, cfg);
    assert_eq!(e.avatar.x, (1920 - 25) * ONE / 2);
    assert_eq!(e.avatar.y, (1080 - 25) * ONE / 2);
    assert_eq!(e.avatar.heading, 0);
    assert!(!e.input.forward && !e.input.backward);
}

#[test]
fn shading_fades_with_distance() {
    let cfg = Config::new(1920, 1080, 300, 10922).unwrap();
    assert_eq!(shading(&cfg, 0), ONE);
    // at half the screen width the fog is exactly half
    assert_eq!(shading(&cfg, 960 * ONE), ONE / 2);
    // at and past one screen width it is black
    assert_eq!(shading(&cfg, 1920 * ONE), 0);
    assert_eq!(shading(&cfg, 5000 * ONE), 0);
    // monotone: farther is never brighter
    let d1 = 123 * ONE;
    let d2 = 1456 * ONE;
    assert!(shading(&cfg, d1) >= shading(&cfg, d2));
}

#[test]
fn wall_column_layout() {
    let cfg = Config::new(1920, 1080, 300, 10922).unwrap();
    // a hit exactly one screen height away projects to the height multiplier
    let r = wall_rect(&cfg, 2, 1080 * ONE);
    assert_eq!(r.w, 1920 * ONE / 300);
    assert_eq!(r.x, 2 * (1920 * ONE / 300));
    assert_eq!(r.h, 300 * ONE);
    assert_eq!(r.y, (1080 * ONE - 300 * ONE) / 2);
    match r.color {
        Color::Gray(s) => assert!(0 <= s && s <= ONE),
        _ => panic!("wall columns are fog-shaded"),
    }
}

#[test]
fn minimap_scale_and_bounds() {
    let cfg = Config::new(1920, 1080, 300, 10922).unwrap();
    let s = map_scale(&cfg);
    assert_eq!(s, 200 * ONE / 1920);
    // a projected in-world coordinate stays within the minimap square
    let far = 1920 * ONE * s / ONE + 10 * ONE;
    assert!(far <= 10 * ONE + 200 * ONE);
}

#[test]
fn tick_applies_input_then_moves_then_renders() {
    let grid = one_block_grid();
    let cfg = Config::new(100, 100, 1, 1).unwrap();
    let mut e = Engine::new(grid, cfg);
    // centered avatar: (100 - 25) / 2 = 37.5 world units on both axes
    assert_eq!(e.avatar.x, 75 * ONE / 2);
    let events = vec![InputEvent { key: DirectionKey::Forward, pressed: true }];
    let dt = ONE / 60;
    let cmds = e.tick(dt, &events);
    assert!(e.input.forward);
    // speed is half the world width: 50 units per second
    assert_eq!(e.avatar.x, 75 * ONE / 2 + 50 * dt);
    assert_eq!(e.avatar.y, 75 * ONE / 2);
    assert_eq!(e.avatar.heading, 0);
    // one blocked cell on the minimap, one ray, one wall, one overlay line
    assert_eq!(cmds.map_rects.len(), 1);
    assert_eq!(cmds.wall_rects.len(), 1);
    assert_eq!(cmds.ray_lines.len(), 1);
    assert_eq!(cmds.rays.len(), 1);
    assert!(cmds.avatar_rect.is_some());
    assert_eq!(cmds.map_rects[0].color, Color::White);
    assert_eq!(cmds.ray_lines[0].color, Color::Green);
}

#[test]
fn render_hides_marker_for_out_of_world_avatar() {
    let grid = one_block_grid();
    let cfg = Config::new(100, 100, 1, 1).unwrap();
    let mut e = Engine::new(grid, cfg);
    // march the avatar backward past the world edge
    let back = vec![InputEvent { key: DirectionKey::Backward, pressed: true }];
    let mut cmds = e.tick(ONE, &back);
    for _ in 0..3 {
        cmds = e.tick(ONE, &vec![]);
    }
    assert!(e.avatar.x < 0);
    assert!(cmds.avatar_rect.is_none());
    // the rays still terminate immediately at the out-of-world origin
    assert_eq!(cmds.rays[0].distance, 0);
    assert_eq!(cmds.rays[0].hit_x, e.avatar.x);
}

#[test]
fn update_respects_held_keys_between_ticks() {
    let grid = one_block_grid();
    let cfg = Config::new(100, 100, 1, 1).unwrap();
    let mut e = Engine::new(grid, cfg);
    e.apply_input(InputEvent { key: DirectionKey::TurnRight, pressed: true });
    let x0 = e.avatar.x;
    e.update(0);
    assert_eq!(e.avatar.heading, 521);
    assert_eq!(e.avatar.x, x0);
    e.apply_input(InputEvent { key: DirectionKey::TurnRight, pressed: false });
    e.update(0);
    assert_eq!(e.avatar.heading, 521);
}
