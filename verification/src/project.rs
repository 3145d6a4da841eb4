use vstd::prelude::*;
use vstd::arithmetic::div_mod::{
    lemma_div_is_ordered, lemma_div_multiples_vanish, lemma_div_pos_is_pos,
    lemma_fundamental_div_mod, lemma_mod_division_less_than_divisor,
};
use vstd::arithmetic::mul::lemma_mul_inequality;
use crate::avatar::AVATAR_SIZE;
use crate::config::Config;
use crate::fp::ONE;
use crate::grid::Grid;
use crate::mathx::{scale_fp, scale_spec};
use crate::ray::{cell_h, cell_w, RayResult};

verus! {

/// Multiplier applied to the projected wall height.
pub const HEIGHT_SCALE: i64 = 300;

/// Nominal side of the minimap overlay, in pixels.
pub const MINIMAP_SIZE: i64 = 200;

/// Minimap origin offset, in pixels.
pub const MINIMAP_X: i64 = 10;

/// Minimap origin offset, in pixels.
pub const MINIMAP_Y: i64 = 10;

/// Fill color of a primitive: fixed palette entries, or a distance-fog gray
/// level carried as a fixed-point fraction of full brightness.
#[derive(Clone, Copy, Debug, PartialEq, Eq, Structural)]
pub enum Color {
    White,
    Green,
    Gray(i64),
}

/// A filled rectangle, in fixed-point screen pixels.
#[derive(Clone, Copy, Debug, PartialEq, Eq, Structural)]
pub struct RectCmd {
    pub x: i64,
    pub y: i64,
    pub w: i64,
    pub h: i64,
    pub color: Color,
}

/// A line segment, in fixed-point screen pixels.
#[derive(Clone, Copy, Debug, PartialEq, Eq, Structural)]
pub struct LineCmd {
    pub x1: i64,
    pub y1: i64,
    pub x2: i64,
    pub y2: i64,
    pub width: i64,
    pub color: Color,
}

/// Distance fog: full brightness at distance zero, fading linearly to black
/// at one screen width, clamped below at black.
pub open spec fn shading_spec(cfg: Config, d: int) -> int {
    if d / (cfg.screen_w as int) >= ONE as int {
        0
    } else {
        (ONE as int) - d / (cfg.screen_w as int)
    }
}

pub fn shading(cfg: &Config, d: i64) -> (s: i64)
    requires
        cfg.wf(),
        0 <= d,
    ensures
        s as int == shading_spec(*cfg, d as int),
        0 <= s <= ONE,
{
    proof {
        lemma_div_pos_is_pos(d as int, cfg.screen_w as int);
    }
    let q = d / (cfg.screen_w as i64);
    if q >= ONE {
        0
    } else {
        ONE - q
    }
}

/// Law: shading never brightens with distance — of two rays the farther one
/// is at most as bright.
pub proof fn lemma_shading_monotonic(cfg: Config, d1: int, d2: int)
    requires
        cfg.wf(),
        0 <= d1 <= d2,
        d2 <= cfg.world_w(),
    ensures
        shading_spec(cfg, d1) >= shading_spec(cfg, d2),
{
    lemma_div_is_ordered(d1, d2, cfg.screen_w as int);
}

/// A positive denominator for the height projection: the hit distance, or
/// one fixed-point quantum for a zero-distance hit.
pub open spec fn pos_dist(d: int) -> int {
    if d >= 1 {
        d
    } else {
        1
    }
}

/// Width of one wall column in fixed-point pixels.
pub open spec fn wall_width_spec(cfg: Config) -> int {
    cfg.world_w() / (cfg.ray_count as int)
}

/// Projected wall height: screen height over distance, times the height
/// multiplier.
pub open spec fn wall_height_spec(cfg: Config, d: int) -> int {
    (cfg.screen_h as int) * (HEIGHT_SCALE as int) * (ONE as int) * (ONE as int) / pos_dist(d)
}

/// Top edge of a wall column: vertically centered, signed toward zero when
/// the wall is taller than the screen.
pub open spec fn wall_top_spec(cfg: Config, d: int) -> int {
    let h = wall_height_spec(cfg, d);
    if h <= cfg.world_h() {
        (cfg.world_h() - h) / 2
    } else {
        -((h - cfg.world_h()) / 2)
    }
}

/// The whole wall-column rectangle for ray `i` at hit distance `d`, shaded
/// by distance fog.
pub open spec fn wall_rect_spec(cfg: Config, i: int, d: int) -> RectCmd {
    RectCmd {
        x: (i * wall_width_spec(cfg)) as i64,
        y: wall_top_spec(cfg, d) as i64,
        w: wall_width_spec(cfg) as i64,
        h: wall_height_spec(cfg, d) as i64,
        color: Color::Gray(shading_spec(cfg, d) as i64),
    }
}

pub fn wall_rect(cfg: &Config, i: u32, d: i64) -> (r: RectCmd)
    requires
        cfg.wf(),
        i < cfg.ray_count,
        0 <= d,
    ensures
        r == wall_rect_spec(*cfg, i as int, d as int),
{
    let ww = (cfg.screen_w as i64) * ONE;
    let wh = (cfg.screen_h as i64) * ONE;
    let colw = ww / (cfg.ray_count as i64);
    proof {
        lemma_div_pos_is_pos(ww as int, cfg.ray_count as int);
        vstd::arithmetic::div_mod::lemma_div_is_ordered_by_denominator(
            ww as int,
            1,
            cfg.ray_count as int,
        );
        vstd::arithmetic::div_mod::lemma_div_basics(ww as int);
        assert((i as int) * (colw as int) <= 0x1_0000 * 0x4000_0000) by (nonlinear_arith)
            requires 0 <= i as int <= 0x1_0000, 0 <= colw as int <= 0x4000_0000;
        assert((i as int) * (colw as int) >= 0) by (nonlinear_arith)
            requires 0 <= i as int, 0 <= colw as int;
    }
    let x = (i as i64) * colw;
    let dd = if d >= 1 {
        d
    } else {
        1
    };
    let num = (cfg.screen_h as i64) * HEIGHT_SCALE * ONE * ONE;
    proof {
        lemma_div_pos_is_pos(num as int, dd as int);
        lemma_div_is_ordered(num as int, 0x8000_0000_0000_0000 - 1, dd as int);
    }
    let h = num / dd;
    let top = if h <= wh {
        (wh - h) / 2
    } else {
        -((h - wh) / 2)
    };
    let s = shading(cfg, d);
    RectCmd { x, y: top, w: colw, h, color: Color::Gray(s) }
}

/// The constant minimap ratio: the nominal minimap size over the screen
/// width, as a fixed-point fraction.
pub open spec fn map_scale_spec(cfg: Config) -> int {
    (MINIMAP_SIZE as int) * (ONE as int) / (cfg.screen_w as int)
}

pub fn map_scale(cfg: &Config) -> (s: i64)
    requires
        cfg.wf(),
    ensures
        s as int == map_scale_spec(*cfg),
        0 <= s <= MINIMAP_SIZE * ONE,
{
    proof {
        lemma_div_pos_is_pos((MINIMAP_SIZE * ONE) as int, cfg.screen_w as int);
        lemma_div_is_ordered_by_denominator_one(cfg.screen_w as int);
    }
    MINIMAP_SIZE * ONE / (cfg.screen_w as i64)
}

/// Division by a denominator of at least one never grows a value.
proof fn lemma_div_is_ordered_by_denominator_one(d: int)
    requires
        1 <= d,
    ensures
        (MINIMAP_SIZE as int) * (ONE as int) / d <= (MINIMAP_SIZE as int) * (ONE as int),
{
    vstd::arithmetic::div_mod::lemma_div_is_ordered_by_denominator(
        (MINIMAP_SIZE as int) * (ONE as int),
        1,
        d,
    );
    vstd::arithmetic::div_mod::lemma_div_by_self(1);
    lemma_div_multiples_vanish((MINIMAP_SIZE as int) * (ONE as int), 1);
}

/// Minimap-projected x coordinate of a world x coordinate.
pub open spec fn mini_coord_spec(cfg: Config, v: int, off: int) -> int {
    scale_spec(v, map_scale_spec(cfg)) + off * (ONE as int)
}

/// The avatar's minimap marker: a square of the avatar's scaled size,
/// centered on the projected position.
pub open spec fn avatar_marker_spec(cfg: Config, ax: int, ay: int) -> RectCmd {
    let m = (AVATAR_SIZE as int) * map_scale_spec(cfg);
    RectCmd {
        x: (mini_coord_spec(cfg, ax, MINIMAP_X as int) - m / 2) as i64,
        y: (mini_coord_spec(cfg, ay, MINIMAP_Y as int) - m / 2) as i64,
        w: m as i64,
        h: m as i64,
        color: Color::Green,
    }
}

pub fn avatar_marker(cfg: &Config, ax: i64, ay: i64) -> (r: RectCmd)
    requires
        cfg.wf(),
        -0x42_0000_0000 <= ax <= 0x42_0000_0000,
        -0x42_0000_0000 <= ay <= 0x42_0000_0000,
    ensures
        r == avatar_marker_spec(*cfg, ax as int, ay as int),
{
    let s = map_scale(cfg);
    let m = AVATAR_SIZE * s;
    let px = scale_fp(ax, s) + MINIMAP_X * ONE;
    let py = scale_fp(ay, s) + MINIMAP_Y * ONE;
    RectCmd { x: px - m / 2, y: py - m / 2, w: m, h: m, color: Color::Green }
}

/// One blocked grid cell's minimap rectangle.
pub open spec fn mini_cell_rect_spec(grid: Grid, cfg: Config, x: int, y: int) -> RectCmd {
    let s = map_scale_spec(cfg);
    RectCmd {
        x: (x * cell_w(grid, cfg) * s / (ONE as int) + (MINIMAP_X as int) * (ONE as int)) as i64,
        y: (y * cell_h(grid, cfg) * s / (ONE as int) + (MINIMAP_Y as int) * (ONE as int)) as i64,
        w: (cell_w(grid, cfg) * s / (ONE as int)) as i64,
        h: (cell_h(grid, cfg) * s / (ONE as int)) as i64,
        color: Color::White,
    }
}

/// A column index times the cell width stays within the world width; the
/// same holds for rows against the height.
proof fn lemma_cell_extent(x: int, cw: int, dim: int, world: int)
    requires
        0 <= x < dim,
        1 <= dim,
        cw == world / dim,
        0 <= world,
    ensures
        0 <= x * cw <= world,
{
    lemma_div_pos_is_pos(world, dim);
    assert(0 <= x * cw && x * cw <= dim * cw) by (nonlinear_arith)
        requires 0 <= x < dim, 0 <= cw;
    lemma_fundamental_div_mod(world, dim);
    lemma_mod_division_less_than_divisor(world, dim);
}

pub fn mini_cell_rect(grid: &Grid, cfg: &Config, x: u32, y: u32) -> (r: RectCmd)
    requires
        grid.wf(),
        cfg.wf(),
        grid.in_grid(x as int, y as int),
    ensures
        r == mini_cell_rect_spec(*grid, *cfg, x as int, y as int),
{
    let s = map_scale(cfg);
    let cw = (cfg.screen_w as i64) * ONE / (grid.width as i64);
    let ch = (cfg.screen_h as i64) * ONE / (grid.height as i64);
    proof {
        lemma_div_pos_is_pos(cfg.world_w(), grid.width as int);
        lemma_div_pos_is_pos(cfg.world_h(), grid.height as int);
        lemma_cell_extent(x as int, cw as int, grid.width as int, cfg.world_w());
        lemma_cell_extent(y as int, ch as int, grid.height as int, cfg.world_h());
        assert((x as int) * (cw as int) * (s as int) <= 0x4000_0000 * 0xFF_FFFF && 0 <= (
        x as int) * (cw as int) * (s as int)) by (nonlinear_arith)
            requires 0 <= (x as int) * (cw as int) <= 0x4000_0000, 0 <= s as int <= 0xFF_FFFF;
        assert((y as int) * (ch as int) * (s as int) <= 0x4000_0000 * 0xFF_FFFF && 0 <= (
        y as int) * (ch as int) * (s as int)) by (nonlinear_arith)
            requires 0 <= (y as int) * (ch as int) <= 0x4000_0000, 0 <= s as int <= 0xFF_FFFF;
        assert((cw as int) * (s as int) <= 0x4000_0000 * 0xFF_FFFF && 0 <= (cw as int) * (
        s as int)) by (nonlinear_arith)
            requires 0 <= cw as int <= 0x4000_0000, 0 <= s as int <= 0xFF_FFFF;
        assert((ch as int) * (s as int) <= 0x4000_0000 * 0xFF_FFFF && 0 <= (ch as int) * (
        s as int)) by (nonlinear_arith)
            requires 0 <= ch as int <= 0x4000_0000, 0 <= s as int <= 0xFF_FFFF;
        lemma_div_pos_is_pos((x as int) * (cw as int) * (s as int), ONE as int);
        lemma_div_pos_is_pos((y as int) * (ch as int) * (s as int), ONE as int);
        lemma_div_is_ordered(
            (x as int) * (cw as int) * (s as int),
            0x4000_0000int * 0xFF_FFFF,
            ONE as int,
        );
        lemma_div_is_ordered(
            (y as int) * (ch as int) * (s as int),
            0x4000_0000int * 0xFF_FFFF,
            ONE as int,
        );
    }
    let rx = x as i64 * cw * s / ONE + MINIMAP_X * ONE;
    let ry = y as i64 * ch * s / ONE + MINIMAP_Y * ONE;
    RectCmd { x: rx, y: ry, w: cw * s / ONE, h: ch * s / ONE, color: Color::White }
}

/// A ray's minimap overlay line: origin to hit point, both scaled by the
/// minimap ratio.
pub open spec fn ray_line_spec(cfg: Config, ox: int, oy: int, r: RayResult) -> LineCmd {
    let s = map_scale_spec(cfg);
    LineCmd {
        x1: scale_spec(ox, s) as i64,
        y1: scale_spec(oy, s) as i64,
        x2: scale_spec(r.hit_x as int, s) as i64,
        y2: scale_spec(r.hit_y as int, s) as i64,
        width: ONE,
        color: Color::Green,
    }
}

pub fn ray_line(cfg: &Config, ox: i64, oy: i64, r: &RayResult) -> (l: LineCmd)
    requires
        cfg.wf(),
        -0x42_0000_0000 <= ox <= 0x42_0000_0000,
        -0x42_0000_0000 <= oy <= 0x42_0000_0000,
        -0x42_0000_0000 <= r.hit_x <= 0x42_0000_0000,
        -0x42_0000_0000 <= r.hit_y <= 0x42_0000_0000,
    ensures
        l == ray_line_spec(*cfg, ox as int, oy as int, *r),
{
    let s = map_scale(cfg);
    LineCmd {
        x1: scale_fp(ox, s),
        y1: scale_fp(oy, s),
        x2: scale_fp(r.hit_x, s),
        y2: scale_fp(r.hit_y, s),
        width: ONE,
        color: Color::Green,
    }
}

/// Projected extent of the world on the minimap, along x.
pub open spec fn minimap_w_spec(cfg: Config) -> int {
    scale_spec(cfg.world_w(), map_scale_spec(cfg))
}

/// Projected extent of the world on the minimap, along y.
pub open spec fn minimap_h_spec(cfg: Config) -> int {
    scale_spec(cfg.world_h(), map_scale_spec(cfg))
}

/// Scaling by a non-negative ratio keeps order on non-negative values.
proof fn lemma_scale_monotonic(a: int, b: int, s: int)
    requires
        0 <= a <= b,
        0 <= s,
    ensures
        0 <= scale_spec(a, s) <= scale_spec(b, s),
{
    lemma_mul_inequality(a, b, s);
    assert(0 <= a * s) by (nonlinear_arith)
        requires 0 <= a, 0 <= s;
    lemma_div_is_ordered(0, a * s, ONE as int);
    lemma_div_is_ordered(a * s, b * s, ONE as int);
}

/// Law: whenever the avatar's world position lies within the world bounds,
/// its minimap projection lies within the minimap's bounding rectangle, and
/// that rectangle never exceeds the nominal minimap size along x.
pub proof fn lemma_minimap_in_bounds(cfg: Config, ax: int, ay: int)
    requires
        cfg.wf(),
        cfg.in_world(ax, ay),
    ensures
        (MINIMAP_X as int) * (ONE as int) <= mini_coord_spec(cfg, ax, MINIMAP_X as int)
            <= (MINIMAP_X as int) * (ONE as int) + minimap_w_spec(cfg),
        (MINIMAP_Y as int) * (ONE as int) <= mini_coord_spec(cfg, ay, MINIMAP_Y as int)
            <= (MINIMAP_Y as int) * (ONE as int) + minimap_h_spec(cfg),
        minimap_w_spec(cfg) <= (MINIMAP_SIZE as int) * (ONE as int),
{
    let s = map_scale_spec(cfg);
    lemma_div_pos_is_pos((MINIMAP_SIZE as int) * (ONE as int), cfg.screen_w as int);
    lemma_scale_monotonic(ax, cfg.world_w(), s);
    lemma_scale_monotonic(ay, cfg.world_h(), s);
    lemma_scale_monotonic(0, ax, s);
    lemma_scale_monotonic(0, ay, s);
    // the projected world width is at most the nominal minimap size
    lemma_fundamental_div_mod((MINIMAP_SIZE as int) * (ONE as int), cfg.screen_w as int);
    lemma_mod_division_less_than_divisor((MINIMAP_SIZE as int) * (ONE as int),
        cfg.screen_w as int);
    assert(cfg.world_w() * s == (ONE as int) * ((cfg.screen_w as int) * s)) by (nonlinear_arith)
        requires cfg.world_w() == (cfg.screen_w as int) * (ONE as int);
    assert((cfg.screen_w as int) * s <= (MINIMAP_SIZE as int) * (ONE as int)) by (
    nonlinear_arith)
        requires
            s == (MINIMAP_SIZE as int) * (ONE as int) / (cfg.screen_w as int),
            (cfg.screen_w as int) * s <= (MINIMAP_SIZE as int) * (ONE as int)
                - ((MINIMAP_SIZE as int) * (ONE as int)) % (cfg.screen_w as int),
            0 <= ((MINIMAP_SIZE as int) * (ONE as int)) % (cfg.screen_w as int);
    assert((ONE as int) * ((cfg.screen_w as int) * s) <= (ONE as int) * ((MINIMAP_SIZE as int)
        * (ONE as int))) by (nonlinear_arith)
        requires (cfg.screen_w as int) * s <= (MINIMAP_SIZE as int) * (ONE as int);
    lemma_div_is_ordered(
        cfg.world_w() * s,
        (ONE as int) * ((MINIMAP_SIZE as int) * (ONE as int)),
        ONE as int,
    );
    lemma_div_multiples_vanish((MINIMAP_SIZE as int) * (ONE as int), ONE as int);
}

} // verus!
