use vstd::prelude::*;
use vstd::arithmetic::div_mod::lemma_div_is_ordered;
use crate::angle::{angle_wf, norm_angle, norm_spec};
use crate::config::Config;
use crate::fp::{ONE, ONE_HALF};
use crate::grid::Grid;
use crate::mathx::{is_sqrt_floor, isqrt};
use crate::trig::{cos_fp, cos_spec, lemma_cos_bounds, lemma_dominant_axis, lemma_sin_bounds,
    sin_fp, sin_spec};

verus! {

/// One ray's intersection record: the angle it was cast at, the terminating
/// sample point, the floor of the euclidean distance from the origin, and how
/// many unit steps the march took.
#[derive(Clone, Copy, Debug, PartialEq, Eq, Structural)]
pub struct RayResult {
    pub angle: i64,
    pub hit_x: i64,
    pub hit_y: i64,
    pub distance: i64,
    pub steps: u32,
}

/// A square, for distance statements.
pub open spec fn sq(a: int) -> int {
    a * a
}

/// The larger screen dimension, in pixels.
pub open spec fn max_world(cfg: Config) -> int {
    if cfg.screen_w >= cfg.screen_h {
        cfg.screen_w as int
    } else {
        cfg.screen_h as int
    }
}

/// Width of one grid cell in fixed-point world units.
pub open spec fn cell_w(grid: Grid, cfg: Config) -> int {
    cfg.world_w() / (grid.width as int)
}

/// Height of one grid cell in fixed-point world units.
pub open spec fn cell_h(grid: Grid, cfg: Config) -> int {
    cfg.world_h() / (grid.height as int)
}

/// Grid column of a world x coordinate: floor division by the cell width,
/// clamped to the last column so the lookup can never leave the grid.
pub open spec fn cell_x_of(grid: Grid, cfg: Config, x: int) -> int {
    if x / cell_w(grid, cfg) < grid.width as int {
        x / cell_w(grid, cfg)
    } else {
        grid.width as int - 1
    }
}

/// Grid row of a world y coordinate, clamped like the column.
pub open spec fn cell_y_of(grid: Grid, cfg: Config, y: int) -> int {
    if y / cell_h(grid, cfg) < grid.height as int {
        y / cell_h(grid, cfg)
    } else {
        grid.height as int - 1
    }
}

/// Whether the cell containing a world point is blocked.
pub open spec fn blocked_at_point(grid: Grid, cfg: Config, x: int, y: int) -> bool {
    grid.blocked_spec(cell_x_of(grid, cfg, x), cell_y_of(grid, cfg, y))
}

/// A direction is a fixed-point unit-step vector: both components at most
/// one unit, and one of them at least half a unit in magnitude.
pub open spec fn dir_wf(dx: int, dy: int) -> bool {
    -(ONE as int) <= dx <= ONE as int && -(ONE as int) <= dy <= ONE as int && (dx >= ONE_HALF
        || dx <= -(ONE_HALF as int) || dy >= ONE_HALF || dy <= -(ONE_HALF as int))
}

/// Coordinate of the k-th sample along one axis.
pub open spec fn sample(o: int, d: int, k: int) -> int {
    o + k * d
}

/// The k-th sample lies inside the world rectangle.
pub open spec fn in_world_at(cfg: Config, ox: int, oy: int, dx: int, dy: int, k: int) -> bool {
    cfg.in_world(sample(ox, dx, k), sample(oy, dy, k))
}

/// The march stops at sample k: the cell there is blocked, or the next
/// sample would leave the world rectangle.
pub open spec fn stops_at(
    grid: Grid,
    cfg: Config,
    ox: int,
    oy: int,
    dx: int,
    dy: int,
    k: int,
) -> bool {
    blocked_at_point(grid, cfg, sample(ox, dx, k), sample(oy, dy, k)) || !in_world_at(
        cfg,
        ox,
        oy,
        dx,
        dy,
        k + 1,
    )
}

/// Everything the march promises of its result. An origin outside the world
/// rectangle terminates immediately where it stands; otherwise the result is
/// the first stopping sample: every earlier sample was open and in bounds,
/// the step count is bounded by twice the larger screen dimension, and the
/// distance is the floor of the euclidean distance to the origin. A march
/// begun inside a blocked cell stops at once with distance zero.
pub open spec fn march_post(
    grid: Grid,
    cfg: Config,
    ox: int,
    oy: int,
    dx: int,
    dy: int,
    angle: int,
    r: RayResult,
) -> bool {
    if !cfg.in_world(ox, oy) {
        r.angle == angle && r.hit_x == ox && r.hit_y == oy && r.distance == 0 && r.steps == 0
    } else {
        r.angle == angle && 0 <= r.steps <= 2 * max_world(cfg) && r.hit_x == sample(
            ox,
            dx,
            r.steps as int,
        ) && r.hit_y == sample(oy, dy, r.steps as int) && (forall|j: int|
            0 <= j <= r.steps ==> #[trigger] in_world_at(cfg, ox, oy, dx, dy, j)) && (forall|
            j: int,
        |
            0 <= j < r.steps ==> !#[trigger] stops_at(grid, cfg, ox, oy, dx, dy, j)) && stops_at(
            grid,
            cfg,
            ox,
            oy,
            dx,
            dy,
            r.steps as int,
        ) && is_sqrt_floor(r.distance as int, sq(r.hit_x - ox) + sq(r.hit_y - oy)) && (
        blocked_at_point(grid, cfg, ox, oy) ==> r.steps == 0 && r.distance == 0 && r.hit_x == ox
            && r.hit_y == oy)
    }
}

/// Law: the march contract pins its outcome — any two results it admits for
/// the same grid, configuration, origin and direction are equal, so casting
/// is as deterministic as the motion step.
pub proof fn lemma_march_unique(
    grid: Grid,
    cfg: Config,
    ox: int,
    oy: int,
    dx: int,
    dy: int,
    angle: int,
    r1: RayResult,
    r2: RayResult,
)
    requires
        march_post(grid, cfg, ox, oy, dx, dy, angle, r1),
        march_post(grid, cfg, ox, oy, dx, dy, angle, r2),
    ensures
        r1 == r2,
{
    if cfg.in_world(ox, oy) {
        if (r1.steps as int) < r2.steps as int {
            assert(!stops_at(grid, cfg, ox, oy, dx, dy, r1.steps as int));
        }
        if (r2.steps as int) < r1.steps as int {
            assert(!stops_at(grid, cfg, ox, oy, dx, dy, r2.steps as int));
        }
        assert(r1.steps == r2.steps);
        let n = sq(r1.hit_x - ox) + sq(r1.hit_y - oy);
        if (r1.distance as int) < r2.distance as int {
            assert((r1.distance as int + 1) * (r1.distance as int + 1) <= (r2.distance as int)
                * (r2.distance as int)) by (nonlinear_arith)
                requires 0 <= r1.distance as int, (r1.distance as int) < r2.distance as int;
        }
        if (r2.distance as int) < r1.distance as int {
            assert((r2.distance as int + 1) * (r2.distance as int + 1) <= (r1.distance as int)
                * (r1.distance as int)) by (nonlinear_arith)
                requires 0 <= r2.distance as int, (r2.distance as int) < r1.distance as int;
        }
        assert(r1.distance == r2.distance);
    }
}

/// Floor of the euclidean distance between two in-world points.
fn dist_fp(ax: i64, ay: i64, bx: i64, by: i64) -> (r: i64)
    requires
        0 <= ax <= 0x4000_0000,
        0 <= ay <= 0x4000_0000,
        0 <= bx <= 0x4000_0000,
        0 <= by <= 0x4000_0000,
    ensures
        is_sqrt_floor(r as int, sq(bx - ax) + sq(by - ay)),
        0 <= r,
        ax == bx && ay == by ==> r == 0,
{
    let adx = if bx >= ax {
        bx - ax
    } else {
        ax - bx
    };
    let ady = if by >= ay {
        by - ay
    } else {
        ay - by
    };
    proof {
        assert(sq(bx - ax) == (adx as int) * (adx as int) && sq(by - ay) == (ady as int) * (
        ady as int)) by (nonlinear_arith)
            requires
                adx as int == if bx >= ax { bx - ax } else { ax - (bx as int) },
                ady as int == if by >= ay { by - ay } else { ay - (by as int) };
        assert((adx as int) * (adx as int) <= 0x1000_0000_0000_0000 && (ady as int) * (
        ady as int) <= 0x1000_0000_0000_0000) by (nonlinear_arith)
            requires 0 <= adx as int <= 0x4000_0000, 0 <= ady as int <= 0x4000_0000;
    }
    let n: u64 = (adx as u64) * (adx as u64) + (ady as u64) * (ady as u64);
    proof {
        assert((adx as u64) as int == adx as int && (ady as u64) as int == ady as int);
        assert(n as int == sq(bx - ax) + sq(by - ay));
    }
    let r = isqrt(n);
    proof {
        if r > 0xFFFF_FFFF {
            assert((r as int) * (r as int) > n as int) by (nonlinear_arith)
                requires r as int > 0xFFFF_FFFF, (n as int) < 0x4000_0000_0000_0000;
        }
        if ax == bx && ay == by {
            assert(n == 0);
            assert((r as int) * (r as int) <= 0 && 0 <= r as int ==> r as int == 0)
                by (nonlinear_arith);
        }
    }
    r as i64
}

/// Step-count bound: while a sample stays inside the world rectangle, the
/// dominant axis has advanced at least half a unit per step, so no march can
/// run longer than twice the larger screen dimension.
proof fn lemma_step_count(
    cfg: Config,
    ox: int,
    oy: int,
    dx: int,
    dy: int,
    k: int,
)
    requires
        cfg.wf(),
        dir_wf(dx, dy),
        cfg.in_world(ox, oy),
        in_world_at(cfg, ox, oy, dx, dy, k),
        k >= 0,
    ensures
        k <= 2 * max_world(cfg),
{
    let x = sample(ox, dx, k);
    let y = sample(oy, dy, k);
    if dx >= ONE_HALF {
        if k > 2 * max_world(cfg) {
            assert(k * dx > (2 * max_world(cfg)) * (ONE_HALF as int)) by (nonlinear_arith)
                requires k > 2 * max_world(cfg), dx >= ONE_HALF, max_world(cfg) >= 1;
            assert((2 * max_world(cfg)) * (ONE_HALF as int) >= (cfg.screen_w as int) * (
            ONE as int)) by (nonlinear_arith)
                requires max_world(cfg) >= cfg.screen_w as int, cfg.screen_w >= 1;
        }
    } else if dx <= -(ONE_HALF as int) {
        if k > 2 * max_world(cfg) {
            assert(k * dx < -((2 * max_world(cfg)) * (ONE_HALF as int))) by (nonlinear_arith)
                requires k > 2 * max_world(cfg), dx <= -(ONE_HALF as int), max_world(cfg) >= 1;
            assert((2 * max_world(cfg)) * (ONE_HALF as int) >= (cfg.screen_w as int) * (
            ONE as int)) by (nonlinear_arith)
                requires max_world(cfg) >= cfg.screen_w as int, cfg.screen_w >= 1;
        }
    } else if dy >= ONE_HALF {
        if k > 2 * max_world(cfg) {
            assert(k * dy > (2 * max_world(cfg)) * (ONE_HALF as int)) by (nonlinear_arith)
                requires k > 2 * max_world(cfg), dy >= ONE_HALF, max_world(cfg) >= 1;
            assert((2 * max_world(cfg)) * (ONE_HALF as int) >= (cfg.screen_h as int) * (
            ONE as int)) by (nonlinear_arith)
                requires max_world(cfg) >= cfg.screen_h as int, cfg.screen_h >= 1;
        }
    } else {
        if k > 2 * max_world(cfg) {
            assert(k * dy < -((2 * max_world(cfg)) * (ONE_HALF as int))) by (nonlinear_arith)
                requires k > 2 * max_world(cfg), dy <= -(ONE_HALF as int), max_world(cfg) >= 1;
            assert((2 * max_world(cfg)) * (ONE_HALF as int) >= (cfg.screen_h as int) * (
            ONE as int)) by (nonlinear_arith)
                requires max_world(cfg) >= cfg.screen_h as int, cfg.screen_h >= 1;
        }
    }
}

/// March a point from the origin in unit steps of the given direction until
/// it hits a blocked cell or would leave the world rectangle.
pub fn march(grid: &Grid, cfg: &Config, ox: i64, oy: i64, dx: i64, dy: i64, angle: i64) -> (r:
    RayResult)
    requires
        grid.wf(),
        cfg.wf(),
        dir_wf(dx as int, dy as int),
    ensures
        march_post(*grid, *cfg, ox as int, oy as int, dx as int, dy as int, angle as int, r),
        r.angle == angle,
        r.steps <= 2 * max_world(*cfg),
{
    let ww = (cfg.screen_w as i64) * ONE;
    let wh = (cfg.screen_h as i64) * ONE;
    if !(0 <= ox && ox <= ww && 0 <= oy && oy <= wh) {
        return RayResult { angle, hit_x: ox, hit_y: oy, distance: 0, steps: 0 };
    }
    let cw = ww / (grid.width as i64);
    let ch = wh / (grid.height as i64);
    proof {
        lemma_div_is_ordered(1, cfg.world_w(), grid.width as int);
        vstd::arithmetic::div_mod::lemma_div_is_ordered_by_denominator(
            cfg.world_w(),
            grid.width as int,
            cfg.world_w(),
        );
        vstd::arithmetic::div_mod::lemma_div_pos_is_pos(cfg.world_w(), grid.width as int);
        vstd::arithmetic::div_mod::lemma_div_pos_is_pos(cfg.world_h(), grid.height as int);
        vstd::arithmetic::div_mod::lemma_div_non_zero(cfg.world_w(), grid.width as int);
        vstd::arithmetic::div_mod::lemma_div_non_zero(cfg.world_h(), grid.height as int);
    }
    let mut x = ox;
    let mut y = oy;
    let mut k: i64 = 0;
    loop
        invariant
            grid.wf(),
            cfg.wf(),
            dir_wf(dx as int, dy as int),
            cw as int == cell_w(*grid, *cfg),
            ch as int == cell_h(*grid, *cfg),
            cw >= 1,
            ch >= 1,
            ww as int == cfg.world_w(),
            wh as int == cfg.world_h(),
            cfg.in_world(ox as int, oy as int),
            0 <= k <= 2 * max_world(*cfg),
            x as int == sample(ox as int, dx as int, k as int),
            y as int == sample(oy as int, dy as int, k as int),
            cfg.in_world(x as int, y as int),
            forall|j: int| 0 <= j <= k ==> #[trigger] in_world_at(
                *cfg,
                ox as int,
                oy as int,
                dx as int,
                dy as int,
                j,
            ),
            forall|j: int| 0 <= j < k ==> !#[trigger] stops_at(
                *grid,
                *cfg,
                ox as int,
                oy as int,
                dx as int,
                dy as int,
                j,
            ),
        decreases 2 * max_world(*cfg) + 1 - k,
    {
        let qx = x / cw;
        let qy = y / ch;
        let cx = if qx < grid.width as i64 {
            qx
        } else {
            grid.width as i64 - 1
        };
        let cy = if qy < grid.height as i64 {
            qy
        } else {
            grid.height as i64 - 1
        };
        proof {
            vstd::arithmetic::div_mod::lemma_div_pos_is_pos(x as int, cw as int);
            vstd::arithmetic::div_mod::lemma_div_pos_is_pos(y as int, ch as int);
            assert(cx as int == cell_x_of(*grid, *cfg, x as int));
            assert(cy as int == cell_y_of(*grid, *cfg, y as int));
        }
        let cell = grid.cell_at(cx as u32, cy as u32);
        if matches!(cell, crate::grid::Cell::Blocked) {
            let d = dist_fp(ox, oy, x, y);
            proof {
                assert(blocked_at_point(*grid, *cfg, x as int, y as int));
                assert(stops_at(*grid, *cfg, ox as int, oy as int, dx as int, dy as int,
                    k as int));
                assert(sample(ox as int, dx as int, 0) == ox as int && sample(
                    oy as int,
                    dy as int,
                    0,
                ) == oy as int);
                if blocked_at_point(*grid, *cfg, ox as int, oy as int) && k > 0 {
                    assert(!stops_at(*grid, *cfg, ox as int, oy as int, dx as int, dy as int, 0));
                    assert(false);
                }
            }
            return RayResult { angle, hit_x: x, hit_y: y, distance: d, steps: k as u32 };
        }
        let nx = x + dx;
        let ny = y + dy;
        proof {
            assert(nx as int == sample(ox as int, dx as int, k + 1) && ny as int == sample(
                oy as int,
                dy as int,
                k + 1,
            )) by (nonlinear_arith)
                requires
                    nx as int == x + dx,
                    ny as int == y + dy,
                    x as int == ox + (k as int) * dx,
                    y as int == oy + (k as int) * dy;
        }
        if !(0 <= nx && nx <= ww && 0 <= ny && ny <= wh) {
            proof {
                assert(!in_world_at(*cfg, ox as int, oy as int, dx as int, dy as int, k + 1));
                assert(stops_at(
                    *grid,
                    *cfg,
                    ox as int,
                    oy as int,
                    dx as int,
                    dy as int,
                    k as int,
                ));
                assert(sample(ox as int, dx as int, 0) == ox as int && sample(
                    oy as int,
                    dy as int,
                    0,
                ) == oy as int);
                if blocked_at_point(*grid, *cfg, ox as int, oy as int) && k > 0 {
                    assert(!stops_at(*grid, *cfg, ox as int, oy as int, dx as int, dy as int, 0));
                    assert(false);
                }
                if blocked_at_point(*grid, *cfg, ox as int, oy as int) && k == 0 {
                    assert(false);
                }
            }
            let d = dist_fp(ox, oy, x, y);
            return RayResult { angle, hit_x: x, hit_y: y, distance: d, steps: k as u32 };
        }
        proof {
            assert(in_world_at(*cfg, ox as int, oy as int, dx as int, dy as int, k + 1));
            assert(!stops_at(*grid, *cfg, ox as int, oy as int, dx as int, dy as int, k as int));
            lemma_step_count(*cfg, ox as int, oy as int, dx as int, dy as int, k + 1);
        }
        x = nx;
        y = ny;
        k = k + 1;
    }
}

/// The angle of ray `i` of a fan: the heading, back half the field of view,
/// forward `i` equal shares of it, normalized.
pub open spec fn ray_angle_spec(cfg: Config, heading: int, i: int) -> int {
    norm_spec(heading - cfg.fov / 2 + i * cfg.fov / (cfg.ray_count as int))
}

pub fn ray_angle(cfg: &Config, heading: i64, i: u32) -> (r: i64)
    requires
        cfg.wf(),
        angle_wf(heading as int),
        i < cfg.ray_count,
    ensures
        r as int == ray_angle_spec(*cfg, heading as int, i as int),
        angle_wf(r as int),
{
    proof {
        assert(0 <= (i as int) * cfg.fov <= (cfg.ray_count as int) * cfg.fov && (
        cfg.ray_count as int) * cfg.fov <= 0x1_0000_0000_0000) by (nonlinear_arith)
            requires 0 <= i as int <= cfg.ray_count as int, 0 <= cfg.fov <= 65536,
                cfg.ray_count <= 65536;
        lemma_div_is_ordered(0, (i as int) * cfg.fov, cfg.ray_count as int);
        lemma_div_is_ordered(
            (i as int) * cfg.fov,
            (cfg.ray_count as int) * cfg.fov,
            cfg.ray_count as int,
        );
        vstd::arithmetic::div_mod::lemma_div_multiples_vanish(cfg.fov as int,
            cfg.ray_count as int);
    }
    let share = (i as i64) * cfg.fov / (cfg.ray_count as i64);
    norm_angle(heading - cfg.fov / 2 + share)
}

/// Cast the whole fan: `ray_count` rays spread over the field of view,
/// centered on the heading, each marched against the grid.
pub fn cast(grid: &Grid, cfg: &Config, ox: i64, oy: i64, heading: i64) -> (rays: Vec<RayResult>)
    requires
        grid.wf(),
        cfg.wf(),
        angle_wf(heading as int),
    ensures
        rays@.len() == cfg.ray_count,
        forall|i: int|
            0 <= i < cfg.ray_count ==> #[trigger] march_post(
                *grid,
                *cfg,
                ox as int,
                oy as int,
                cos_spec(ray_angle_spec(*cfg, heading as int, i)),
                sin_spec(ray_angle_spec(*cfg, heading as int, i)),
                ray_angle_spec(*cfg, heading as int, i),
                rays@[i],
            ),
{
    let mut rays: Vec<RayResult> = Vec::new();
    let n = cfg.ray_count;
    let mut i: u32 = 0;
    while i < n
        invariant
            grid.wf(),
            cfg.wf(),
            angle_wf(heading as int),
            n == cfg.ray_count,
            0 <= i <= n,
            rays@.len() == i,
            forall|j: int|
                0 <= j < i ==> #[trigger] march_post(
                    *grid,
                    *cfg,
                    ox as int,
                    oy as int,
                    cos_spec(ray_angle_spec(*cfg, heading as int, j)),
                    sin_spec(ray_angle_spec(*cfg, heading as int, j)),
                    ray_angle_spec(*cfg, heading as int, j),
                    rays@[j],
                ),
        decreases n - i,
    {
        let ang = ray_angle(cfg, heading, i);
        proof {
            lemma_dominant_axis(ang as int);
            lemma_sin_bounds(ang as int);
            lemma_cos_bounds(ang as int);
        }
        let dxv = cos_fp(ang);
        let dyv = sin_fp(ang);
        let r = march(grid, cfg, ox, oy, dxv, dyv, ang);
        rays.push(r);
        i = i + 1;
    }
    rays
}

} // verus!
