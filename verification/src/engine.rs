use vstd::prelude::*;
use vstd::arithmetic::div_mod::{lemma_fundamental_div_mod, lemma_mod_division_less_than_divisor};
use crate::avatar::{Avatar, AVATAR_SIZE};
use crate::config::Config;
use crate::fp::ONE;
use crate::grid::{Cell, Grid};
use crate::input::{apply_event_spec, apply_events_spec, apply_input_event, InputEvent,
    InputState};
use crate::motion::{advance, advance_spec, MAX_DT};
use crate::project::{avatar_marker, avatar_marker_spec, mini_cell_rect, mini_cell_rect_spec,
    ray_line, ray_line_spec, wall_rect, wall_rect_spec, LineCmd, RectCmd};
use crate::ray::{cast, march_post, ray_angle_spec, RayResult};
use crate::trig::{cos_spec, sin_spec};

verus! {

/// Everything the host needs to draw one frame: the per-ray intersection
/// records the primitives were computed from, the minimap rectangles of the
/// blocked cells, the avatar's minimap marker when it is in bounds, one wall
/// column per ray, and one minimap overlay line per ray.
pub struct DrawCommands {
    pub rays: Vec<RayResult>,
    pub map_rects: Vec<RectCmd>,
    pub avatar_rect: Option<RectCmd>,
    pub wall_rects: Vec<RectCmd>,
    pub ray_lines: Vec<LineCmd>,
}

/// The session context: the static grid, the fixed configuration, and the
/// mutable avatar and input state.
pub struct Engine {
    pub grid: Grid,
    pub config: Config,
    pub avatar: Avatar,
    pub input: InputState,
}

/// A coordinate centering the avatar's marker on a screen dimension.
pub open spec fn centered_coord_spec(dim: int) -> int {
    if dim >= AVATAR_SIZE {
        (dim - AVATAR_SIZE) * (ONE as int) / 2
    } else {
        -((AVATAR_SIZE - dim) * (ONE as int) / 2)
    }
}

fn centered_coord(dim: u32) -> (r: i64)
    requires
        dim <= 0x4000,
    ensures
        r as int == centered_coord_spec(dim as int),
        -0x4000_0000 <= r <= 0x4000_0000,
{
    if dim as i64 >= AVATAR_SIZE {
        (dim as i64 - AVATAR_SIZE) * ONE / 2
    } else {
        -((AVATAR_SIZE - dim as i64) * ONE / 2)
    }
}

/// The minimap rectangles of the blocked cells among the first `n` cells in
/// row-major order.
pub open spec fn map_rects_upto(grid: Grid, cfg: Config, n: int) -> Seq<RectCmd>
    decreases n,
{
    if n <= 0 {
        Seq::empty()
    } else {
        let prev = map_rects_upto(grid, cfg, n - 1);
        let x = (n - 1) % (grid.width as int);
        let y = (n - 1) / (grid.width as int);
        if grid.cells@[n - 1] is Blocked {
            prev.push(mini_cell_rect_spec(grid, cfg, x, y))
        } else {
            prev
        }
    }
}

/// The minimap rectangles of all blocked cells, in row-major order.
pub open spec fn map_rects_spec(grid: Grid, cfg: Config) -> Seq<RectCmd> {
    map_rects_upto(grid, cfg, (grid.width as int) * (grid.height as int))
}

/// Everything a rendered frame promises: the minimap shows exactly the
/// blocked cells; the avatar marker is present exactly when the avatar is
/// within world bounds; and for every ray index the recorded ray satisfies
/// the march contract while the wall column and overlay line are the pure
/// projections of that ray.
pub open spec fn render_post(e: Engine, cmds: DrawCommands) -> bool {
    let rc = e.config.ray_count as int;
    cmds.map_rects@ == map_rects_spec(e.grid, e.config) && (cmds.avatar_rect is Some
        <==> e.config.in_world(e.avatar.x as int, e.avatar.y as int)) && (cmds.avatar_rect
        matches Some(a) ==> a == avatar_marker_spec(e.config, e.avatar.x as int,
    e.avatar.y as int)) && cmds.rays@.len() == rc && cmds.wall_rects@.len() == rc
        && cmds.ray_lines@.len() == rc && (forall|i: int|
        0 <= i < rc ==> #[trigger] march_post(
            e.grid,
            e.config,
            e.avatar.x as int,
            e.avatar.y as int,
            cos_spec(ray_angle_spec(e.config, e.avatar.heading as int, i)),
            sin_spec(ray_angle_spec(e.config, e.avatar.heading as int, i)),
            ray_angle_spec(e.config, e.avatar.heading as int, i),
            cmds.rays@[i],
        )) && (forall|i: int|
        0 <= i < rc ==> (#[trigger] cmds.wall_rects@[i]) == wall_rect_spec(
            e.config,
            i,
            cmds.rays@[i].distance as int,
        )) && (forall|i: int|
        0 <= i < rc ==> (#[trigger] cmds.ray_lines@[i]) == ray_line_spec(
            e.config,
            e.avatar.x as int,
            e.avatar.y as int,
            cmds.rays@[i],
        ))
}

impl Engine {
    /// Structural invariant of the whole session context.
    pub open spec fn wf(self) -> bool {
        self.grid.wf() && self.config.wf() && self.avatar.wf()
    }

    /// A fresh session: all keys released, the avatar centered on the screen
    /// and heading along the positive x axis.
    pub fn new(grid: Grid, config: Config) -> (e: Engine)
        requires
            grid.wf(),
            config.wf(),
        ensures
            e.grid == grid,
            e.config == config,
            e.avatar == (Avatar {
                x: centered_coord_spec(config.screen_w as int) as i64,
                y: centered_coord_spec(config.screen_h as int) as i64,
                heading: 0,
                delta_x: ONE,
                delta_y: 0,
            }),
            e.input == (InputState {
                forward: false,
                backward: false,
                turn_left: false,
                turn_right: false,
            }),
            e.wf(),
            e.avatar.in_range(),
    {
        let ax = centered_coord(config.screen_w);
        let ay = centered_coord(config.screen_h);
        let avatar = Avatar::new(ax, ay);
        let input = InputState::new();
        Engine { grid, config, avatar, input }
    }

    /// Record one key transition.
    pub fn apply_input(&mut self, event: InputEvent)
        ensures
            final(self).input == apply_event_spec(old(self).input, event),
            final(self).grid == old(self).grid,
            final(self).config == old(self).config,
            final(self).avatar == old(self).avatar,
    {
        self.input = apply_input_event(self.input, event);
    }

    /// The update phase of a tick: one motion step from the held keys.
    pub fn update(&mut self, dt: i64)
        requires
            old(self).wf(),
            old(self).avatar.in_range(),
            0 <= dt <= MAX_DT,
        ensures
            final(self).avatar == advance_spec(
                old(self).avatar,
                old(self).input,
                dt as int,
                old(self).config,
            ),
            final(self).grid == old(self).grid,
            final(self).config == old(self).config,
            final(self).input == old(self).input,
            final(self).wf(),
            final(self).avatar.in_range_slack(),
    {
        self.avatar = advance(&self.avatar, &self.input, dt, &self.config);
    }

    /// The render phase of a tick: cast the ray fan and lay out every draw
    /// primitive of the frame. Pure in the engine state.
    pub fn render(&self) -> (cmds: DrawCommands)
        requires
            self.wf(),
            self.avatar.in_range_slack(),
        ensures
            render_post(*self, cmds),
    {
        let rays = cast(&self.grid, &self.config, self.avatar.x, self.avatar.y,
            self.avatar.heading);
        proof {
            assert((self.grid.width as int) * (self.grid.height as int) <= 1048576) by (
            nonlinear_arith)
                requires
                    (self.grid.width as int) <= 1024,
                    (self.grid.height as int) <= 1024;
        }
        let total = self.grid.width * self.grid.height;
        let mut map_rects: Vec<RectCmd> = Vec::new();
        let mut idx: u32 = 0;
        while idx < total
            invariant
                self.wf(),
                total == self.grid.width * self.grid.height,
                total <= 1048576,
                0 <= idx <= total,
                map_rects@ == map_rects_upto(self.grid, self.config, idx as int),
            decreases total - idx,
        {
            let x = idx % self.grid.width;
            let y = idx / self.grid.width;
            proof {
                lemma_fundamental_div_mod(idx as int, self.grid.width as int);
                lemma_mod_division_less_than_divisor(idx as int, self.grid.width as int);
                vstd::arithmetic::div_mod::lemma_div_pos_is_pos(idx as int,
                    self.grid.width as int);
                assert((y as int) < self.grid.height as int) by (nonlinear_arith)
                    requires
                        (idx as int) == (self.grid.width as int) * (y as int) + (x as int),
                        (idx as int) < (self.grid.width as int) * (self.grid.height as int),
                        0 <= (x as int) < (self.grid.width as int),
                        0 <= (y as int),
                        self.grid.width >= 1;
                assert((y as int) * (self.grid.width as int) + (x as int) == idx as int);
            }
            let c = self.grid.cell_at(x, y);
            if matches!(c, Cell::Blocked) {
                let r = mini_cell_rect(&self.grid, &self.config, x, y);
                map_rects.push(r);
            }
            idx = idx + 1;
        }
        let ww = (self.config.screen_w as i64) * ONE;
        let wh = (self.config.screen_h as i64) * ONE;
        let avatar_rect = if 0 <= self.avatar.x && self.avatar.x <= ww && 0 <= self.avatar.y
            && self.avatar.y <= wh {
            Some(avatar_marker(&self.config, self.avatar.x, self.avatar.y))
        } else {
            None
        };
        let n = self.config.ray_count;
        let mut wall_rects: Vec<RectCmd> = Vec::new();
        let mut ray_lines: Vec<LineCmd> = Vec::new();
        let mut i: u32 = 0;
        while i < n
            invariant
                self.wf(),
                self.avatar.in_range_slack(),
                n == self.config.ray_count,
                0 <= i <= n,
                rays@.len() == n,
                wall_rects@.len() == i,
                ray_lines@.len() == i,
                forall|j: int|
                    0 <= j < n ==> #[trigger] march_post(
                        self.grid,
                        self.config,
                        self.avatar.x as int,
                        self.avatar.y as int,
                        cos_spec(ray_angle_spec(self.config, self.avatar.heading as int, j)),
                        sin_spec(ray_angle_spec(self.config, self.avatar.heading as int, j)),
                        ray_angle_spec(self.config, self.avatar.heading as int, j),
                        rays@[j],
                    ),
                forall|j: int|
                    0 <= j < i ==> (#[trigger] wall_rects@[j]) == wall_rect_spec(
                        self.config,
                        j,
                        rays@[j].distance as int,
                    ),
                forall|j: int|
                    0 <= j < i ==> (#[trigger] ray_lines@[j]) == ray_line_spec(
                        self.config,
                        self.avatar.x as int,
                        self.avatar.y as int,
                        rays@[j],
                    ),
            decreases n - i,
        {
            let r = rays[i as usize];
            proof {
                assert(march_post(
                    self.grid,
                    self.config,
                    self.avatar.x as int,
                    self.avatar.y as int,
                    cos_spec(ray_angle_spec(self.config, self.avatar.heading as int, i as int)),
                    sin_spec(ray_angle_spec(self.config, self.avatar.heading as int, i as int)),
                    ray_angle_spec(self.config, self.avatar.heading as int, i as int),
                    rays@[i as int],
                ));
                if self.config.in_world(self.avatar.x as int, self.avatar.y as int) {
                    assert(crate::ray::in_world_at(
                        self.config,
                        self.avatar.x as int,
                        self.avatar.y as int,
                        cos_spec(ray_angle_spec(self.config, self.avatar.heading as int,
                            i as int)),
                        sin_spec(ray_angle_spec(self.config, self.avatar.heading as int,
                            i as int)),
                        r.steps as int,
                    ));
                }
            }
            let w = wall_rect(&self.config, i, r.distance);
            wall_rects.push(w);
            let l = ray_line(&self.config, self.avatar.x, self.avatar.y, &r);
            ray_lines.push(l);
            i = i + 1;
        }
        DrawCommands { rays, map_rects, avatar_rect, wall_rects, ray_lines }
    }

    /// One whole frame: apply the pending key transitions in order, advance
    /// the avatar by the tick duration, then lay out the frame's primitives.
    pub fn tick(&mut self, dt: i64, events: &Vec<InputEvent>) -> (cmds: DrawCommands)
        requires
            old(self).wf(),
            old(self).avatar.in_range(),
            0 <= dt <= MAX_DT,
        ensures
            final(self).grid == old(self).grid,
            final(self).config == old(self).config,
            final(self).input == apply_events_spec(old(self).input, events@),
            final(self).avatar == advance_spec(
                old(self).avatar,
                apply_events_spec(old(self).input, events@),
                dt as int,
                old(self).config,
            ),
            final(self).wf(),
            render_post(*final(self), cmds),
    {
        let ghost start = self.input;
        let ghost evs = events@;
        let mut cur = self.input;
        let mut i: usize = 0;
        proof {
            assert(evs.subrange(0, evs.len() as int) =~= evs);
        }
        while i < events.len()
            invariant
                evs == events@,
                0 <= i <= evs.len(),
                apply_events_spec(cur, evs.subrange(i as int, evs.len() as int))
                    == apply_events_spec(start, evs),
            decreases evs.len() - i,
        {
            let ghost before = evs.subrange(i as int, evs.len() as int);
            cur = apply_input_event(cur, events[i]);
            proof {
                assert(before.subrange(1, before.len() as int) =~= evs.subrange(
                    i + 1,
                    evs.len() as int,
                ));
            }
            i = i + 1;
        }
        proof {
            assert(evs.subrange(evs.len() as int, evs.len() as int) =~= Seq::<
                InputEvent,
            >::empty());
        }
        self.input = cur;
        self.update(dt);
        self.render()
    }
}

} // verus!
