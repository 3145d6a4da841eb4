use vstd::prelude::*;
use crate::angle::TURN;
use crate::errors::CoreError;
use crate::fp::{MAX_DIM, ONE};

verus! {

/// Most rays a single cast may fan out.
pub const MAX_RAYS: u32 = 65536;

/// Session configuration, fixed at construction: the world/window dimensions
/// in pixels, the number of rays per frame, and the field of view in angle
/// units.
#[derive(Clone, Copy, Debug, PartialEq, Eq, Structural)]
pub struct Config {
    pub screen_w: u32,
    pub screen_h: u32,
    pub ray_count: u32,
    pub fov: i64,
}

impl Config {
    /// The values a configuration may be built from: positive dimensions
    /// under the arithmetic cap, a positive ray count, and a positive field
    /// of view of at most a full turn.
    pub open spec fn values_ok(screen_w: u32, screen_h: u32, ray_count: u32, fov: i64) -> bool {
        1 <= screen_w <= MAX_DIM && 1 <= screen_h <= MAX_DIM && 1 <= ray_count <= MAX_RAYS
            && 1 <= fov <= TURN
    }

    pub open spec fn wf(self) -> bool {
        Self::values_ok(self.screen_w, self.screen_h, self.ray_count, self.fov)
    }

    /// Build a configuration; rejects non-positive or oversized values.
    pub fn new(screen_w: u32, screen_h: u32, ray_count: u32, fov: i64) -> (r: Result<
        Config,
        CoreError,
    >)
        ensures
            Self::values_ok(screen_w, screen_h, ray_count, fov) <==> r is Ok,
            r matches Ok(c) ==> c == (Config { screen_w, screen_h, ray_count, fov }) && c.wf(),
            r matches Err(e) ==> e is InvalidConfiguration,
    {
        if 1 <= screen_w && (screen_w as i64) <= MAX_DIM && 1 <= screen_h && (screen_h as i64)
            <= MAX_DIM && 1 <= ray_count && ray_count <= MAX_RAYS && 1 <= fov && fov <= TURN {
            Ok(Config { screen_w, screen_h, ray_count, fov })
        } else {
            Err(CoreError::InvalidConfiguration)
        }
    }

    /// World width in fixed-point units; the march's hard x bound.
    pub open spec fn world_w(self) -> int {
        (self.screen_w as int) * (ONE as int)
    }

    /// World height in fixed-point units; the march's hard y bound.
    pub open spec fn world_h(self) -> int {
        (self.screen_h as int) * (ONE as int)
    }

    /// The avatar's forward speed: half the world width per second.
    pub open spec fn speed(self) -> int {
        self.world_w() / 2
    }

    /// A point is inside the world rectangle (bounds included).
    pub open spec fn in_world(self, x: int, y: int) -> bool {
        0 <= x <= self.world_w() && 0 <= y <= self.world_h()
    }
}

} // verus!
