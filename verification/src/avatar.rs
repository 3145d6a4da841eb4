use vstd::prelude::*;
use vstd::arithmetic::div_mod::lemma_mod_division_less_than_divisor;
use crate::angle::{angle_wf, TURN};
use crate::fp::{ONE, POS_BOUND};
use crate::trig::{cos_spec, sin_spec};

verus! {

/// Side length of the avatar's minimap marker, in world units.
pub const AVATAR_SIZE: i64 = 25;

/// The moving viewpoint: a fixed-point world position, a normalized heading,
/// and the decorative facing-delta vector derived from the heading.
#[derive(Clone, Copy, Debug, PartialEq, Eq, Structural)]
pub struct Avatar {
    pub x: i64,
    pub y: i64,
    pub heading: i64,
    pub delta_x: i64,
    pub delta_y: i64,
}

/// The angle the facing delta points at: five times the heading, wrapped.
pub open spec fn facing_angle(h: int) -> int {
    (5 * h) % (TURN as int)
}

/// The facing delta's x component for a heading.
pub open spec fn facing_dx(h: int) -> int {
    cos_spec(facing_angle(h))
}

/// The facing delta's y component for a heading.
pub open spec fn facing_dy(h: int) -> int {
    sin_spec(facing_angle(h))
}

pub fn facing_angle_of(h: i64) -> (r: i64)
    requires
        angle_wf(h as int),
    ensures
        r as int == facing_angle(h as int),
        angle_wf(r as int),
{
    proof {
        lemma_mod_division_less_than_divisor(5 * (h as int), TURN as int);
    }
    (5 * h) % TURN
}

impl Avatar {
    /// Structural invariant: the heading is normalized and the facing delta
    /// matches the heading.
    pub open spec fn wf(self) -> bool {
        angle_wf(self.heading as int) && self.delta_x as int == facing_dx(self.heading as int)
            && self.delta_y as int == facing_dy(self.heading as int)
    }

    /// The position is within the arithmetic range the motion step needs.
    pub open spec fn in_range(self) -> bool {
        -POS_BOUND <= self.x <= POS_BOUND && -POS_BOUND <= self.y <= POS_BOUND
    }

    /// The position is within the slightly wider range that one motion step
    /// away from `in_range` can reach; everything the renderer draws stays
    /// representable there.
    pub open spec fn in_range_slack(self) -> bool {
        -(POS_BOUND + crate::motion::MAX_STEP) <= self.x <= POS_BOUND + crate::motion::MAX_STEP
            && -(POS_BOUND + crate::motion::MAX_STEP) <= self.y <= POS_BOUND
            + crate::motion::MAX_STEP
    }

    /// An avatar at a given position, heading along the positive x axis.
    pub fn new(x: i64, y: i64) -> (r: Avatar)
        requires
            -POS_BOUND <= x <= POS_BOUND,
            -POS_BOUND <= y <= POS_BOUND,
        ensures
            r == (Avatar { x, y, heading: 0, delta_x: ONE, delta_y: 0 }),
            r.wf(),
            r.in_range(),
    {
        proof {
            vstd::arithmetic::div_mod::lemma_small_mod(0nat, TURN as nat);
            assert(facing_angle(0) == 0);
            assert(cos_spec(0) == ONE);
            assert(sin_spec(0) == 0);
        }
        Avatar { x, y, heading: 0, delta_x: ONE, delta_y: 0 }
    }
}

} // verus!
