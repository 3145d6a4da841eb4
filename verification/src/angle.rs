use vstd::prelude::*;
use vstd::arithmetic::div_mod::{
    lemma_add_mod_noop, lemma_fundamental_div_mod, lemma_mod_division_less_than_divisor,
    lemma_mod_multiples_vanish, lemma_mod_sub_multiples_vanish, lemma_mod_twice,
    lemma_small_mod,
};

verus! {

/// Angle units in a full turn: headings are binary angle measure, so the
/// whole circle is 65536 units and wraparound is exact.
pub const TURN: i64 = 65536;

/// Half a turn (a real angle of pi).
pub const HALF_TURN: i64 = 32768;

/// A quarter turn (a real angle of pi/2).
pub const QUARTER_TURN: i64 = 16384;

/// Heading change applied by one turn tick, about 0.05 radians. A turn is a
/// fixed per-tick increment, deliberately not scaled by the tick duration.
pub const ANGLE_STEP: i64 = 521;

/// A heading is normalized: at least zero and under a full turn.
pub open spec fn angle_wf(a: int) -> bool {
    0 <= a < TURN as int
}

/// One turn tick to the right: add the step, wrap back under a full turn.
pub open spec fn turn_right_spec(h: int) -> int {
    if h + ANGLE_STEP >= TURN {
        h + ANGLE_STEP - TURN
    } else {
        h + ANGLE_STEP
    }
}

/// One turn tick to the left: subtract the step, wrap back above zero.
pub open spec fn turn_left_spec(h: int) -> int {
    if h - ANGLE_STEP < 0 {
        h - ANGLE_STEP + TURN
    } else {
        h - ANGLE_STEP
    }
}

pub fn turn_right(h: i64) -> (r: i64)
    requires
        angle_wf(h as int),
    ensures
        r as int == turn_right_spec(h as int),
        angle_wf(r as int),
{
    if h + ANGLE_STEP >= TURN {
        h + ANGLE_STEP - TURN
    } else {
        h + ANGLE_STEP
    }
}

pub fn turn_left(h: i64) -> (r: i64)
    requires
        angle_wf(h as int),
    ensures
        r as int == turn_left_spec(h as int),
        angle_wf(r as int),
{
    if h - ANGLE_STEP < 0 {
        h - ANGLE_STEP + TURN
    } else {
        h - ANGLE_STEP
    }
}

/// Bring an angle that is off by at most one turn back into [0, TURN).
pub open spec fn norm_spec(a: int) -> int {
    if a < 0 {
        a + TURN
    } else if a >= TURN {
        a - TURN
    } else {
        a
    }
}

pub fn norm_angle(a: i64) -> (r: i64)
    requires
        (a as int) > -(TURN as int),
        (a as int) < 2 * (TURN as int),
    ensures
        r as int == norm_spec(a as int),
        angle_wf(r as int),
{
    if a < 0 {
        a + TURN
    } else if a >= TURN {
        a - TURN
    } else {
        a
    }
}

/// A single turn tick, as an element of a turn sequence.
#[derive(Clone, Copy, Debug, PartialEq, Eq, Structural)]
pub enum TurnDir {
    Right,
    Left,
}

/// Signed heading change of one turn tick.
pub open spec fn turn_amount(t: TurnDir) -> int {
    if t is Right {
        ANGLE_STEP as int
    } else {
        -(ANGLE_STEP as int)
    }
}

/// Heading after applying a sequence of turn ticks in order.
pub open spec fn apply_turns(h: int, s: Seq<TurnDir>) -> int
    decreases s.len(),
{
    if s.len() == 0 {
        h
    } else {
        let h1 = if s[0] is Right {
            turn_right_spec(h)
        } else {
            turn_left_spec(h)
        };
        apply_turns(h1, s.subrange(1, s.len() as int))
    }
}

/// Net signed rotation of a sequence of turn ticks.
pub open spec fn net_rotation(s: Seq<TurnDir>) -> int
    decreases s.len(),
{
    if s.len() == 0 {
        0
    } else {
        turn_amount(s[0]) + net_rotation(s.subrange(1, s.len() as int))
    }
}

proof fn lemma_mod_add_left(a: int, b: int, m: int)
    requires
        m > 0,
    ensures
        ((a % m) + b) % m == (a + b) % m,
{
    lemma_mod_twice(a, m);
    lemma_add_mod_noop(a % m, b, m);
    lemma_add_mod_noop(a, b, m);
}

/// One right tick is addition of the step modulo a full turn.
proof fn lemma_turn_right_mod(h: int)
    requires
        angle_wf(h),
    ensures
        turn_right_spec(h) == (h + ANGLE_STEP) % (TURN as int),
        angle_wf(turn_right_spec(h)),
{
    if h + ANGLE_STEP >= TURN {
        lemma_mod_sub_multiples_vanish(h + ANGLE_STEP, TURN as int);
        lemma_small_mod((h + ANGLE_STEP - TURN) as nat, TURN as nat);
    } else {
        lemma_small_mod((h + ANGLE_STEP) as nat, TURN as nat);
    }
}

/// One left tick is subtraction of the step modulo a full turn.
proof fn lemma_turn_left_mod(h: int)
    requires
        angle_wf(h),
    ensures
        turn_left_spec(h) == (h - ANGLE_STEP) % (TURN as int),
        angle_wf(turn_left_spec(h)),
{
    if h - ANGLE_STEP < 0 {
        lemma_mod_multiples_vanish(1, h - ANGLE_STEP, TURN as int);
        lemma_small_mod((h - ANGLE_STEP + TURN) as nat, TURN as nat);
    } else {
        lemma_small_mod((h - ANGLE_STEP) as nat, TURN as nat);
    }
}

/// Law: every heading reached by a turn sequence stays normalized, and the
/// sequence lands on the start heading plus its net rotation, taken modulo a
/// full turn.
pub proof fn lemma_turns_mod(h: int, s: Seq<TurnDir>)
    requires
        angle_wf(h),
    ensures
        apply_turns(h, s) == (h + net_rotation(s)) % (TURN as int),
        angle_wf(apply_turns(h, s)),
    decreases s.len(),
{
    if s.len() == 0 {
        lemma_small_mod(h as nat, TURN as nat);
    } else {
        let h1 = if s[0] is Right {
            turn_right_spec(h)
        } else {
            turn_left_spec(h)
        };
        let amt = turn_amount(s[0]);
        if s[0] is Right {
            lemma_turn_right_mod(h);
        } else {
            lemma_turn_left_mod(h);
        }
        let rest = s.subrange(1, s.len() as int);
        lemma_turns_mod(h1, rest);
        assert(apply_turns(h, s) == ((h + amt) % (TURN as int) + net_rotation(rest)) % (
        TURN as int));
        lemma_mod_add_left(h + amt, net_rotation(rest), TURN as int);
    }
}

/// Law: a turn sequence whose net rotation is a whole number of turns brings
/// the heading back to its original value exactly.
pub proof fn lemma_full_turns_identity(h: int, s: Seq<TurnDir>)
    requires
        angle_wf(h),
        net_rotation(s) % (TURN as int) == 0,
    ensures
        apply_turns(h, s) == h,
{
    lemma_turns_mod(h, s);
    let net = net_rotation(s);
    lemma_fundamental_div_mod(net, TURN as int);
    lemma_mod_multiples_vanish(net / (TURN as int), h, TURN as int);
    lemma_small_mod(h as nat, TURN as nat);
}

} // verus!
