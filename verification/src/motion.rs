use vstd::prelude::*;
use vstd::arithmetic::div_mod::{lemma_div_is_ordered, lemma_div_multiples_vanish};
use crate::angle::{angle_wf, apply_turns, turn_left, turn_left_spec, turn_right,
    turn_right_spec, TurnDir};
use crate::avatar::{facing_angle_of, facing_dx, facing_dy, Avatar};
use crate::config::Config;
use crate::fp::ONE;
use crate::input::InputState;
use crate::trig::{cos_fp, cos_spec, sin_fp, sin_spec};

verus! {

/// Longest tick duration the motion step accepts: ten seconds, fixed-point.
pub const MAX_DT: i64 = 655360;

/// Largest displacement one motion step can produce on one axis.
pub const MAX_STEP: i64 = 0x2_0000_0000;

/// Displacement along one axis: the direction component times speed times
/// elapsed time, truncated toward zero as the fixed-point products are taken.
pub open spec fn disp_spec(delta: int, speed: int, dt: int) -> int {
    if delta >= 0 {
        delta * speed / (ONE as int) * dt / (ONE as int)
    } else {
        -((-delta) * speed / (ONE as int) * dt / (ONE as int))
    }
}

/// Bounds along the displacement product chain for a non-negative direction
/// component: every intermediate fits comfortably in 64 bits and the result
/// stays under `MAX_STEP`.
proof fn lemma_disp_chain(m: int, speed: int, dt: int)
    requires
        0 <= m <= ONE as int,
        0 <= speed <= 0x2000_0000,
        0 <= dt <= MAX_DT as int,
    ensures
        0 <= m * speed <= 0x2000_0000_0000,
        0 <= m * speed / (ONE as int) <= speed,
        0 <= m * speed / (ONE as int) * dt <= 0x1_4000_0000_0000,
        0 <= m * speed / (ONE as int) * dt / (ONE as int) < MAX_STEP as int,
{
    assert(0 <= m * speed && m * speed <= (ONE as int) * speed && m * speed
        <= 0x2000_0000_0000) by (nonlinear_arith)
        requires 0 <= m <= ONE as int, 0 <= speed <= 0x2000_0000;
    lemma_div_is_ordered(0, m * speed, ONE as int);
    lemma_div_is_ordered(m * speed, (ONE as int) * speed, ONE as int);
    lemma_div_multiples_vanish(speed, ONE as int);
    let q1 = m * speed / (ONE as int);
    assert(0 <= q1 * dt && q1 * dt <= 0x1_4000_0000_0000) by (nonlinear_arith)
        requires 0 <= q1 <= 0x2000_0000, 0 <= dt <= MAX_DT as int;
    lemma_div_is_ordered(0, q1 * dt, ONE as int);
    lemma_div_is_ordered(q1 * dt, 0x1_4000_0000_0000, ONE as int);
}

/// One axis displacement, executable.
fn disp(delta: i64, speed: i64, dt: i64) -> (r: i64)
    requires
        -ONE <= delta <= ONE,
        0 <= speed <= 0x2000_0000,
        0 <= dt <= MAX_DT,
    ensures
        r as int == disp_spec(delta as int, speed as int, dt as int),
        -MAX_STEP < r < MAX_STEP,
{
    if delta >= 0 {
        proof {
            lemma_disp_chain(delta as int, speed as int, dt as int);
        }
        delta * speed / ONE * dt / ONE
    } else {
        proof {
            lemma_disp_chain(-(delta as int), speed as int, dt as int);
        }
        -((-delta) * speed / ONE * dt / ONE)
    }
}

/// The avatar after one motion step. Translation comes first and always uses
/// the heading the frame started with; the optional right turn, then the
/// optional left turn, come after and also refresh the facing delta.
pub open spec fn advance_spec(a: Avatar, inp: InputState, dt: int, cfg: Config) -> Avatar {
    let ddx = disp_spec(cos_spec(a.heading as int), cfg.speed(), dt);
    let ddy = disp_spec(sin_spec(a.heading as int), cfg.speed(), dt);
    let x1 = if inp.forward {
        a.x + ddx
    } else {
        a.x as int
    };
    let y1 = if inp.forward {
        a.y + ddy
    } else {
        a.y as int
    };
    let x2 = if inp.backward {
        x1 - ddx
    } else {
        x1
    };
    let y2 = if inp.backward {
        y1 - ddy
    } else {
        y1
    };
    let h1 = if inp.turn_right {
        turn_right_spec(a.heading as int)
    } else {
        a.heading as int
    };
    let h2 = if inp.turn_left {
        turn_left_spec(h1)
    } else {
        h1
    };
    Avatar {
        x: x2 as i64,
        y: y2 as i64,
        heading: h2 as i64,
        delta_x: facing_dx(h2) as i64,
        delta_y: facing_dy(h2) as i64,
    }
}

/// One motion step: deterministic and pure in the avatar, the input flags,
/// the tick duration and the configuration.
pub fn advance(a: &Avatar, inp: &InputState, dt: i64, cfg: &Config) -> (r: Avatar)
    requires
        a.wf(),
        a.in_range(),
        cfg.wf(),
        0 <= dt <= MAX_DT,
    ensures
        r == advance_spec(*a, *inp, dt as int, *cfg),
        r.wf(),
        r.in_range_slack(),
        inp.forward && inp.backward ==> r.x == a.x && r.y == a.y,
        !inp.forward && !inp.backward ==> r.x == a.x && r.y == a.y,
        !inp.turn_left && !inp.turn_right ==> r.heading == a.heading,
{
    let speed = (cfg.screen_w as i64) * ONE / 2;
    let c = cos_fp(a.heading);
    let s = sin_fp(a.heading);
    let ddx = disp(c, speed, dt);
    let ddy = disp(s, speed, dt);
    let mut x = a.x;
    let mut y = a.y;
    if inp.forward {
        x = x + ddx;
        y = y + ddy;
    }
    if inp.backward {
        x = x - ddx;
        y = y - ddy;
    }
    let mut h = a.heading;
    if inp.turn_right {
        h = turn_right(h);
    }
    if inp.turn_left {
        h = turn_left(h);
    }
    let fa = facing_angle_of(h);
    let fdx = cos_fp(fa);
    let fdy = sin_fp(fa);
    Avatar { x, y, heading: h, delta_x: fdx, delta_y: fdy }
}

/// The turn ticks one motion step applies, in order: the optional right
/// turn, then the optional left turn.
pub open spec fn tick_turns(inp: InputState) -> Seq<TurnDir> {
    let r = if inp.turn_right {
        seq![TurnDir::Right]
    } else {
        Seq::<TurnDir>::empty()
    };
    let l = if inp.turn_left {
        seq![TurnDir::Left]
    } else {
        Seq::<TurnDir>::empty()
    };
    r + l
}

/// Law: the heading after one motion step is exactly the tick's turn
/// sequence applied to the old heading, so the turn-sequence laws govern
/// every heading the motion system can reach.
pub proof fn lemma_advance_heading(a: Avatar, inp: InputState, dt: int, cfg: Config)
    requires
        angle_wf(a.heading as int),
    ensures
        advance_spec(a, inp, dt, cfg).heading as int == apply_turns(
            a.heading as int,
            tick_turns(inp),
        ),
{
    reveal_with_fuel(apply_turns, 3);
    let h = a.heading as int;
    let s = tick_turns(inp);
    if inp.turn_right && inp.turn_left {
        assert(s =~= seq![TurnDir::Right, TurnDir::Left]);
        assert(s.subrange(1, 2) =~= seq![TurnDir::Left]);
        assert(seq![TurnDir::Left].subrange(1, 1) =~= Seq::<TurnDir>::empty());
        assert(apply_turns(h, s) == turn_left_spec(turn_right_spec(h)));
    } else if inp.turn_right {
        assert(s =~= seq![TurnDir::Right]);
        assert(s.subrange(1, 1) =~= Seq::<TurnDir>::empty());
        assert(apply_turns(h, s) == turn_right_spec(h));
    } else if inp.turn_left {
        assert(s =~= seq![TurnDir::Left]);
        assert(s.subrange(1, 1) =~= Seq::<TurnDir>::empty());
        assert(apply_turns(h, s) == turn_left_spec(h));
    } else {
        assert(s =~= Seq::<TurnDir>::empty());
    }
}

/// Law: the motion step is a pure function of its inputs — equal avatars,
/// input flags, tick durations and configurations give equal outcomes.
pub proof fn lemma_advance_deterministic(
    a1: Avatar,
    a2: Avatar,
    i1: InputState,
    i2: InputState,
    dt1: int,
    dt2: int,
    c1: Config,
    c2: Config,
)
    requires
        a1 == a2,
        i1 == i2,
        dt1 == dt2,
        c1 == c2,
    ensures
        advance_spec(a1, i1, dt1, c1) == advance_spec(a2, i2, dt2, c2),
{
}

} // verus!
