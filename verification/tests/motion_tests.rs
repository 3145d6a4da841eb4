use u3d_core::avatar::Avatar;
use u3d_core::config::Config;
use u3d_core::fp::ONE;
use u3d_core::input::{apply_input_event, DirectionKey, InputEvent, InputState};
use u3d_core::motion::advance;

fn preset() -> Config {
    Config::new(1920, 1080, 300, 10922).unwrap()
}

fn held(forward: bool, backward: bool, turn_left: bool, turn_right: bool) -> InputState {
    InputState { forward, backward, turn_left, turn_right }
}

#[test]
fn forward_backward_cancel() {
    // forward and backward held together leave the position untouched
    let cfg = preset();
    let a = Avatar::new(100 * ONE, 200 * ONE);
    let dt = ONE / 60;
    let r = advance(&a, &held(true, true, false, false), dt, &cfg);
    assert_eq!(r.x, a.x);
    assert_eq!(r.y, a.y);
    assert_eq!(r.heading, 0);
}

#[test]
fn idle_keys_leave_avatar_alone() {
    let cfg = preset();
    let a = Avatar::new(7 * ONE, 9 * ONE);
    let r = advance(&a, &held(false, false, false, false), ONE / 60, &cfg);
    assert_eq!(r.x, a.x);
    assert_eq!(r.y, a.y);
    assert_eq!(r.heading, a.heading);
}

#[test]
fn turn_then_move_uses_preturn_heading() {
    // translation uses the frame's starting heading; the turn lands after
    let cfg = preset();
    let a = Avatar::new(0, 0);
    let dt = ONE / 60; // 1092 fixed-point seconds
    let r = advance(&a, &held(true, false, false, true), dt, &cfg);
    // speed is half the world width: 1920/2 * ONE per second
    let speed = 1920 * ONE / 2;
    let expect_dx = speed * dt / ONE;
    assert_eq!(r.x, expect_dx);
    assert_eq!(r.y, 0);
    assert_eq!(r.heading, 521);
}

#[test]
fn advance_is_deterministic() {
    let cfg = preset();
    let a = Avatar::new(3 * ONE, 4 * ONE);
    let inp = held(true, false, true, false);
    let r1 = advance(&a, &inp, 1092, &cfg);
    let r2 = advance(&a, &inp, 1092, &cfg);
    assert_eq!(r1, r2);
}

#[test]
fn heading_stays_normalized_and_full_circle_returns() {
    let cfg = preset();
    let mut a = Avatar::new(0, 0);
    let right = held(false, false, false, true);
    for _ in 0..126 {
        a = advance(&a, &right, 0, &cfg);
        assert!(0 <= a.heading && a.heading < 65536);
    }
    // 126 * 521 = 65646 wraps past one full turn
    assert_eq!(a.heading, 110);
    let left = held(false, false, true, false);
    for _ in 0..126 {
        a = advance(&a, &left, 0, &cfg);
        assert!(0 <= a.heading && a.heading < 65536);
    }
    // equal right and left ticks have net rotation zero
    assert_eq!(a.heading, 0);
}

#[test]
fn facing_delta_follows_heading() {
    let cfg = preset();
    let a = Avatar::new(0, 0);
    assert_eq!(a.delta_x, ONE);
    assert_eq!(a.delta_y, 0);
    let r = advance(&a, &held(false, false, false, true), 0, &cfg);
    // heading 521, facing angle 5 * 521 = 2605; the delta is the quadratic
    // wave at that angle and a quarter turn ahead of it
    assert_eq!(r.heading, 521);
    assert_eq!(r.delta_y, 2605 * (32768 - 2605) / 4096);
    assert_eq!(r.delta_x, 18989 * (32768 - 18989) / 4096);
    assert!(r.delta_x.abs() <= ONE && r.delta_y.abs() <= ONE);
}

#[test]
fn key_transitions_set_and_clear_flags() {
    let s0 = InputState::new();
    assert!(!s0.forward && !s0.backward && !s0.turn_left && !s0.turn_right);
    let s1 = apply_input_event(s0, InputEvent { key: DirectionKey::Forward, pressed: true });
    assert!(s1.forward && !s1.backward);
    let s2 = apply_input_event(s1, InputEvent { key: DirectionKey::TurnRight, pressed: true });
    assert!(s2.forward && s2.turn_right);
    let s3 = apply_input_event(s2, InputEvent { key: DirectionKey::Forward, pressed: false });
    assert!(!s3.forward && s3.turn_right && !s3.backward && !s3.turn_left);
}
