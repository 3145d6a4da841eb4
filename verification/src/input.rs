use vstd::prelude::*;

verus! {

/// The four held-direction flags, one per logical key.
#[derive(Clone, Copy, Debug, PartialEq, Eq, Structural)]
pub struct InputState {
    pub forward: bool,
    pub backward: bool,
    pub turn_left: bool,
    pub turn_right: bool,
}

/// A logical direction key.
#[derive(Clone, Copy, Debug, PartialEq, Eq, Structural)]
pub enum DirectionKey {
    Forward,
    Backward,
    TurnLeft,
    TurnRight,
}

/// A discrete key transition delivered by the host's dispatch loop.
#[derive(Clone, Copy, Debug, PartialEq, Eq, Structural)]
pub struct InputEvent {
    pub key: DirectionKey,
    pub pressed: bool,
}

/// The state after one key transition: the named flag takes the transition's
/// level, the other three are untouched.
pub open spec fn apply_event_spec(s: InputState, e: InputEvent) -> InputState {
    match e.key {
        DirectionKey::Forward => InputState { forward: e.pressed, ..s },
        DirectionKey::Backward => InputState { backward: e.pressed, ..s },
        DirectionKey::TurnLeft => InputState { turn_left: e.pressed, ..s },
        DirectionKey::TurnRight => InputState { turn_right: e.pressed, ..s },
    }
}

/// The state after a batch of key transitions, applied in order.
pub open spec fn apply_events_spec(s: InputState, evs: Seq<InputEvent>) -> InputState
    decreases evs.len(),
{
    if evs.len() == 0 {
        s
    } else {
        apply_events_spec(apply_event_spec(s, evs[0]), evs.subrange(1, evs.len() as int))
    }
}

impl InputState {
    /// All keys released.
    pub fn new() -> (r: InputState)
        ensures
            !r.forward && !r.backward && !r.turn_left && !r.turn_right,
    {
        InputState { forward: false, backward: false, turn_left: false, turn_right: false }
    }
}

/// Pure transition for one key event.
pub fn apply_input_event(s: InputState, e: InputEvent) -> (r: InputState)
    ensures
        r == apply_event_spec(s, e),
{
    match e.key {
        DirectionKey::Forward => InputState { forward: e.pressed, ..s },
        DirectionKey::Backward => InputState { backward: e.pressed, ..s },
        DirectionKey::TurnLeft => InputState { turn_left: e.pressed, ..s },
        DirectionKey::TurnRight => InputState { turn_right: e.pressed, ..s },
    }
}

} // verus!
