use vstd::prelude::*;
use vstd::arithmetic::div_mod::lemma_div_is_ordered;
use crate::angle::{angle_wf, HALF_TURN, QUARTER_TURN, TURN};
use crate::fp::{ONE, ONE_HALF};

verus! {

/// Denominator of the quadratic wave: `HALF_TURN * HALF_TURN / (4 * ONE)`.
pub const WAVE_DIV: i64 = 4096;

/// The quadratic wave on [0, HALF_TURN]: zero at both ends, exactly `ONE` at
/// the crest. One arch of the library's sine.
pub open spec fn wave(m: int) -> int {
    m * (HALF_TURN - m) / (WAVE_DIV as int)
}

/// Fixed-point sine of a normalized angle: the positive arch on the first
/// half turn, its mirror below zero on the second.
pub open spec fn sin_spec(a: int) -> int {
    if a < HALF_TURN {
        wave(a)
    } else {
        -wave(a - HALF_TURN)
    }
}

/// The angle a quarter turn ahead, wrapped.
pub open spec fn quarter_ahead(a: int) -> int {
    if a + QUARTER_TURN >= TURN {
        a + QUARTER_TURN - TURN
    } else {
        a + QUARTER_TURN
    }
}

/// Fixed-point cosine: the sine a quarter turn ahead.
pub open spec fn cos_spec(a: int) -> int {
    sin_spec(quarter_ahead(a))
}

/// The wave stays within [0, ONE].
pub proof fn lemma_wave_bounds(m: int)
    requires
        0 <= m <= HALF_TURN,
    ensures
        0 <= wave(m) <= ONE,
{
    assert(0 <= m * (HALF_TURN - m)) by (nonlinear_arith)
        requires 0 <= m <= HALF_TURN;
    assert(m * (HALF_TURN - m) <= QUARTER_TURN * QUARTER_TURN) by (nonlinear_arith)
        requires 0 <= m <= HALF_TURN;
    lemma_div_is_ordered(m * (HALF_TURN - m), QUARTER_TURN * QUARTER_TURN, WAVE_DIV as int);
    lemma_div_is_ordered(0, m * (HALF_TURN - m), WAVE_DIV as int);
}

/// On the middle half of the arch the wave is at least three quarters.
pub proof fn lemma_wave_mid(m: int)
    requires
        8192 <= m <= 24576,
    ensures
        wave(m) >= 49152,
{
    assert(m * (HALF_TURN - m) >= 8192 * 24576) by (nonlinear_arith)
        requires 8192 <= m <= 24576;
    lemma_div_is_ordered(8192int * 24576, m * (HALF_TURN - m), WAVE_DIV as int);
}

pub proof fn lemma_sin_bounds(a: int)
    requires
        angle_wf(a),
    ensures
        -ONE <= sin_spec(a) <= ONE,
{
    if a < HALF_TURN {
        lemma_wave_bounds(a);
    } else {
        lemma_wave_bounds(a - HALF_TURN);
    }
}

pub proof fn lemma_cos_bounds(a: int)
    requires
        angle_wf(a),
    ensures
        -ONE <= cos_spec(a) <= ONE,
{
    lemma_sin_bounds(quarter_ahead(a));
}

/// Law backbone for ray termination: whatever the angle, one of the two
/// direction components has magnitude at least half a unit, so a unit step
/// always makes clear progress along some axis.
pub proof fn lemma_dominant_axis(a: int)
    requires
        angle_wf(a),
    ensures
        sin_spec(a) >= ONE_HALF || sin_spec(a) <= -ONE_HALF || cos_spec(a) >= ONE_HALF
            || cos_spec(a) <= -ONE_HALF,
{
    let q = quarter_ahead(a);
    if a < HALF_TURN {
        if 8192 <= a <= 24576 {
            lemma_wave_mid(a);
        } else if a < 8192 {
            assert(q == a + QUARTER_TURN);
            lemma_wave_mid(q);
        } else {
            assert(q == a + QUARTER_TURN && q >= HALF_TURN);
            lemma_wave_mid(q - HALF_TURN);
        }
    } else {
        let m = a - HALF_TURN;
        if 8192 <= m <= 24576 {
            lemma_wave_mid(m);
        } else if m < 8192 {
            assert(q == a + QUARTER_TURN && q >= HALF_TURN);
            lemma_wave_mid(q - HALF_TURN);
        } else {
            assert(q == a + QUARTER_TURN - TURN && q < HALF_TURN);
            lemma_wave_mid(q);
        }
    }
}

pub fn sin_fp(a: i64) -> (r: i64)
    requires
        angle_wf(a as int),
    ensures
        r as int == sin_spec(a as int),
        -ONE <= r <= ONE,
{
    proof {
        lemma_sin_bounds(a as int);
    }
    if a < HALF_TURN {
        (a * (HALF_TURN - a)) / WAVE_DIV
    } else {
        let m = a - HALF_TURN;
        -((m * (HALF_TURN - m)) / WAVE_DIV)
    }
}

pub fn cos_fp(a: i64) -> (r: i64)
    requires
        angle_wf(a as int),
    ensures
        r as int == cos_spec(a as int),
        -ONE <= r <= ONE,
{
    let q = if a + QUARTER_TURN >= TURN {
        a + QUARTER_TURN - TURN
    } else {
        a + QUARTER_TURN
    };
    sin_fp(q)
}

} // verus!
