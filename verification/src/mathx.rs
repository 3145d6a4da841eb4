use vstd::prelude::*;
use crate::fp::ONE;

verus! {

/// Floor square root: `r * r <= n < (r + 1) * (r + 1)`.
pub open spec fn is_sqrt_floor(r: int, n: int) -> bool {
    0 <= r && r * r <= n && n < (r + 1) * (r + 1)
}

/// Integer square root by bisection.
pub fn isqrt(n: u64) -> (r: u64)
    requires
        (n as int) < 0x4000_0000_0000_0000,
    ensures
        is_sqrt_floor(r as int, n as int),
{
    if n == 0 {
        return 0;
    }
    let mut lo: u64 = 0;
    let mut hi: u64 = 0x8000_0000;
    while lo + 1 < hi
        invariant
            lo < hi,
            hi <= 0x8000_0000,
            (lo as int) * (lo as int) <= n as int,
            (n as int) < (hi as int) * (hi as int),
        decreases hi - lo,
    {
        let mid = lo + (hi - lo) / 2;
        proof {
            assert((mid as int) * (mid as int) <= 0x4000_0000_0000_0000) by (nonlinear_arith)
                requires 0 <= (mid as int) <= 0x8000_0000;
        }
        if mid * mid <= n {
            lo = mid;
        } else {
            hi = mid;
        }
    }
    lo
}

/// Scale a signed fixed-point value by a non-negative fixed-point factor,
/// truncating toward zero, as the projections do.
pub open spec fn scale_spec(v: int, s: int) -> int {
    if v >= 0 {
        v * s / (ONE as int)
    } else {
        -((-v) * s / (ONE as int))
    }
}

pub fn scale_fp(v: i64, s: i64) -> (r: i64)
    requires
        -0x80_0000_0000 <= (v as int) <= 0x80_0000_0000,
        0 <= (s as int) <= 0xFF_FFFF,
    ensures
        r as int == scale_spec(v as int, s as int),
        -0x8000_0000_0000 <= r <= 0x8000_0000_0000,
{
    proof {
        if v >= 0 {
            assert(0 <= (v as int) * (s as int) <= 0x80_0000_0000 * 0xFF_FFFF) by (
            nonlinear_arith)
                requires
                    0 <= (v as int) <= 0x80_0000_0000,
                    0 <= (s as int) <= 0xFF_FFFF;
            vstd::arithmetic::div_mod::lemma_div_pos_is_pos((v as int) * (s as int), ONE as int);
            vstd::arithmetic::div_mod::lemma_div_is_ordered(
                (v as int) * (s as int),
                0x80_0000_0000int * 0xFF_FFFF,
                ONE as int,
            );
        } else {
            assert(0 <= (-(v as int)) * (s as int) <= 0x80_0000_0000 * 0xFF_FFFF) by (
            nonlinear_arith)
                requires
                    0 <= -(v as int) <= 0x80_0000_0000,
                    0 <= (s as int) <= 0xFF_FFFF;
            vstd::arithmetic::div_mod::lemma_div_pos_is_pos(
                (-(v as int)) * (s as int),
                ONE as int,
            );
            vstd::arithmetic::div_mod::lemma_div_is_ordered(
                (-(v as int)) * (s as int),
                0x80_0000_0000int * 0xFF_FFFF,
                ONE as int,
            );
        }
    }
    if v >= 0 {
        v * s / ONE
    } else {
        -((-v) * s / ONE)
    }
}

} // verus!
