use vstd::prelude::*;

verus! {

/// Scale of the fixed-point representation: every length, coordinate and
/// ratio in the library carries 16 fractional bits, so `ONE` stands for the
/// real value 1.
pub const ONE: i64 = 65536;

/// Half of [`ONE`]: the real value 1/2.
pub const ONE_HALF: i64 = 32768;

/// Largest screen dimension, in pixels, that a configuration may name.
/// Keeps every product the projection forms comfortably inside `i64`.
pub const MAX_DIM: i64 = 16384;

/// Largest magnitude a world coordinate of the avatar may reach. Movement is
/// unconstrained by the grid, so the position is only bounded by this
/// arithmetic limit, far outside any visible world.
pub const POS_BOUND: i64 = 0x40_0000_0000;

} // verus!
