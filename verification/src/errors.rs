use vstd::prelude::*;

verus! {

/// The two contract violations the core can report. Both are detected at
/// construction or at the start of a query, never in the middle of a march.
#[derive(Clone, Copy, Debug, PartialEq, Eq, Structural)]
pub enum CoreError {
    /// A cell index falls outside the grid's dimensions.
    OutOfBounds,
    /// A non-positive ray count, field of view or grid dimension, or a
    /// dimension past the library's arithmetic limits.
    InvalidConfiguration,
}

impl CoreError {
    /// A short human-readable name for the error.
    pub fn describe(&self) -> (r: &'static str)
        ensures
            self is OutOfBounds ==> r@ == "out of bounds"@,
            self is InvalidConfiguration ==> r@ == "invalid configuration"@,
    {
        proof {
            reveal_strlit("out of bounds");
            reveal_strlit("invalid configuration");
        }
        match self {
            CoreError::OutOfBounds => "out of bounds",
            CoreError::InvalidConfiguration => "invalid configuration",
        }
    }
}

} // verus!
