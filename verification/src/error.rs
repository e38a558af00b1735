use vstd::prelude::*;

verus! {

/// Two vectors that had to have the same length did not.
#[derive(Clone, Copy, Debug, PartialEq, Eq)]
pub struct DimensionMismatch {
    /// The length that was asked for.
    pub expected: usize,
    /// The length that was found instead.
    pub found: usize,
}

} // verus!
