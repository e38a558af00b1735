use vstd::prelude::*;

verus! {

/// A number type to compute with: addition, multiplication, a comparison, and the
/// small integers that labels are made of.
///
/// Each operation is a function of its operands, named by a spec function; nothing
/// else is asked of it, so rounding number types qualify as well as exact ones.
pub trait Scalar: Copy {
    /// What `plus` returns.
    spec fn sum(self, rhs: Self) -> Self;

    /// What `times` returns.
    spec fn product(self, rhs: Self) -> Self;

    /// What `is_at_most` returns.
    spec fn at_most(self, rhs: Self) -> bool;

    /// What `from_int` returns.
    spec fn of_int(n: i32) -> Self;

    /// `self` plus `rhs`.
    fn plus(self, rhs: Self) -> (r: Self)
        ensures
            r == self.sum(rhs),
    ;

    /// `self` times `rhs`.
    fn times(self, rhs: Self) -> (r: Self)
        ensures
            r == self.product(rhs),
    ;

    /// Whether `self` is less than or equal to `rhs`.
    fn is_at_most(self, rhs: Self) -> (r: bool)
        ensures
            r == self.at_most(rhs),
    ;

    /// The number `n`.
    fn from_int(n: i32) -> (r: Self)
        ensures
            r == Self::of_int(n),
    ;
}

} // verus!
