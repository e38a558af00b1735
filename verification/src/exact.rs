use vstd::prelude::*;
use crate::scalar::Scalar;
use crate::utils::{added, dot_of, scaled};

verus! {

/// A 64-bit integer that cannot wrap: a result outside the range is `None`, and
/// `None` stays `None` through every later operation and compares as neither
/// below nor above anything.
#[derive(Clone, Copy, Debug, PartialEq, Eq)]
pub struct Exact {
    pub value: Option<i64>,
}

/// The value that stands for the mathematical integer `n`.
pub open spec fn exact_of(n: int) -> Exact {
    if i64::MIN <= n <= i64::MAX {
        Exact { value: Some(n as i64) }
    } else {
        Exact { value: None }
    }
}

impl Exact {
    /// The number `n`.
    pub fn new(n: i64) -> (r: Self)
        ensures
            r == exact_of(n as int),
    {
        Exact { value: Some(n) }
    }
}

impl Scalar for Exact {
    open spec fn sum(self, rhs: Self) -> Self {
        match (self.value, rhs.value) {
            (Some(a), Some(b)) => exact_of(a + b),
            _ => Exact { value: None },
        }
    }

    open spec fn product(self, rhs: Self) -> Self {
        match (self.value, rhs.value) {
            (Some(a), Some(b)) => exact_of(a * b),
            _ => Exact { value: None },
        }
    }

    open spec fn at_most(self, rhs: Self) -> bool {
        match (self.value, rhs.value) {
            (Some(a), Some(b)) => a <= b,
            _ => false,
        }
    }

    open spec fn of_int(n: i32) -> Self {
        exact_of(n as int)
    }

    fn plus(self, rhs: Self) -> (r: Self) {
        match (self.value, rhs.value) {
            (Some(a), Some(b)) => Exact { value: a.checked_add(b) },
            _ => Exact { value: None },
        }
    }

    fn times(self, rhs: Self) -> (r: Self) {
        match (self.value, rhs.value) {
            (Some(a), Some(b)) => Exact { value: a.checked_mul(b) },
            _ => Exact { value: None },
        }
    }

    fn is_at_most(self, rhs: Self) -> (r: bool) {
        match (self.value, rhs.value) {
            (Some(a), Some(b)) => a <= b,
            _ => false,
        }
    }

    fn from_int(n: i32) -> (r: Self) {
        Exact { value: Some(n as i64) }
    }
}



/// Every item of `v` is a number, and none is the least one, whose negative
/// does not fit.
pub open spec fn all_negatable(v: Seq<Exact>) -> bool {
    forall|i: int|
        0 <= i < v.len() ==> (#[trigger] v[i]).value.is_some() && v[i].value != Some(i64::MIN)
}

/// The dot product of two vectors of one length does not depend on their order.
pub proof fn lemma_dot_commutes(a: Seq<Exact>, b: Seq<Exact>)
    requires
        a.len() == b.len(),
    ensures
        dot_of(a, b) == dot_of(b, a),
    decreases a.len(),
{
    if a.len() > 0 {
        lemma_dot_commutes(a.drop_last(), b.drop_last());
        lemma_product_commutes(a.last(), b.last());
    }
}

/// The product of two numbers does not depend on their order.
pub proof fn lemma_product_commutes(x: Exact, y: Exact)
    ensures
        x.product(y) == y.product(x),
{
    match (x.value, y.value) {
        (Some(p), Some(q)) => {
            assert(p * q == q * p) by (nonlinear_arith);
        },
        _ => {},
    }
}

/// A vector scaled by one, plus the same vector scaled by minus one, is zero at
/// every place, for every vector whose items can be negated.
pub proof fn lemma_opposite_scalings_cancel(a: Seq<Exact>)
    requires
        all_negatable(a),
    ensures
        added(scaled(Exact::of_int(1), a), scaled(Exact::of_int(-1i32), a)) == Seq::new(
            a.len(),
            |i: int| Exact::of_int(0),
        ),
{
    let total = added(scaled(Exact::of_int(1), a), scaled(Exact::of_int(-1i32), a));
    assert forall|i: int| 0 <= i < a.len() implies total[i] == Exact::of_int(0) by {
        let x = a[i].value.unwrap();
        assert(x * 1 == x) by (nonlinear_arith);
        assert(x * (-1) == -x) by (nonlinear_arith);
        assert(a[i].product(Exact::of_int(1)) == exact_of(x as int));
        assert(a[i].product(Exact::of_int(-1i32)) == exact_of(-x));
    }
    assert(total =~= Seq::new(a.len(), |i: int| Exact::of_int(0)));
}

} // verus!
