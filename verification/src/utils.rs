use vstd::prelude::*;
use crate::error::DimensionMismatch;
use crate::scalar::Scalar;

verus! {

/// The products of the two vectors' items, summed from the front, starting at zero.
pub open spec fn dot_of<T: Scalar>(a: Seq<T>, b: Seq<T>) -> T
    recommends
        a.len() == b.len(),
    decreases a.len(),
{
    if a.len() == 0 || b.len() == 0 {
        T::of_int(0)
    } else {
        dot_of(a.drop_last(), b.drop_last()).sum(a.last().product(b.last()))
    }
}

/// Each item of `v` times `s`.
pub open spec fn scaled<T: Scalar>(s: T, v: Seq<T>) -> Seq<T> {
    Seq::new(v.len(), |i: int| v[i].product(s))
}

/// The two vectors summed item by item.
pub open spec fn added<T: Scalar>(a: Seq<T>, b: Seq<T>) -> Seq<T>
    recommends
        a.len() == b.len(),
{
    Seq::new(a.len(), |i: int| a[i].sum(b[i]))
}

/// The dot product of two vectors of one length.
pub fn dot_aligned<T: Scalar>(a: &Vec<T>, b: &Vec<T>) -> (r: T)
    requires
        a.len() == b.len(),
    ensures
        r == dot_of(a@, b@),
{
    let mut acc = T::from_int(0);
    let mut i: usize = 0;
    while i < a.len()
        invariant
            i <= a.len(),
            a.len() == b.len(),
            acc == dot_of(a@.take(i as int), b@.take(i as int)),
        decreases a.len() - i,
    {
        acc = acc.plus(a[i].times(b[i]));
        i += 1;
        proof {
            assert(a@.take(i as int).drop_last() == a@.take(i - 1));
            assert(b@.take(i as int).drop_last() == b@.take(i - 1));
        }
    }
    proof {
        assert(a@.take(a.len() as int) == a@);
        assert(b@.take(b.len() as int) == b@);
    }
    acc
}

/// The sum of two vectors of one length.
pub fn add_aligned<T: Scalar>(a: &Vec<T>, b: &Vec<T>) -> (r: Vec<T>)
    requires
        a.len() == b.len(),
    ensures
        r@ == added(a@, b@),
{
    let mut out: Vec<T> = Vec::new();
    let mut i: usize = 0;
    while i < a.len()
        invariant
            i <= a.len(),
            a.len() == b.len(),
            out@ == added(a@, b@).take(i as int),
        decreases a.len() - i,
    {
        out.push(a[i].plus(b[i]));
        i += 1;
        proof {
            assert(out@ == added(a@, b@).take(i as int));
        }
    }
    proof {
        assert(out@ == added(a@, b@));
    }
    out
}

/// The dot product of `a` and `b`, or the error when their lengths differ.
pub fn dot<T: Scalar>(a: &Vec<T>, b: &Vec<T>) -> (r: Result<T, DimensionMismatch>)
    ensures
        match r {
            Ok(v) => a.len() == b.len() && v == dot_of(a@, b@),
            Err(e) => a.len() != b.len() && e == (DimensionMismatch {
                expected: a.len(),
                found: b.len(),
            }),
        },
{
    if a.len() != b.len() {
        return Err(DimensionMismatch { expected: a.len(), found: b.len() });
    }
    Ok(dot_aligned(a, b))
}

/// Each item of `v` multiplied by `scaler`.
pub fn scale<T: Scalar>(scaler: T, v: &Vec<T>) -> (r: Vec<T>)
    ensures
        r@ == scaled(scaler, v@),
{
    let mut out: Vec<T> = Vec::new();
    let mut i: usize = 0;
    while i < v.len()
        invariant
            i <= v.len(),
            out@ == scaled(scaler, v@).take(i as int),
        decreases v.len() - i,
    {
        out.push(v[i].times(scaler));
        i += 1;
        proof {
            assert(out@ == scaled(scaler, v@).take(i as int));
        }
    }
    proof {
        assert(out@ == scaled(scaler, v@));
    }
    out
}

/// The sum of `a` and `b` item by item, or the error when their lengths differ.
pub fn add<T: Scalar>(a: &Vec<T>, b: &Vec<T>) -> (r: Result<Vec<T>, DimensionMismatch>)
    ensures
        match r {
            Ok(v) => a.len() == b.len() && v@ == added(a@, b@),
            Err(e) => a.len() != b.len() && e == (DimensionMismatch {
                expected: a.len(),
                found: b.len(),
            }),
        },
{
    if a.len() != b.len() {
        return Err(DimensionMismatch { expected: a.len(), found: b.len() });
    }
    Ok(add_aligned(a, b))
}

/// A copy of `v`.
pub fn duplicate<T: Copy>(v: &Vec<T>) -> (r: Vec<T>)
    ensures
        r@ == v@,
{
    let mut out: Vec<T> = Vec::new();
    let mut i: usize = 0;
    while i < v.len()
        invariant
            i <= v.len(),
            out@ == v@.take(i as int),
        decreases v.len() - i,
    {
        out.push(v[i]);
        i += 1;
        proof {
            assert(out@ == v@.take(i as int));
        }
    }
    proof {
        assert(out@ == v@);
    }
    out
}

} // verus!
