use vstd::prelude::*;
use crate::error::DimensionMismatch;
use crate::scalar::Scalar;
use crate::structs::{DataPoint, LabelledDataPoint};
use crate::utils::{dot_aligned, dot_of};

verus! {

/// `x` lies in the half-open range from `low` to `high`: `low` is at most `x`, and
/// `high` is not.
pub open spec fn within<T: Scalar>(x: T, low: i32, high: i32) -> bool {
    T::of_int(low).at_most(x) && !T::of_int(high).at_most(x)
}

/// Every item of `v` lies in the half-open range from `low` to `high`.
pub open spec fn all_within<T: Scalar>(v: Seq<T>, low: i32, high: i32) -> bool {
    forall|i: int| 0 <= i < v.len() ==> within(#[trigger] v[i], low, high)
}

/// Every feature of every point of `data` lies in the half-open range from -10
/// to 10.
pub open spec fn features_in_range<T: Scalar>(data: Seq<LabelledDataPoint<T>>) -> bool {
    forall|i: int|
        0 <= i < data.len() ==> all_within((#[trigger] data[i]).data_point.features@, -10i32, 10)
}

/// Where the generator gets its numbers from: a state that gives a number and
/// moves on. What a draw gives is a function of the state it is made in, so two
/// sources in the same state give the same numbers. A coefficient lies in the
/// half-open range from -1 to 1, a feature in that from -10 to 10.
pub trait Source<T: Scalar>: Sized {
    /// The number for a hyperplane (a coefficient or the bias) that a draw gives
    /// in this state, and the state after it.
    spec fn coefficient_draw(&self) -> (T, Self);

    /// The number for a point (one feature) that a draw gives in this state, and
    /// the state after it.
    spec fn feature_draw(&self) -> (T, Self);

    /// Draws a number for a hyperplane.
    fn draw_coefficient(&mut self) -> (r: T)
        ensures
            (r, *final(self)) == old(self).coefficient_draw(),
            within(r, -1i32, 1),
    ;

    /// Draws a number for a point.
    fn draw_feature(&mut self) -> (r: T)
        ensures
            (r, *final(self)) == old(self).feature_draw(),
            within(r, -10i32, 10),
    ;
}

/// `count` coefficients drawn one after the other, and the state after them.
pub open spec fn coefficients_from<T: Scalar, R: Source<T>>(rng: R, count: nat) -> (Seq<T>, R)
    decreases count,
{
    if count == 0 {
        (Seq::empty(), rng)
    } else {
        let (drawn, before) = coefficients_from::<T, R>(rng, (count - 1) as nat);
        let (value, after) = before.coefficient_draw();
        (drawn.push(value), after)
    }
}

/// `count` features drawn one after the other, and the state after them.
pub open spec fn features_from<T: Scalar, R: Source<T>>(rng: R, count: nat) -> (Seq<T>, R)
    decreases count,
{
    if count == 0 {
        (Seq::empty(), rng)
    } else {
        let (drawn, before) = features_from::<T, R>(rng, (count - 1) as nat);
        let (value, after) = before.feature_draw();
        (drawn.push(value), after)
    }
}

/// The features of `n` points of `dim` features each, drawn point after point,
/// and the state after them.
pub open spec fn points_from<T: Scalar, R: Source<T>>(rng: R, n: nat, dim: nat) -> (Seq<Seq<T>>, R)
    decreases n,
{
    if n == 0 {
        (Seq::empty(), rng)
    } else {
        let (points, before) = points_from::<T, R>(rng, (n - 1) as nat, dim);
        let (features, after) = features_from::<T, R>(before, dim);
        (points.push(features), after)
    }
}

/// The features of each point of a dataset.
pub open spec fn features_of<T>(data: Seq<LabelledDataPoint<T>>) -> Seq<Seq<T>> {
    Seq::new(data.len(), |i: int| data[i].data_point.features@)
}

/// The side of the hyperplane on which a point with this value lies: `1` where
/// zero is at most the value, `-1` elsewhere.
pub open spec fn label_of<T: Scalar>(value: T) -> i32 {
    if T::of_int(0).at_most(value) {
        1i32
    } else {
        -1i32
    }
}

/// What the hyperplane `coefficients`, `bias` gives for a point.
pub open spec fn side_value<T: Scalar>(coefficients: Seq<T>, bias: T, features: Seq<T>) -> T {
    dot_of(coefficients, features).sum(bias)
}

/// Every point of `data` has `dim` features and carries the label that the
/// hyperplane gives it.
pub open spec fn labelled_by<T: Scalar>(
    data: Seq<LabelledDataPoint<T>>,
    coefficients: Seq<T>,
    bias: T,
    dim: nat,
) -> bool {
    forall|i: int|
        0 <= i < data.len() ==> {
            &&& (#[trigger] data[i]).data_point.features@.len() == dim
            &&& data[i].label == label_of(
                side_value(coefficients, bias, data[i].data_point.features@),
            )
        }
}

/// A dataset as a mathematical value: the features and the label of each point.
pub open spec fn records_of<T>(data: Seq<LabelledDataPoint<T>>) -> Seq<(Seq<T>, i32)> {
    Seq::new(data.len(), |i: int| (data[i].data_point.features@, data[i].label))
}

/// The points with the labels that the hyperplane gives them.
pub open spec fn labelled<T: Scalar>(points: Seq<Seq<T>>, coefficients: Seq<T>, bias: T) -> Seq<
    (Seq<T>, i32),
> {
    Seq::new(
        points.len(),
        |i: int| (points[i], label_of(side_value(coefficients, bias, points[i]))),
    )
}

/// The dataset of `n` points of `dim` features that comes from a source in the
/// state `rng`, under a hyperplane drawn first.
pub open spec fn random_dataset<T: Scalar, R: Source<T>>(rng: R, n: nat, dim: nat) -> Seq<
    (Seq<T>, i32),
> {
    let (coefficients, then) = coefficients_from::<T, R>(rng, dim);
    let (bias, next) = then.coefficient_draw();
    labelled(points_from::<T, R>(next, n, dim).0, coefficients, bias)
}

/// The dataset of `n` points of `dim` features that comes from a source in the
/// state `rng`, under the given hyperplane.
pub open spec fn fixed_dataset<T: Scalar, R: Source<T>>(
    rng: R,
    n: nat,
    dim: nat,
    coefficients: Seq<T>,
    bias: T,
) -> Seq<(Seq<T>, i32)> {
    labelled(points_from::<T, R>(rng, n, dim).0, coefficients, bias)
}

/// The label of a point whose features are given, under a hyperplane.
pub fn label_point<T: Scalar>(coefficients: &Vec<T>, bias: T, features: &Vec<T>) -> (label: i32)
    requires
        coefficients.len() == features.len(),
    ensures
        label == label_of(side_value(coefficients@, bias, features@)),
{
    let value = dot_aligned(coefficients, features).plus(bias);
    if T::from_int(0).is_at_most(value) {
        1
    } else {
        -1
    }
}

/// `count` numbers drawn for a point, in the order of the draws.
pub fn draw_features<T: Scalar, R: Source<T>>(rng: &mut R, count: usize) -> (v: Vec<T>)
    ensures
        v.len() == count,
        (v@, *final(rng)) == features_from::<T, R>(*old(rng), count as nat),
        all_within(v@, -10i32, 10),
{
    let mut out: Vec<T> = Vec::new();
    let mut i: usize = 0;
    while i < count
        invariant
            i <= count,
            out.len() == i,
            (out@, *rng) == features_from::<T, R>(*old(rng), i as nat),
            all_within(out@, -10i32, 10),
        decreases count - i,
    {
        out.push(rng.draw_feature());
        i += 1;
    }
    out
}

/// `count` numbers drawn for a hyperplane, in the order of the draws.
pub fn draw_coefficients<T: Scalar, R: Source<T>>(rng: &mut R, count: usize) -> (v: Vec<T>)
    ensures
        v.len() == count,
        (v@, *final(rng)) == coefficients_from::<T, R>(*old(rng), count as nat),
        all_within(v@, -1i32, 1),
{
    let mut out: Vec<T> = Vec::new();
    let mut i: usize = 0;
    while i < count
        invariant
            i <= count,
            out.len() == i,
            (out@, *rng) == coefficients_from::<T, R>(*old(rng), i as nat),
            all_within(out@, -1i32, 1),
        decreases count - i,
    {
        out.push(rng.draw_coefficient());
        i += 1;
    }
    out
}

/// Makes datasets of `n` points with `dim` features each, labelled by a hyperplane.
pub struct LinearlySeparableDatasetGenerator {
    n: usize,
    dim: usize,
}

impl LinearlySeparableDatasetGenerator {
    /// The number of points in each dataset.
    pub closed spec fn count(&self) -> nat {
        self.n as nat
    }

    /// The number of features of each point.
    pub closed spec fn dimension(&self) -> nat {
        self.dim as nat
    }

    /// A generator of datasets of `n` points with `dim` features each.
    pub fn new(n: usize, dim: usize) -> (g: Self)
        ensures
            g.count() == n,
            g.dimension() == dim,
    {
        Self { n, dim }
    }

    /// A dataset under a hyperplane that is drawn first: `dim` coefficients, then
    /// the bias, then the points. The dataset is a function of the state that the
    /// source is in: from the same state comes the same dataset.
    pub fn generate_random<T: Scalar, R: Source<T>>(&self, rng: &mut R) -> (data: Vec<
        LabelledDataPoint<T>,
    >)
        ensures
            data.len() == self.count(),
            records_of(data@) == random_dataset::<T, R>(
                *old(rng),
                self.count(),
                self.dimension(),
            ),
            ({
                let (coefficients, then) = coefficients_from::<T, R>(*old(rng), self.dimension());
                let (bias, next) = then.coefficient_draw();
                let (points, last) = points_from::<T, R>(next, self.count(), self.dimension());
                &&& all_within(coefficients, -1i32, 1)
                &&& within(bias, -1i32, 1)
                &&& features_of(data@) == points
                &&& features_in_range(data@)
                &&& labelled_by(data@, coefficients, bias, self.dimension())
                &&& *final(rng) == last
            }),
    {
        let coefficients = draw_coefficients(rng, self.dim);
        let b = rng.draw_coefficient();
        self.generate_with_params(rng, &coefficients, b)
    }

    /// A dataset under the given hyperplane, or the error when `coefficients` has
    /// not one item for each feature; nothing is drawn then.
    pub fn generate_fixed<T: Scalar, R: Source<T>>(
        &self,
        rng: &mut R,
        coefficients: Vec<T>,
        b: T,
    ) -> (r: Result<Vec<LabelledDataPoint<T>>, DimensionMismatch>)
        ensures
            match r {
                Ok(data) => {
                    let (points, last) = points_from::<T, R>(
                        *old(rng),
                        self.count(),
                        self.dimension(),
                    );
                    &&& coefficients.len() == self.dimension()
                    &&& data.len() == self.count()
                    &&& records_of(data@) == fixed_dataset::<T, R>(
                        *old(rng),
                        self.count(),
                        self.dimension(),
                        coefficients@,
                        b,
                    )
                    &&& features_of(data@) == points
                    &&& features_in_range(data@)
                    &&& labelled_by(data@, coefficients@, b, self.dimension())
                    &&& *final(rng) == last
                },
                Err(e) => {
                    &&& coefficients.len() != self.dimension()
                    &&& e == (DimensionMismatch {
                        expected: self.dimension() as usize,
                        found: coefficients.len(),
                    })
                    &&& *final(rng) == *old(rng)
                },
            },
    {
        if coefficients.len() != self.dim {
            return Err(DimensionMismatch { expected: self.dim, found: coefficients.len() });
        }
        Ok(self.generate_with_params(rng, &coefficients, b))
    }

    /// `n` points drawn one after the other, each labelled by the hyperplane as
    /// soon as it is drawn.
    pub fn generate_with_params<T: Scalar, R: Source<T>>(
        &self,
        rng: &mut R,
        coefficients: &Vec<T>,
        b: T,
    ) -> (data: Vec<LabelledDataPoint<T>>)
        requires
            coefficients.len() == self.dimension(),
        ensures
            data.len() == self.count(),
            (features_of(data@), *final(rng)) == points_from::<T, R>(
                *old(rng),
                self.count(),
                self.dimension(),
            ),
            labelled_by(data@, coefficients@, b, self.dimension()),
            features_in_range(data@),
            records_of(data@) == fixed_dataset::<T, R>(
                *old(rng),
                self.count(),
                self.dimension(),
                coefficients@,
                b,
            ),
    {
        let mut dataset: Vec<LabelledDataPoint<T>> = Vec::new();
        let mut i: usize = 0;
        proof {
            assert(features_of(dataset@) =~= Seq::<Seq<T>>::empty());
        }
        while i < self.n
            invariant
                i <= self.n,
                dataset.len() == i,
                coefficients.len() == self.dim,
                labelled_by(dataset@, coefficients@, b, self.dim as nat),
                features_in_range(dataset@),
                (features_of(dataset@), *rng) == points_from::<T, R>(
                    *old(rng),
                    i as nat,
                    self.dim as nat,
                ),
            decreases self.n - i,
        {
            let ghost earlier = dataset@;
            let features = draw_features(rng, self.dim);
            let label = label_point(coefficients, b, &features);
            dataset.push(LabelledDataPoint::new(DataPoint::new(features), label));
            i += 1;
            proof {
                assert(features_of(dataset@) =~= features_of(earlier).push(features@));
            }
        }
        proof {
            let points = points_from::<T, R>(*old(rng), self.n as nat, self.dim as nat).0;
            assert forall|k: int| 0 <= k < dataset.len() implies records_of(dataset@)[k]
                == labelled(points, coefficients@, b)[k] by {
                assert(features_of(dataset@)[k] == dataset@[k].data_point.features@);
            }
            assert(records_of(dataset@) =~= labelled(points, coefficients@, b));
        }
        dataset
    }
}

} // verus!
