use vstd::prelude::*;

verus! {

/// A point: its features in order.
#[derive(Clone, Debug, PartialEq)]
pub struct DataPoint<T> {
    pub features: Vec<T>,
}

impl<T> DataPoint<T> {
    /// The point with these features.
    pub fn new(features: Vec<T>) -> (p: Self)
        ensures
            p.features == features,
    {
        Self { features }
    }
}

/// A point with the side of the hyperplane it lies on: `1` or `-1`.
#[derive(Clone, Debug, PartialEq)]
pub struct LabelledDataPoint<T> {
    pub data_point: DataPoint<T>,
    pub label: i32,
}

impl<T> LabelledDataPoint<T> {
    /// The point with its label.
    pub fn new(data_point: DataPoint<T>, label: i32) -> (p: Self)
        ensures
            p.data_point == data_point,
            p.label == label,
    {
        Self { data_point, label }
    }
}

} // verus!
