use perceptron::error::DimensionMismatch;
use perceptron::exact::Exact;
use perceptron::utils::{add, dot, duplicate, scale};

fn exact(values: &[i64]) -> Vec<Exact> {
    values.iter().map(|v| Exact::new(*v)).collect()
}

#[test]
fn dot_sums_the_products() {
    let a = exact(&[1, 2, 3]);
    let b = exact(&[4, -5, 6]);
    assert_eq!(dot(&a, &b), Ok(Exact::new(12)));
}

#[test]
fn dot_of_empty_vectors_is_zero() {
    let a = exact(&[]);
    assert_eq!(dot(&a, &a), Ok(Exact::new(0)));
}

#[test]
fn dot_commutes_on_exact_numbers() {
    let a = exact(&[7, -3, 0, 11]);
    let b = exact(&[-2, 5, 9, 4]);
    assert_eq!(dot(&a, &b), dot(&b, &a));
    assert_eq!(dot(&a, &b), Ok(Exact::new(15)));
}

#[test]
fn dot_rejects_different_lengths() {
    let a = exact(&[1, 2, 3]);
    let b = exact(&[1, 2]);
    assert_eq!(dot(&a, &b), Err(DimensionMismatch { expected: 3, found: 2 }));
    assert_eq!(dot(&b, &a), Err(DimensionMismatch { expected: 2, found: 3 }));
}

#[test]
fn add_sums_item_by_item() {
    let a = exact(&[1, 2, 3]);
    let b = exact(&[10, -20, 30]);
    assert_eq!(add(&a, &b), Ok(exact(&[11, -18, 33])));
}

#[test]
fn add_rejects_different_lengths() {
    let a = exact(&[1]);
    let b = exact(&[1, 2]);
    assert_eq!(add(&a, &b), Err(DimensionMismatch { expected: 1, found: 2 }));
    assert_eq!(add(&b, &a), Err(DimensionMismatch { expected: 2, found: 1 }));
}

#[test]
fn scale_multiplies_each_item() {
    let v = exact(&[1, -2, 0]);
    assert_eq!(scale(Exact::new(3), &v), exact(&[3, -6, 0]));
    assert_eq!(scale(Exact::new(3), &exact(&[])), exact(&[]));
}

#[test]
fn opposite_scalings_cancel() {
    let a = exact(&[5, -7, 0, i64::MAX]);
    let plus = scale(Exact::new(1), &a);
    let minus = scale(Exact::new(-1), &a);
    assert_eq!(add(&plus, &minus), Ok(exact(&[0, 0, 0, 0])));
}

#[test]
fn a_result_out_of_range_is_no_number() {
    let big = Exact::new(i64::MAX);
    let v = vec![big];
    assert_eq!(scale(Exact::new(2), &v), vec![Exact { value: None }]);
    assert_eq!(add(&v, &exact(&[1])), Ok(vec![Exact { value: None }]));
    assert_eq!(dot(&v, &exact(&[2])), Ok(Exact { value: None }));
}

#[test]
fn duplicate_copies_the_items() {
    let v = exact(&[4, 5, 6]);
    assert_eq!(duplicate(&v), v);
}
