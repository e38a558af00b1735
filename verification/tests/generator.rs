use perceptron::dataset::{label_point, LinearlySeparableDatasetGenerator, Source};
use perceptron::error::DimensionMismatch;
use perceptron::exact::Exact;
use perceptron::lehmer::Lehmer;
use perceptron::scalar::Scalar;
use perceptron::utils::dot;

fn exact(values: &[i64]) -> Vec<Exact> {
    values.iter().map(|v| Exact::new(*v)).collect()
}

#[test]
fn same_seed_gives_the_same_dataset() {
    let g = LinearlySeparableDatasetGenerator::new(20, 3);
    let first = g.generate_random::<Exact, Lehmer>(&mut Lehmer::new(42));
    let second = g.generate_random::<Exact, Lehmer>(&mut Lehmer::new(42));
    assert_eq!(first, second);
    assert_eq!(first.len(), 20);
}

#[test]
fn another_seed_gives_another_dataset() {
    let g = LinearlySeparableDatasetGenerator::new(20, 3);
    let first = g.generate_random::<Exact, Lehmer>(&mut Lehmer::new(42));
    let second = g.generate_random::<Exact, Lehmer>(&mut Lehmer::new(43));
    assert_ne!(first, second);
}

#[test]
fn every_point_has_the_dimension_and_its_features_in_range() {
    let g = LinearlySeparableDatasetGenerator::new(50, 4);
    let data = g.generate_random::<Exact, Lehmer>(&mut Lehmer::new(7));
    assert_eq!(data.len(), 50);
    for p in &data {
        assert_eq!(p.data_point.features.len(), 4);
        for f in &p.data_point.features {
            let v = f.value.unwrap();
            assert!((-10..10).contains(&v));
        }
        assert!(p.label == 1 || p.label == -1);
    }
}

#[test]
fn labels_follow_the_given_hyperplane() {
    let g = LinearlySeparableDatasetGenerator::new(40, 2);
    let coefficients = exact(&[3, -2]);
    let bias = Exact::new(1);
    let data = g.generate_fixed(&mut Lehmer::new(5), coefficients.clone(), bias).unwrap();
    assert_eq!(data.len(), 40);
    let mut positive = 0;
    for p in &data {
        let value = dot(&coefficients, &p.data_point.features).unwrap().plus(bias);
        let expected = if value.value.unwrap() >= 0 { 1 } else { -1 };
        assert_eq!(p.label, expected);
        if p.label == 1 {
            positive += 1;
        }
    }
    assert!(positive > 0 && positive < 40);
}

#[test]
fn a_point_on_the_hyperplane_is_labelled_positive() {
    assert_eq!(label_point(&exact(&[1, 1]), Exact::new(0), &exact(&[3, -3])), 1);
    assert_eq!(label_point(&exact(&[1, 1]), Exact::new(0), &exact(&[3, -4])), -1);
    assert_eq!(label_point(&exact(&[1, 1]), Exact::new(2), &exact(&[3, -4])), 1);
}

#[test]
fn fixed_hyperplane_of_another_dimension_is_rejected() {
    let g = LinearlySeparableDatasetGenerator::new(5, 3);
    let mut rng = Lehmer::new(9);
    let r = g.generate_fixed(&mut rng, exact(&[1, 2]), Exact::new(0));
    assert_eq!(r, Err(DimensionMismatch { expected: 3, found: 2 }));
    assert_eq!(rng, Lehmer::new(9));
}

#[test]
fn no_points_asked_gives_an_empty_dataset() {
    let g = LinearlySeparableDatasetGenerator::new(0, 3);
    let data = g.generate_random::<Exact, Lehmer>(&mut Lehmer::new(1));
    assert!(data.is_empty());
}

#[test]
fn lehmer_draws_are_exact() {
    let mut rng = Lehmer::new(1);
    // 48271 is odd and 48271 % 20 is 11
    assert_eq!(rng.draw_coefficient(), Exact::new(0));
    assert_eq!(rng.state, 48271);
    let mut rng = Lehmer::new(1);
    assert_eq!(rng.draw_feature(), Exact::new(1));
    // 48271 * 48271 % 2147483647 is 182605794
    assert_eq!(rng.draw_feature(), Exact::new(4));
    assert_eq!(rng.state, 182605794);
}
