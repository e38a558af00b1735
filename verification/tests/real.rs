use perceptron::dataset::{LinearlySeparableDatasetGenerator, Source};
use perceptron::error::DimensionMismatch;
use perceptron::perceptron::Perceptron;
use perceptron::scalar::Scalar;
use perceptron::structs::{DataPoint, LabelledDataPoint};
use perceptron::utils::{add, dot, scale};
use rand::rngs::StdRng;
use rand::{Rng, SeedableRng};

#[derive(Clone, Copy, Debug, PartialEq)]
struct Real(f64);

impl Scalar for Real {
    fn sum(self, rhs: Self) -> Self {
        self.plus(rhs)
    }

    fn product(self, rhs: Self) -> Self {
        self.times(rhs)
    }

    fn at_most(self, rhs: Self) -> bool {
        self.is_at_most(rhs)
    }

    fn of_int(n: i32) -> Self {
        Self::from_int(n)
    }

    fn plus(self, rhs: Self) -> Self {
        Real(self.0 + rhs.0)
    }

    fn times(self, rhs: Self) -> Self {
        Real(self.0 * rhs.0)
    }

    fn is_at_most(self, rhs: Self) -> bool {
        self.0 <= rhs.0
    }

    fn from_int(n: i32) -> Self {
        Real(f64::from(n))
    }
}

#[derive(Clone)]
struct Seeded(StdRng);

impl Source<Real> for Seeded {
    fn coefficient_draw(&self) -> (Real, Self) {
        let mut next = self.clone();
        let value = next.draw_coefficient();
        (value, next)
    }

    fn feature_draw(&self) -> (Real, Self) {
        let mut next = self.clone();
        let value = next.draw_feature();
        (value, next)
    }

    fn draw_coefficient(&mut self) -> Real {
        Real(self.0.gen_range(-1.0..1.0))
    }

    fn draw_feature(&mut self) -> Real {
        Real(self.0.gen_range(-10.0..10.0))
    }
}

fn reals(values: &[f64]) -> Vec<Real> {
    values.iter().map(|v| Real(*v)).collect()
}

fn point(features: &[f64], label: i32) -> LabelledDataPoint<Real> {
    LabelledDataPoint::new(DataPoint::new(reals(features)), label)
}

#[test]
fn dot_of_reals() {
    let a = reals(&[1.5, 2.0]);
    let b = reals(&[2.0, 0.25]);
    assert_eq!(dot(&a, &b).unwrap(), Real(3.5));
}

#[test]
fn dot_of_reals_commutes() {
    let a = reals(&[0.1, -2.7, 3.3, 1e-3]);
    let b = reals(&[4.2, 0.9, -1.1, 7.0]);
    let ab = dot(&a, &b).unwrap().0;
    let ba = dot(&b, &a).unwrap().0;
    assert!((ab - ba).abs() < 1e-12);
    assert!((ab - (0.42 - 2.43 - 3.63 + 0.007)).abs() < 1e-12);
}

#[test]
fn opposite_scalings_of_reals_cancel() {
    let a = reals(&[0.1, -2.7, 3.3, 1e9]);
    let sum = add(&scale(Real(1.0), &a), &scale(Real(-1.0), &a)).unwrap();
    assert_eq!(sum.len(), 4);
    for x in sum {
        assert!(x.0.abs() < 1e-12);
    }
}

#[test]
fn reals_of_different_lengths_are_rejected() {
    let a = reals(&[1.0, 2.0]);
    let b = reals(&[1.0]);
    assert_eq!(dot(&a, &b), Err(DimensionMismatch { expected: 2, found: 1 }));
    assert_eq!(add(&a, &b), Err(DimensionMismatch { expected: 2, found: 1 }));
}

#[test]
fn seeded_generation_is_reproducible() {
    let g = LinearlySeparableDatasetGenerator::new(100, 3);
    let first = g.generate_random::<Real, Seeded>(&mut Seeded(StdRng::seed_from_u64(2024)));
    let second = g.generate_random::<Real, Seeded>(&mut Seeded(StdRng::seed_from_u64(2024)));
    assert_eq!(first.len(), 100);
    assert_eq!(first, second);
    for (p, q) in first.iter().zip(second.iter()) {
        for (x, y) in p.data_point.features.iter().zip(q.data_point.features.iter()) {
            assert_eq!(x.0.to_bits(), y.0.to_bits());
        }
    }
}

#[test]
fn generated_reals_are_in_range_and_labelled_by_the_hyperplane() {
    let g = LinearlySeparableDatasetGenerator::new(200, 2);
    let coefficients = reals(&[0.5, -0.25]);
    let bias = Real(0.125);
    let mut rng = Seeded(StdRng::seed_from_u64(1));
    let data = g.generate_fixed(&mut rng, coefficients.clone(), bias).unwrap();
    assert_eq!(data.len(), 200);
    for p in &data {
        assert_eq!(p.data_point.features.len(), 2);
        for x in &p.data_point.features {
            assert!(-10.0 <= x.0 && x.0 < 10.0);
        }
        let value = dot(&coefficients, &p.data_point.features).unwrap().0 + bias.0;
        assert_eq!(p.label == 1, value >= 0.0);
        assert_eq!(p.label == -1, value < 0.0);
    }
}

#[test]
fn random_hyperplane_separates_its_dataset() {
    // the hyperplane is the first three draws of the source
    let g = LinearlySeparableDatasetGenerator::new(50, 2);
    let mut rng = Seeded(StdRng::seed_from_u64(77));
    let mut probe = rng.clone();
    let coefficients = vec![probe.draw_coefficient(), probe.draw_coefficient()];
    let bias = probe.draw_coefficient();
    for c in &coefficients {
        assert!(-1.0 <= c.0 && c.0 < 1.0);
    }
    let data = g.generate_random::<Real, Seeded>(&mut rng);
    for p in &data {
        let value = dot(&coefficients, &p.data_point.features).unwrap().0 + bias.0;
        assert_eq!(p.label == 1, value >= 0.0);
    }
}

#[test]
fn fixed_hyperplane_of_reals_of_another_dimension_is_rejected() {
    let g = LinearlySeparableDatasetGenerator::new(5, 3);
    let mut rng = Seeded(StdRng::seed_from_u64(1));
    let r = g.generate_fixed(&mut rng, reals(&[1.0]), Real(0.0));
    assert_eq!(r, Err(DimensionMismatch { expected: 3, found: 1 }));
}

#[test]
fn separable_pair_of_reals_converges() {
    let data = vec![point(&[2.0, 2.0], 1), point(&[-2.0, -2.0], -1)];
    let mut p = Perceptron::new(Real(0.0), reals(&[0.0, 0.0]), Real(0.0), 10);
    let result = p.train(data.clone()).unwrap();
    assert!(result.converged);
    for q in &data {
        let score = p.prediction(&q.data_point).unwrap().0;
        assert!(f64::from(q.label) * score > 0.0);
    }
    assert_eq!(result.steps[0].weights, reals(&[0.0, 0.0]));
    assert_eq!(result.steps[0].bias, Real(0.0));
    assert_eq!(result.steps[0].epoch, 0);
    assert_eq!(result.steps.len(), 2);
    assert_eq!(result.steps[1].weights, reals(&[2.0, 2.0]));
    assert_eq!(result.steps[1].bias, Real(1.0));
}

#[test]
fn contradicting_pair_of_reals_never_converges() {
    let data = vec![point(&[1.0, 1.0], 1), point(&[1.0, 1.0], -1)];
    let mut p = Perceptron::new(Real(0.0), reals(&[0.0, 0.0]), Real(0.0), 5);
    let result = p.train(data).unwrap();
    assert!(!result.converged);
    assert_eq!(result.steps.len(), 11);
    assert_eq!(result.steps[10].epoch, 5);
}

#[test]
fn generated_dataset_is_learned() {
    let g = LinearlySeparableDatasetGenerator::new(30, 2);
    let mut rng = Seeded(StdRng::seed_from_u64(3));
    let data = g.generate_fixed(&mut rng, reals(&[1.0, 1.0]), Real(0.0)).unwrap();
    let mut p = Perceptron::new(Real(0.0), reals(&[0.0, 0.0]), Real(0.0), 10000);
    let result = p.train(data.clone()).unwrap();
    if result.converged {
        for q in &data {
            let score = p.prediction(&q.data_point).unwrap().0;
            assert!(f64::from(q.label) * score > 0.0);
        }
    }
    let last = &result.steps[result.steps.len() - 1];
    assert_eq!(p.weights(), &last.weights);
    assert_eq!(p.bias(), last.bias);
}
