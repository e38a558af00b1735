use vstd::prelude::*;
use crate::dataset::Source;
use crate::exact::Exact;

verus! {

/// A Lehmer generator of whole numbers: coefficients from -1 to 0, features from
/// -10 to 9. Its draws depend on the seed alone.
#[derive(Clone, Copy, Debug, PartialEq, Eq)]
pub struct Lehmer {
    pub state: u64,
}

/// The state that follows `state`.
pub open spec fn lehmer_next(state: u64) -> u64 {
    (((state % 2147483647) * 48271) % 2147483647) as u64
}

impl Lehmer {
    /// A generator that starts from `seed`.
    pub fn new(seed: u64) -> (g: Self)
        ensures
            g.state == seed,
    {
        Lehmer { state: seed }
    }

    fn advance(&mut self) -> (next: u64)
        ensures
            next == lehmer_next(old(self).state),
            final(self).state == next,
            next < 2147483647,
    {
        let reduced: u64 = self.state % 2147483647;
        let next: u64 = (reduced * 48271) % 2147483647;
        self.state = next;
        next
    }
}

impl Source<Exact> for Lehmer {
    open spec fn coefficient_draw(&self) -> (Exact, Self) {
        let next = lehmer_next(self.state);
        (Exact { value: Some(((next % 2) - 1) as i64) }, Lehmer { state: next })
    }

    open spec fn feature_draw(&self) -> (Exact, Self) {
        let next = lehmer_next(self.state);
        (Exact { value: Some(((next % 20) - 10) as i64) }, Lehmer { state: next })
    }

    fn draw_coefficient(&mut self) -> (r: Exact) {
        let next: u64 = self.advance();
        let low: i64 = (next % 2) as i64;
        Exact { value: Some(low - 1) }
    }

    fn draw_feature(&mut self) -> (r: Exact) {
        let next: u64 = self.advance();
        let low: i64 = (next % 20) as i64;
        Exact { value: Some(low - 10) }
    }
}

} // verus!
