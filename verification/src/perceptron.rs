use vstd::prelude::*;
use crate::error::DimensionMismatch;
use crate::scalar::Scalar;
use crate::structs::{DataPoint, LabelledDataPoint};
use crate::utils::{add_aligned, added, dot, dot_aligned, dot_of, duplicate, scale, scaled};

verus! {

/// The weights and the bias at one moment of a training run, with the epoch in
/// which they were reached (0 for the state before training).
#[derive(Clone, Debug, PartialEq)]
pub struct PerceptronStep<T> {
    pub epoch: usize,
    pub weights: Vec<T>,
    pub bias: T,
}

/// What a training run hands back: every state the perceptron went through, the
/// first being the one it started from, and whether a whole epoch passed without
/// an update.
#[derive(Clone, Debug, PartialEq)]
pub struct PerceptronResult<T> {
    pub steps: Vec<PerceptronStep<T>>,
    pub converged: bool,
}

/// A step as a mathematical value.
pub struct Snapshot<T> {
    pub epoch: nat,
    pub weights: Seq<T>,
    pub bias: T,
}

impl<T> View for PerceptronStep<T> {
    type V = Snapshot<T>;

    open spec fn view(&self) -> Snapshot<T> {
        Snapshot { epoch: self.epoch as nat, weights: self.weights@, bias: self.bias }
    }
}

/// The steps of a result as mathematical values.
pub open spec fn history_of<T>(steps: Seq<PerceptronStep<T>>) -> Seq<Snapshot<T>> {
    Seq::new(steps.len(), |i: int| steps[i]@)
}

/// A training run at some moment: the current weights and bias, the steps
/// recorded so far, and whether the current epoch has seen an update.
pub struct Progress<T> {
    pub weights: Seq<T>,
    pub bias: T,
    pub history: Seq<Snapshot<T>>,
    pub updated: bool,
}

/// The raw score of a point: the dot product of the weights and the features,
/// plus the bias.
pub open spec fn score<T: Scalar>(weights: Seq<T>, bias: T, features: Seq<T>) -> T {
    dot_of(weights, features).sum(bias)
}

/// Whether the perceptron updates on this point: the label times the score is at
/// most the margin.
pub open spec fn needs_update<T: Scalar>(
    weights: Seq<T>,
    bias: T,
    margin: T,
    point: LabelledDataPoint<T>,
) -> bool {
    T::of_int(point.label).product(score(weights, bias, point.data_point.features@)).at_most(
        margin,
    )
}

/// The weights after an update on `point`: the label times the features is added.
pub open spec fn updated_weights<T: Scalar>(weights: Seq<T>, point: LabelledDataPoint<T>) -> Seq<
    T,
> {
    added(weights, scaled(T::of_int(point.label), point.data_point.features@))
}

/// The bias after an update on `point`: the label is added.
pub open spec fn updated_bias<T: Scalar>(bias: T, point: LabelledDataPoint<T>) -> T {
    bias.sum(T::of_int(point.label))
}

/// One point of an epoch: an update and a new step where the point needs one,
/// nothing elsewhere.
pub open spec fn visit<T: Scalar>(
    before: Progress<T>,
    margin: T,
    point: LabelledDataPoint<T>,
    epoch: nat,
) -> Progress<T> {
    if needs_update(before.weights, before.bias, margin, point) {
        let weights = updated_weights(before.weights, point);
        let bias = updated_bias(before.bias, point);
        Progress {
            weights,
            bias,
            history: before.history.push(Snapshot { epoch, weights, bias }),
            updated: true,
        }
    } else {
        before
    }
}

/// The first `k` points of an epoch, in the order of the dataset.
pub open spec fn pass<T: Scalar>(
    start: Progress<T>,
    margin: T,
    data: Seq<LabelledDataPoint<T>>,
    epoch: nat,
    k: nat,
) -> Progress<T>
    decreases k,
{
    if k == 0 || k > data.len() {
        Progress { updated: false, ..start }
    } else {
        visit(pass(start, margin, data, epoch, (k - 1) as nat), margin, data[k - 1], epoch)
    }
}

/// Training for at most `epochs` epochs: the state reached, and whether an epoch
/// without an update ended the run.
pub open spec fn trained<T: Scalar>(
    start: Progress<T>,
    margin: T,
    data: Seq<LabelledDataPoint<T>>,
    epochs: nat,
) -> (Progress<T>, bool)
    decreases epochs,
{
    if epochs == 0 {
        (start, false)
    } else {
        let (before, converged) = trained(start, margin, data, (epochs - 1) as nat);
        if converged {
            (before, true)
        } else {
            let after = pass(before, margin, data, epochs, data.len());
            (after, !after.updated)
        }
    }
}

/// Every point of `data` has `dim` features.
pub open spec fn all_of_dimension<T>(data: Seq<LabelledDataPoint<T>>, dim: nat) -> bool {
    forall|i: int| 0 <= i < data.len() ==> (#[trigger] data[i]).data_point.features@.len() == dim
}

/// The point at `j` is the first of `data` that has not `dim` features.
pub open spec fn is_first_misfit<T>(data: Seq<LabelledDataPoint<T>>, dim: nat, j: int) -> bool {
    &&& 0 <= j < data.len()
    &&& data[j].data_point.features@.len() != dim
    &&& all_of_dimension(data.take(j), dim)
}

/// A linear classifier trained by the margin perceptron rule.
pub struct Perceptron<T> {
    margin: T,
    weights: Vec<T>,
    bias: T,
    max_epochs: usize,
}



impl<T: Scalar> Perceptron<T> {
    /// The threshold that the label times the score must exceed.
    pub closed spec fn margin_view(&self) -> T {
        self.margin
    }

    /// The current weights.
    pub closed spec fn weights_view(&self) -> Seq<T> {
        self.weights@
    }

    /// The current bias.
    pub closed spec fn bias_view(&self) -> T {
        self.bias
    }

    /// The number of epochs after which training gives up.
    pub closed spec fn epoch_limit(&self) -> nat {
        self.max_epochs as nat
    }

    /// The state a training run starts from: the current weights and bias, and a
    /// history that holds them as its only step.
    pub open spec fn start(&self) -> Progress<T> {
        Progress {
            weights: self.weights_view(),
            bias: self.bias_view(),
            history: seq![
                Snapshot { epoch: 0, weights: self.weights_view(), bias: self.bias_view() },
            ],
            updated: false,
        }
    }

    /// A perceptron with its initial weights and bias, the margin it trains
    /// for, and the number of epochs after which it gives up.
    pub fn new(margin: T, weights: Vec<T>, bias: T, max_epochs: usize) -> (p: Self)
        ensures
            p.margin_view() == margin,
            p.weights_view() == weights@,
            p.bias_view() == bias,
            p.epoch_limit() == max_epochs,
    {
        Self { margin, weights, bias, max_epochs }
    }

    /// The current weights.
    pub fn weights(&self) -> (w: &Vec<T>)
        ensures
            w@ == self.weights_view(),
    {
        &self.weights
    }

    /// The current bias.
    pub fn bias(&self) -> (b: T)
        ensures
            b == self.bias_view(),
    {
        self.bias
    }

    /// The raw score of a point under the current weights and bias, or the error
    /// when the point has not one feature for each weight.
    pub fn prediction(&self, data_point: &DataPoint<T>) -> (r: Result<T, DimensionMismatch>)
        ensures
            match r {
                Ok(v) => {
                    &&& data_point.features.len() == self.weights_view().len()
                    &&& v == score(self.weights_view(), self.bias_view(), data_point.features@)
                },
                Err(e) => {
                    &&& data_point.features.len() != self.weights_view().len()
                    &&& e == (DimensionMismatch {
                        expected: self.weights_view().len() as usize,
                        found: data_point.features.len(),
                    })
                },
            },
    {
        match dot(&self.weights, &data_point.features) {
            Ok(v) => Ok(v.plus(self.bias)),
            Err(e) => Err(e),
        }
    }

    /// Trains on `data` in its given order, epoch after epoch, until an epoch
    /// passes without an update or the limit of epochs is reached.
    ///
    /// Where the limit is not zero and a point has not one feature for each
    /// weight, nothing is trained: the error names the length of the first such
    /// point, and the perceptron is left as it was.
    pub fn train(&mut self, data: Vec<LabelledDataPoint<T>>) -> (r: Result<
        PerceptronResult<T>,
        DimensionMismatch,
    >)
        ensures
            final(self).margin_view() == old(self).margin_view(),
            final(self).epoch_limit() == old(self).epoch_limit(),
            match r {
                Ok(result) => {
                    let (end, converged) = trained(
                        old(self).start(),
                        old(self).margin_view(),
                        data@,
                        old(self).epoch_limit(),
                    );
                    &&& old(self).epoch_limit() == 0 || all_of_dimension(
                        data@,
                        old(self).weights_view().len(),
                    )
                    &&& history_of(result.steps@) == end.history
                    &&& result.converged == converged
                    &&& final(self).weights_view() == end.weights
                    &&& final(self).bias_view() == end.bias
                    &&& result.steps@[0]@ == old(self).start().history[0]
                    &&& result.steps@.len() == 1 + updates_in(
                        old(self).start(),
                        old(self).margin_view(),
                        data@,
                        old(self).epoch_limit(),
                    )
                    &&& result.converged ==> separates(
                        final(self).weights_view(),
                        final(self).bias_view(),
                        old(self).margin_view(),
                        data@,
                    )
                    &&& !result.converged ==> result.steps@.len() > old(self).epoch_limit()
                    &&& result.steps@.len() <= 1 + old(self).epoch_limit() * data@.len()
                },
                Err(e) => {
                    &&& old(self).epoch_limit() > 0
                    &&& final(self).weights_view() == old(self).weights_view()
                    &&& final(self).bias_view() == old(self).bias_view()
                    &&& e.expected == old(self).weights_view().len()
                    &&& exists|j: int|
                        #[trigger] is_first_misfit(data@, old(self).weights_view().len(), j)
                            && e.found == data@[j].data_point.features.len()
                },
            },
    {
        let dim = self.weights.len();
        if self.max_epochs > 0 {
            let mut j: usize = 0;
            while j < data.len()
                invariant
                    j <= data.len(),
                    all_of_dimension(data@.take(j as int), dim as nat),
                    dim == self.weights@.len(),
                    *self == *old(self),
                    self.max_epochs > 0,
                decreases data.len() - j,
            {
                let found = data[j].data_point.features.len();
                if found != dim {
                    proof {
                        let at = j as int;
                        assert(is_first_misfit(data@, dim as nat, at));
                    }
                    return Err(DimensionMismatch { expected: dim, found });
                }
                j += 1;
                proof {
                    assert forall|i: int| 0 <= i < j implies (#[trigger] data@.take(
                        j as int,
                    )[i]).data_point.features@.len() == dim by {
                        if i < j - 1 {
                            assert(data@.take(j as int)[i] == data@.take(j - 1)[i]);
                        }
                    }
                }
            }
            proof {
                assert(data@.take(data.len() as int) == data@);
            }
        }
        let ghost start = old(self).start();
        let ghost margin = old(self).margin_view();
        let mut steps: Vec<PerceptronStep<T>> = Vec::new();
        steps.push(PerceptronStep { epoch: 0, weights: duplicate(&self.weights), bias: self.bias });
        proof {
            assert(history_of(steps@) == start.history);
        }
        let mut epoch: usize = 0;
        let mut converged = false;
        let ghost mut reached = start;
        while epoch < self.max_epochs && !converged
            invariant
                epoch <= self.max_epochs,
                self.margin == margin,
                self.max_epochs == old(self).max_epochs,
                self.weights@.len() == dim,
                self.max_epochs == 0 || all_of_dimension(data@, dim as nat),
                trained(start, margin, data@, epoch as nat) == (reached, converged),
                reached.weights == self.weights@,
                reached.bias == self.bias,
                reached.history == history_of(steps@),
            decreases self.max_epochs - epoch + (if converged { 0int } else { 1int }),
        {
            let this_epoch: usize = epoch + 1;
            let mut dirty = false;
            let mut i: usize = 0;
            let ghost before = reached;
            let ghost mut now = Progress { updated: false, ..before };
            while i < data.len()
                invariant
                    i <= data.len(),
                    self.margin == margin,
                    self.max_epochs == old(self).max_epochs,
                    self.weights@.len() == dim,
                    all_of_dimension(data@, dim as nat),
                    now == pass(before, margin, data@, this_epoch as nat, i as nat),
                    now.weights == self.weights@,
                    now.bias == self.bias,
                    now.history == history_of(steps@),
                    now.updated == dirty,
                decreases data.len() - i,
            {
                let point = &data[i];
                let prediction = dot_aligned(&self.weights, &point.data_point.features).plus(
                    self.bias,
                );
                let label = T::from_int(point.label);
                if label.times(prediction).is_at_most(self.margin) {
                    dirty = true;
                    let delta = scale(label, &point.data_point.features);
                    self.weights = add_aligned(&self.weights, &delta);
                    self.bias = self.bias.plus(label);
                    let ghost earlier = steps@;
                    let step = PerceptronStep {
                        epoch: this_epoch,
                        weights: duplicate(&self.weights),
                        bias: self.bias,
                    };
                    steps.push(step);
                    proof {
                        assert(history_of(steps@) == history_of(earlier).push(step@));
                    }
                }
                proof {
                    now = visit(now, margin, data@[i as int], this_epoch as nat);
                }
                i += 1;
            }
            epoch = this_epoch;
            converged = !dirty;
            proof {
                reached = now;
            }
        }
        proof {
            let limit = self.max_epochs as nat;
            lemma_trained_stays(start, margin, data@, epoch as nat, limit);
            lemma_history_counts_updates(start, margin, data@, limit);
            if converged {
                lemma_converged_separates(start, margin, data@, limit);
            } else {
                lemma_unconverged_keeps_updating(start, margin, data@, limit);
            }
            lemma_updates_bounded(start, margin, data@, limit);
            assert(history_of(steps@)[0] == steps@[0]@);
        }
        Ok(PerceptronResult { steps, converged })
    }
}

/// Once an epoch without an update has ended a run, more epochs change nothing.
pub proof fn lemma_trained_stays<T: Scalar>(
    start: Progress<T>,
    margin: T,
    data: Seq<LabelledDataPoint<T>>,
    epochs: nat,
    more: nat,
)
    requires
        epochs <= more,
        trained(start, margin, data, epochs).1 || epochs == more,
    ensures
        trained(start, margin, data, more) == trained(start, margin, data, epochs),
    decreases more,
{
    if epochs < more {
        lemma_trained_stays(start, margin, data, epochs, (more - 1) as nat);
    }
}



/// The number of updates among the first `k` points of an epoch.
pub open spec fn updates_in_pass<T: Scalar>(
    start: Progress<T>,
    margin: T,
    data: Seq<LabelledDataPoint<T>>,
    epoch: nat,
    k: nat,
) -> nat
    decreases k,
{
    if k == 0 || k > data.len() {
        0
    } else {
        let before = pass(start, margin, data, epoch, (k - 1) as nat);
        let here: nat = if needs_update(before.weights, before.bias, margin, data[k - 1]) {
            1
        } else {
            0
        };
        updates_in_pass(start, margin, data, epoch, (k - 1) as nat) + here
    }
}

/// The number of updates in a run of at most `epochs` epochs.
pub open spec fn updates_in<T: Scalar>(
    start: Progress<T>,
    margin: T,
    data: Seq<LabelledDataPoint<T>>,
    epochs: nat,
) -> nat
    decreases epochs,
{
    if epochs == 0 {
        0
    } else {
        let (before, converged) = trained(start, margin, data, (epochs - 1) as nat);
        let here: nat = if converged {
            0
        } else {
            updates_in_pass(before, margin, data, epochs, data.len())
        };
        updates_in(start, margin, data, (epochs - 1) as nat) + here
    }
}

/// No point of `data` needs an update under these weights and this bias.
pub open spec fn separates<T: Scalar>(
    weights: Seq<T>,
    bias: T,
    margin: T,
    data: Seq<LabelledDataPoint<T>>,
) -> bool {
    forall|j: int| 0 <= j < data.len() ==> !needs_update(weights, bias, margin, #[trigger] data[j])
}

/// Part of an epoch keeps the steps recorded before it and appends one step for
/// each update; it has updated exactly when that number is not zero.
pub proof fn lemma_pass_appends<T: Scalar>(
    start: Progress<T>,
    margin: T,
    data: Seq<LabelledDataPoint<T>>,
    epoch: nat,
    k: nat,
)
    requires
        k <= data.len(),
    ensures
        start.history.is_prefix_of(pass(start, margin, data, epoch, k).history),
        pass(start, margin, data, epoch, k).history.len() == start.history.len() + updates_in_pass(
            start,
            margin,
            data,
            epoch,
            k,
        ),
        pass(start, margin, data, epoch, k).updated <==> updates_in_pass(
            start,
            margin,
            data,
            epoch,
            k,
        ) > 0,
    decreases k,
{
    if k > 0 {
        lemma_pass_appends(start, margin, data, epoch, (k - 1) as nat);
    }
}

/// Part of an epoch that made no update left the weights and the bias as they
/// were, and none of the points it went through needs an update under them.
pub proof fn lemma_quiet_pass<T: Scalar>(
    start: Progress<T>,
    margin: T,
    data: Seq<LabelledDataPoint<T>>,
    epoch: nat,
    k: nat,
)
    requires
        k <= data.len(),
        !pass(start, margin, data, epoch, k).updated,
    ensures
        pass(start, margin, data, epoch, k).weights == start.weights,
        pass(start, margin, data, epoch, k).bias == start.bias,
        separates(start.weights, start.bias, margin, data.take(k as int)),
    decreases k,
{
    if k > 0 {
        lemma_quiet_pass(start, margin, data, epoch, (k - 1) as nat);
        assert forall|j: int| 0 <= j < k implies !needs_update(
            start.weights,
            start.bias,
            margin,
            #[trigger] data.take(k as int)[j],
        ) by {
            if j < k - 1 {
                assert(data.take(k as int)[j] == data.take(k - 1)[j]);
            }
        }
    }
}

/// The history of a run begins with the steps it started from, and holds one more
/// step for each update: the first step of a trained perceptron is the state it
/// was constructed with, and the steps after it are as many as the updates.
pub proof fn lemma_history_counts_updates<T: Scalar>(
    start: Progress<T>,
    margin: T,
    data: Seq<LabelledDataPoint<T>>,
    epochs: nat,
)
    ensures
        start.history.is_prefix_of(trained(start, margin, data, epochs).0.history),
        trained(start, margin, data, epochs).0.history.len() == start.history.len() + updates_in(
            start,
            margin,
            data,
            epochs,
        ),
    decreases epochs,
{
    if epochs > 0 {
        lemma_history_counts_updates(start, margin, data, (epochs - 1) as nat);
        let (before, converged) = trained(start, margin, data, (epochs - 1) as nat);
        if !converged {
            lemma_pass_appends(before, margin, data, epochs, data.len());
        }
    }
}

/// A run that converged ends with weights and a bias under which no point of the
/// dataset needs an update; a run of no epochs never converges.
pub proof fn lemma_converged_separates<T: Scalar>(
    start: Progress<T>,
    margin: T,
    data: Seq<LabelledDataPoint<T>>,
    epochs: nat,
)
    requires
        trained(start, margin, data, epochs).1,
    ensures
        epochs > 0,
        separates(
            trained(start, margin, data, epochs).0.weights,
            trained(start, margin, data, epochs).0.bias,
            margin,
            data,
        ),
    decreases epochs,
{
    if epochs > 0 {
        let (before, converged) = trained(start, margin, data, (epochs - 1) as nat);
        if converged {
            lemma_converged_separates(start, margin, data, (epochs - 1) as nat);
        } else {
            lemma_quiet_pass(before, margin, data, epochs, data.len());
            assert(data.take(data.len() as int) == data);
        }
    }
}

/// A run that did not converge made at least one update in each of its epochs.
pub proof fn lemma_unconverged_keeps_updating<T: Scalar>(
    start: Progress<T>,
    margin: T,
    data: Seq<LabelledDataPoint<T>>,
    epochs: nat,
)
    requires
        !trained(start, margin, data, epochs).1,
    ensures
        updates_in(start, margin, data, epochs) >= epochs,
    decreases epochs,
{
    if epochs > 0 {
        let (before, converged) = trained(start, margin, data, (epochs - 1) as nat);
        lemma_unconverged_keeps_updating(start, margin, data, (epochs - 1) as nat);
        lemma_pass_appends(before, margin, data, epochs, data.len());
    }
}


/// A run looks at each point once in an epoch, so it makes no more updates than
/// its epochs times the points of the dataset.
pub proof fn lemma_updates_bounded<T: Scalar>(
    start: Progress<T>,
    margin: T,
    data: Seq<LabelledDataPoint<T>>,
    epochs: nat,
)
    ensures
        updates_in(start, margin, data, epochs) <= epochs * data.len(),
    decreases epochs,
{
    if epochs > 0 {
        let (before, converged) = trained(start, margin, data, (epochs - 1) as nat);
        lemma_updates_bounded(start, margin, data, (epochs - 1) as nat);
        lemma_pass_bounded(before, margin, data, epochs, data.len());
        assert((epochs - 1) * data.len() + data.len() == epochs * data.len())
            by (nonlinear_arith);
    }
}

/// Part of an epoch makes no more updates than the points it went through.
pub proof fn lemma_pass_bounded<T: Scalar>(
    start: Progress<T>,
    margin: T,
    data: Seq<LabelledDataPoint<T>>,
    epoch: nat,
    k: nat,
)
    requires
        k <= data.len(),
    ensures
        updates_in_pass(start, margin, data, epoch, k) <= k,
    decreases k,
{
    if k > 0 {
        lemma_pass_bounded(start, margin, data, epoch, (k - 1) as nat);
    }
}


/// The step `next` is what an update on `point` makes of the step `prev`, and
/// `point` needs an update at `prev`.
pub open spec fn step_follows<T: Scalar>(
    prev: Snapshot<T>,
    next: Snapshot<T>,
    margin: T,
    point: LabelledDataPoint<T>,
) -> bool {
    &&& needs_update(prev.weights, prev.bias, margin, point)
    &&& next.weights == updated_weights(prev.weights, point)
    &&& next.bias == updated_bias(prev.bias, point)
}

/// The step at the place `i` of `history` is an update of the step before it, on
/// some point of `data`.
pub open spec fn linked<T: Scalar>(
    history: Seq<Snapshot<T>>,
    i: int,
    margin: T,
    data: Seq<LabelledDataPoint<T>>,
) -> bool {
    exists|j: int|
        0 <= j < data.len() && #[trigger] step_follows(
            history[i - 1],
            history[i],
            margin,
            data[j],
        )
}

/// Each step of `history` from the place `from` on is an update of the step
/// before it, on some point of `data`.
pub open spec fn chained<T: Scalar>(
    history: Seq<Snapshot<T>>,
    from: int,
    margin: T,
    data: Seq<LabelledDataPoint<T>>,
) -> bool {
    forall|i: int| 1 <= from <= i < history.len() ==> #[trigger] linked(history, i, margin, data)
}

/// The last recorded step holds the current weights and bias.
pub open spec fn up_to_date<T>(state: Progress<T>) -> bool {
    &&& state.history.len() >= 1
    &&& state.history.last().weights == state.weights
    &&& state.history.last().bias == state.bias
}

/// A link of a history is a link of every history that begins with it.
pub proof fn lemma_link_kept<T: Scalar>(
    shorter: Seq<Snapshot<T>>,
    longer: Seq<Snapshot<T>>,
    i: int,
    margin: T,
    data: Seq<LabelledDataPoint<T>>,
)
    requires
        shorter.is_prefix_of(longer),
        1 <= i < shorter.len(),
        linked(shorter, i, margin, data),
    ensures
        linked(longer, i, margin, data),
{
    let j = choose|j: int|
        0 <= j < data.len() && #[trigger] step_follows(shorter[i - 1], shorter[i], margin, data[j]);
    assert(longer[i] == shorter[i]);
    assert(longer[i - 1] == shorter[i - 1]);
    assert(step_follows(longer[i - 1], longer[i], margin, data[j]));
}

/// Part of an epoch records each update as it makes it: the steps it appends
/// follow one from the other, and the last holds the weights and bias reached.
pub proof fn lemma_pass_chains<T: Scalar>(
    start: Progress<T>,
    margin: T,
    data: Seq<LabelledDataPoint<T>>,
    epoch: nat,
    k: nat,
)
    requires
        k <= data.len(),
        up_to_date(start),
    ensures
        up_to_date(pass(start, margin, data, epoch, k)),
        start.history.is_prefix_of(pass(start, margin, data, epoch, k).history),
        chained(
            pass(start, margin, data, epoch, k).history,
            start.history.len() as int,
            margin,
            data,
        ),
    decreases k,
{
    if k > 0 {
        lemma_pass_chains(start, margin, data, epoch, (k - 1) as nat);
        let before = pass(start, margin, data, epoch, (k - 1) as nat);
        let after = pass(start, margin, data, epoch, k);
        let from = start.history.len() as int;
        assert forall|i: int| from <= i < after.history.len() implies #[trigger] linked(
            after.history,
            i,
            margin,
            data,
        ) by {
            if i < before.history.len() {
                assert(linked(before.history, i, margin, data));
                lemma_link_kept(before.history, after.history, i, margin, data);
            } else {
                assert(after.history[i - 1] == before.history.last());
                assert(step_follows(
                    after.history[i - 1],
                    after.history[i],
                    margin,
                    data[k - 1],
                ));
            }
        }
    }
}

/// The history of a run is a chain of updates: every step after those it started
/// from is what an update on some point of the dataset, which needed one, makes
/// of the step before it.
pub proof fn lemma_history_chains<T: Scalar>(
    start: Progress<T>,
    margin: T,
    data: Seq<LabelledDataPoint<T>>,
    epochs: nat,
)
    requires
        up_to_date(start),
    ensures
        up_to_date(trained(start, margin, data, epochs).0),
        start.history.is_prefix_of(trained(start, margin, data, epochs).0.history),
        chained(
            trained(start, margin, data, epochs).0.history,
            start.history.len() as int,
            margin,
            data,
        ),
    decreases epochs,
{
    if epochs > 0 {
        lemma_history_chains(start, margin, data, (epochs - 1) as nat);
        let (before, converged) = trained(start, margin, data, (epochs - 1) as nat);
        if !converged {
            lemma_pass_chains(before, margin, data, epochs, data.len());
            let after = pass(before, margin, data, epochs, data.len());
            let from = start.history.len() as int;
            assert forall|i: int| from <= i < after.history.len() implies #[trigger] linked(
                after.history,
                i,
                margin,
                data,
            ) by {
                if i < before.history.len() {
                    assert(linked(before.history, i, margin, data));
                    lemma_link_kept(before.history, after.history, i, margin, data);
                } else {
                    assert(linked(after.history, i, margin, data));
                }
            }
        }
    }
}

} // verus!
