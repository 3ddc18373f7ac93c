//! The regression calculator: which baseline to compare against, which
//! samples meet which models, and the verdict on each pair.
//!
//! A sample is a regression where it lies above the threshold of its model,
//! `mean + sigma * stddev`. The sum, the product and the comparison are
//! functions that the caller hands in; the calculator fixes what they are
//! applied to.

use crate::exceptions::{CalculateError, CalculateErrorView};
use crate::metric::{Metric, MetricView};
use crate::types::{
    baseline_views, sample_views, Baseline, BaselineView, Calculation, CalculationView,
    MetricModel, MetricModelView, Sample, SampleView,
};
use crate::version::Version;
use vstd::prelude::*;

verus! {

/// The index of the sample that counts for `metric`: the last sample of that
/// metric, as a later sample of a metric replaces an earlier one.
pub open spec fn sample_for<T>(samples: Seq<SampleView<T>>, metric: MetricView) -> Option<int>
    decreases samples.len(),
{
    if samples.len() == 0 {
        None
    } else if samples.last().metric == metric {
        Some(samples.len() - 1)
    } else {
        sample_for(samples.drop_last(), metric)
    }
}

/// The pairs of a model and the sample that counts for its metric, as indices
/// into `models` and `samples`, in the order of the models. A model without a
/// sample of its metric is in no pair.
pub open spec fn joined<T>(samples: Seq<SampleView<T>>, models: Seq<MetricModelView<T>>) -> Seq<
    (int, int),
>
    decreases models.len(),
{
    if models.len() == 0 {
        Seq::empty()
    } else {
        let before = joined(samples, models.drop_last());
        match sample_for(samples, models.last().metric) {
            Some(s) => before.push((models.len() - 1, s)),
            None => before,
        }
    }
}

/// `c` is the verdict on `sample` against `model` by the sigma rule: its
/// threshold is a sum of the model's mean and a product of `sigma` and the
/// model's standard deviation, and it is a regression as the sample's value
/// compares to that threshold, each as `plus`, `times` and `exceeds` gave it.
pub open spec fn follows_rule<T, Plus: Fn(T, T) -> T, Times: Fn(T, T) -> T, Exceeds: Fn(T, T) -> bool>(
    c: CalculationView<T>,
    version: Version,
    model: MetricModelView<T>,
    sample: SampleView<T>,
    sigma: T,
    plus: Plus,
    times: Times,
    exceeds: Exceeds,
) -> bool {
    &&& c.records(version, model, sample, sigma, c.threshold, c.regression)
    &&& exists|product: T| #[trigger]
        call_ensures(times, (sigma, model.measurement.stddev), product) && call_ensures(
            plus,
            (model.measurement.mean, product),
            c.threshold,
        )
    &&& call_ensures(exceeds, (sample.value, c.threshold), c.regression)
}

/// `i` is the index of the current version among `versions`: none is greater,
/// and those before it are smaller.
pub open spec fn is_current(versions: Seq<Version>, i: int) -> bool {
    &&& 0 <= i < versions.len()
    &&& forall|j: int| 0 <= j < versions.len() ==> !versions[i].precedes(#[trigger] versions[j])
    &&& forall|j: int| 0 <= j < i ==> (#[trigger] versions[j]).precedes(versions[i])
}

/// The versions of a list of baselines.
pub open spec fn versions_of<T>(baselines: Seq<BaselineView<T>>) -> Seq<Version> {
    Seq::new(baselines.len(), |i: int| baselines[i].version)
}

/// The index in `versions` of the greatest version, and of the first of them
/// where several are equal. Zero for an empty list.
pub open spec fn current(versions: Seq<Version>) -> int
    decreases versions.len(),
{
    if versions.len() <= 1 {
        0
    } else {
        let before = current(versions.drop_last());
        if versions[before].precedes(versions.last()) {
            versions.len() - 1
        } else {
            before
        }
    }
}

/// What `sample_for` finds is a sample of the metric that no later sample of
/// that metric follows, and it finds nothing only where there is none.
pub proof fn lemma_sample_for<T>(samples: Seq<SampleView<T>>, metric: MetricView)
    ensures
        match sample_for(samples, metric) {
            Some(s) => 0 <= s < samples.len() && samples[s].metric == metric && forall|later: int|
                s < later < samples.len() ==> (#[trigger] samples[later]).metric != metric,
            None => forall|s: int| 0 <= s < samples.len() ==> (#[trigger] samples[s]).metric != metric,
        },
    decreases samples.len(),
{
    if samples.len() > 0 && samples.last().metric != metric {
        let front = samples.drop_last();
        lemma_sample_for(front, metric);
        match sample_for(front, metric) {
            Some(s) => {
                assert forall|later: int| s < later < samples.len() implies (
                #[trigger] samples[later]).metric != metric by {
                    if later < front.len() {
                        assert(front[later] == samples[later]);
                    }
                }
            },
            None => {
                assert forall|s: int| 0 <= s < samples.len() implies (#[trigger] samples[s]).metric
                    != metric by {
                    if s < front.len() {
                        assert(front[s] == samples[s]);
                    }
                }
            },
        }
    }
}

/// Every pair joins a model with the sample that counts for its metric, the
/// pairs stand in the order of the models, and a model is in a pair exactly
/// where a sample of its metric exists.
pub proof fn lemma_joined<T>(samples: Seq<SampleView<T>>, models: Seq<MetricModelView<T>>)
    ensures
        forall|k: int|
            0 <= k < joined(samples, models).len() ==> {
                let pair = #[trigger] joined(samples, models)[k];
                &&& 0 <= pair.0 < models.len()
                &&& sample_for(samples, models[pair.0].metric) == Some(pair.1)
            },
        forall|k: int, l: int|
            0 <= k < l < joined(samples, models).len() ==> (#[trigger] joined(samples, models)[k]).0
                < (#[trigger] joined(samples, models)[l]).0,
        forall|m: int|
            0 <= m < models.len() && sample_for(samples, (#[trigger] models[m]).metric) is Some
                ==> exists|k: int|
                0 <= k < joined(samples, models).len() && (#[trigger] joined(samples, models)[k]).0
                    == m,
    decreases models.len(),
{
    if models.len() > 0 {
        let front = models.drop_last();
        let before = joined(samples, front);
        let all = joined(samples, models);
        let last = models.len() - 1;
        lemma_joined(samples, front);
        assert forall|k: int| 0 <= k < before.len() implies 0 <= (#[trigger] before[k]).0 < last
            && sample_for(samples, models[before[k].0].metric) == Some(before[k].1) by {
            assert(front[before[k].0] == models[before[k].0]);
        }
        assert forall|k: int| 0 <= k < before.len() implies all[k] == before[k] by {}
        assert forall|m: int|
            0 <= m < models.len() && sample_for(samples, (#[trigger] models[m]).metric) is Some
                implies exists|k: int| 0 <= k < all.len() && (#[trigger] all[k]).0 == m by {
            if m < last {
                assert(front[m] == models[m]);
                let k = choose|k: int| 0 <= k < before.len() && (#[trigger] before[k]).0 == m;
                assert(all[k].0 == m);
            } else {
                assert(all[all.len() - 1].0 == m);
            }
        }
    }
}

/// A model whose metric has no sample is in no pair, so that no calculation
/// is made for it.
pub proof fn lemma_model_without_sample<T>(
    samples: Seq<SampleView<T>>,
    models: Seq<MetricModelView<T>>,
    m: int,
)
    requires
        0 <= m < models.len(),
        forall|s: int| 0 <= s < samples.len() ==> (#[trigger] samples[s]).metric != models[m].metric,
    ensures
        forall|k: int|
            0 <= k < joined(samples, models).len() ==> (#[trigger] joined(samples, models)[k]).0
                != m,
{
    lemma_joined(samples, models);
    lemma_sample_for(samples, models[m].metric);
}

/// A sample whose metric has no model is in no pair, so that no calculation
/// is made from it.
pub proof fn lemma_sample_without_model<T>(
    samples: Seq<SampleView<T>>,
    models: Seq<MetricModelView<T>>,
    s: int,
)
    requires
        0 <= s < samples.len(),
        forall|m: int| 0 <= m < models.len() ==> (#[trigger] models[m]).metric != samples[s].metric,
    ensures
        forall|k: int|
            0 <= k < joined(samples, models).len() ==> (#[trigger] joined(samples, models)[k]).1
                != s,
{
    lemma_joined(samples, models);
    assert forall|k: int| 0 <= k < joined(samples, models).len() implies (#[trigger] joined(
        samples,
        models,
    )[k]).1 != s by {
        let pair = joined(samples, models)[k];
        lemma_sample_for(samples, models[pair.0].metric);
    }
}

/// `current` is the index of the current version, and no other index is.
pub proof fn lemma_current(versions: Seq<Version>, i: int)
    requires
        versions.len() > 0,
    ensures
        is_current(versions, current(versions)),
        is_current(versions, i) ==> i == current(versions),
    decreases versions.len(),
{
    if versions.len() > 1 {
        let front = versions.drop_last();
        lemma_current(front, i);
        let before = current(front);
        assert(front[before] == versions[before]);
        assert forall|j: int| 0 <= j < front.len() implies !versions[before].precedes(
            #[trigger] versions[j],
        ) by {
            assert(front[j] == versions[j]);
        }
        assert forall|j: int| 0 <= j < before implies (#[trigger] versions[j]).precedes(
            versions[before],
        ) by {
            assert(front[j] == versions[j]);
        }
    }
    let c = current(versions);
    if is_current(versions, i) && i != c {
        if i < c {
            assert(versions[i].precedes(versions[c]));
        } else {
            assert(versions[c].precedes(versions[i]));
        }
    }
}

/// Where no two versions are the same, the current version is strictly
/// greater than every other.
pub proof fn lemma_current_strictly_greatest(versions: Seq<Version>, j: int)
    requires
        forall|a: int, b: int|
            0 <= a < b < versions.len() ==> #[trigger] versions[a] != #[trigger] versions[b],
        0 <= j < versions.len(),
        j != current(versions),
    ensures
        versions[j].precedes(versions[current(versions)]),
{
    lemma_current(versions, j);
    let c = current(versions);
    if j < c {
        assert(versions[j] != versions[c]);
    } else {
        assert(versions[c] != versions[j]);
    }
    assert(!versions[c].precedes(versions[j]));
}

/// Where no two models are models of the same metric, no two pairs are pairs
/// of the same metric: each metric gets at most one calculation.
pub proof fn lemma_one_pair_for_each_metric<T>(
    samples: Seq<SampleView<T>>,
    baseline: BaselineView<T>,
    k: int,
    l: int,
)
    requires
        baseline.has_unique_metrics(),
        0 <= k < l < joined(samples, baseline.models).len(),
    ensures
        baseline.models[joined(samples, baseline.models)[k].0].metric
            != baseline.models[joined(samples, baseline.models)[l].0].metric,
{
    lemma_joined(samples, baseline.models);
    let pairs = joined(samples, baseline.models);
    assert(pairs[k].0 < pairs[l].0);
}

/// The sample that counts for `metric`, if there is one.
pub fn find_sample<T>(samples: &[Sample<T>], metric: &Metric) -> (r: Option<usize>)
    ensures
        match r {
            Some(s) => sample_for(sample_views(samples@), metric@) == Some(s as int),
            None => sample_for(sample_views(samples@), metric@) is None,
        },
{
    let ghost views = sample_views(samples@);
    let mut i: usize = samples.len();
    assert(views.take(i as int) =~= views);
    while i > 0
        invariant
            i <= samples.len(),
            views == sample_views(samples@),
            sample_for(views, metric@) == sample_for(views.take(i as int), metric@),
        decreases i,
    {
        let ghost prefix = views.take(i as int);
        assert(prefix.last() == samples@[i - 1]@);
        assert(prefix.drop_last() =~= views.take(i - 1));
        if samples[i - 1].metric == *metric {
            return Some(i - 1);
        }
        i -= 1;
    }
    None
}

impl<T: Copy> Calculation<T> {
    /// Records a verdict that has been reached on `sample`, which was held
    /// against `model` of the baseline of `version` with the multiplier
    /// `sigma`: the threshold came out as `threshold`, and `regression` says
    /// whether the sample lies above it.
    pub fn new(
        version: Version,
        model: &MetricModel<T>,
        sample: &Sample<T>,
        sigma: T,
        threshold: T,
        regression: bool,
    ) -> (c: Calculation<T>)
        ensures
            c@.records(version, model@, sample@, sigma, threshold, regression),
    {
        Calculation {
            version: version,
            metric: model.metric.clone(),
            regression: regression,
            ts: sample.ts,
            sigma: sigma,
            mean: model.measurement.mean,
            stddev: model.measurement.stddev,
            threshold: threshold,
        }
    }
}

/// Holds the samples against the models of `baseline`, by the sigma rule with
/// the multiplier `sigma`. There is one calculation for each model whose
/// metric has a sample, in the order of the models; where a metric has several
/// samples, the last one counts. Models without a sample and samples without
/// a model are passed over.
pub fn calculate_regressions<T: Copy, Plus: Fn(T, T) -> T, Times: Fn(T, T) -> T, Exceeds: Fn(T, T) -> bool>(
    samples: &[Sample<T>],
    baseline: Baseline<T>,
    sigma: T,
    plus: Plus,
    times: Times,
    exceeds: Exceeds,
) -> (out: Vec<Calculation<T>>)
    requires
        forall|a: T, b: T| call_requires(plus, (a, b)),
        forall|a: T, b: T| call_requires(times, (a, b)),
        forall|a: T, b: T| call_requires(exceeds, (a, b)),
    ensures
        out.len() == joined(sample_views(samples@), baseline@.models).len(),
        forall|k: int|
            0 <= k < out.len() ==> {
                let pair = joined(sample_views(samples@), baseline@.models)[k];
                follows_rule(
                    (#[trigger] out[k])@,
                    baseline.version,
                    baseline@.models[pair.0],
                    sample_views(samples@)[pair.1],
                    sigma,
                    plus,
                    times,
                    exceeds,
                )
            },
{
    let ghost views = sample_views(samples@);
    let ghost models = baseline@.models;
    let mut out: Vec<Calculation<T>> = Vec::new();
    let n = baseline.models.len();
    let mut m: usize = 0;
    while m < n
        invariant
            m <= n,
            n == baseline.models.len(),
            views == sample_views(samples@),
            models == baseline@.models,
            forall|a: T, b: T| call_requires(plus, (a, b)),
            forall|a: T, b: T| call_requires(times, (a, b)),
            forall|a: T, b: T| call_requires(exceeds, (a, b)),
            out.len() == joined(views, models.take(m as int)).len(),
            forall|k: int|
                0 <= k < out.len() ==> {
                    let pair = joined(views, models.take(m as int))[k];
                    follows_rule(
                        (#[trigger] out[k])@,
                        baseline.version,
                        models[pair.0],
                        views[pair.1],
                        sigma,
                        plus,
                        times,
                        exceeds,
                    )
                },
        decreases n - m,
    {
        let model = &baseline.models[m];
        let ghost before = joined(views, models.take(m as int));
        let ghost after = joined(views, models.take(m + 1));
        proof {
            assert(models.take(m + 1).drop_last() =~= models.take(m as int));
            assert(models.take(m + 1).last() == model@);
            lemma_sample_for(views, model@.metric);
        }
        match find_sample(samples, &model.metric) {
            Some(s) => {
                let sample = &samples[s];
                let product = times(sigma, model.measurement.stddev);
                let threshold = plus(model.measurement.mean, product);
                let regression = exceeds(sample.value, threshold);
                let c = Calculation::new(
                    baseline.version,
                    model,
                    sample,
                    sigma,
                    threshold,
                    regression,
                );
                proof {
                    assert(after == before.push((m as int, s as int)));
                    assert(views[s as int] == sample@);
                    assert(models[m as int] == model@);
                    assert(follows_rule(
                        c@,
                        baseline.version,
                        models[m as int],
                        views[s as int],
                        sigma,
                        plus,
                        times,
                        exceeds,
                    ));
                }
                out.push(c);
            },
            None => {
                assert(after == before);
            },
        }
        m += 1;
    }
    assert(models.take(n as int) =~= models);
    out
}

/// The index of the baseline to compare against: the one of the greatest
/// version, and the first of them where several have it. `None` where there
/// is no baseline.
pub fn current_index<T>(baselines: &Vec<Baseline<T>>) -> (r: Option<usize>)
    ensures
        match r {
            Some(i) => baselines.len() > 0 && i == current(
                versions_of(baseline_views(baselines@)),
            ) && is_current(versions_of(baseline_views(baselines@)), i as int),
            None => baselines.len() == 0,
        },
{
    if baselines.len() == 0 {
        return None;
    }
    let ghost versions = versions_of(baseline_views(baselines@));
    let mut best: usize = 0;
    let mut i: usize = 1;
    assert(versions.take(1).drop_last().len() == 0);
    while i < baselines.len()
        invariant
            1 <= i <= baselines.len(),
            versions == versions_of(baseline_views(baselines@)),
            best < i,
            best == current(versions.take(i as int)),
        decreases baselines.len() - i,
    {
        proof {
            let prefix = versions.take(i + 1);
            assert(prefix.drop_last() =~= versions.take(i as int));
            assert(prefix.last() == baselines@[i as int].version);
            assert(prefix[best as int] == baselines@[best as int].version);
        }
        if baselines[best].version < baselines[i].version {
            best = i;
        }
        i += 1;
    }
    proof {
        assert(versions.take(i as int) =~= versions);
        lemma_current(versions, best as int);
    }
    Some(best)
}

/// The baseline to compare against: of all `baselines` the one of the greatest
/// version. Without any baseline there is nothing to select, which is the
/// error `NoBaselinesFoundError`.
pub fn select_current<T>(baselines: Vec<Baseline<T>>) -> (r: Result<Baseline<T>, CalculateError>)
    ensures
        match r {
            Ok(baseline) => baselines.len() > 0 && baseline == baselines[current(
                versions_of(baseline_views(baselines@)),
            )] && is_current(
                versions_of(baseline_views(baselines@)),
                current(versions_of(baseline_views(baselines@))),
            ),
            Err(e) => baselines.len() == 0 && e@ == CalculateErrorView::NoBaselinesFoundError,
        },
{
    match current_index(&baselines) {
        Some(i) => {
            let mut baselines = baselines;
            Ok(baselines.remove(i))
        },
        None => Err(CalculateError::NoBaselinesFoundError),
    }
}

/// Selects the baseline of the greatest version and holds the samples against
/// it, as `calculate_regressions` does. Without any baseline the result is the
/// error `NoBaselinesFoundError`.
pub fn regressions<T: Copy, Plus: Fn(T, T) -> T, Times: Fn(T, T) -> T, Exceeds: Fn(T, T) -> bool>(
    baselines: Vec<Baseline<T>>,
    samples: &[Sample<T>],
    sigma: T,
    plus: Plus,
    times: Times,
    exceeds: Exceeds,
) -> (r: Result<Vec<Calculation<T>>, CalculateError>)
    requires
        forall|a: T, b: T| call_requires(plus, (a, b)),
        forall|a: T, b: T| call_requires(times, (a, b)),
        forall|a: T, b: T| call_requires(exceeds, (a, b)),
    ensures
        match r {
            Ok(out) => {
                let baseline = baselines[current(versions_of(baseline_views(baselines@)))];
                &&& baselines.len() > 0
                &&& out.len() == joined(sample_views(samples@), baseline@.models).len()
                &&& forall|k: int|
                    0 <= k < out.len() ==> {
                        let pair = joined(sample_views(samples@), baseline@.models)[k];
                        follows_rule(
                            (#[trigger] out[k])@,
                            baseline.version,
                            baseline@.models[pair.0],
                            sample_views(samples@)[pair.1],
                            sigma,
                            plus,
                            times,
                            exceeds,
                        )
                    }
            },
            Err(e) => baselines.len() == 0 && e@ == CalculateErrorView::NoBaselinesFoundError,
        },
{
    match select_current(baselines) {
        Ok(baseline) => Ok(calculate_regressions(samples, baseline, sigma, plus, times, exceeds)),
        Err(e) => Err(e),
    }
}

/// Some calculation in the list is a regression.
pub open spec fn any_regression<T>(calculations: Seq<Calculation<T>>) -> bool {
    exists|i: int| 0 <= i < calculations.len() && (#[trigger] calculations[i]).regression
}

/// The exit code of a comparison: 1 where a regression was found, else 0.
pub fn exit_code<T>(calculations: &Vec<Calculation<T>>) -> (code: i32)
    ensures
        code == if any_regression(calculations@) {
            1i32
        } else {
            0i32
        },
{
    let mut i: usize = 0;
    while i < calculations.len()
        invariant
            i <= calculations.len(),
            forall|j: int| 0 <= j < i ==> !(#[trigger] calculations[j]).regression,
        decreases calculations.len() - i,
    {
        if calculations[i].regression {
            return 1;
        }
        i += 1;
    }
    0
}

} // verus!
