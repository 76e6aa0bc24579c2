//! Selection of metrics, aggregates, anomalies and recommendations by query.

use crate::domain::{
    status_kind, AggregatedMetric, AggregatedQuery, Anomaly, AnomalyFilter, MetricSample, MetricType,
    MetricsQuery, Recommendation, RecommendationFilter, TimeRange,
};
use vstd::prelude::*;

verus! {

/// `t` lies in the closed range `r`; an inverted range holds nothing.
pub open spec fn in_range(t: i64, r: TimeRange) -> bool {
    r.end_ms >= r.start_ms && t >= r.start_ms && t <= r.end_ms
}

/// Whether `timestamp` lies inside `range` (bounds included). A range that
/// ends before it starts contains nothing.
pub fn timestamp_in_range(timestamp: i64, range: &TimeRange) -> (b: bool)
    ensures
        b == in_range(timestamp, *range),
{
    if range.end_ms < range.start_ms {
        return false;
    }
    timestamp >= range.start_ms && timestamp <= range.end_ms
}

/// `id` is one of `ids`.
pub open spec fn names_include(ids: Seq<String>, id: Seq<char>) -> bool {
    exists|i: int| 0 <= i < ids.len() && #[trigger] ids[i]@ == id
}

/// A sample satisfies every constraint the query sets.
pub open spec fn sample_matches<P>(s: MetricSample<P>, q: MetricsQuery) -> bool {
    &&& (q.cluster_id matches Some(id) ==> id@ == s.cluster_id@)
    &&& (q.resource_type matches Some(t) ==> t == s.resource_type)
    &&& (q.resource_ids@.len() == 0 || names_include(q.resource_ids@, s.resource_id@))
    &&& (q.metric_types@.len() == 0 || q.metric_types@.contains(s.metric_type))
    &&& (q.time_range matches Some(r) ==> in_range(s.timestamp, r))
}

/// An aggregate satisfies every constraint the query sets.
pub open spec fn aggregate_matches<P>(m: AggregatedMetric<P>, q: AggregatedQuery) -> bool {
    &&& (q.cluster_id matches Some(id) ==> id@ == m.cluster_id@)
    &&& (q.resource_type matches Some(t) ==> t == m.resource_type)
    &&& (q.metric_types@.len() == 0 || q.metric_types@.contains(m.metric_type))
    &&& (q.time_range matches Some(r) ==> in_range(m.window_start, r))
}

/// An anomaly satisfies every constraint the filter sets.
pub open spec fn anomaly_matches<P>(a: Anomaly<P>, f: AnomalyFilter) -> bool {
    &&& (f.cluster_id matches Some(id) ==> id@ == a.cluster_id@)
    &&& (f.resource_id matches Some(id) ==> id@ == a.resource_id@)
    &&& (f.metric_type matches Some(t) ==> t == a.metric_type)
    &&& (f.severity matches Some(s) ==> s == a.severity)
    &&& (f.time_range matches Some(r) ==> a.detected_at >= r.start_ms && a.detected_at <= r.end_ms)
}

/// A recommendation satisfies every constraint the filter sets.
pub open spec fn recommendation_matches<P>(r: Recommendation<P>, f: RecommendationFilter) -> bool {
    &&& (f.cluster_id matches Some(id) ==> id@ == r.cluster_id@)
    &&& (f.priority matches Some(p) ==> p == r.priority)
    &&& (f.status matches Some(k) ==> status_kind(r.status) == k)
}

/// The first `limit` items, when a limit is set.
pub open spec fn limited<T>(s: Seq<T>, limit: Option<u32>) -> Seq<T> {
    match limit {
        Some(l) => if s.len() > l {
            s.take(l as int)
        } else {
            s
        },
        None => s,
    }
}

fn contains_name(ids: &Vec<String>, id: &String) -> (b: bool)
    ensures
        b == names_include(ids@, id@),
{
    let mut i: usize = 0;
    while i < ids.len()
        invariant
            0 <= i <= ids.len(),
            forall|k: int| 0 <= k < i ==> ids@[k]@ != id@,
        decreases ids.len() - i,
    {
        if ids[i] == *id {
            return true;
        }
        i = i + 1;
    }
    false
}

fn contains_metric_type(types: &Vec<MetricType>, t: MetricType) -> (b: bool)
    ensures
        b == types@.contains(t),
{
    let mut i: usize = 0;
    while i < types.len()
        invariant
            0 <= i <= types.len(),
            forall|k: int| 0 <= k < i ==> types@[k] != t,
        decreases types.len() - i,
    {
        if types[i] == t {
            return true;
        }
        i = i + 1;
    }
    false
}

fn same_opt_name(want: &Option<String>, have: &String) -> (b: bool)
    ensures
        b == (want matches Some(id) ==> id@ == have@),
{
    match want {
        Some(id) => *id == *have,
        None => true,
    }
}

/// Whether a sample satisfies every constraint of a metrics query.
pub fn matches_metrics_query<P>(sample: &MetricSample<P>, query: &MetricsQuery) -> (b: bool)
    ensures
        b == sample_matches(*sample, *query),
{
    same_opt_name(&query.cluster_id, &sample.cluster_id) && match query.resource_type {
        Some(t) => t == sample.resource_type,
        None => true,
    } && (query.resource_ids.len() == 0 || contains_name(&query.resource_ids, &sample.resource_id))
        && (query.metric_types.len() == 0 || contains_metric_type(
        &query.metric_types,
        sample.metric_type,
    )) && match &query.time_range {
        Some(range) => timestamp_in_range(sample.timestamp, range),
        None => true,
    }
}

fn matches_aggregated_query<P>(metric: &AggregatedMetric<P>, query: &AggregatedQuery) -> (b: bool)
    ensures
        b == aggregate_matches(*metric, *query),
{
    same_opt_name(&query.cluster_id, &metric.cluster_id) && match query.resource_type {
        Some(t) => t == metric.resource_type,
        None => true,
    } && (query.metric_types.len() == 0 || contains_metric_type(
        &query.metric_types,
        metric.metric_type,
    )) && match &query.time_range {
        Some(range) => timestamp_in_range(metric.window_start, range),
        None => true,
    }
}

fn matches_anomaly_filter<P>(anomaly: &Anomaly<P>, filter: &AnomalyFilter) -> (b: bool)
    ensures
        b == anomaly_matches(*anomaly, *filter),
{
    same_opt_name(&filter.cluster_id, &anomaly.cluster_id) && same_opt_name(
        &filter.resource_id,
        &anomaly.resource_id,
    ) && match filter.metric_type {
        Some(t) => t == anomaly.metric_type,
        None => true,
    } && match filter.severity {
        Some(s) => s == anomaly.severity,
        None => true,
    } && match &filter.time_range {
        Some(range) => anomaly.detected_at >= range.start_ms && anomaly.detected_at <= range.end_ms,
        None => true,
    }
}

fn matches_recommendation_filter<P>(rec: &Recommendation<P>, filter: &RecommendationFilter) -> (b: bool)
    ensures
        b == recommendation_matches(*rec, *filter),
{
    same_opt_name(&filter.cluster_id, &rec.cluster_id) && match filter.priority {
        Some(p) => p == rec.priority,
        None => true,
    } && match filter.status {
        Some(k) => rec.status.kind() == k,
        None => true,
    }
}

fn retain_matching<T, F: Fn(&T) -> bool>(
    items: Vec<T>,
    pred: F,
    Ghost(keep): Ghost<spec_fn(T) -> bool>,
) -> (r: Vec<T>)
    requires
        forall|t: T| #[trigger] pred.requires((&t,)),
        forall|t: T, b: bool| pred.ensures((&t,), b) ==> b == keep(t),
    ensures
        r@ == items@.filter(keep),
{
    let ghost all = items@;
    let mut kept: Vec<T> = Vec::new();
    let mut n: usize = 0;
    proof {
        assert(all.take(0) =~= Seq::<T>::empty());
        reveal(Seq::filter);
    }
    for item in it: items.into_iter()
        invariant
            all == items@,
            it.seq() == all,
            kept@ == all.take(it.index() as int).filter(keep),
            forall|t: T| #[trigger] pred.requires((&t,)),
            forall|t: T, b: bool| pred.ensures((&t,), b) ==> b == keep(t),
    {
        let ghost i = it.index();
        proof {
            assert(all.take(i + 1) =~= all.take(i as int).push(all[i as int]));
            all.take(i as int).lemma_filter_push(all[i as int], keep);
        }
        if pred(&item) {
            kept.push(item);
        }
    }
    proof {
        assert(all.take(all.len() as int) =~= all);
    }
    kept
}

/// The samples that satisfy the query, in their stored order.
pub fn filter_metrics<P>(samples: Vec<MetricSample<P>>, query: &MetricsQuery) -> (r: Vec<
    MetricSample<P>,
>)
    ensures
        r@ == samples@.filter(|s: MetricSample<P>| sample_matches(s, *query)),
{
    retain_matching(
        samples,
        (|s: &MetricSample<P>| -> (b: bool)
            ensures
                b == sample_matches(*s, *query),
            { matches_metrics_query(s, query) }),
        Ghost(|s: MetricSample<P>| sample_matches(s, *query)),
    )
}

/// The aggregates that satisfy the query, in their stored order.
pub fn filter_aggregated<P>(metrics: Vec<AggregatedMetric<P>>, query: &AggregatedQuery) -> (r: Vec<
    AggregatedMetric<P>,
>)
    ensures
        r@ == metrics@.filter(|m: AggregatedMetric<P>| aggregate_matches(m, *query)),
{
    retain_matching(
        metrics,
        (|m: &AggregatedMetric<P>| -> (b: bool)
            ensures
                b == aggregate_matches(*m, *query),
            { matches_aggregated_query(m, query) }),
        Ghost(|m: AggregatedMetric<P>| aggregate_matches(m, *query)),
    )
}

/// The anomalies that satisfy the filter, in stored order, cut to its limit.
pub fn select_anomalies<P>(store: Vec<Anomaly<P>>, filter: &AnomalyFilter) -> (r: Vec<Anomaly<P>>)
    ensures
        r@ == limited(store@.filter(|a: Anomaly<P>| anomaly_matches(a, *filter)), filter.limit),
{
    let mut kept = retain_matching(
        store,
        (|a: &Anomaly<P>| -> (b: bool)
            ensures
                b == anomaly_matches(*a, *filter),
            { matches_anomaly_filter(a, filter) }),
        Ghost(|a: Anomaly<P>| anomaly_matches(a, *filter)),
    );
    if let Some(limit) = filter.limit {
        kept.truncate(limit as usize);
    }
    kept
}

/// The recommendations that satisfy the filter, in stored order, cut to its limit.
pub fn select_recommendations<P>(store: Vec<Recommendation<P>>, filter: &RecommendationFilter) -> (r:
    Vec<Recommendation<P>>)
    ensures
        r@ == limited(
            store@.filter(|x: Recommendation<P>| recommendation_matches(x, *filter)),
            filter.limit,
        ),
{
    let mut kept = retain_matching(
        store,
        (|x: &Recommendation<P>| -> (b: bool)
            ensures
                b == recommendation_matches(*x, *filter),
            { matches_recommendation_filter(x, filter) }),
        Ghost(|x: Recommendation<P>| recommendation_matches(x, *filter)),
    );
    if let Some(limit) = filter.limit {
        kept.truncate(limit as usize);
    }
    kept
}

/// Selecting raw samples keeps exactly the samples that meet every
/// constraint the query sets: the cluster it names, the resource type it
/// names, one of the resource ids it lists (when it lists any), one of the
/// metric types it lists (when it lists any) and a timestamp inside its time
/// range; nothing else is kept, and nothing is made up.
pub proof fn lemma_metrics_selection<P>(samples: Seq<MetricSample<P>>, q: MetricsQuery)
    ensures
        ({
            let out = samples.filter(|s: MetricSample<P>| sample_matches(s, q));
            &&& out.len() <= samples.len()
            &&& forall|i: int|
                #![trigger out[i]]
                0 <= i < out.len() ==> {
                    &&& samples.contains(out[i])
                    &&& (q.cluster_id matches Some(id) ==> out[i].cluster_id@ == id@)
                    &&& (q.resource_type matches Some(t) ==> out[i].resource_type == t)
                    &&& (q.resource_ids@.len() > 0 ==> exists|j: int|
                        0 <= j < q.resource_ids@.len() && #[trigger] q.resource_ids@[j]@ == out[i].resource_id@)
                    &&& (q.metric_types@.len() > 0 ==> q.metric_types@.contains(out[i].metric_type))
                    &&& (q.time_range matches Some(r) ==> r.start_ms <= out[i].timestamp <= r.end_ms)
                }
            &&& forall|i: int|
                #![trigger samples[i]]
                0 <= i < samples.len() && (q.cluster_id matches Some(id) ==> samples[i].cluster_id@ == id@)
                    && (q.resource_type matches Some(t) ==> samples[i].resource_type == t) && (q.resource_ids@.len()
                    == 0 || exists|j: int|
                    0 <= j < q.resource_ids@.len() && #[trigger] q.resource_ids@[j]@ == samples[i].resource_id@)
                    && (q.metric_types@.len() == 0 || q.metric_types@.contains(samples[i].metric_type))
                    && (q.time_range matches Some(r) ==> r.start_ms <= samples[i].timestamp <= r.end_ms)
                    ==> out.contains(samples[i])
        }),
{
    broadcast use vstd::seq_lib::group_filter_ensures;
    let pred = |s: MetricSample<P>| sample_matches(s, q);
    let out = samples.filter(pred);
    assert forall|i: int| 0 <= i < out.len() implies samples.contains(out[i]) by {
        assert(out.contains(out[i]));
        samples.lemma_filter_contains_rev(pred, out[i]);
    }
}

/// Selecting aggregates keeps exactly the aggregates that meet every
/// constraint the query sets: the cluster it names, the resource type it
/// names, one of the metric types it lists (when it lists any) and a window
/// start inside its time range; nothing else is kept.
pub proof fn lemma_aggregate_selection<P>(metrics: Seq<AggregatedMetric<P>>, q: AggregatedQuery)
    ensures
        ({
            let out = metrics.filter(|m: AggregatedMetric<P>| aggregate_matches(m, q));
            &&& out.len() <= metrics.len()
            &&& forall|i: int|
                #![trigger out[i]]
                0 <= i < out.len() ==> {
                    &&& metrics.contains(out[i])
                    &&& (q.cluster_id matches Some(id) ==> out[i].cluster_id@ == id@)
                    &&& (q.resource_type matches Some(t) ==> out[i].resource_type == t)
                    &&& (q.metric_types@.len() > 0 ==> q.metric_types@.contains(out[i].metric_type))
                    &&& (q.time_range matches Some(r) ==> r.start_ms <= out[i].window_start <= r.end_ms)
                }
            &&& forall|i: int|
                #![trigger metrics[i]]
                0 <= i < metrics.len() && (q.cluster_id matches Some(id) ==> metrics[i].cluster_id@ == id@)
                    && (q.resource_type matches Some(t) ==> metrics[i].resource_type == t) && (q.metric_types@.len()
                    == 0 || q.metric_types@.contains(metrics[i].metric_type)) && (q.time_range matches Some(r)
                    ==> r.start_ms <= metrics[i].window_start <= r.end_ms) ==> out.contains(metrics[i])
        }),
{
    broadcast use vstd::seq_lib::group_filter_ensures;
    let pred = |m: AggregatedMetric<P>| aggregate_matches(m, q);
    let out = metrics.filter(pred);
    assert forall|i: int| 0 <= i < out.len() implies metrics.contains(out[i]) by {
        assert(out.contains(out[i]));
        metrics.lemma_filter_contains_rev(pred, out[i]);
    }
}

/// The first `limit` items of a sequence are items of it, and there are at
/// most `limit` of them; without a limit, or below it, all are kept.
proof fn lemma_limited<T>(s: Seq<T>, limit: Option<u32>)
    ensures
        forall|i: int| 0 <= i < limited(s, limit).len() ==> #[trigger] limited(s, limit)[i] == s[i],
        limited(s, limit).len() <= s.len(),
        limit matches Some(l) ==> limited(s, limit).len() <= l,
        (limit matches Some(l) ==> s.len() <= l) ==> limited(s, limit) == s,
{
}

/// Selecting anomalies keeps, in stored order and up to the filter's limit,
/// only anomalies that meet every constraint the filter sets: the cluster
/// and resource it names, its metric type and severity, and a detection
/// time inside its time range. Up to the limit, every such anomaly is kept.
pub proof fn lemma_anomaly_selection<P>(store: Seq<Anomaly<P>>, f: AnomalyFilter)
    ensures
        ({
            let all = store.filter(|a: Anomaly<P>| anomaly_matches(a, f));
            let out = limited(all, f.limit);
            &&& f.limit matches Some(l) ==> out.len() <= l
            &&& forall|i: int|
                #![trigger out[i]]
                0 <= i < out.len() ==> {
                    &&& store.contains(out[i])
                    &&& (f.cluster_id matches Some(id) ==> out[i].cluster_id@ == id@)
                    &&& (f.resource_id matches Some(id) ==> out[i].resource_id@ == id@)
                    &&& (f.metric_type matches Some(t) ==> out[i].metric_type == t)
                    &&& (f.severity matches Some(s) ==> out[i].severity == s)
                    &&& (f.time_range matches Some(r) ==> r.start_ms <= out[i].detected_at <= r.end_ms)
                }
            &&& (f.limit matches Some(l) ==> all.len() <= l) ==> forall|i: int|
                #![trigger store[i]]
                0 <= i < store.len() && (f.cluster_id matches Some(id) ==> store[i].cluster_id@ == id@)
                    && (f.resource_id matches Some(id) ==> store[i].resource_id@ == id@) && (f.metric_type matches Some(
                    t,
                ) ==> store[i].metric_type == t) && (f.severity matches Some(s) ==> store[i].severity == s) && (
                f.time_range matches Some(r) ==> r.start_ms <= store[i].detected_at <= r.end_ms)
                    ==> out.contains(store[i])
        }),
{
    broadcast use vstd::seq_lib::group_filter_ensures;
    let pred = |a: Anomaly<P>| anomaly_matches(a, f);
    let all = store.filter(pred);
    lemma_limited(all, f.limit);
    let out = limited(all, f.limit);
    assert forall|i: int| 0 <= i < out.len() implies store.contains(out[i]) by {
        assert(out[i] == all[i]);
        assert(all.contains(all[i]));
        store.lemma_filter_contains_rev(pred, all[i]);
    }
}

/// Selecting recommendations keeps, in stored order and up to the filter's
/// limit, only recommendations that meet every constraint the filter sets:
/// the cluster it names, its priority and the kind of its status. Up to the
/// limit, every such recommendation is kept.
pub proof fn lemma_recommendation_selection<P>(store: Seq<Recommendation<P>>, f: RecommendationFilter)
    ensures
        ({
            let all = store.filter(|x: Recommendation<P>| recommendation_matches(x, f));
            let out = limited(all, f.limit);
            &&& f.limit matches Some(l) ==> out.len() <= l
            &&& forall|i: int|
                #![trigger out[i]]
                0 <= i < out.len() ==> {
                    &&& store.contains(out[i])
                    &&& (f.cluster_id matches Some(id) ==> out[i].cluster_id@ == id@)
                    &&& (f.priority matches Some(p) ==> out[i].priority == p)
                    &&& (f.status matches Some(k) ==> status_kind(out[i].status) == k)
                }
            &&& (f.limit matches Some(l) ==> all.len() <= l) ==> forall|i: int|
                #![trigger store[i]]
                0 <= i < store.len() && (f.cluster_id matches Some(id) ==> store[i].cluster_id@ == id@)
                    && (f.priority matches Some(p) ==> store[i].priority == p) && (f.status matches Some(k)
                    ==> status_kind(store[i].status) == k) ==> out.contains(store[i])
        }),
{
    broadcast use vstd::seq_lib::group_filter_ensures;
    let pred = |x: Recommendation<P>| recommendation_matches(x, f);
    let all = store.filter(pred);
    lemma_limited(all, f.limit);
    let out = limited(all, f.limit);
    assert forall|i: int| 0 <= i < out.len() implies store.contains(out[i]) by {
        assert(out[i] == all[i]);
        assert(all.contains(all[i]));
        store.lemma_filter_contains_rev(pred, all[i]);
    }
}

} // verus!
