//! Time series of one resource and metric, as the analytics service
//! answers them.

use crate::domain::{MetricSample, MetricType, MetricsQuery, TimeRange};
use vstd::prelude::*;

verus! {

/// One point of a time series; `value` carries the measured reading.
#[derive(Debug, Clone, Copy)]
pub struct TimeSeriesPoint<P> {
    pub timestamp: i64,
    pub value: P,
}

/// The readings of one resource and metric over time.
#[derive(Debug, Clone)]
pub struct TimeSeries<P> {
    pub cluster_id: String,
    pub resource_id: String,
    pub metric_type: MetricType,
    pub unit: String,
    pub points: Vec<TimeSeriesPoint<P>>,
}

/// The points stamped `t`.
pub open spec fn at_time<P>(t: i64) -> spec_fn(TimeSeriesPoint<P>) -> bool {
    |p: TimeSeriesPoint<P>| p.timestamp == t
}

/// Points in non-decreasing time order.
pub open spec fn time_ordered<P>(s: Seq<TimeSeriesPoint<P>>) -> bool {
    forall|i: int, j: int| 0 <= i < j < s.len() ==> s[i].timestamp <= s[j].timestamp
}

/// `out` is `inp` sorted by time, points with equal timestamps keeping their
/// relative order.
pub open spec fn stable_time_sort<P>(out: Seq<TimeSeriesPoint<P>>, inp: Seq<TimeSeriesPoint<P>>) -> bool {
    &&& out.len() == inp.len()
    &&& time_ordered(out)
    &&& forall|t: i64| #[trigger] out.filter(at_time(t)) == inp.filter(at_time(t))
}

/// The points of the samples, in sample order.
pub open spec fn sample_points<P>(samples: Seq<MetricSample<P>>) -> Seq<TimeSeriesPoint<P>> {
    samples.map_values(|s: MetricSample<P>| TimeSeriesPoint { timestamp: s.timestamp, value: s.reading })
}

/// The query that selects the samples of one resource and metric within a range.
pub fn time_series_query(resource_id: String, metric_type: MetricType, range: TimeRange) -> (q: MetricsQuery)
    ensures
        q.cluster_id.is_none(),
        q.resource_type.is_none(),
        q.resource_ids@.len() == 1 && q.resource_ids@[0]@ == resource_id@,
        q.metric_types@ == seq![metric_type],
        q.time_range == Some(range),
{
    MetricsQuery {
        cluster_id: None,
        resource_type: None,
        resource_ids: vec![resource_id],
        metric_types: vec![metric_type],
        time_range: Some(range),
    }
}

proof fn lemma_insert_keeps_groups<P>(
    out: Seq<TimeSeriesPoint<P>>,
    x: TimeSeriesPoint<P>,
    p: int,
    t: i64,
)
    requires
        0 <= p <= out.len(),
        forall|i: int| p <= i < out.len() ==> out[i].timestamp > x.timestamp,
    ensures
        out.insert(p, x).filter(at_time(t)) == if x.timestamp == t {
            out.filter(at_time(t)).push(x)
        } else {
            out.filter(at_time(t))
        },
{
    let pred = at_time::<P>(t);
    let a = out.take(p);
    let b = out.skip(p);
    assert(out.insert(p, x) =~= a + seq![x] + b);
    assert(out =~= a + b);
    Seq::filter_distributes_over_add(a + seq![x], b, pred);
    Seq::filter_distributes_over_add(a, seq![x], pred);
    Seq::filter_distributes_over_add(a, b, pred);
    reveal_with_fuel(Seq::filter, 2);
    assert(seq![x].drop_last() =~= Seq::<TimeSeriesPoint<P>>::empty());
    if x.timestamp == t {
        assert(b.all(|y: TimeSeriesPoint<P>| !pred(y)));
        b.lemma_all_neg_filter_empty(pred);
        assert(b.filter(pred) =~= Seq::<TimeSeriesPoint<P>>::empty());
        assert(a.filter(pred) + seq![x] =~= (a.filter(pred) + b.filter(pred)).push(x));
    } else {
        assert(seq![x].filter(pred) =~= Seq::<TimeSeriesPoint<P>>::empty());
        assert(a.filter(pred) + seq![x].filter(pred) =~= a.filter(pred));
    }
}

/// The points of `samples` sorted by time; points with equal timestamps
/// keep the order of their samples.
pub fn series_points<P: Copy>(samples: &Vec<MetricSample<P>>) -> (pts: Vec<TimeSeriesPoint<P>>)
    ensures
        stable_time_sort(pts@, sample_points(samples@)),
{
    let ghost inp = sample_points(samples@);
    let mut out: Vec<TimeSeriesPoint<P>> = Vec::new();
    let mut k: usize = 0;
    proof {
        assert forall|t: i64| #[trigger] out@.filter(at_time(t)) == inp.take(0).filter(at_time(t)) by {
            assert(out@ =~= inp.take(0));
        }
    }
    while k < samples.len()
        invariant
            0 <= k <= samples.len(),
            inp == sample_points(samples@),
            out@.len() == k,
            time_ordered(out@),
            forall|t: i64| #[trigger] out@.filter(at_time(t)) == inp.take(k as int).filter(at_time(t)),
        decreases samples.len() - k,
    {
        let x = TimeSeriesPoint { timestamp: samples[k].timestamp, value: samples[k].reading };
        assert(x == inp[k as int]);
        let mut p: usize = 0;
        while p < out.len() && out[p].timestamp <= x.timestamp
            invariant
                0 <= p <= out.len(),
                time_ordered(out@),
                forall|i: int| 0 <= i < p ==> out@[i].timestamp <= x.timestamp,
            decreases out.len() - p,
        {
            p = p + 1;
        }
        let ghost before = out@;
        proof {
            assert forall|i: int| p <= i < before.len() implies before[i].timestamp > x.timestamp by {
                if p < before.len() {
                    assert(before[p as int].timestamp > x.timestamp);
                    if i > p {
                        assert(before[p as int].timestamp <= before[i].timestamp);
                    }
                }
            }
        }
        out.insert(p, x);
        proof {
            assert(out@ == before.insert(p as int, x));
            assert(inp.take(k + 1) =~= inp.take(k as int).push(x));
            assert forall|t: i64| #[trigger] out@.filter(at_time(t)) == inp.take(k + 1).filter(
                at_time(t),
            ) by {
                lemma_insert_keeps_groups(before, x, p as int, t);
                inp.take(k as int).lemma_filter_push(x, at_time(t));
            }
            assert forall|i: int, j: int| 0 <= i < j < out@.len() implies out@[i].timestamp
                <= out@[j].timestamp by {
                if j < p {
                    assert(out@[i] == before[i] && out@[j] == before[j]);
                } else if j == p {
                    assert(out@[i] == before[i]);
                } else if i < p {
                    assert(out@[i] == before[i] && out@[j] == before[j - 1]);
                    if p < before.len() {
                        assert(before[p as int].timestamp > x.timestamp);
                    }
                } else if i == p {
                    assert(out@[j] == before[j - 1]);
                } else {
                    assert(out@[i] == before[i - 1] && out@[j] == before[j - 1]);
                }
            }
        }
        k = k + 1;
    }
    proof {
        assert(inp.take(samples.len() as int) =~= inp);
    }
    out
}

/// The time series of `resource_id` and `metric_type` made of `samples`:
/// their points sorted by time, and the cluster and unit of the first
/// sample (empty when there is none).
pub fn time_series<P: Copy>(samples: &Vec<MetricSample<P>>, resource_id: String, metric_type: MetricType) -> (ts: TimeSeries<P>)
    ensures
        ts.resource_id@ == resource_id@,
        ts.metric_type == metric_type,
        stable_time_sort(ts.points@, sample_points(samples@)),
        samples@.len() > 0 ==> ts.cluster_id@ == samples@[0].cluster_id@ && ts.unit@
            == samples@[0].unit@,
        samples@.len() == 0 ==> ts.cluster_id@.len() == 0 && ts.unit@.len() == 0,
{
    let points = series_points(samples);
    let (cluster_id, unit) = if samples.len() > 0 {
        (samples[0].cluster_id.clone(), samples[0].unit.clone())
    } else {
        (String::new(), String::new())
    };
    TimeSeries { cluster_id, resource_id, metric_type, unit, points }
}

} // verus!
