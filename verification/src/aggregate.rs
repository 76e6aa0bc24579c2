//! Bucketing of raw samples into aggregation windows.
//!
//! Samples are grouped by cluster, resource type, metric type and the
//! start of the window their timestamp falls in. The statistics of each
//! group are computed over its readings by the caller.

use crate::domain::{MetricSample, MetricType, ResourceType};
use vstd::prelude::*;

verus! {

/// Stateless aggregation engine.
#[derive(Debug, Clone, Copy, Default)]
pub struct Aggregator;

impl Aggregator {
    pub fn new() -> (a: Self) {
        Aggregator
    }
}

/// Integer division rounding toward zero, as machine division does.
pub open spec fn trunc_div(a: int, b: int) -> int {
    if a >= 0 {
        a / b
    } else {
        -((-a) / b)
    }
}

/// Start (epoch milliseconds) of the window of `window_secs` seconds that
/// holds `timestamp`: the timestamp is cut to whole seconds and then to a
/// whole number of windows, both rounding toward zero.
pub open spec fn window_start_of(timestamp: i64, window_secs: int) -> int {
    trunc_div(trunc_div(timestamp as int, 1000), window_secs) * window_secs * 1000
}

/// The grouping key of a sample.
pub open spec fn sample_key<P>(s: MetricSample<P>, window_secs: int) -> (Seq<char>, ResourceType, MetricType, int) {
    (s.cluster_id@, s.resource_type, s.metric_type, window_start_of(s.timestamp, window_secs))
}

/// The samples of one window of one series.
#[derive(Debug, Clone)]
pub struct WindowGroup<P> {
    pub cluster_id: String,
    pub resource_type: ResourceType,
    pub metric_type: MetricType,
    pub window_start: i64,
    pub readings: Vec<P>,
}

/// The grouping key of a group.
pub open spec fn group_key<P>(g: WindowGroup<P>) -> (Seq<char>, ResourceType, MetricType, int) {
    (g.cluster_id@, g.resource_type, g.metric_type, g.window_start as int)
}

/// The readings of the samples with key `key`, in input order.
pub open spec fn readings_of<P>(
    samples: Seq<MetricSample<P>>,
    key: (Seq<char>, ResourceType, MetricType, int),
    window_secs: int,
) -> Seq<P> {
    samples.filter(|s: MetricSample<P>| sample_key(s, window_secs) == key).map_values(
        |s: MetricSample<P>| s.reading,
    )
}

/// `groups` partitions `samples` by key: one group per key that occurs,
/// holding exactly the readings with that key, in input order.
pub open spec fn partitions<P>(groups: Seq<WindowGroup<P>>, samples: Seq<MetricSample<P>>, window_secs: int) -> bool {
    &&& forall|i: int, j: int|
        0 <= i < groups.len() && 0 <= j < groups.len() && i != j ==> group_key(#[trigger] groups[i])
            != group_key(#[trigger] groups[j])
    &&& forall|i: int|
        0 <= i < groups.len() ==> (#[trigger] groups[i]).readings@ == readings_of(
            samples,
            group_key(groups[i]),
            window_secs,
        )
    &&& forall|i: int|
        #![trigger groups[i]]
        0 <= i < groups.len() ==> exists|k: int|
            0 <= k < samples.len() && #[trigger] sample_key(samples[k], window_secs) == group_key(
                groups[i],
            )
    &&& forall|k: int|
        #![trigger samples[k]]
        0 <= k < samples.len() ==> exists|i: int|
            0 <= i < groups.len() && group_key(#[trigger] groups[i]) == sample_key(
                samples[k],
                window_secs,
            )
}

fn window_start(timestamp: i64, window_secs: i64) -> (w: i64)
    requires
        window_secs > 0,
    ensures
        w == window_start_of(timestamp, window_secs as int),
{
    let ts_sec = timestamp / 1000;
    let q = ts_sec / window_secs;
    proof {
        let t = timestamp as int;
        let s = ts_sec as int;
        let ws = window_secs as int;
        assert(s == trunc_div(t, 1000));
        assert(q == trunc_div(s, ws));
        lemma_window_bounds(t, s, q as int, ws);
    }
    let start_sec = q * window_secs;
    start_sec * 1000
}

proof fn lemma_window_bounds(t: int, s: int, q: int, ws: int)
    requires
        s == trunc_div(t, 1000),
        q == trunc_div(s, ws),
        ws > 0,
        -9223372036854775808 <= t <= 9223372036854775807,
    ensures
        -9223372036854775 <= q * ws <= 9223372036854775,
        -9223372036854775808 <= q <= 9223372036854775807,
{
    assert(-9223372036854775 <= s <= 9223372036854775) by (nonlinear_arith)
        requires
            s == trunc_div(t, 1000),
            -9223372036854775808 <= t <= 9223372036854775807,
    {}
    assert(-9223372036854775 <= q * ws <= 9223372036854775 && (s >= 0 ==> 0 <= q <= s) && (s < 0 ==> s <= q <= 0)) by (nonlinear_arith)
        requires
            q == trunc_div(s, ws),
            ws > 0,
            -9223372036854775 <= s <= 9223372036854775,
    {
        if s >= 0 {
            assert(q == s / ws);
            assert(q * ws <= s);
            assert(q >= 0);
        } else {
            assert(q == -((-s) / ws));
            assert(((-s) / ws) * ws <= -s);
            assert((-s) / ws >= 0);
        }
    }
}

fn same_key<P>(g: &WindowGroup<P>, s: &MetricSample<P>, start: i64) -> (b: bool)
    ensures
        b == (group_key(*g) == (s.cluster_id@, s.resource_type, s.metric_type, start as int)),
{
    g.cluster_id == s.cluster_id && g.resource_type == s.resource_type && g.metric_type
        == s.metric_type && g.window_start == start
}

fn find_group<P>(groups: &Vec<WindowGroup<P>>, s: &MetricSample<P>, start: i64) -> (r: Option<usize>)
    ensures
        match r {
            Some(g) => g < groups@.len() && group_key(groups@[g as int]) == (
                s.cluster_id@,
                s.resource_type,
                s.metric_type,
                start as int,
            ),
            None => forall|i: int|
                0 <= i < groups@.len() ==> group_key(#[trigger] groups@[i]) != (
                    s.cluster_id@,
                    s.resource_type,
                    s.metric_type,
                    start as int,
                ),
        },
{
    let mut g: usize = 0;
    while g < groups.len()
        invariant
            0 <= g <= groups.len(),
            forall|i: int|
                0 <= i < g ==> group_key(#[trigger] groups@[i]) != (
                    s.cluster_id@,
                    s.resource_type,
                    s.metric_type,
                    start as int,
                ),
        decreases groups.len() - g,
    {
        if same_key(&groups[g], s, start) {
            return Some(g);
        }
        g = g + 1;
    }
    None
}

fn add_sample<P: Copy>(
    groups: &mut Vec<WindowGroup<P>>,
    s: &MetricSample<P>,
    window_secs: i64,
    Ghost(pre): Ghost<Seq<MetricSample<P>>>,
)
    requires
        window_secs > 0,
        partitions(old(groups)@, pre, window_secs as int),
    ensures
        partitions(final(groups)@, pre.push(*s), window_secs as int),
{
    let ghost w = window_secs as int;
    let ghost before = groups@;
    let start = window_start(s.timestamp, window_secs);
    let found_at = find_group(&*groups, s, start);
    if let Some(g) = found_at {
        let reading = s.reading;
        groups[g].readings.push(reading);
        proof {
            lemma_extend_existing(before, groups@, pre, *s, w, g as int);
        }
    } else {
        let mut readings: Vec<P> = Vec::new();
        readings.push(s.reading);
        groups.push(
            WindowGroup {
                cluster_id: s.cluster_id.clone(),
                resource_type: s.resource_type,
                metric_type: s.metric_type,
                window_start: start,
                readings,
            },
        );
        proof {
            assert(groups@[before.len() as int].readings@ =~= seq![s.reading]);
            lemma_extend_new(before, groups@, pre, *s, w);
        }
    }
}

proof fn lemma_extend_existing<P>(
    before: Seq<WindowGroup<P>>,
    after: Seq<WindowGroup<P>>,
    pre: Seq<MetricSample<P>>,
    s: MetricSample<P>,
    w: int,
    g: int,
)
    requires
        partitions(before, pre, w),
        0 <= g < before.len(),
        group_key(before[g]) == sample_key(s, w),
        after.len() == before.len(),
        forall|i: int| 0 <= i < after.len() && i != g ==> #[trigger] after[i] == before[i],
        group_key(after[g]) == group_key(before[g]),
        after[g].readings@ == before[g].readings@.push(s.reading),
    ensures
        partitions(after, pre.push(s), w),
{
    let post = pre.push(s);
    lemma_readings_push(pre, s, w);
    assert forall|i: int| 0 <= i < after.len() implies group_key(#[trigger] after[i]) == group_key(before[i]) by {}
    assert forall|i: int| 0 <= i < after.len() implies (#[trigger] after[i]).readings@ == readings_of(
        post,
        group_key(after[i]),
        w,
    ) by {
        assert(group_key(after[i]) == group_key(before[i]));
        assert(before[i].readings@ == readings_of(pre, group_key(before[i]), w));
    }
    assert forall|i: int| #![trigger after[i]] 0 <= i < after.len() implies exists|k: int|
        0 <= k < post.len() && #[trigger] sample_key(post[k], w) == group_key(after[i]) by {
        assert(group_key(after[i]) == group_key(before[i]));
        assert(before[i] == before[i]);
        let k = choose|k: int| 0 <= k < pre.len() && #[trigger] sample_key(pre[k], w) == group_key(before[i]);
        assert(post[k] == pre[k]);
    }
    assert forall|k: int| #![trigger post[k]] 0 <= k < post.len() implies exists|i: int|
        0 <= i < after.len() && group_key(#[trigger] after[i]) == sample_key(post[k], w) by {
        if k < pre.len() {
            assert(post[k] == pre[k]);
            assert(pre[k] == pre[k]);
            let i = choose|i: int| 0 <= i < before.len() && group_key(#[trigger] before[i]) == sample_key(pre[k], w);
            assert(group_key(after[i]) == group_key(before[i]));
        } else {
            assert(group_key(after[g]) == sample_key(post[k], w));
        }
    }
    assert forall|i: int, j: int|
        0 <= i < after.len() && 0 <= j < after.len() && i != j implies group_key(#[trigger] after[i])
        != group_key(#[trigger] after[j]) by {
        assert(group_key(after[i]) == group_key(before[i]));
        assert(group_key(after[j]) == group_key(before[j]));
        assert(group_key(before[i]) != group_key(before[j]));
    }
}

proof fn lemma_extend_new<P>(
    before: Seq<WindowGroup<P>>,
    after: Seq<WindowGroup<P>>,
    pre: Seq<MetricSample<P>>,
    s: MetricSample<P>,
    w: int,
)
    requires
        partitions(before, pre, w),
        forall|i: int| 0 <= i < before.len() ==> group_key(#[trigger] before[i]) != sample_key(s, w),
        after.len() == before.len() + 1,
        forall|i: int| 0 <= i < before.len() ==> #[trigger] after[i] == before[i],
        group_key(after[before.len() as int]) == sample_key(s, w),
        after[before.len() as int].readings@ == seq![s.reading],
    ensures
        partitions(after, pre.push(s), w),
{
    let post = pre.push(s);
    let last = before.len() as int;
    let key = sample_key(s, w);
    lemma_readings_push(pre, s, w);
    assert(readings_of(pre, key, w) =~= Seq::<P>::empty()) by {
        let f = |x: MetricSample<P>| sample_key(x, w) == key;
        if pre.filter(f).len() > 0 {
            broadcast use vstd::seq_lib::group_filter_ensures;
            assert(f(pre.filter(f)[0]));
            assert(pre.filter(f).contains(pre.filter(f)[0]));
            pre.lemma_filter_contains_rev(f, pre.filter(f)[0]);
            let k = choose|k: int| 0 <= k < pre.len() && pre[k] == pre.filter(f)[0];
            assert(pre[k] == pre[k]);
            let i = choose|i: int| 0 <= i < before.len() && group_key(#[trigger] before[i]) == sample_key(pre[k], w);
        }
    }
    assert forall|i: int, j: int|
        0 <= i < after.len() && 0 <= j < after.len() && i != j implies group_key(#[trigger] after[i])
        != group_key(#[trigger] after[j]) by {
        if i < last && j < last {
            assert(after[i] == before[i] && after[j] == before[j]);
        } else if i < last {
            assert(after[i] == before[i]);
        } else {
            assert(after[j] == before[j]);
        }
    }
    assert forall|i: int| 0 <= i < after.len() implies (#[trigger] after[i]).readings@ == readings_of(
        post,
        group_key(after[i]),
        w,
    ) by {
        if i < last {
            assert(after[i] == before[i]);
            assert(before[i].readings@ == readings_of(pre, group_key(before[i]), w));
        } else {
            assert(readings_of(pre, key, w).push(s.reading) =~= seq![s.reading]);
        }
    }
    assert forall|i: int| #![trigger after[i]] 0 <= i < after.len() implies exists|k: int|
        0 <= k < post.len() && #[trigger] sample_key(post[k], w) == group_key(after[i]) by {
        if i < last {
            assert(after[i] == before[i]);
            assert(before[i] == before[i]);
            let k = choose|k: int| 0 <= k < pre.len() && #[trigger] sample_key(pre[k], w) == group_key(before[i]);
            assert(post[k] == pre[k]);
        } else {
            assert(sample_key(post[pre.len() as int], w) == key);
        }
    }
    assert forall|k: int| #![trigger post[k]] 0 <= k < post.len() implies exists|i: int|
        0 <= i < after.len() && group_key(#[trigger] after[i]) == sample_key(post[k], w) by {
        if k < pre.len() {
            assert(post[k] == pre[k]);
            assert(pre[k] == pre[k]);
            let i = choose|i: int| 0 <= i < before.len() && group_key(#[trigger] before[i]) == sample_key(pre[k], w);
            assert(after[i] == before[i]);
        } else {
            assert(group_key(after[last]) == sample_key(post[k], w));
        }
    }
}

proof fn lemma_readings_push<P>(pre: Seq<MetricSample<P>>, s: MetricSample<P>, w: int)
    ensures
        forall|kk: (Seq<char>, ResourceType, MetricType, int)|
            #![trigger readings_of(pre.push(s), kk, w)]
            readings_of(pre.push(s), kk, w) == if kk == sample_key(s, w) {
                readings_of(pre, kk, w).push(s.reading)
            } else {
                readings_of(pre, kk, w)
            },
{
    assert forall|kk: (Seq<char>, ResourceType, MetricType, int)|
        #![trigger readings_of(pre.push(s), kk, w)]
        readings_of(pre.push(s), kk, w) == if kk == sample_key(s, w) {
            readings_of(pre, kk, w).push(s.reading)
        } else {
            readings_of(pre, kk, w)
        } by {
        let f = |x: MetricSample<P>| sample_key(x, w) == kk;
        pre.lemma_filter_push(s, f);
        if kk == sample_key(s, w) {
            assert(pre.filter(f).push(s).map_values(|x: MetricSample<P>| x.reading)
                =~= pre.filter(f).map_values(|x: MetricSample<P>| x.reading).push(s.reading));
        }
    }
}

/// Groups samples by cluster, resource type, metric type and the window of
/// `window_duration_ms` (cut to whole seconds) their timestamp falls in. A
/// window shorter than one second yields no groups.
pub fn group_by_window<P: Copy>(samples: &Vec<MetricSample<P>>, window_duration_ms: u64) -> (r: Vec<
    WindowGroup<P>,
>)
    ensures
        window_duration_ms < 1000 ==> r@.len() == 0,
        window_duration_ms >= 1000 ==> partitions(r@, samples@, (window_duration_ms / 1000) as int),
{
    let window_secs_u = window_duration_ms / 1000;
    if window_secs_u == 0 {
        return Vec::new();
    }
    let window_secs = window_secs_u as i64;
    let ghost w = window_secs as int;
    let ghost all = samples@;
    let mut groups: Vec<WindowGroup<P>> = Vec::new();
    let mut n: usize = 0;
    while n < samples.len()
        invariant
            0 <= n <= samples.len(),
            all == samples@,
            w == window_secs as int,
            window_secs > 0,
            w == (window_duration_ms / 1000) as int,
            partitions(groups@, all.take(n as int), w),
        decreases samples.len() - n,
    {
        proof {
            assert(all.take(n + 1) =~= all.take(n as int).push(all[n as int]));
        }
        add_sample(&mut groups, &samples[n], window_secs, Ghost(all.take(n as int)));
        n = n + 1;
    }
    proof {
        assert(all.take(samples.len() as int) =~= all);
    }
    groups
}

/// For a timestamp at or after the epoch, its window is the whole multiple
/// of the window length (in milliseconds) that it falls into: the window
/// starts at or before the timestamp, less than one window length before
/// it, at a multiple of the length.
pub proof fn lemma_window_start_of(timestamp: i64, window_secs: int)
    requires
        timestamp >= 0,
        window_secs > 0,
    ensures
        0 <= window_start_of(timestamp, window_secs) <= timestamp,
        timestamp < window_start_of(timestamp, window_secs) + window_secs * 1000,
        window_start_of(timestamp, window_secs) % (window_secs * 1000) == 0,
{
    let t = timestamp as int;
    let q = t / 1000;
    let r = q / window_secs;
    assert(trunc_div(t, 1000) == q);
    assert(q >= 0);
    assert(trunc_div(q, window_secs) == r);
    let ws = r * window_secs * 1000;
    assert(window_start_of(timestamp, window_secs) == ws);
    assert(q * 1000 <= t < q * 1000 + 1000);
    assert(r * window_secs <= q < r * window_secs + window_secs) by (nonlinear_arith)
        requires
            r == q / window_secs,
            window_secs > 0,
            q >= 0,
    {
        vstd::arithmetic::div_mod::lemma_fundamental_div_mod(q, window_secs);
    }
    assert(0 <= ws <= t < ws + window_secs * 1000) by (nonlinear_arith)
        requires
            ws == r * window_secs * 1000,
            r * window_secs <= q,
            q < r * window_secs + window_secs,
            q * 1000 <= t,
            t < q * 1000 + 1000,
            r >= 0,
            window_secs > 0,
    ;
    assert(ws == r * (window_secs * 1000)) by (nonlinear_arith)
        requires
            ws == r * window_secs * 1000,
    ;
    vstd::arithmetic::div_mod::lemma_mod_multiples_basic(r, window_secs * 1000);
}

} // verus!
