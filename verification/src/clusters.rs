//! Registry of managed clusters and the choice of metric sources to scrape.

use crate::domain::{ClusterHealth, ClusterMetadata, MetricSample, MetricType, MetricsQuery, ResourceType};
use vstd::prelude::*;

verus! {

/// The current UTC time in epoch milliseconds (`chrono::Utc::now` followed by
/// `timestamp_millis`). Nothing is stated of the value: it is the time of the call.
#[verifier::external_body]
pub(crate) fn utc_now_millis() -> i64 {
    chrono::Utc::now().timestamp_millis()
}

/// Two metadata records agree field by field.
pub open spec fn same_metadata(a: ClusterMetadata, b: ClusterMetadata) -> bool {
    &&& a.id@ == b.id@
    &&& a.name@ == b.name@
    &&& a.context@ == b.context@
    &&& a.api_server@ == b.api_server@
    &&& a.health_status == b.health_status
    &&& a.last_seen == b.last_seen
    &&& a.pod_count == b.pod_count
    &&& a.node_count == b.node_count
    &&& a.namespace_count == b.namespace_count
}

/// The record of a cluster registered under `context` at time `now`.
pub open spec fn registered(m: ClusterMetadata, context: Seq<char>, now: i64) -> bool {
    &&& m.id@ == context
    &&& m.name@ == context
    &&& m.context@ == context
    &&& m.api_server@.len() == 0
    &&& m.health_status == ClusterHealth::Healthy
    &&& m.last_seen == now
    &&& m.pod_count == 0
    &&& m.node_count == 0
    &&& m.namespace_count == 0
}

fn copy_metadata(m: &ClusterMetadata) -> (r: ClusterMetadata)
    ensures
        same_metadata(r, *m),
{
    ClusterMetadata {
        id: m.id.clone(),
        name: m.name.clone(),
        context: m.context.clone(),
        api_server: m.api_server.clone(),
        health_status: m.health_status,
        last_seen: m.last_seen,
        pod_count: m.pod_count,
        node_count: m.node_count,
        namespace_count: m.namespace_count,
    }
}

/// Position of the cluster with id `id`, if registered.
pub open spec fn cluster_position(s: Seq<ClusterMetadata>, id: Seq<char>) -> Option<int>
    decreases s.len(),
{
    if s.len() == 0 {
        None
    } else if s[0].id@ == id {
        Some(0)
    } else {
        match cluster_position(s.drop_first(), id) {
            Some(i) => Some(i + 1),
            None => None,
        }
    }
}

proof fn lemma_cluster_position(s: Seq<ClusterMetadata>, id: Seq<char>)
    ensures
        match cluster_position(s, id) {
            Some(i) => 0 <= i < s.len() && s[i].id@ == id && forall|k: int| 0 <= k < i ==> s[k].id@ != id,
            None => forall|k: int| 0 <= k < s.len() ==> s[k].id@ != id,
        },
    decreases s.len(),
{
    if s.len() > 0 {
        lemma_cluster_position(s.drop_first(), id);
        if s[0].id@ != id {
            match cluster_position(s.drop_first(), id) {
                Some(i) => {
                    assert forall|k: int| 0 <= k < i + 1 implies s[k].id@ != id by {
                        if k > 0 {
                            assert(s[k] == s.drop_first()[k - 1]);
                        }
                    }
                },
                None => {
                    assert forall|k: int| 0 <= k < s.len() implies s[k].id@ != id by {
                        if k > 0 {
                            assert(s[k] == s.drop_first()[k - 1]);
                        }
                    }
                },
            }
        }
    }
}

/// `after` is `before` with the cluster of `context` registered at `now`:
/// an existing record of that id is replaced in place, otherwise one record
/// is appended; every other record is kept.
pub open spec fn registers(before: Seq<ClusterMetadata>, after: Seq<ClusterMetadata>, context: Seq<char>, now: i64) -> bool {
    match cluster_position(before, context) {
        Some(i) => after.len() == before.len() && registered(after[i], context, now) && forall|k: int|
            0 <= k < before.len() && k != i ==> #[trigger] after[k] == before[k],
        None => after.len() == before.len() + 1 && registered(after[before.len() as int], context, now)
            && forall|k: int| 0 <= k < before.len() ==> #[trigger] after[k] == before[k],
    }
}

/// The registered clusters, one record per id.
pub struct ClusterManager {
    clusters: Vec<ClusterMetadata>,
}

impl View for ClusterManager {
    type V = Seq<ClusterMetadata>;

    closed spec fn view(&self) -> Seq<ClusterMetadata> {
        self.clusters@
    }
}

impl ClusterManager {
    pub closed spec fn wf(&self) -> bool {
        forall|i: int, j: int|
            0 <= i < self@.len() && 0 <= j < self@.len() && i != j ==> self@[i].id@ != self@[j].id@
    }

    pub fn new() -> (m: Self)
        ensures
            m.wf(),
            m@.len() == 0,
    {
        ClusterManager { clusters: Vec::new() }
    }

    fn position(&self, id: &String) -> (r: Option<usize>)
        ensures
            match r {
                Some(i) => cluster_position(self@, id@) == Some(i as int) && i < self@.len(),
                None => cluster_position(self@, id@).is_none(),
            },
    {
        proof { lemma_cluster_position(self@, id@); }
        let mut i: usize = 0;
        while i < self.clusters.len()
            invariant
                0 <= i <= self.clusters.len(),
                forall|k: int| 0 <= k < i ==> self@[k].id@ != id@,
            decreases self.clusters.len() - i,
        {
            if self.clusters[i].id == *id {
                proof {
                    lemma_cluster_position(self@, id@);
                    if let Some(p) = cluster_position(self@, id@) {
                        if p > i {
                            assert(self@[i as int].id@ != id@);
                        }
                    }
                }
                return Some(i);
            }
            i = i + 1;
        }
        None
    }

    /// Registers the cluster of kube context `context` at time `now`; its id is
    /// the context name. A cluster already registered under that id is
    /// replaced in place.
    pub fn add_cluster_at(&mut self, context: String, now: i64) -> (id: String)
        requires
            old(self).wf(),
        ensures
            final(self).wf(),
            id@ == context@,
            registers(old(self)@, final(self)@, context@, now),
    {
        let id = context.clone();
        let metadata = ClusterMetadata {
            id: id.clone(),
            name: context.clone(),
            context,
            api_server: String::new(),
            health_status: ClusterHealth::Healthy,
            last_seen: now,
            pod_count: 0,
            node_count: 0,
            namespace_count: 0,
        };
        proof { lemma_cluster_position(self@, id@); }
        match self.position(&id) {
            Some(i) => {
                self.clusters.set(i, metadata);
            },
            None => {
                self.clusters.push(metadata);
            },
        }
        id
    }

    /// Registers the cluster of kube context `context` now.
    pub fn add_cluster(&mut self, context: String) -> (id: String)
        requires
            old(self).wf(),
        ensures
            final(self).wf(),
            id@ == context@,
            exists|now: i64| #[trigger] registers(old(self)@, final(self)@, context@, now),
            final(self)@.len() == old(self)@.len() + (if cluster_position(old(self)@, context@) is None {
                1int
            } else {
                0int
            }),
            cluster_position(final(self)@, context@) matches Some(i) && exists|now: i64|
                #[trigger] registered(final(self)@[i], context@, now),
            forall|k: int|
                0 <= k < old(self)@.len() && old(self)@[k].id@ != context@ ==> #[trigger] final(self)@[k]
                    == old(self)@[k],
    {
        let now = utc_now_millis();
        let ghost before = self@;
        let id = self.add_cluster_at(context, now);
        proof {
            assert(registers(before, self@, context@, now));
            lemma_cluster_position(before, id@);
            lemma_cluster_position(self@, id@);
            match cluster_position(before, id@) {
                Some(i) => {
                    if let Some(p) = cluster_position(self@, id@) {
                        if p < i {
                            assert(self@[p] == before[p]);
                        }
                        if p > i {
                            assert(self@[i].id@ == id@);
                        }
                    }
                },
                None => {
                    let n = before.len() as int;
                    if let Some(p) = cluster_position(self@, id@) {
                        if p < n {
                            assert(self@[p] == before[p]);
                        }
                    } else {
                        assert(self@[n].id@ == id@);
                    }
                },
            }
        }
        id
    }

    /// Forgets the cluster with id `id`, if registered.
    pub fn remove_cluster(&mut self, id: &String)
        requires
            old(self).wf(),
        ensures
            final(self).wf(),
            final(self)@ == match cluster_position(old(self)@, id@) {
                Some(i) => old(self)@.remove(i),
                None => old(self)@,
            },
    {
        let ghost s = self@;
        match self.position(id) {
            Some(i) => {
                self.clusters.remove(i);
                proof {
                    assert forall|a: int| 0 <= a < self@.len() implies #[trigger] self@[a] == s[if a < i { a } else { a + 1 }] by {}
                }
            },
            None => {},
        }
    }

    /// Copies of the records of all registered clusters.
    pub fn list_clusters(&self) -> (r: Vec<ClusterMetadata>)
        ensures
            r@.len() == self@.len(),
            forall|k: int| 0 <= k < r@.len() ==> same_metadata(#[trigger] r@[k], self@[k]),
    {
        let mut r: Vec<ClusterMetadata> = Vec::new();
        let mut k: usize = 0;
        while k < self.clusters.len()
            invariant
                0 <= k <= self.clusters.len(),
                r@.len() == k,
                forall|j: int| 0 <= j < k ==> same_metadata(#[trigger] r@[j], self@[j]),
            decreases self.clusters.len() - k,
        {
            r.push(copy_metadata(&self.clusters[k]));
            k = k + 1;
        }
        r
    }

    /// The health recorded for cluster `id`; unreachable when it is not registered.
    pub fn get_cluster_health(&self, id: &String) -> (h: ClusterHealth)
        ensures
            h == match cluster_position(self@, id@) {
                Some(i) => self@[i].health_status,
                None => ClusterHealth::Unreachable,
            },
    {
        match self.position(id) {
            Some(i) => self.clusters[i].health_status,
            None => ClusterHealth::Unreachable,
        }
    }
}

/// Which metric endpoints a query needs: node metrics unless it asks for
/// another resource type, and likewise pod metrics.
pub fn metric_sources(query: &MetricsQuery) -> (r: (bool, bool))
    ensures
        r.0 == (query.resource_type.is_none() || query.resource_type == Some(ResourceType::Node)),
        r.1 == (query.resource_type.is_none() || query.resource_type == Some(ResourceType::Pod)),
{
    let nodes = match query.resource_type {
        None => true,
        Some(t) => t == ResourceType::Node,
    };
    let pods = match query.resource_type {
        None => true,
        Some(t) => t == ResourceType::Pod,
    };
    (nodes, pods)
}

/// The samples one collection round gathers: those of every cluster whose
/// query succeeded, in cluster order; a failed cluster contributes none.
pub open spec fn gathered<P>(results: Seq<(String, Result<Vec<MetricSample<P>>, String>)>) -> Seq<MetricSample<P>>
    decreases results.len(),
{
    if results.len() == 0 {
        Seq::empty()
    } else {
        gathered(results.drop_last()) + match results.last().1 {
            Ok(v) => v@,
            Err(_) => Seq::empty(),
        }
    }
}

/// Merges the per-cluster outcomes of one collection round.
pub fn collect_samples<P>(results: Vec<(String, Result<Vec<MetricSample<P>>, String>)>) -> (r: Vec<MetricSample<P>>)
    ensures
        r@ == gathered(results@),
{
    let ghost all = results@;
    let ghost mut done: Seq<(String, Result<Vec<MetricSample<P>>, String>)> = Seq::empty();
    let mut rest = results;
    let mut out: Vec<MetricSample<P>> = Vec::new();
    proof {
        assert(all =~= done + rest@);
    }
    while rest.len() > 0
        invariant
            all == done + rest@,
            out@ == gathered(done),
        decreases rest.len(),
    {
        let item = rest.remove(0);
        proof {
            assert(done.push(item) + rest@ =~= all);
            assert(done.push(item).drop_last() =~= done);
        }
        let ghost it = item;
        let (_, outcome) = item;
        match outcome {
            Ok(v) => {
                let mut v = v;
                out.append(&mut v);
            },
            Err(_) => {},
        }
        proof {
            done = done.push(it);
        }
    }
    proof {
        assert(done =~= all);
    }
    out
}

/// What the metrics API reports for one node: its name and, when it reports
/// usage, the CPU (cores) and memory (bytes) readings it gives.
#[derive(Debug, Clone)]
pub struct NodeUsage<P> {
    pub name: Option<String>,
    pub cpu: Option<P>,
    pub memory: Option<P>,
}

/// What the metrics API reports for one pod: its name and namespace and,
/// when it lists containers, the CPU (cores) and memory (bytes) summed over
/// them.
#[derive(Debug, Clone)]
pub struct PodUsage<P> {
    pub name: Option<String>,
    pub namespace: Option<String>,
    pub totals: Option<(P, P)>,
}

/// The abstract content of a sample.
pub open spec fn sample_view<P>(s: MetricSample<P>) -> (Seq<char>, ResourceType, Seq<char>, MetricType, i64, Seq<char>, P) {
    (s.cluster_id@, s.resource_type, s.resource_id@, s.metric_type, s.timestamp, s.unit@, s.reading)
}

/// The abstract content of a list of samples.
pub open spec fn samples_view<P>(v: Seq<MetricSample<P>>) -> Seq<(Seq<char>, ResourceType, Seq<char>, MetricType, i64, Seq<char>, P)> {
    v.map_values(|s: MetricSample<P>| sample_view(s))
}

/// A name, empty when absent.
pub open spec fn name_or_empty(n: Option<String>) -> Seq<char> {
    match n {
        Some(s) => s@,
        None => Seq::empty(),
    }
}

/// The samples of one node at `now`: a CPU sample in cores when it reports
/// CPU, then a memory sample in bytes when it reports memory.
pub open spec fn node_entries<P>(cluster: Seq<char>, n: NodeUsage<P>, now: i64) -> Seq<(Seq<char>, ResourceType, Seq<char>, MetricType, i64, Seq<char>, P)> {
    let id = name_or_empty(n.name);
    let cpu = match n.cpu {
        Some(v) => seq![(cluster, ResourceType::Node, id, MetricType::CpuUsage, now, "cores"@, v)],
        None => Seq::empty(),
    };
    let mem = match n.memory {
        Some(v) => seq![(cluster, ResourceType::Node, id, MetricType::MemoryUsage, now, "bytes"@, v)],
        None => Seq::empty(),
    };
    cpu + mem
}

/// The samples of all nodes, node by node.
pub open spec fn nodes_entries<P>(cluster: Seq<char>, nodes: Seq<NodeUsage<P>>, now: i64) -> Seq<(Seq<char>, ResourceType, Seq<char>, MetricType, i64, Seq<char>, P)>
    decreases nodes.len(),
{
    if nodes.len() == 0 {
        Seq::empty()
    } else {
        nodes_entries(cluster, nodes.drop_last(), now) + node_entries(cluster, nodes.last(), now)
    }
}

/// The samples of one pod at `now`, under the id `namespace/name`: CPU in
/// cores and memory in bytes when it lists containers, none otherwise.
pub open spec fn pod_entries<P>(cluster: Seq<char>, p: PodUsage<P>, now: i64) -> Seq<(Seq<char>, ResourceType, Seq<char>, MetricType, i64, Seq<char>, P)> {
    let id = name_or_empty(p.namespace) + "/"@ + name_or_empty(p.name);
    match p.totals {
        Some((cpu, mem)) => seq![
            (cluster, ResourceType::Pod, id, MetricType::CpuUsage, now, "cores"@, cpu),
            (cluster, ResourceType::Pod, id, MetricType::MemoryUsage, now, "bytes"@, mem),
        ],
        None => Seq::empty(),
    }
}

/// The samples of all pods, pod by pod.
pub open spec fn pods_entries<P>(cluster: Seq<char>, pods: Seq<PodUsage<P>>, now: i64) -> Seq<(Seq<char>, ResourceType, Seq<char>, MetricType, i64, Seq<char>, P)>
    decreases pods.len(),
{
    if pods.len() == 0 {
        Seq::empty()
    } else {
        pods_entries(cluster, pods.drop_last(), now) + pod_entries(cluster, pods.last(), now)
    }
}

fn name_of(n: &Option<String>) -> (s: String)
    ensures
        s@ == name_or_empty(*n),
{
    match n {
        Some(x) => x.clone(),
        None => String::new(),
    }
}

fn usage_sample<P: Copy>(
    cluster_id: &String,
    resource_type: ResourceType,
    resource_id: &String,
    metric_type: MetricType,
    now: i64,
    unit: &str,
    reading: P,
) -> (s: MetricSample<P>)
    ensures
        sample_view(s) == (cluster_id@, resource_type, resource_id@, metric_type, now, unit@, reading),
{
    MetricSample {
        cluster_id: cluster_id.clone(),
        resource_type,
        resource_id: resource_id.clone(),
        metric_type,
        timestamp: now,
        unit: unit.to_owned(),
        reading,
    }
}

/// The node usage samples of cluster `cluster_id` read at `now`.
pub fn node_samples<P: Copy>(cluster_id: &String, nodes: &Vec<NodeUsage<P>>, now: i64) -> (r: Vec<MetricSample<P>>)
    ensures
        samples_view(r@) == nodes_entries(cluster_id@, nodes@, now),
{
    let mut r: Vec<MetricSample<P>> = Vec::new();
    let mut i: usize = 0;
    proof {
        assert(samples_view(r@) =~= nodes_entries(cluster_id@, nodes@.take(0), now));
    }
    while i < nodes.len()
        invariant
            0 <= i <= nodes.len(),
            samples_view(r@) == nodes_entries(cluster_id@, nodes@.take(i as int), now),
        decreases nodes.len() - i,
    {
        proof {
            assert(nodes@.take(i + 1).drop_last() =~= nodes@.take(i as int));
            assert(nodes@.take(i + 1).last() == nodes@[i as int]);
        }
        let n = &nodes[i];
        let id = name_of(&n.name);
        let ghost base = samples_view(r@);
        proof {
            reveal_strlit("cores");
            reveal_strlit("bytes");
        }
        match n.cpu {
            Some(v) => {
                r.push(usage_sample(cluster_id, ResourceType::Node, &id, MetricType::CpuUsage, now, "cores", v));
            },
            None => {},
        }
        match n.memory {
            Some(v) => {
                r.push(usage_sample(cluster_id, ResourceType::Node, &id, MetricType::MemoryUsage, now, "bytes", v));
            },
            None => {},
        }
        proof {
            assert(samples_view(r@) =~= base + node_entries(cluster_id@, *n, now));
        }
        i = i + 1;
    }
    proof {
        assert(nodes@.take(nodes@.len() as int) =~= nodes@);
    }
    r
}

/// The pod usage samples of cluster `cluster_id` read at `now`.
pub fn pod_samples<P: Copy>(cluster_id: &String, pods: &Vec<PodUsage<P>>, now: i64) -> (r: Vec<MetricSample<P>>)
    ensures
        samples_view(r@) == pods_entries(cluster_id@, pods@, now),
{
    let mut r: Vec<MetricSample<P>> = Vec::new();
    let mut i: usize = 0;
    proof {
        assert(samples_view(r@) =~= pods_entries(cluster_id@, pods@.take(0), now));
    }
    while i < pods.len()
        invariant
            0 <= i <= pods.len(),
            samples_view(r@) == pods_entries(cluster_id@, pods@.take(i as int), now),
        decreases pods.len() - i,
    {
        proof {
            assert(pods@.take(i + 1).drop_last() =~= pods@.take(i as int));
            assert(pods@.take(i + 1).last() == pods@[i as int]);
        }
        let p = &pods[i];
        let ghost base = samples_view(r@);
        proof {
            reveal_strlit("cores");
            reveal_strlit("bytes");
            reveal_strlit("/");
        }
        match p.totals {
            Some((cpu, mem)) => {
                let mut id = name_of(&p.namespace);
                id.append("/");
                let name = name_of(&p.name);
                id.append(name.as_str());
                r.push(usage_sample(cluster_id, ResourceType::Pod, &id, MetricType::CpuUsage, now, "cores", cpu));
                r.push(usage_sample(cluster_id, ResourceType::Pod, &id, MetricType::MemoryUsage, now, "bytes", mem));
            },
            None => {},
        }
        proof {
            assert(samples_view(r@) =~= base + pod_entries(cluster_id@, *p, now));
        }
        i = i + 1;
    }
    proof {
        assert(pods@.take(pods@.len() as int) =~= pods@);
    }
    r
}

/// After registering a context, the registry answers for it: its health is
/// healthy and the record carries the context name.
pub proof fn lemma_added_cluster_is_healthy(before: Seq<ClusterMetadata>, after: Seq<ClusterMetadata>, context: Seq<char>, now: i64)
    requires
        registers(before, after, context, now),
    ensures
        cluster_position(after, context) matches Some(i) && after[i].health_status == ClusterHealth::Healthy
            && after[i].context@ == context,
{
    lemma_cluster_position(before, context);
    lemma_cluster_position(after, context);
    match cluster_position(before, context) {
        Some(i) => {
            if let Some(p) = cluster_position(after, context) {
                if p < i {
                    assert(after[p] == before[p]);
                }
                if p > i {
                    assert(after[i].id@ == context);
                }
            }
        },
        None => {
            let n = before.len() as int;
            if let Some(p) = cluster_position(after, context) {
                if p < n {
                    assert(after[p] == before[p]);
                }
            } else {
                assert(after[n].id@ == context);
            }
        },
    }
}

/// Every sample gathered from node metrics belongs to the cluster asked
/// about, describes a node, is stamped with the collection time, and is
/// either CPU usage in cores or memory usage in bytes.
pub proof fn lemma_node_samples_shape<P>(cluster: Seq<char>, nodes: Seq<NodeUsage<P>>, now: i64)
    ensures
        forall|i: int|
            #![trigger nodes_entries(cluster, nodes, now)[i]]
            0 <= i < nodes_entries(cluster, nodes, now).len() ==> {
                let e = nodes_entries(cluster, nodes, now)[i];
                &&& e.0 == cluster
                &&& e.1 == ResourceType::Node
                &&& e.4 == now
                &&& (e.3 == MetricType::CpuUsage && e.5 == "cores"@) || (e.3 == MetricType::MemoryUsage && e.5
                    == "bytes"@)
            },
        nodes_entries(cluster, nodes, now).len() <= 2 * nodes.len(),
    decreases nodes.len(),
{
    if nodes.len() > 0 {
        lemma_node_samples_shape(cluster, nodes.drop_last(), now);
        let prev = nodes_entries(cluster, nodes.drop_last(), now);
        let last = node_entries(cluster, nodes.last(), now);
        let all = nodes_entries(cluster, nodes, now);
        assert forall|i: int| 0 <= i < all.len() implies #[trigger] all[i] == if i < prev.len() {
            prev[i]
        } else {
            last[i - prev.len()]
        } by {}
    }
}

/// Every sample gathered from pod metrics belongs to the cluster asked
/// about, describes a pod, is stamped with the collection time, and is
/// either CPU usage in cores or memory usage in bytes; a pod gives both or
/// none.
pub proof fn lemma_pod_samples_shape<P>(cluster: Seq<char>, pods: Seq<PodUsage<P>>, now: i64)
    ensures
        forall|i: int|
            #![trigger pods_entries(cluster, pods, now)[i]]
            0 <= i < pods_entries(cluster, pods, now).len() ==> {
                let e = pods_entries(cluster, pods, now)[i];
                &&& e.0 == cluster
                &&& e.1 == ResourceType::Pod
                &&& e.4 == now
                &&& (e.3 == MetricType::CpuUsage && e.5 == "cores"@) || (e.3 == MetricType::MemoryUsage && e.5
                    == "bytes"@)
            },
        pods_entries(cluster, pods, now).len() % 2 == 0,
        pods_entries(cluster, pods, now).len() <= 2 * pods.len(),
    decreases pods.len(),
{
    if pods.len() > 0 {
        lemma_pod_samples_shape(cluster, pods.drop_last(), now);
        let prev = pods_entries(cluster, pods.drop_last(), now);
        let last = pod_entries(cluster, pods.last(), now);
        let all = pods_entries(cluster, pods, now);
        assert forall|i: int| 0 <= i < all.len() implies #[trigger] all[i] == if i < prev.len() {
            prev[i]
        } else {
            last[i - prev.len()]
        } by {}
    }
}

} // verus!
