//! Domain models of the analytics side: metrics, anomalies,
//! recommendations, schedules, notifications and clusters.
//!
//! Measured quantities (floating point values) are not part of these
//! models: records that carry them take them as a type parameter `P`
//! which the logic here never reads.

use vstd::prelude::*;

verus! {

/// The view of an optional string.
pub open spec fn opt_view(o: Option<String>) -> Option<Seq<char>> {
    match o {
        Some(s) => Some(s@),
        None => None,
    }
}

/// Copies an optional string.
pub fn clone_opt(o: &Option<String>) -> (r: Option<String>)
    ensures
        opt_view(r) == opt_view(*o),
{
    match o {
        Some(s) => Some(s.clone()),
        None => None,
    }
}

/// Kind of Kubernetes resource a metric describes.
#[derive(Debug, Clone, Copy, PartialEq, Eq, Hash, Structural)]
pub enum ResourceType {
    Pod,
    Node,
    Container,
    Service,
}

impl Default for ResourceType {
    fn default() -> (r: Self)
        ensures
            r == ResourceType::Pod,
    {
        ResourceType::Pod
    }
}

/// Quantity a metric measures.
#[derive(Debug, Clone, Copy, PartialEq, Eq, Hash, Structural)]
pub enum MetricType {
    CpuUsage,
    MemoryUsage,
    NetworkIn,
    NetworkOut,
    DiskRead,
    DiskWrite,
}

impl Default for MetricType {
    fn default() -> (r: Self)
        ensures
            r == MetricType::CpuUsage,
    {
        MetricType::CpuUsage
    }
}

/// How serious an anomaly or notification is.
#[derive(Debug, Clone, Copy, PartialEq, Eq, Hash, Structural)]
pub enum Severity {
    Critical,
    Warning,
    Info,
}

/// Reachability of a managed cluster.
#[derive(Debug, Clone, Copy, PartialEq, Eq, Hash, Structural)]
pub enum ClusterHealth {
    Healthy,
    Degraded,
    Unreachable,
}

/// A closed interval of epoch milliseconds.
#[derive(Debug, Clone, Copy, PartialEq, Eq, Structural)]
pub struct TimeRange {
    pub start_ms: i64,
    pub end_ms: i64,
}

/// `v` clamped into the range of `i64`.
pub open spec fn clamp_i64(v: int) -> i64 {
    if v > i64::MAX {
        i64::MAX
    } else if v < i64::MIN {
        i64::MIN
    } else {
        v as i64
    }
}

impl TimeRange {
    /// The hour that ends at `now_ms`: from an hour before it up to it.
    pub fn last_hour(now_ms: i64) -> (r: TimeRange)
        requires
            now_ms >= i64::MIN + 3_600_000,
        ensures
            r.start_ms == now_ms - 3_600_000,
            r.end_ms == now_ms,
    {
        TimeRange { start_ms: now_ms - 3600 * 1000, end_ms: now_ms }
    }

    /// `end_ms - start_ms`, saturating at the bounds of `i64`.
    pub fn duration_ms(&self) -> (d: i64)
        ensures
            d == clamp_i64(self.end_ms - self.start_ms),
    {
        let wide: i128 = self.end_ms as i128 - self.start_ms as i128;
        if wide > i64::MAX as i128 {
            i64::MAX
        } else if wide < i64::MIN as i128 {
            i64::MIN
        } else {
            wide as i64
        }
    }
}

/// One raw metric sample; `reading` carries the measured value and is
/// never inspected by the logic.
#[derive(Debug, Clone)]
pub struct MetricSample<P> {
    pub cluster_id: String,
    pub resource_type: ResourceType,
    pub resource_id: String,
    pub metric_type: MetricType,
    pub timestamp: i64,
    pub unit: String,
    pub reading: P,
}

/// Which raw samples a caller wants.
#[derive(Debug, Clone)]
pub struct MetricsQuery {
    pub cluster_id: Option<String>,
    pub resource_type: Option<ResourceType>,
    pub resource_ids: Vec<String>,
    pub metric_types: Vec<MetricType>,
    pub time_range: Option<TimeRange>,
}

impl Default for MetricsQuery {
    fn default() -> (q: Self)
        ensures
            q.cluster_id.is_none(),
            q.resource_type.is_none(),
            q.resource_ids@.len() == 0,
            q.metric_types@.len() == 0,
            q.time_range.is_none(),
    {
        MetricsQuery {
            cluster_id: None,
            resource_type: None,
            resource_ids: Vec::new(),
            metric_types: Vec::new(),
            time_range: None,
        }
    }
}

/// Which aggregated metrics a caller wants.
#[derive(Debug, Clone)]
pub struct AggregatedQuery {
    pub cluster_id: Option<String>,
    pub resource_type: Option<ResourceType>,
    pub metric_types: Vec<MetricType>,
    pub window_duration_ms: u64,
    pub time_range: Option<TimeRange>,
}

/// Statistics of one aggregation window; `stats` carries the computed
/// values (count aside) and is never inspected by the logic.
#[derive(Debug, Clone)]
pub struct AggregatedMetric<P> {
    pub cluster_id: String,
    pub resource_type: ResourceType,
    pub metric_type: MetricType,
    pub window_start: i64,
    pub window_duration_ms: u64,
    pub count: u64,
    pub stats: P,
}

/// A detected anomaly; `measures` carries its confidence, baseline,
/// observed value and deviation.
#[derive(Debug, Clone)]
pub struct Anomaly<P> {
    pub id: String,
    pub cluster_id: String,
    pub resource_id: String,
    pub detected_at: i64,
    pub metric_type: MetricType,
    pub severity: Severity,
    pub description: String,
    pub related_metrics: Vec<String>,
    pub root_cause: Option<String>,
    pub measures: P,
}

/// Which anomalies a caller wants.
#[derive(Debug, Clone)]
pub struct AnomalyFilter {
    pub cluster_id: Option<String>,
    pub resource_id: Option<String>,
    pub metric_type: Option<MetricType>,
    pub severity: Option<Severity>,
    pub time_range: Option<TimeRange>,
    pub limit: Option<u32>,
}

impl Default for AnomalyFilter {
    fn default() -> (f: Self)
        ensures
            f.cluster_id.is_none(),
            f.resource_id.is_none(),
            f.metric_type.is_none(),
            f.severity.is_none(),
            f.time_range.is_none(),
            f.limit.is_none(),
    {
        AnomalyFilter {
            cluster_id: None,
            resource_id: None,
            metric_type: None,
            severity: None,
            time_range: None,
            limit: None,
        }
    }
}

/// Kind of an optimisation recommendation.
#[derive(Debug, Clone, Copy, PartialEq, Eq, Hash, Structural)]
pub enum RecommendationType {
    ScaleUp,
    ScaleDown,
    OptimizeResources,
    AdjustLimits,
    StorageOptimization,
}

/// Urgency of a recommendation.
#[derive(Debug, Clone, Copy, PartialEq, Eq, Hash, Structural)]
pub enum Priority {
    High,
    Medium,
    Low,
}

/// Resource limits proposed for a workload.
#[derive(Debug, Clone)]
pub struct ResourceLimits {
    pub cpu: Option<String>,
    pub memory: Option<String>,
}

/// The change a recommendation proposes.
#[derive(Debug, Clone)]
pub enum RecommendationAction {
    ScaleDeployment { name: String, from: u32, to: u32 },
    UpdateResourceLimits { resource: String, limits: ResourceLimits },
    ReclaimStorage { volume: String, size_gb: u64 },
}

/// Where a recommendation stands.
#[derive(Debug, Clone)]
pub enum RecommendationStatus {
    Pending,
    Scheduled { execute_at: i64 },
    Applied { applied_at: i64 },
    Dismissed { reason: String },
}

/// The variant of a recommendation status, without its data.
#[derive(Debug, Clone, Copy, PartialEq, Eq, Hash, Structural)]
pub enum RecommendationStatusKind {
    Pending,
    Scheduled,
    Applied,
    Dismissed,
}

/// The kind of a status.
pub open spec fn status_kind(s: RecommendationStatus) -> RecommendationStatusKind {
    match s {
        RecommendationStatus::Pending => RecommendationStatusKind::Pending,
        RecommendationStatus::Scheduled { .. } => RecommendationStatusKind::Scheduled,
        RecommendationStatus::Applied { .. } => RecommendationStatusKind::Applied,
        RecommendationStatus::Dismissed { .. } => RecommendationStatusKind::Dismissed,
    }
}

impl RecommendationStatus {
    pub fn kind(&self) -> (k: RecommendationStatusKind)
        ensures
            k == status_kind(*self),
    {
        match self {
            RecommendationStatus::Pending => RecommendationStatusKind::Pending,
            RecommendationStatus::Scheduled { .. } => RecommendationStatusKind::Scheduled,
            RecommendationStatus::Applied { .. } => RecommendationStatusKind::Applied,
            RecommendationStatus::Dismissed { .. } => RecommendationStatusKind::Dismissed,
        }
    }
}

/// An optimisation recommendation; `estimates` carries its confidence and
/// cost impact.
#[derive(Debug, Clone)]
pub struct Recommendation<P> {
    pub id: String,
    pub cluster_id: String,
    pub created_at: i64,
    pub recommendation_type: RecommendationType,
    pub priority: Priority,
    pub title: String,
    pub description: String,
    pub impact_estimate: String,
    pub action: RecommendationAction,
    pub status: RecommendationStatus,
    pub estimates: P,
}

/// Which recommendations a caller wants.
#[derive(Debug, Clone)]
pub struct RecommendationFilter {
    pub cluster_id: Option<String>,
    pub priority: Option<Priority>,
    pub status: Option<RecommendationStatusKind>,
    pub limit: Option<u32>,
}

impl Default for RecommendationFilter {
    fn default() -> (f: Self)
        ensures
            f.cluster_id.is_none(),
            f.priority.is_none(),
            f.status.is_none(),
            f.limit.is_none(),
    {
        RecommendationFilter { cluster_id: None, priority: None, status: None, limit: None }
    }
}

/// Progress of a scheduled action.
#[derive(Debug, Clone)]
pub enum ScheduleStatus {
    Pending,
    Executing,
    Completed,
    Failed { error: String },
    Cancelled,
}

/// A recommendation action planned for a given time.
#[derive(Debug, Clone)]
pub struct ScheduledAction {
    pub id: String,
    pub execute_at: i64,
    pub recommendation_id: String,
    pub action: RecommendationAction,
    pub status: ScheduleStatus,
}

/// A message for the operator.
#[derive(Debug, Clone)]
pub struct Notification {
    pub id: String,
    pub title: String,
    pub message: String,
    pub severity: Severity,
    pub timestamp: i64,
    pub read: bool,
    pub link: Option<String>,
    pub cluster_id: Option<String>,
    pub resource_id: Option<String>,
}

impl Default for Notification {
    fn default() -> (n: Self)
        ensures
            n.id@.len() == 0,
            n.title@.len() == 0,
            n.message@.len() == 0,
            n.severity == Severity::Info,
            n.timestamp == 0,
            !n.read,
            n.link.is_none(),
            n.cluster_id.is_none(),
            n.resource_id.is_none(),
    {
        Notification {
            id: String::new(),
            title: String::new(),
            message: String::new(),
            severity: Severity::Info,
            timestamp: 0,
            read: false,
            link: None,
            cluster_id: None,
            resource_id: None,
        }
    }
}

/// A delivery channel for notifications, with its configuration as JSON text.
#[derive(Debug, Clone)]
pub struct NotificationChannel {
    pub id: String,
    pub name: String,
    pub enabled: bool,
    pub config_json: String,
}

impl Default for NotificationChannel {
    fn default() -> (c: Self)
        ensures
            c.id@.len() == 0,
            c.name@.len() == 0,
            !c.enabled,
            c.config_json@ == "{}"@,
    {
        NotificationChannel {
            id: String::new(),
            name: String::new(),
            enabled: false,
            config_json: "{}".to_owned(),
        }
    }
}

/// What is known about a managed cluster.
#[derive(Debug, Clone)]
pub struct ClusterMetadata {
    pub id: String,
    pub name: String,
    pub context: String,
    pub api_server: String,
    pub health_status: ClusterHealth,
    pub last_seen: i64,
    pub pod_count: u32,
    pub node_count: u32,
    pub namespace_count: u32,
}

} // verus!
