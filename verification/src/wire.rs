//! The records exchanged with the ML and analytics services, and the
//! mapping between them and the domain records.
//!
//! The wire enums stand for the decoded protocol enums; a code the protocol
//! does not know arrives as `None`.

use crate::domain::{
    Anomaly, MetricType, Priority, Recommendation, RecommendationAction, RecommendationStatus,
    RecommendationType, ResourceLimits, Severity, TimeRange,
};
use crate::series::{TimeSeries, TimeSeriesPoint};
use vstd::prelude::*;

verus! {

/// Metric type on the wire.
#[derive(Debug, Clone, Copy, PartialEq, Eq, Structural)]
pub enum WireMetricType {
    Unspecified,
    CpuUsage,
    MemoryUsage,
    NetworkIn,
    NetworkOut,
    DiskRead,
    DiskWrite,
}

/// Severity on the wire.
#[derive(Debug, Clone, Copy, PartialEq, Eq, Structural)]
pub enum WireSeverity {
    Unspecified,
    Critical,
    Warning,
    Info,
}

/// Recommendation type on the wire.
#[derive(Debug, Clone, Copy, PartialEq, Eq, Structural)]
pub enum WireRecommendationType {
    Unspecified,
    ScaleUp,
    ScaleDown,
    OptimizeResources,
    AdjustLimits,
    StorageOptimizations,
}

/// Priority on the wire.
#[derive(Debug, Clone, Copy, PartialEq, Eq, Structural)]
pub enum WirePriority {
    Unspecified,
    High,
    Medium,
    Low,
}

/// The wire name of a metric type.
pub open spec fn metric_to_wire(t: MetricType) -> WireMetricType {
    match t {
        MetricType::CpuUsage => WireMetricType::CpuUsage,
        MetricType::MemoryUsage => WireMetricType::MemoryUsage,
        MetricType::NetworkIn => WireMetricType::NetworkIn,
        MetricType::NetworkOut => WireMetricType::NetworkOut,
        MetricType::DiskRead => WireMetricType::DiskRead,
        MetricType::DiskWrite => WireMetricType::DiskWrite,
    }
}

/// The wire name of a metric type.
pub fn metric_type_to_wire(t: MetricType) -> (w: WireMetricType)
    ensures
        w == metric_to_wire(t),
{
    match t {
        MetricType::CpuUsage => WireMetricType::CpuUsage,
        MetricType::MemoryUsage => WireMetricType::MemoryUsage,
        MetricType::NetworkIn => WireMetricType::NetworkIn,
        MetricType::NetworkOut => WireMetricType::NetworkOut,
        MetricType::DiskRead => WireMetricType::DiskRead,
        MetricType::DiskWrite => WireMetricType::DiskWrite,
    }
}

/// One series of a detection request.
#[derive(Debug, Clone)]
pub struct WireSeries<P> {
    pub cluster_id: String,
    pub resource_id: String,
    pub metric_type: WireMetricType,
    pub unit: String,
    pub points: Vec<TimeSeriesPoint<P>>,
}

/// A request to detect anomalies in one time series.
#[derive(Debug, Clone)]
pub struct DetectRequest<P> {
    pub cluster_id: String,
    /// From the first to the last point of the series.
    pub range: TimeRange,
    pub series: Vec<WireSeries<P>>,
}

/// The range of a series: from its first point to its last, or `0..0`
/// without points.
pub open spec fn points_range<P>(points: Seq<TimeSeriesPoint<P>>) -> TimeRange {
    if points.len() == 0 {
        TimeRange { start_ms: 0, end_ms: 0 }
    } else {
        TimeRange { start_ms: points[0].timestamp, end_ms: points.last().timestamp }
    }
}

/// The detection request for `series`: its cluster, the range its points
/// span, and the series itself (cluster, resource, metric, unit and points
/// in order).
pub fn anomaly_request<P: Copy>(series: &TimeSeries<P>) -> (r: DetectRequest<P>)
    ensures
        r.cluster_id@ == series.cluster_id@,
        r.range == points_range(series.points@),
        r.series@.len() == 1,
        r.series@[0].cluster_id@ == series.cluster_id@,
        r.series@[0].resource_id@ == series.resource_id@,
        r.series@[0].metric_type == metric_to_wire(series.metric_type),
        r.series@[0].unit@ == series.unit@,
        r.series@[0].points@ == series.points@,
{
    let mut points: Vec<TimeSeriesPoint<P>> = Vec::new();
    let mut i: usize = 0;
    while i < series.points.len()
        invariant
            0 <= i <= series.points.len(),
            points@ == series.points@.take(i as int),
        decreases series.points.len() - i,
    {
        let p = TimeSeriesPoint { timestamp: series.points[i].timestamp, value: series.points[i].value };
        points.push(p);
        proof {
            assert(points@ =~= series.points@.take(i + 1));
        }
        i = i + 1;
    }
    proof {
        assert(series.points@.take(series.points.len() as int) =~= series.points@);
    }
    let n = series.points.len();
    let range = if n == 0 {
        TimeRange { start_ms: 0, end_ms: 0 }
    } else {
        TimeRange { start_ms: series.points[0].timestamp, end_ms: series.points[n - 1].timestamp }
    };
    let s = WireSeries {
        cluster_id: series.cluster_id.clone(),
        resource_id: series.resource_id.clone(),
        metric_type: metric_type_to_wire(series.metric_type),
        unit: series.unit.clone(),
        points,
    };
    DetectRequest { cluster_id: series.cluster_id.clone(), range, series: vec![s] }
}

/// An anomaly as the ML service reports it; `measures` carries its
/// confidence, baseline, observed value and deviation.
#[derive(Debug, Clone)]
pub struct WireAnomaly<P> {
    pub id: String,
    pub cluster_id: String,
    pub resource_id: String,
    pub detected_at: i64,
    pub metric_type: Option<WireMetricType>,
    pub severity: Option<WireSeverity>,
    pub description: String,
    pub related_metrics: Vec<String>,
    pub root_cause: Option<String>,
    pub measures: P,
}

/// The metric type of a reported anomaly; an unknown or unspecified one is
/// taken for CPU usage.
pub open spec fn metric_from_wire(w: Option<WireMetricType>) -> MetricType {
    match w {
        Some(WireMetricType::MemoryUsage) => MetricType::MemoryUsage,
        Some(WireMetricType::NetworkIn) => MetricType::NetworkIn,
        Some(WireMetricType::NetworkOut) => MetricType::NetworkOut,
        Some(WireMetricType::DiskRead) => MetricType::DiskRead,
        Some(WireMetricType::DiskWrite) => MetricType::DiskWrite,
        _ => MetricType::CpuUsage,
    }
}

/// The severity of a reported anomaly; an unknown or unspecified one is
/// taken for info.
pub open spec fn severity_from_wire(w: Option<WireSeverity>) -> Severity {
    match w {
        Some(WireSeverity::Critical) => Severity::Critical,
        Some(WireSeverity::Warning) => Severity::Warning,
        _ => Severity::Info,
    }
}

/// The domain anomaly of a reported one: ids, time, texts, related metrics
/// and measures as reported, the metric type and severity read with their
/// fallbacks, and an empty root cause dropped.
pub fn anomaly_from_reply<P>(a: WireAnomaly<P>) -> (d: Anomaly<P>)
    ensures
        d.id == a.id,
        d.cluster_id == a.cluster_id,
        d.resource_id == a.resource_id,
        d.detected_at == a.detected_at,
        d.metric_type == metric_from_wire(a.metric_type),
        d.severity == severity_from_wire(a.severity),
        d.description == a.description,
        d.related_metrics == a.related_metrics,
        d.root_cause == (match a.root_cause {
            Some(c) => if c@.len() == 0 {
                None
            } else {
                Some(c)
            },
            None => None,
        }),
        d.measures == a.measures,
{
    let metric_type = match a.metric_type {
        Some(WireMetricType::MemoryUsage) => MetricType::MemoryUsage,
        Some(WireMetricType::NetworkIn) => MetricType::NetworkIn,
        Some(WireMetricType::NetworkOut) => MetricType::NetworkOut,
        Some(WireMetricType::DiskRead) => MetricType::DiskRead,
        Some(WireMetricType::DiskWrite) => MetricType::DiskWrite,
        _ => MetricType::CpuUsage,
    };
    let severity = match a.severity {
        Some(WireSeverity::Critical) => Severity::Critical,
        Some(WireSeverity::Warning) => Severity::Warning,
        _ => Severity::Info,
    };
    let root_cause = match a.root_cause {
        Some(c) => if c.as_str().is_empty() {
            None
        } else {
            Some(c)
        },
        None => None,
    };
    Anomaly {
        id: a.id,
        cluster_id: a.cluster_id,
        resource_id: a.resource_id,
        detected_at: a.detected_at,
        metric_type,
        severity,
        description: a.description,
        related_metrics: a.related_metrics,
        root_cause,
        measures: a.measures,
    }
}

/// The action of a recommendation on the wire.
#[derive(Debug, Clone)]
pub enum WireAction {
    ScaleDeployment { name: String, from: u32, to: u32 },
    UpdateLimits { resource: String, limits: Option<ResourceLimits> },
    ReclaimStorage { volume: String, size_gb: u64 },
}

/// The status of a recommendation on the wire.
#[derive(Debug, Clone)]
pub enum WireStatus {
    Pending(bool),
    ScheduledAt(i64),
    AppliedAt(i64),
    DismissedReason(String),
}

/// A recommendation on the wire; `estimates` carries its confidence and
/// cost impact.
#[derive(Debug, Clone)]
pub struct WireRecommendation<P> {
    pub id: String,
    pub cluster_id: String,
    pub created_at: i64,
    pub recommendation_type: WireRecommendationType,
    pub priority: WirePriority,
    pub title: String,
    pub description: String,
    pub impact_estimate: String,
    pub estimates: P,
    pub action: Option<WireAction>,
    pub status: Option<WireStatus>,
}

/// The wire name of a recommendation type.
pub open spec fn recommendation_type_to_wire(t: RecommendationType) -> WireRecommendationType {
    match t {
        RecommendationType::ScaleUp => WireRecommendationType::ScaleUp,
        RecommendationType::ScaleDown => WireRecommendationType::ScaleDown,
        RecommendationType::OptimizeResources => WireRecommendationType::OptimizeResources,
        RecommendationType::AdjustLimits => WireRecommendationType::AdjustLimits,
        RecommendationType::StorageOptimization => WireRecommendationType::StorageOptimizations,
    }
}

/// The wire name of a priority.
pub open spec fn priority_to_wire(p: Priority) -> WirePriority {
    match p {
        Priority::High => WirePriority::High,
        Priority::Medium => WirePriority::Medium,
        Priority::Low => WirePriority::Low,
    }
}

/// A recommendation as sent on the wire: ids, time, texts and estimates
/// copied, type and priority by their wire names, the action and the
/// status variant for variant.
pub fn recommendation_to_wire<P>(val: Recommendation<P>) -> (w: WireRecommendation<P>)
    ensures
        w.id == val.id,
        w.cluster_id == val.cluster_id,
        w.created_at == val.created_at,
        w.recommendation_type == recommendation_type_to_wire(val.recommendation_type),
        w.priority == priority_to_wire(val.priority),
        w.title == val.title,
        w.description == val.description,
        w.impact_estimate == val.impact_estimate,
        w.estimates == val.estimates,
        val.action matches RecommendationAction::ScaleDeployment { name, from, to } ==> w.action
            == Some(WireAction::ScaleDeployment { name, from, to }),
        val.action matches RecommendationAction::UpdateResourceLimits { resource, limits } ==> w.action
            == Some(WireAction::UpdateLimits { resource, limits: Some(limits) }),
        val.action matches RecommendationAction::ReclaimStorage { volume, size_gb } ==> w.action
            == Some(WireAction::ReclaimStorage { volume, size_gb }),
        val.status is Pending ==> w.status == Some(WireStatus::Pending(true)),
        val.status matches RecommendationStatus::Scheduled { execute_at } ==> w.status == Some(
            WireStatus::ScheduledAt(execute_at),
        ),
        val.status matches RecommendationStatus::Applied { applied_at } ==> w.status == Some(
            WireStatus::AppliedAt(applied_at),
        ),
        val.status matches RecommendationStatus::Dismissed { reason } ==> w.status == Some(
            WireStatus::DismissedReason(reason),
        ),
{
    let recommendation_type = match val.recommendation_type {
        RecommendationType::ScaleUp => WireRecommendationType::ScaleUp,
        RecommendationType::ScaleDown => WireRecommendationType::ScaleDown,
        RecommendationType::OptimizeResources => WireRecommendationType::OptimizeResources,
        RecommendationType::AdjustLimits => WireRecommendationType::AdjustLimits,
        RecommendationType::StorageOptimization => WireRecommendationType::StorageOptimizations,
    };
    let priority = match val.priority {
        Priority::High => WirePriority::High,
        Priority::Medium => WirePriority::Medium,
        Priority::Low => WirePriority::Low,
    };
    let action = match val.action {
        RecommendationAction::ScaleDeployment { name, from, to } => WireAction::ScaleDeployment {
            name,
            from,
            to,
        },
        RecommendationAction::UpdateResourceLimits { resource, limits } => WireAction::UpdateLimits {
            resource,
            limits: Some(limits),
        },
        RecommendationAction::ReclaimStorage { volume, size_gb } => WireAction::ReclaimStorage {
            volume,
            size_gb,
        },
    };
    let status = match val.status {
        RecommendationStatus::Pending => WireStatus::Pending(true),
        RecommendationStatus::Scheduled { execute_at } => WireStatus::ScheduledAt(execute_at),
        RecommendationStatus::Applied { applied_at } => WireStatus::AppliedAt(applied_at),
        RecommendationStatus::Dismissed { reason } => WireStatus::DismissedReason(reason),
    };
    WireRecommendation {
        id: val.id,
        cluster_id: val.cluster_id,
        created_at: val.created_at,
        recommendation_type,
        priority,
        title: val.title,
        description: val.description,
        impact_estimate: val.impact_estimate,
        estimates: val.estimates,
        action: Some(action),
        status: Some(status),
    }
}

} // verus!
