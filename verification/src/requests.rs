//! The analytics service's requests as they arrive on the wire, and their
//! reading into domain queries and records.
//!
//! A protocol enum field arrives decoded: `None` where its code is not one
//! the protocol knows, `Some` of the variant (possibly `Unspecified`)
//! otherwise. An optional field that may be left out is wrapped once more.

use crate::domain::{
    AggregatedQuery, AnomalyFilter, MetricSample, MetricType, MetricsQuery, Priority,
    RecommendationFilter, RecommendationStatusKind, RecommendationType, ResourceType, Severity,
    TimeRange,
};
use crate::wire::{
    metric_from_wire, metric_to_wire, priority_to_wire, recommendation_type_to_wire, WireMetricType,
    WirePriority, WireRecommendationType, WireSeverity,
};
use vstd::prelude::*;

verus! {

/// Resource type on the wire.
#[derive(Debug, Clone, Copy, PartialEq, Eq, Structural)]
pub enum WireResourceType {
    Unspecified,
    Pod,
    Node,
    Container,
    Service,
}

/// Recommendation status kind on the wire.
#[derive(Debug, Clone, Copy, PartialEq, Eq, Structural)]
pub enum WireStatusKind {
    Unspecified,
    Pending,
    Scheduled,
    Applied,
    Dismissed,
}

/// Why a request was refused.
#[derive(Debug, Clone, Copy, PartialEq, Eq, Structural)]
pub enum RequestError {
    /// An enum field held a code the protocol does not know.
    UnknownEnumValue,
    /// A series was asked for without a time range.
    MissingTimeRange,
    /// An aggregation asked for a resource type by an unknown code.
    InvalidResourceType,
    /// A metric type was asked for by an unknown code.
    InvalidMetricType,
    UnspecifiedResourceType,
    UnspecifiedMetricType,
    UnspecifiedSeverity,
    UnspecifiedPriority,
    UnspecifiedRecommendationType,
    UnspecifiedStatusKind,
}

/// The text a refusal is answered with.
pub open spec fn request_error_text(e: RequestError) -> Seq<char> {
    match e {
        RequestError::UnknownEnumValue => "unknown enum value"@,
        RequestError::MissingTimeRange => "missing time range"@,
        RequestError::InvalidResourceType => "Invalid resource type"@,
        RequestError::InvalidMetricType => "Invalid metric type"@,
        RequestError::UnspecifiedResourceType => "unspecified resource type"@,
        RequestError::UnspecifiedMetricType => "unspecified metric type"@,
        RequestError::UnspecifiedSeverity => "unspecified severity"@,
        RequestError::UnspecifiedPriority => "unspecified priority"@,
        RequestError::UnspecifiedRecommendationType => "unspecified recommendation type"@,
        RequestError::UnspecifiedStatusKind => "unspecified recommendation status kind"@,
    }
}

impl RequestError {
    /// The text of the refusal.
    pub fn message(&self) -> (m: &'static str)
        ensures
            m@ == request_error_text(*self),
    {
        match self {
            RequestError::UnknownEnumValue => "unknown enum value",
            RequestError::MissingTimeRange => "missing time range",
            RequestError::InvalidResourceType => "Invalid resource type",
            RequestError::InvalidMetricType => "Invalid metric type",
            RequestError::UnspecifiedResourceType => "unspecified resource type",
            RequestError::UnspecifiedMetricType => "unspecified metric type",
            RequestError::UnspecifiedSeverity => "unspecified severity",
            RequestError::UnspecifiedPriority => "unspecified priority",
            RequestError::UnspecifiedRecommendationType => "unspecified recommendation type",
            RequestError::UnspecifiedStatusKind => "unspecified recommendation status kind",
        }
    }
}

// ---------------------------------------------------------------------------
// The enums, each read strictly: `Unspecified` is refused.

/// The wire name of a resource type.
pub open spec fn resource_to_wire(t: ResourceType) -> WireResourceType {
    match t {
        ResourceType::Pod => WireResourceType::Pod,
        ResourceType::Node => WireResourceType::Node,
        ResourceType::Container => WireResourceType::Container,
        ResourceType::Service => WireResourceType::Service,
    }
}

/// The wire name of a severity.
pub open spec fn severity_to_wire(s: Severity) -> WireSeverity {
    match s {
        Severity::Critical => WireSeverity::Critical,
        Severity::Warning => WireSeverity::Warning,
        Severity::Info => WireSeverity::Info,
    }
}

/// The wire name of a recommendation status kind.
pub open spec fn status_kind_to_wire(k: RecommendationStatusKind) -> WireStatusKind {
    match k {
        RecommendationStatusKind::Pending => WireStatusKind::Pending,
        RecommendationStatusKind::Scheduled => WireStatusKind::Scheduled,
        RecommendationStatusKind::Applied => WireStatusKind::Applied,
        RecommendationStatusKind::Dismissed => WireStatusKind::Dismissed,
    }
}

pub open spec fn strict_resource(w: WireResourceType) -> Result<ResourceType, RequestError> {
    match w {
        WireResourceType::Unspecified => Err(RequestError::UnspecifiedResourceType),
        WireResourceType::Pod => Ok(ResourceType::Pod),
        WireResourceType::Node => Ok(ResourceType::Node),
        WireResourceType::Container => Ok(ResourceType::Container),
        WireResourceType::Service => Ok(ResourceType::Service),
    }
}

pub open spec fn strict_metric(w: WireMetricType) -> Result<MetricType, RequestError> {
    match w {
        WireMetricType::Unspecified => Err(RequestError::UnspecifiedMetricType),
        WireMetricType::CpuUsage => Ok(MetricType::CpuUsage),
        WireMetricType::MemoryUsage => Ok(MetricType::MemoryUsage),
        WireMetricType::NetworkIn => Ok(MetricType::NetworkIn),
        WireMetricType::NetworkOut => Ok(MetricType::NetworkOut),
        WireMetricType::DiskRead => Ok(MetricType::DiskRead),
        WireMetricType::DiskWrite => Ok(MetricType::DiskWrite),
    }
}

pub open spec fn strict_severity(w: WireSeverity) -> Result<Severity, RequestError> {
    match w {
        WireSeverity::Unspecified => Err(RequestError::UnspecifiedSeverity),
        WireSeverity::Critical => Ok(Severity::Critical),
        WireSeverity::Warning => Ok(Severity::Warning),
        WireSeverity::Info => Ok(Severity::Info),
    }
}

pub open spec fn strict_priority(w: WirePriority) -> Result<Priority, RequestError> {
    match w {
        WirePriority::Unspecified => Err(RequestError::UnspecifiedPriority),
        WirePriority::High => Ok(Priority::High),
        WirePriority::Medium => Ok(Priority::Medium),
        WirePriority::Low => Ok(Priority::Low),
    }
}

pub open spec fn strict_recommendation_type(w: WireRecommendationType) -> Result<RecommendationType, RequestError> {
    match w {
        WireRecommendationType::Unspecified => Err(RequestError::UnspecifiedRecommendationType),
        WireRecommendationType::ScaleUp => Ok(RecommendationType::ScaleUp),
        WireRecommendationType::ScaleDown => Ok(RecommendationType::ScaleDown),
        WireRecommendationType::OptimizeResources => Ok(RecommendationType::OptimizeResources),
        WireRecommendationType::AdjustLimits => Ok(RecommendationType::AdjustLimits),
        WireRecommendationType::StorageOptimizations => Ok(RecommendationType::StorageOptimization),
    }
}

pub open spec fn strict_status_kind(w: WireStatusKind) -> Result<RecommendationStatusKind, RequestError> {
    match w {
        WireStatusKind::Unspecified => Err(RequestError::UnspecifiedStatusKind),
        WireStatusKind::Pending => Ok(RecommendationStatusKind::Pending),
        WireStatusKind::Scheduled => Ok(RecommendationStatusKind::Scheduled),
        WireStatusKind::Applied => Ok(RecommendationStatusKind::Applied),
        WireStatusKind::Dismissed => Ok(RecommendationStatusKind::Dismissed),
    }
}

/// Reads a resource type; `Unspecified` is refused.
pub fn resource_type_from_wire(w: WireResourceType) -> (r: Result<ResourceType, RequestError>)
    ensures
        r == strict_resource(w),
{
    match w {
        WireResourceType::Unspecified => Err(RequestError::UnspecifiedResourceType),
        WireResourceType::Pod => Ok(ResourceType::Pod),
        WireResourceType::Node => Ok(ResourceType::Node),
        WireResourceType::Container => Ok(ResourceType::Container),
        WireResourceType::Service => Ok(ResourceType::Service),
    }
}

/// Reads a metric type; `Unspecified` is refused.
pub fn metric_type_from_wire(w: WireMetricType) -> (r: Result<MetricType, RequestError>)
    ensures
        r == strict_metric(w),
{
    match w {
        WireMetricType::Unspecified => Err(RequestError::UnspecifiedMetricType),
        WireMetricType::CpuUsage => Ok(MetricType::CpuUsage),
        WireMetricType::MemoryUsage => Ok(MetricType::MemoryUsage),
        WireMetricType::NetworkIn => Ok(MetricType::NetworkIn),
        WireMetricType::NetworkOut => Ok(MetricType::NetworkOut),
        WireMetricType::DiskRead => Ok(MetricType::DiskRead),
        WireMetricType::DiskWrite => Ok(MetricType::DiskWrite),
    }
}

/// Reads a severity; `Unspecified` is refused.
pub fn severity_from_wire(w: WireSeverity) -> (r: Result<Severity, RequestError>)
    ensures
        r == strict_severity(w),
{
    match w {
        WireSeverity::Unspecified => Err(RequestError::UnspecifiedSeverity),
        WireSeverity::Critical => Ok(Severity::Critical),
        WireSeverity::Warning => Ok(Severity::Warning),
        WireSeverity::Info => Ok(Severity::Info),
    }
}

/// Reads a priority; `Unspecified` is refused.
pub fn priority_from_wire(w: WirePriority) -> (r: Result<Priority, RequestError>)
    ensures
        r == strict_priority(w),
{
    match w {
        WirePriority::Unspecified => Err(RequestError::UnspecifiedPriority),
        WirePriority::High => Ok(Priority::High),
        WirePriority::Medium => Ok(Priority::Medium),
        WirePriority::Low => Ok(Priority::Low),
    }
}

/// Reads a recommendation type; `Unspecified` is refused.
pub fn recommendation_type_from_wire(w: WireRecommendationType) -> (r: Result<RecommendationType, RequestError>)
    ensures
        r == strict_recommendation_type(w),
{
    match w {
        WireRecommendationType::Unspecified => Err(RequestError::UnspecifiedRecommendationType),
        WireRecommendationType::ScaleUp => Ok(RecommendationType::ScaleUp),
        WireRecommendationType::ScaleDown => Ok(RecommendationType::ScaleDown),
        WireRecommendationType::OptimizeResources => Ok(RecommendationType::OptimizeResources),
        WireRecommendationType::AdjustLimits => Ok(RecommendationType::AdjustLimits),
        WireRecommendationType::StorageOptimizations => Ok(RecommendationType::StorageOptimization),
    }
}

/// Reads a recommendation status kind; `Unspecified` is refused.
pub fn status_kind_from_wire(w: WireStatusKind) -> (r: Result<RecommendationStatusKind, RequestError>)
    ensures
        r == strict_status_kind(w),
{
    match w {
        WireStatusKind::Unspecified => Err(RequestError::UnspecifiedStatusKind),
        WireStatusKind::Pending => Ok(RecommendationStatusKind::Pending),
        WireStatusKind::Scheduled => Ok(RecommendationStatusKind::Scheduled),
        WireStatusKind::Applied => Ok(RecommendationStatusKind::Applied),
        WireStatusKind::Dismissed => Ok(RecommendationStatusKind::Dismissed),
    }
}

/// The wire name of a resource type.
pub fn resource_type_to_wire(t: ResourceType) -> (w: WireResourceType)
    ensures
        w == resource_to_wire(t),
{
    match t {
        ResourceType::Pod => WireResourceType::Pod,
        ResourceType::Node => WireResourceType::Node,
        ResourceType::Container => WireResourceType::Container,
        ResourceType::Service => WireResourceType::Service,
    }
}

/// The wire name of a severity.
pub fn severity_to_wire_name(s: Severity) -> (w: WireSeverity)
    ensures
        w == severity_to_wire(s),
{
    match s {
        Severity::Critical => WireSeverity::Critical,
        Severity::Warning => WireSeverity::Warning,
        Severity::Info => WireSeverity::Info,
    }
}

/// Reading gives back what writing sent, for every enum: a domain value
/// written by its wire name reads as itself, and a wire name that reads
/// as a domain value is that value's name. Only `Unspecified` is refused.
pub proof fn lemma_wire_names_round_trip()
    ensures
        forall|t: ResourceType| #[trigger] strict_resource(resource_to_wire(t)) == Ok::<ResourceType, RequestError>(t),
        forall|w: WireResourceType|
            #[trigger] strict_resource(w) matches Ok(t) ==> resource_to_wire(t) == w,
        forall|t: MetricType| #[trigger] strict_metric(metric_to_wire(t)) == Ok::<MetricType, RequestError>(t),
        forall|w: WireMetricType| #[trigger] strict_metric(w) matches Ok(t) ==> metric_to_wire(t) == w,
        forall|s: Severity| #[trigger] strict_severity(severity_to_wire(s)) == Ok::<Severity, RequestError>(s),
        forall|w: WireSeverity| #[trigger] strict_severity(w) matches Ok(s) ==> severity_to_wire(s) == w,
        forall|p: Priority| #[trigger] strict_priority(priority_to_wire(p)) == Ok::<Priority, RequestError>(p),
        forall|w: WirePriority| #[trigger] strict_priority(w) matches Ok(p) ==> priority_to_wire(p) == w,
        forall|t: RecommendationType|
            #[trigger] strict_recommendation_type(recommendation_type_to_wire(t)) == Ok::<
                RecommendationType,
                RequestError,
            >(t),
        forall|w: WireRecommendationType|
            #[trigger] strict_recommendation_type(w) matches Ok(t) ==> recommendation_type_to_wire(t) == w,
        forall|k: RecommendationStatusKind|
            #[trigger] strict_status_kind(status_kind_to_wire(k)) == Ok::<RecommendationStatusKind, RequestError>(
                k,
            ),
        forall|w: WireStatusKind| #[trigger] strict_status_kind(w) matches Ok(k) ==> status_kind_to_wire(k) == w,
{
}

// ---------------------------------------------------------------------------
// Samples to record.

/// A metric sample as it arrives to be recorded; `reading` carries the
/// measured value.
#[derive(Debug, Clone)]
pub struct WireMetricSample<P> {
    pub cluster_id: String,
    pub resource_type: Option<WireResourceType>,
    pub resource_id: String,
    pub metric_type: Option<WireMetricType>,
    pub timestamp: i64,
    pub unit: String,
    pub reading: P,
}

/// The resource type of a recorded sample; an unspecified one is taken for
/// a pod.
pub open spec fn sample_resource(w: WireResourceType) -> ResourceType {
    match w {
        WireResourceType::Node => ResourceType::Node,
        WireResourceType::Container => ResourceType::Container,
        WireResourceType::Service => ResourceType::Service,
        _ => ResourceType::Pod,
    }
}

/// Whether both enum codes of a sample are known.
pub open spec fn sample_known<P>(w: WireMetricSample<P>) -> bool {
    w.resource_type is Some && w.metric_type is Some
}

/// The domain sample of a wire sample whose codes are known: every field
/// as sent, an unspecified resource type read as a pod and an unspecified
/// metric type as CPU usage.
pub open spec fn sample_of<P>(w: WireMetricSample<P>) -> MetricSample<P> {
    MetricSample {
        cluster_id: w.cluster_id,
        resource_type: sample_resource(w.resource_type->0),
        resource_id: w.resource_id,
        metric_type: metric_from_wire(w.metric_type),
        timestamp: w.timestamp,
        unit: w.unit,
        reading: w.reading,
    }
}

/// Reads one sample to record; a sample with an unknown enum code is
/// refused.
pub fn sample_from_wire<P>(val: WireMetricSample<P>) -> (r: Result<MetricSample<P>, RequestError>)
    ensures
        sample_known(val) ==> (r matches Ok(s) && s == sample_of(val)),
        !sample_known(val) ==> (r matches Err(e) && e == RequestError::UnknownEnumValue),
{
    let resource_type = match val.resource_type {
        None => { return Err(RequestError::UnknownEnumValue); },
        Some(WireResourceType::Node) => ResourceType::Node,
        Some(WireResourceType::Container) => ResourceType::Container,
        Some(WireResourceType::Service) => ResourceType::Service,
        Some(_) => ResourceType::Pod,
    };
    let metric_type = match val.metric_type {
        None => { return Err(RequestError::UnknownEnumValue); },
        Some(WireMetricType::MemoryUsage) => MetricType::MemoryUsage,
        Some(WireMetricType::NetworkIn) => MetricType::NetworkIn,
        Some(WireMetricType::NetworkOut) => MetricType::NetworkOut,
        Some(WireMetricType::DiskRead) => MetricType::DiskRead,
        Some(WireMetricType::DiskWrite) => MetricType::DiskWrite,
        Some(_) => MetricType::CpuUsage,
    };
    Ok(MetricSample {
        cluster_id: val.cluster_id,
        resource_type,
        resource_id: val.resource_id,
        metric_type,
        timestamp: val.timestamp,
        unit: val.unit,
        reading: val.reading,
    })
}

/// Reads a batch of samples to record, in order; the batch is refused as a
/// whole if any sample holds an unknown enum code.
pub fn samples_from_wire<P>(samples: Vec<WireMetricSample<P>>) -> (r: Result<Vec<MetricSample<P>>, RequestError>)
    ensures
        (forall|i: int| 0 <= i < samples@.len() ==> #[trigger] sample_known(samples@[i])) ==> (r matches Ok(v)
            && v@.len() == samples@.len() && forall|i: int|
            0 <= i < samples@.len() ==> #[trigger] v@[i] == sample_of(samples@[i])),
        (exists|i: int| 0 <= i < samples@.len() && !#[trigger] sample_known(samples@[i])) ==> (r matches Err(e)
            && e == RequestError::UnknownEnumValue),
{
    let ghost all = samples@;
    let n = samples.len();
    assert(all.len() == n);
    let mut rest = samples;
    let mut out: Vec<MetricSample<P>> = Vec::new();
    let mut k: usize = 0;
    while rest.len() > 0
        invariant
            k + rest@.len() == all.len(),
            all.len() <= usize::MAX,
            all == samples@,
            rest@ == all.skip(k as int),
            out@.len() == k,
            forall|i: int| 0 <= i < k ==> #[trigger] sample_known(all[i]),
            forall|i: int| 0 <= i < k ==> #[trigger] out@[i] == sample_of(all[i]),
        decreases rest@.len(),
    {
        let w = rest.remove(0);
        proof {
            assert(w == all[k as int]);
            assert(rest@ =~= all.skip(k + 1));
        }
        match sample_from_wire(w) {
            Ok(s) => { out.push(s); },
            Err(e) => {
                proof { assert(!sample_known(all[k as int])); }
                return Err(e);
            },
        }
        k = k + 1;
    }
    Ok(out)
}

// ---------------------------------------------------------------------------
// Queries.

/// A request for aggregated metrics as it arrives.
#[derive(Debug, Clone)]
pub struct WireAggregatedRequest {
    pub cluster_id: Option<String>,
    pub resource_type: Option<Option<WireResourceType>>,
    pub metric_types: Vec<Option<WireMetricType>>,
    pub window_duration_ms: i64,
    pub time_range: Option<TimeRange>,
}

/// The resource type an aggregation asks for: none if it names none, and
/// refused if it names one by an unknown code or leaves it unspecified.
pub open spec fn requested_resource(w: Option<Option<WireResourceType>>) -> Result<Option<ResourceType>, RequestError> {
    match w {
        None => Ok(None),
        Some(None) => Err(RequestError::InvalidResourceType),
        Some(Some(x)) => match strict_resource(x) {
            Ok(t) => Ok(Some(t)),
            Err(e) => Err(e),
        },
    }
}

/// One metric type a request asks for: refused if its code is unknown or
/// it is unspecified.
pub open spec fn requested_metric(w: Option<WireMetricType>) -> Result<MetricType, RequestError> {
    match w {
        None => Err(RequestError::InvalidMetricType),
        Some(x) => strict_metric(x),
    }
}

/// The metric types an aggregation asks for, in order; refused with the
/// error of the first one refused.
pub open spec fn requested_metrics(ws: Seq<Option<WireMetricType>>) -> Result<Seq<MetricType>, RequestError>
    decreases ws.len(),
{
    if ws.len() == 0 {
        Ok(Seq::empty())
    } else {
        match requested_metrics(ws.drop_last()) {
            Err(e) => Err(e),
            Ok(s) => match requested_metric(ws.last()) {
                Err(e) => Err(e),
                Ok(m) => Ok(s.push(m)),
            },
        }
    }
}

fn requested_metric_exec(w: Option<WireMetricType>) -> (r: Result<MetricType, RequestError>)
    ensures
        r == requested_metric(w),
{
    match w {
        None => Err(RequestError::InvalidMetricType),
        Some(x) => metric_type_from_wire(x),
    }
}

/// Reads an aggregation request. The resource type is read first, then the
/// metric types in order; the first refusal answers the request. The window
/// length is the sent count of milliseconds taken as unsigned (two's
/// complement, as a cast does).
pub fn aggregated_query_from_wire(val: WireAggregatedRequest) -> (r: Result<AggregatedQuery, RequestError>)
    ensures
        requested_resource(val.resource_type) matches Err(e) ==> (r matches Err(x) && x == e),
        requested_resource(val.resource_type) is Ok ==> (requested_metrics(val.metric_types@) matches Err(e) ==> (
        r matches Err(x) && x == e)),
        requested_resource(val.resource_type) matches Ok(rt) ==> (requested_metrics(val.metric_types@) matches Ok(
            ms,
        ) ==> (r matches Ok(q) && q.cluster_id == val.cluster_id && q.resource_type == rt && q.metric_types@ == ms
            && q.window_duration_ms == (#[verifier::truncate] (val.window_duration_ms as u64)) && q.time_range == val.time_range)),
{
    let resource_type = match val.resource_type {
        None => None,
        Some(None) => { return Err(RequestError::InvalidResourceType); },
        Some(Some(x)) => match resource_type_from_wire(x) {
            Ok(t) => Some(t),
            Err(e) => { return Err(e); },
        },
    };
    assert(requested_resource(val.resource_type) == Ok::<Option<ResourceType>, RequestError>(resource_type));
    let ghost ws = val.metric_types@;
    let mut metric_types: Vec<MetricType> = Vec::new();
    let mut i: usize = 0;
    while i < val.metric_types.len()
        invariant
            0 <= i <= val.metric_types.len(),
            ws == val.metric_types@,
            requested_resource(val.resource_type) is Ok,
            requested_metrics(ws.take(i as int)) == Ok::<Seq<MetricType>, RequestError>(metric_types@),
        decreases val.metric_types.len() - i,
    {
        proof {
            assert(ws.take(i + 1).drop_last() =~= ws.take(i as int));
            assert(ws.take(i + 1).last() == ws[i as int]);
        }
        match requested_metric_exec(val.metric_types[i]) {
            Ok(m) => { metric_types.push(m); },
            Err(e) => {
                proof { lemma_requested_metrics_err(ws, i as int + 1, e); }
                return Err(e);
            },
        }
        i = i + 1;
    }
    proof { assert(ws.take(ws.len() as int) =~= ws); }
    Ok(AggregatedQuery {
        cluster_id: val.cluster_id,
        resource_type,
        metric_types,
        window_duration_ms: #[verifier::truncate] (val.window_duration_ms as u64),
        time_range: val.time_range,
    })
}

/// A refusal among the first `n` metric types is the refusal of all of them.
proof fn lemma_requested_metrics_err(ws: Seq<Option<WireMetricType>>, n: int, e: RequestError)
    requires
        0 <= n <= ws.len(),
        requested_metrics(ws.take(n)) == Err::<Seq<MetricType>, RequestError>(e),
    ensures
        requested_metrics(ws) == Err::<Seq<MetricType>, RequestError>(e),
    decreases ws.len() - n,
{
    if n < ws.len() {
        assert(ws.take(n + 1).drop_last() =~= ws.take(n));
        lemma_requested_metrics_err(ws, n + 1, e);
    } else {
        assert(ws.take(n) =~= ws);
    }
}

/// A request for raw samples as it arrives.
#[derive(Debug, Clone)]
pub struct WireMetricsRequest {
    pub cluster_id: Option<String>,
    pub resource_type: Option<Option<WireResourceType>>,
    pub resource_ids: Vec<String>,
    pub metric_types: Vec<Option<WireMetricType>>,
    pub time_range: Option<TimeRange>,
}

/// A resource type read leniently: what cannot be read is no filter.
pub open spec fn lenient_resource(w: Option<Option<WireResourceType>>) -> Option<ResourceType> {
    match requested_resource(w) {
        Ok(t) => t,
        Err(_) => None,
    }
}

/// The metric types that can be read, in order; the others are dropped.
pub open spec fn kept_metrics(ws: Seq<Option<WireMetricType>>) -> Seq<MetricType>
    decreases ws.len(),
{
    if ws.len() == 0 {
        Seq::empty()
    } else {
        match requested_metric(ws.last()) {
            Ok(m) => kept_metrics(ws.drop_last()).push(m),
            Err(_) => kept_metrics(ws.drop_last()),
        }
    }
}

fn lenient_resource_exec(w: Option<Option<WireResourceType>>) -> (r: Option<ResourceType>)
    ensures
        r == lenient_resource(w),
{
    match w {
        Some(Some(x)) => match resource_type_from_wire(x) {
            Ok(t) => Some(t),
            Err(_) => None,
        },
        _ => None,
    }
}

/// Reads a request for raw samples; it is never refused: a resource type
/// or metric type that cannot be read is dropped.
pub fn metrics_query_from_wire(val: WireMetricsRequest) -> (q: MetricsQuery)
    ensures
        q.cluster_id == val.cluster_id,
        q.resource_type == lenient_resource(val.resource_type),
        q.resource_ids@ == val.resource_ids@,
        q.metric_types@ == kept_metrics(val.metric_types@),
        q.time_range == val.time_range,
{
    let ghost ws = val.metric_types@;
    let mut metric_types: Vec<MetricType> = Vec::new();
    let mut i: usize = 0;
    while i < val.metric_types.len()
        invariant
            0 <= i <= val.metric_types.len(),
            ws == val.metric_types@,
            kept_metrics(ws.take(i as int)) == metric_types@,
        decreases val.metric_types.len() - i,
    {
        proof {
            assert(ws.take(i + 1).drop_last() =~= ws.take(i as int));
            assert(ws.take(i + 1).last() == ws[i as int]);
        }
        match requested_metric_exec(val.metric_types[i]) {
            Ok(m) => { metric_types.push(m); },
            Err(_) => {},
        }
        i = i + 1;
    }
    proof { assert(ws.take(ws.len() as int) =~= ws); }
    MetricsQuery {
        cluster_id: val.cluster_id,
        resource_type: lenient_resource_exec(val.resource_type),
        resource_ids: val.resource_ids,
        metric_types,
        time_range: val.time_range,
    }
}

/// A request for anomalies as it arrives.
#[derive(Debug, Clone)]
pub struct WireAnomaliesRequest {
    pub cluster_id: Option<String>,
    pub resource_id: Option<String>,
    pub metric_type: Option<Option<WireMetricType>>,
    pub severity: Option<Option<WireSeverity>>,
    pub time_range: Option<TimeRange>,
    pub limit: Option<u32>,
}

/// A metric type read leniently: what cannot be read is no filter.
pub open spec fn lenient_metric(w: Option<Option<WireMetricType>>) -> Option<MetricType> {
    match w {
        Some(Some(x)) => match strict_metric(x) {
            Ok(t) => Some(t),
            Err(_) => None,
        },
        _ => None,
    }
}

/// A severity read leniently: what cannot be read is no filter.
pub open spec fn lenient_severity(w: Option<Option<WireSeverity>>) -> Option<Severity> {
    match w {
        Some(Some(x)) => match strict_severity(x) {
            Ok(t) => Some(t),
            Err(_) => None,
        },
        _ => None,
    }
}

/// Reads a request for anomalies; it is never refused: a metric type or
/// severity that cannot be read is no filter.
pub fn anomaly_filter_from_wire(val: WireAnomaliesRequest) -> (f: AnomalyFilter)
    ensures
        f.cluster_id == val.cluster_id,
        f.resource_id == val.resource_id,
        f.metric_type == lenient_metric(val.metric_type),
        f.severity == lenient_severity(val.severity),
        f.time_range == val.time_range,
        f.limit == val.limit,
{
    let metric_type = match val.metric_type {
        Some(Some(x)) => match metric_type_from_wire(x) {
            Ok(t) => Some(t),
            Err(_) => None,
        },
        _ => None,
    };
    let severity = match val.severity {
        Some(Some(x)) => match severity_from_wire(x) {
            Ok(t) => Some(t),
            Err(_) => None,
        },
        _ => None,
    };
    AnomalyFilter {
        cluster_id: val.cluster_id,
        resource_id: val.resource_id,
        metric_type,
        severity,
        time_range: val.time_range,
        limit: val.limit,
    }
}

/// A request for recommendations as it arrives.
#[derive(Debug, Clone)]
pub struct WireRecommendationsRequest {
    pub cluster_id: Option<String>,
    pub priority: Option<Option<WirePriority>>,
    pub status: Option<Option<WireStatusKind>>,
    pub limit: Option<u32>,
}

/// A priority read leniently: what cannot be read is no filter.
pub open spec fn lenient_priority(w: Option<Option<WirePriority>>) -> Option<Priority> {
    match w {
        Some(Some(x)) => match strict_priority(x) {
            Ok(t) => Some(t),
            Err(_) => None,
        },
        _ => None,
    }
}

/// A status kind read leniently: what cannot be read is no filter.
pub open spec fn lenient_status_kind(w: Option<Option<WireStatusKind>>) -> Option<RecommendationStatusKind> {
    match w {
        Some(Some(x)) => match strict_status_kind(x) {
            Ok(t) => Some(t),
            Err(_) => None,
        },
        _ => None,
    }
}

/// Reads a request for recommendations; it is never refused: a priority or
/// status that cannot be read is no filter.
pub fn recommendation_filter_from_wire(val: WireRecommendationsRequest) -> (f: RecommendationFilter)
    ensures
        f.cluster_id == val.cluster_id,
        f.priority == lenient_priority(val.priority),
        f.status == lenient_status_kind(val.status),
        f.limit == val.limit,
{
    let priority = match val.priority {
        Some(Some(x)) => match priority_from_wire(x) {
            Ok(t) => Some(t),
            Err(_) => None,
        },
        _ => None,
    };
    let status = match val.status {
        Some(Some(x)) => match status_kind_from_wire(x) {
            Ok(t) => Some(t),
            Err(_) => None,
        },
        _ => None,
    };
    RecommendationFilter { cluster_id: val.cluster_id, priority, status, limit: val.limit }
}

/// A request for one time series as it arrives.
#[derive(Debug, Clone)]
pub struct WireSeriesRequest {
    pub resource_id: String,
    pub metric_type: Option<WireMetricType>,
    pub time_range: Option<TimeRange>,
}

/// Reads a request for one time series: the metric type is read first and
/// refused if unknown or unspecified, then a missing time range is refused.
pub fn series_request_from_wire(val: WireSeriesRequest) -> (r: Result<(String, MetricType, TimeRange), RequestError>)
    ensures
        requested_metric(val.metric_type) matches Err(e) ==> (r matches Err(x) && x == e),
        requested_metric(val.metric_type) is Ok && val.time_range is None ==> (r matches Err(x) && x
            == RequestError::MissingTimeRange),
        requested_metric(val.metric_type) matches Ok(m) ==> (val.time_range matches Some(range) ==> (r matches Ok(
            t,
        ) && t.0 == val.resource_id && t.1 == m && t.2 == range)),
{
    let metric_type = match requested_metric_exec(val.metric_type) {
        Ok(m) => m,
        Err(e) => { return Err(e); },
    };
    match val.time_range {
        None => Err(RequestError::MissingTimeRange),
        Some(range) => Ok((val.resource_id, metric_type, range)),
    }
}

/// The series on which to run anomaly detection before answering `filter`:
/// only a filter that names a resource, a metric type and a time range
/// starts one, for exactly those.
pub fn detection_target(filter: &AnomalyFilter) -> (r: Option<(String, MetricType, TimeRange)>)
    ensures
        r is Some <==> (filter.resource_id is Some && filter.metric_type is Some && filter.time_range is Some),
        r matches Some(t) ==> (filter.resource_id matches Some(id) && t.0@ == id@ && filter.metric_type == Some(t.1)
            && filter.time_range == Some(t.2)),
{
    match (&filter.resource_id, filter.metric_type, filter.time_range) {
        (Some(id), Some(m), Some(range)) => Some((id.clone(), m, range)),
        _ => None,
    }
}

/// Replies and recorded samples read their enums as the strict reading does
/// wherever it succeeds; only an unknown or unspecified value falls back: a
/// metric type to CPU usage, a severity to info, a resource type to a pod.
pub proof fn lemma_lenient_readings_agree()
    ensures
        forall|w: WireMetricType| #[trigger] strict_metric(w) matches Ok(t) ==> metric_from_wire(Some(w)) == t,
        metric_from_wire(None) == MetricType::CpuUsage,
        metric_from_wire(Some(WireMetricType::Unspecified)) == MetricType::CpuUsage,
        forall|w: WireSeverity| #[trigger] strict_severity(w) matches Ok(t) ==> crate::wire::severity_from_wire(Some(w)) == t,
        crate::wire::severity_from_wire(None) == Severity::Info,
        crate::wire::severity_from_wire(Some(WireSeverity::Unspecified)) == Severity::Info,
        forall|w: WireResourceType| #[trigger] strict_resource(w) matches Ok(t) ==> sample_resource(w) == t,
        sample_resource(WireResourceType::Unspecified) == ResourceType::Pod,
{
}

/// The metric types an aggregation asks for are accepted exactly when each
/// of them has a known code and is specified; then they are read one for
/// one, in order. Otherwise the refusal is that of the first one that
/// cannot be read: an unknown code is an invalid metric type.
pub proof fn lemma_requested_metrics(ws: Seq<Option<WireMetricType>>)
    ensures
        requested_metrics(ws) is Ok <==> forall|i: int|
            0 <= i < ws.len() ==> (#[trigger] ws[i] is Some && ws[i]->Some_0 != WireMetricType::Unspecified),
        requested_metrics(ws) matches Ok(ms) ==> ms.len() == ws.len() && forall|i: int|
            0 <= i < ws.len() ==> metric_to_wire(#[trigger] ms[i]) == ws[i]->Some_0,
        requested_metrics(ws) matches Err(e) ==> exists|i: int|
            0 <= i < ws.len() && (forall|k: int|
                0 <= k < i ==> (#[trigger] ws[k] is Some && ws[k]->Some_0 != WireMetricType::Unspecified)) && (
            #[trigger] ws[i] is None ==> e == RequestError::InvalidMetricType) && (ws[i] == Some(
                WireMetricType::Unspecified,
            ) ==> e == RequestError::UnspecifiedMetricType) && (ws[i] is None || ws[i] == Some(
                WireMetricType::Unspecified,
            )),
    decreases ws.len(),
{
    lemma_wire_names_round_trip();
    if ws.len() > 0 {
        let prev = ws.drop_last();
        lemma_requested_metrics(prev);
        assert forall|k: int| 0 <= k < prev.len() implies #[trigger] ws[k] == prev[k] by {}
        match requested_metrics(prev) {
            Err(e) => {
                let i = choose|i: int|
                    0 <= i < prev.len() && (forall|k: int|
                        0 <= k < i ==> (#[trigger] prev[k] is Some && prev[k]->Some_0 != WireMetricType::Unspecified)) && (
                    #[trigger] prev[i] is None ==> e == RequestError::InvalidMetricType) && (prev[i] == Some(
                        WireMetricType::Unspecified,
                    ) ==> e == RequestError::UnspecifiedMetricType) && (prev[i] is None || prev[i] == Some(
                        WireMetricType::Unspecified,
                    ));
                assert(ws[i] == prev[i]);
                assert(!((ws[i] is Some && ws[i]->Some_0 != WireMetricType::Unspecified)));
            },
            Ok(ms) => {
                let last = ws.last();
                if !(last is Some && last->Some_0 != WireMetricType::Unspecified) {
                    assert(ws[ws.len() - 1] == last);
                }
            },
        }
    }
}

/// The metric types a raw-sample query keeps are exactly those of the
/// request that have a known code and are specified, in request order.
pub proof fn lemma_kept_metrics(ws: Seq<Option<WireMetricType>>)
    ensures
        kept_metrics(ws).len() <= ws.len(),
        forall|i: int|
            0 <= i < kept_metrics(ws).len() ==> exists|j: int|
                0 <= j < ws.len() && #[trigger] ws[j] == Some(metric_to_wire(#[trigger] kept_metrics(ws)[i])),
        forall|j: int|
            0 <= j < ws.len() && (#[trigger] ws[j] is Some && ws[j]->Some_0 != WireMetricType::Unspecified)
                ==> exists|i: int|
                0 <= i < kept_metrics(ws).len() && metric_to_wire(#[trigger] kept_metrics(ws)[i]) == ws[j]->Some_0,
    decreases ws.len(),
{
    lemma_wire_names_round_trip();
    if ws.len() > 0 {
        let prev = ws.drop_last();
        lemma_kept_metrics(prev);
        let kp = kept_metrics(prev);
        let kc = kept_metrics(ws);
        assert forall|k: int| 0 <= k < prev.len() implies #[trigger] ws[k] == prev[k] by {}
        assert forall|i: int| 0 <= i < kc.len() implies exists|j: int|
            0 <= j < ws.len() && #[trigger] ws[j] == Some(metric_to_wire(#[trigger] kc[i])) by {
            if i < kp.len() {
                assert(kc[i] == kp[i]);
                let j = choose|j: int| 0 <= j < prev.len() && #[trigger] prev[j] == Some(metric_to_wire(kp[i]));
                assert(ws[j] == prev[j]);
            } else {
                assert(ws[ws.len() - 1] == ws.last());
            }
        }
        assert forall|j: int|
            0 <= j < ws.len() && (#[trigger] ws[j] is Some && ws[j]->Some_0 != WireMetricType::Unspecified)
                implies exists|i: int| 0 <= i < kc.len() && metric_to_wire(#[trigger] kc[i]) == ws[j]->Some_0 by {
            if j < prev.len() {
                assert(prev[j] == ws[j]);
                let i = choose|i: int| 0 <= i < kp.len() && metric_to_wire(#[trigger] kp[i]) == prev[j]->Some_0;
                assert(kc[i] == kp[i]);
            } else {
                assert(kc[kc.len() - 1] == strict_metric(ws[j]->Some_0)->Ok_0);
            }
        }
    }
}

} // verus!
