use rotappo::assembly::{gate_query, Check, GateKind};
use rotappo::domain::{
    AnomalyFilter, MetricType, Priority, RecommendationStatusKind, RecommendationType, ResourceType, Severity,
    TimeRange,
};
use rotappo::health::{LiveStatus, MonitorStep, POLL_INTERVAL_MS};
use rotappo::requests::{
    aggregated_query_from_wire, anomaly_filter_from_wire, detection_target, metric_type_from_wire,
    metrics_query_from_wire, priority_from_wire, recommendation_filter_from_wire,
    recommendation_type_from_wire, resource_type_from_wire, sample_from_wire, samples_from_wire,
    series_request_from_wire, severity_from_wire, status_kind_from_wire, RequestError, WireAggregatedRequest,
    WireAnomaliesRequest, WireMetricSample, WireMetricsRequest, WireRecommendationsRequest, WireResourceType,
    WireSeriesRequest, WireStatusKind,
};
use rotappo::wire::{WireMetricType, WirePriority, WireRecommendationType, WireSeverity};

fn wire_sample(
    resource_type: Option<WireResourceType>,
    metric_type: Option<WireMetricType>,
    reading: f64,
) -> WireMetricSample<f64> {
    WireMetricSample {
        cluster_id: "c1".to_string(),
        resource_type,
        resource_id: "pod-a".to_string(),
        metric_type,
        timestamp: 1_000,
        unit: "cores".to_string(),
        reading,
    }
}

fn range() -> TimeRange {
    TimeRange { start_ms: 10, end_ms: 20 }
}

#[test]
fn unspecified_enums_are_refused_with_their_message() {
    let e = resource_type_from_wire(WireResourceType::Unspecified).unwrap_err();
    assert_eq!(e, RequestError::UnspecifiedResourceType);
    assert_eq!(e.message(), "unspecified resource type");
    let e = metric_type_from_wire(WireMetricType::Unspecified).unwrap_err();
    assert_eq!(e.message(), "unspecified metric type");
    let e = severity_from_wire(WireSeverity::Unspecified).unwrap_err();
    assert_eq!(e.message(), "unspecified severity");
    let e = priority_from_wire(WirePriority::Unspecified).unwrap_err();
    assert_eq!(e.message(), "unspecified priority");
    let e = recommendation_type_from_wire(WireRecommendationType::Unspecified).unwrap_err();
    assert_eq!(e.message(), "unspecified recommendation type");
    let e = status_kind_from_wire(WireStatusKind::Unspecified).unwrap_err();
    assert_eq!(e.message(), "unspecified recommendation status kind");
}

#[test]
fn known_enums_read_as_their_domain_values() {
    assert_eq!(resource_type_from_wire(WireResourceType::Container), Ok(ResourceType::Container));
    assert_eq!(metric_type_from_wire(WireMetricType::DiskWrite), Ok(MetricType::DiskWrite));
    assert_eq!(severity_from_wire(WireSeverity::Warning), Ok(Severity::Warning));
    assert_eq!(priority_from_wire(WirePriority::Low), Ok(Priority::Low));
    assert_eq!(
        recommendation_type_from_wire(WireRecommendationType::StorageOptimizations),
        Ok(RecommendationType::StorageOptimization)
    );
    assert_eq!(status_kind_from_wire(WireStatusKind::Dismissed), Ok(RecommendationStatusKind::Dismissed));
}

#[test]
fn sample_with_unknown_code_is_refused() {
    let e = sample_from_wire(wire_sample(None, Some(WireMetricType::CpuUsage), 1.0)).unwrap_err();
    assert_eq!(e, RequestError::UnknownEnumValue);
    let e = sample_from_wire(wire_sample(Some(WireResourceType::Pod), None, 1.0)).unwrap_err();
    assert_eq!(e.message(), "unknown enum value");
}

#[test]
fn sample_with_unspecified_types_falls_back() {
    let s = sample_from_wire(wire_sample(Some(WireResourceType::Unspecified), Some(WireMetricType::Unspecified), 2.5))
        .unwrap();
    assert_eq!(s.resource_type, ResourceType::Pod);
    assert_eq!(s.metric_type, MetricType::CpuUsage);
    let s = sample_from_wire(wire_sample(Some(WireResourceType::Node), Some(WireMetricType::NetworkIn), 2.5)).unwrap();
    assert_eq!(s.resource_type, ResourceType::Node);
    assert_eq!(s.metric_type, MetricType::NetworkIn);
    assert_eq!(s.cluster_id, "c1");
    assert_eq!(s.resource_id, "pod-a");
    assert_eq!(s.timestamp, 1_000);
    assert_eq!(s.unit, "cores");
    assert_eq!(s.reading, 2.5);
}

#[test]
fn batch_of_samples_keeps_order_or_is_refused_whole() {
    let ok = samples_from_wire(vec![
        wire_sample(Some(WireResourceType::Pod), Some(WireMetricType::CpuUsage), 1.0),
        wire_sample(Some(WireResourceType::Service), Some(WireMetricType::DiskRead), 2.0),
    ])
    .unwrap();
    assert_eq!(ok.len(), 2);
    assert_eq!(ok[0].reading, 1.0);
    assert_eq!(ok[1].resource_type, ResourceType::Service);
    assert_eq!(ok[1].metric_type, MetricType::DiskRead);
    let err = samples_from_wire(vec![
        wire_sample(Some(WireResourceType::Pod), Some(WireMetricType::CpuUsage), 1.0),
        wire_sample(None, Some(WireMetricType::CpuUsage), 2.0),
    ]);
    assert_eq!(err.unwrap_err(), RequestError::UnknownEnumValue);
}

fn aggregated(
    resource_type: Option<Option<WireResourceType>>,
    metric_types: Vec<Option<WireMetricType>>,
    window: i64,
) -> WireAggregatedRequest {
    WireAggregatedRequest {
        cluster_id: Some("c1".to_string()),
        resource_type,
        metric_types,
        window_duration_ms: window,
        time_range: Some(range()),
    }
}

#[test]
fn aggregation_request_is_read_in_full() {
    let q = aggregated_query_from_wire(aggregated(
        Some(Some(WireResourceType::Pod)),
        vec![Some(WireMetricType::CpuUsage), Some(WireMetricType::MemoryUsage)],
        3_600_000,
    ))
    .unwrap();
    assert_eq!(q.cluster_id.as_deref(), Some("c1"));
    assert_eq!(q.resource_type, Some(ResourceType::Pod));
    assert_eq!(q.metric_types, vec![MetricType::CpuUsage, MetricType::MemoryUsage]);
    assert_eq!(q.window_duration_ms, 3_600_000);
    assert_eq!(q.time_range, Some(range()));
    let q = aggregated_query_from_wire(aggregated(None, vec![], -1)).unwrap();
    assert_eq!(q.resource_type, None);
    assert_eq!(q.window_duration_ms, u64::MAX);
}

#[test]
fn aggregation_request_refusals_come_in_order() {
    let e = aggregated_query_from_wire(aggregated(Some(None), vec![None], 1)).unwrap_err();
    assert_eq!(e.message(), "Invalid resource type");
    let e = aggregated_query_from_wire(aggregated(Some(Some(WireResourceType::Unspecified)), vec![None], 1))
        .unwrap_err();
    assert_eq!(e, RequestError::UnspecifiedResourceType);
    let e = aggregated_query_from_wire(aggregated(
        None,
        vec![Some(WireMetricType::CpuUsage), Some(WireMetricType::Unspecified), None],
        1,
    ))
    .unwrap_err();
    assert_eq!(e, RequestError::UnspecifiedMetricType);
    let e = aggregated_query_from_wire(aggregated(None, vec![None, Some(WireMetricType::Unspecified)], 1))
        .unwrap_err();
    assert_eq!(e.message(), "Invalid metric type");
}

#[test]
fn metrics_request_drops_what_cannot_be_read() {
    let q = metrics_query_from_wire(WireMetricsRequest {
        cluster_id: None,
        resource_type: Some(Some(WireResourceType::Unspecified)),
        resource_ids: vec!["a".to_string(), "b".to_string()],
        metric_types: vec![
            None,
            Some(WireMetricType::NetworkOut),
            Some(WireMetricType::Unspecified),
            Some(WireMetricType::CpuUsage),
        ],
        time_range: None,
    });
    assert_eq!(q.resource_type, None);
    assert_eq!(q.resource_ids, vec!["a".to_string(), "b".to_string()]);
    assert_eq!(q.metric_types, vec![MetricType::NetworkOut, MetricType::CpuUsage]);
    let q = metrics_query_from_wire(WireMetricsRequest {
        cluster_id: Some("c".to_string()),
        resource_type: Some(Some(WireResourceType::Service)),
        resource_ids: vec![],
        metric_types: vec![],
        time_range: Some(range()),
    });
    assert_eq!(q.resource_type, Some(ResourceType::Service));
    assert_eq!(q.time_range, Some(range()));
}

#[test]
fn anomaly_and_recommendation_filters_read_leniently() {
    let f = anomaly_filter_from_wire(WireAnomaliesRequest {
        cluster_id: Some("c".to_string()),
        resource_id: Some("r".to_string()),
        metric_type: Some(Some(WireMetricType::Unspecified)),
        severity: Some(Some(WireSeverity::Critical)),
        time_range: Some(range()),
        limit: Some(3),
    });
    assert_eq!(f.metric_type, None);
    assert_eq!(f.severity, Some(Severity::Critical));
    assert_eq!(f.limit, Some(3));
    assert_eq!(f.resource_id.as_deref(), Some("r"));
    let f = anomaly_filter_from_wire(WireAnomaliesRequest {
        cluster_id: None,
        resource_id: None,
        metric_type: Some(Some(WireMetricType::DiskRead)),
        severity: Some(None),
        time_range: None,
        limit: None,
    });
    assert_eq!(f.metric_type, Some(MetricType::DiskRead));
    assert_eq!(f.severity, None);
    let f = recommendation_filter_from_wire(WireRecommendationsRequest {
        cluster_id: Some("c".to_string()),
        priority: Some(Some(WirePriority::High)),
        status: Some(Some(WireStatusKind::Unspecified)),
        limit: Some(1),
    });
    assert_eq!(f.priority, Some(Priority::High));
    assert_eq!(f.status, None);
    assert_eq!(f.limit, Some(1));
    let f = recommendation_filter_from_wire(WireRecommendationsRequest {
        cluster_id: None,
        priority: Some(None),
        status: Some(Some(WireStatusKind::Scheduled)),
        limit: None,
    });
    assert_eq!(f.priority, None);
    assert_eq!(f.status, Some(RecommendationStatusKind::Scheduled));
}

#[test]
fn series_request_checks_metric_then_range() {
    let e = series_request_from_wire(WireSeriesRequest {
        resource_id: "r".to_string(),
        metric_type: None,
        time_range: None,
    })
    .unwrap_err();
    assert_eq!(e.message(), "Invalid metric type");
    let e = series_request_from_wire(WireSeriesRequest {
        resource_id: "r".to_string(),
        metric_type: Some(WireMetricType::CpuUsage),
        time_range: None,
    })
    .unwrap_err();
    assert_eq!(e.message(), "missing time range");
    let (id, m, r) = series_request_from_wire(WireSeriesRequest {
        resource_id: "r".to_string(),
        metric_type: Some(WireMetricType::MemoryUsage),
        time_range: Some(range()),
    })
    .unwrap();
    assert_eq!(id, "r");
    assert_eq!(m, MetricType::MemoryUsage);
    assert_eq!(r, range());
}

#[test]
fn detection_runs_only_for_specific_filters() {
    let mut f = AnomalyFilter::default();
    assert!(detection_target(&f).is_none());
    f.resource_id = Some("pod-a".to_string());
    f.metric_type = Some(MetricType::CpuUsage);
    assert!(detection_target(&f).is_none());
    f.time_range = Some(range());
    let (id, m, r) = detection_target(&f).unwrap();
    assert_eq!(id, "pod-a");
    assert_eq!(m, MetricType::CpuUsage);
    assert_eq!(r, range());
}

#[test]
fn each_gate_asks_its_own_question() {
    let q = gate_query(&Check::SecretExists { namespace: "ns".to_string(), name: "s".to_string() }).unwrap();
    assert_eq!(q.kind, GateKind::SecretReady);
    assert_eq!(q.namespace.as_deref(), Some("ns"));
    assert_eq!(q.name, "s");
    let q = gate_query(&Check::CrdEstablished { name: "crd".to_string() }).unwrap();
    assert_eq!(q.kind, GateKind::CrdEstablished);
    assert_eq!(q.namespace, None);
    let q = gate_query(&Check::DeploymentReady { namespace: "n".to_string(), name: "d".to_string() }).unwrap();
    assert_eq!(q.kind, GateKind::DeploymentReady);
    assert!(gate_query(&Check::OidcValid).is_none());
}

#[test]
fn monitor_polls_until_stopped() {
    let mut live = LiveStatus::new();
    assert_eq!(live.next_step(), MonitorStep::Poll);
    live.stop();
    assert_eq!(live.next_step(), MonitorStep::Stop);
    assert_eq!(POLL_INTERVAL_MS, 15_000);
}

#[test]
fn schedule_refusal_names_the_missing_id() {
    assert_eq!(rotappo::scheduler::ScheduleError::MissingId.message(), "scheduled action id is required");
}
