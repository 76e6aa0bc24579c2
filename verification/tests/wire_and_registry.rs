use rotappo::actions::{ActionId, ActionRegistry, ActionSafety};
use rotappo::domain::{
    MetricType, Priority, Recommendation, RecommendationAction, RecommendationStatus, RecommendationType,
    ResourceLimits, Severity,
};
use rotappo::health::{health_snapshot, HealthStatus, LiveStatus, ModuleCheck};
use rotappo::series::{TimeSeries, TimeSeriesPoint};
use rotappo::wire::{
    anomaly_from_reply, anomaly_request, recommendation_to_wire, WireAction, WireAnomaly, WireMetricType,
    WirePriority, WireRecommendationType, WireSeverity, WireStatus,
};

fn series(points: Vec<(i64, f64)>) -> TimeSeries<f64> {
    TimeSeries {
        cluster_id: "c1".to_string(),
        resource_id: "pod-a".to_string(),
        metric_type: MetricType::NetworkOut,
        unit: "bytes".to_string(),
        points: points.into_iter().map(|(timestamp, value)| TimeSeriesPoint { timestamp, value }).collect(),
    }
}

fn wire_anomaly(metric: Option<WireMetricType>, sev: Option<WireSeverity>, root: Option<&str>) -> WireAnomaly<f64> {
    WireAnomaly {
        id: "a1".to_string(),
        cluster_id: "c1".to_string(),
        resource_id: "pod-a".to_string(),
        detected_at: 42,
        metric_type: metric,
        severity: sev,
        description: "spike".to_string(),
        related_metrics: vec!["m".to_string()],
        root_cause: root.map(|s| s.to_string()),
        measures: 0.5,
    }
}

#[test]
fn detection_request_spans_the_points() {
    let r = anomaly_request(&series(vec![(10, 1.0), (20, 2.0), (35, 3.0)]));
    assert_eq!(r.cluster_id, "c1");
    assert_eq!((r.range.start_ms, r.range.end_ms), (10, 35));
    assert_eq!(r.series.len(), 1);
    assert_eq!(r.series[0].metric_type, WireMetricType::NetworkOut);
    assert_eq!(r.series[0].points.len(), 3);
    assert_eq!(r.series[0].points[2].value, 3.0);
    let empty = anomaly_request(&series(vec![]));
    assert_eq!((empty.range.start_ms, empty.range.end_ms), (0, 0));
}

#[test]
fn reply_fallbacks() {
    let d = anomaly_from_reply(wire_anomaly(None, Some(WireSeverity::Unspecified), Some("")));
    assert_eq!(d.metric_type, MetricType::CpuUsage);
    assert_eq!(d.severity, Severity::Info);
    assert!(d.root_cause.is_none());
    let d = anomaly_from_reply(wire_anomaly(Some(WireMetricType::DiskRead), Some(WireSeverity::Critical), Some("disk")));
    assert_eq!(d.metric_type, MetricType::DiskRead);
    assert_eq!(d.severity, Severity::Critical);
    assert_eq!(d.root_cause.as_deref(), Some("disk"));
    assert_eq!((d.id.as_str(), d.detected_at, d.measures), ("a1", 42, 0.5));
    let d = anomaly_from_reply(wire_anomaly(Some(WireMetricType::Unspecified), None, None));
    assert_eq!(d.metric_type, MetricType::CpuUsage);
    assert_eq!(d.severity, Severity::Info);
}

#[test]
fn recommendation_on_the_wire() {
    let rec = Recommendation {
        id: "r1".to_string(),
        cluster_id: "c1".to_string(),
        created_at: 7,
        recommendation_type: RecommendationType::StorageOptimization,
        priority: Priority::Medium,
        title: "t".to_string(),
        description: "d".to_string(),
        impact_estimate: "i".to_string(),
        action: RecommendationAction::UpdateResourceLimits {
            resource: "web".to_string(),
            limits: ResourceLimits { cpu: Some("500m".to_string()), memory: None },
        },
        status: RecommendationStatus::Dismissed { reason: "noise".to_string() },
        estimates: (0.9f64, Some(1.5f64)),
    };
    let w = recommendation_to_wire(rec);
    assert_eq!(w.id, "r1");
    assert_eq!(w.recommendation_type, WireRecommendationType::StorageOptimizations);
    assert_eq!(w.priority, WirePriority::Medium);
    match w.action {
        Some(WireAction::UpdateLimits { resource, limits }) => {
            assert_eq!(resource, "web");
            assert_eq!(limits.unwrap().cpu.as_deref(), Some("500m"));
        }
        other => panic!("unexpected {other:?}"),
    }
    assert!(matches!(w.status, Some(WireStatus::DismissedReason(ref r)) if r == "noise"));
    assert_eq!(w.estimates, (0.9, Some(1.5)));
}

#[test]
fn default_registry_is_the_bootstrappo_registry() {
    let d = ActionRegistry::default();
    let b = ActionRegistry::bootstrappo_default();
    assert_eq!(d.actions().len(), b.actions().len());
    for (x, y) in d.actions().iter().zip(b.actions()) {
        assert_eq!((x.id, x.label, x.description, x.requires_confirmation, x.safety), (y.id, y.label, y.description, y.requires_confirmation, y.safety));
        assert_eq!(x.requires_confirmation, x.safety != ActionSafety::Safe);
    }
    assert_eq!(d.get(ActionId::Nuke).unwrap().safety, ActionSafety::Destructive);
}

#[test]
fn shared_snapshot_reads_the_current_monitor() {
    let mut live = LiveStatus::new();
    assert!(health_snapshot(Some(&live)).health.is_empty());
    live.record_round(vec![ModuleCheck { name: "dns".to_string(), enabled: true, outcome: Ok(HealthStatus::Healthy) }]);
    assert_eq!(health_snapshot(Some(&live)).health.len(), 1);
    assert!(!health_snapshot(None).cache_ready);
}
