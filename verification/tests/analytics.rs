use rotappo::aggregate::{group_by_window, Aggregator};
use rotappo::codec::{
    decode_metric_type, decode_resource_type, decode_severity, encode_metric_type,
    encode_resource_type, encode_severity, DecodeError,
};
use rotappo::domain::{
    AggregatedMetric, AggregatedQuery, Anomaly, AnomalyFilter, MetricSample, MetricType, MetricsQuery,
    Priority, Recommendation, RecommendationAction, RecommendationFilter, RecommendationStatus,
    RecommendationStatusKind, RecommendationType, ResourceType, Severity, TimeRange,
};
use rotappo::query::{
    filter_aggregated, filter_metrics, matches_metrics_query, select_anomalies,
    select_recommendations, timestamp_in_range,
};

fn sample(cluster: &str, id: &str, t: MetricType, ts: i64, v: f64) -> MetricSample<f64> {
    MetricSample {
        cluster_id: cluster.to_string(),
        resource_type: ResourceType::Pod,
        resource_id: id.to_string(),
        metric_type: t,
        timestamp: ts,
        unit: "cores".to_string(),
        reading: v,
    }
}

fn anomaly(id: &str, cluster: &str, sev: Severity, at: i64) -> Anomaly<f64> {
    Anomaly {
        id: id.to_string(),
        cluster_id: cluster.to_string(),
        resource_id: "pod-a".to_string(),
        detected_at: at,
        metric_type: MetricType::CpuUsage,
        severity: sev,
        description: "spike".to_string(),
        related_metrics: vec![],
        root_cause: None,
        measures: 0.9,
    }
}

fn recommendation(id: &str, p: Priority, status: RecommendationStatus) -> Recommendation<f64> {
    Recommendation {
        id: id.to_string(),
        cluster_id: "c1".to_string(),
        created_at: 0,
        recommendation_type: RecommendationType::ScaleUp,
        priority: p,
        title: "t".to_string(),
        description: "d".to_string(),
        impact_estimate: "i".to_string(),
        action: RecommendationAction::ScaleDeployment { name: "web".to_string(), from: 1, to: 2 },
        status,
        estimates: 1.0,
    }
}

#[test]
fn time_range_bounds_are_inclusive() {
    let r = TimeRange { start_ms: 10, end_ms: 20 };
    assert!(timestamp_in_range(10, &r));
    assert!(timestamp_in_range(20, &r));
    assert!(!timestamp_in_range(21, &r));
    assert!(!timestamp_in_range(15, &TimeRange { start_ms: 20, end_ms: 10 }));
}

#[test]
fn duration_saturates() {
    assert_eq!(TimeRange { start_ms: 5, end_ms: 15 }.duration_ms(), 10);
    assert_eq!(TimeRange { start_ms: i64::MIN, end_ms: i64::MAX }.duration_ms(), i64::MAX);
    assert_eq!(TimeRange { start_ms: i64::MAX, end_ms: i64::MIN }.duration_ms(), i64::MIN);
}

#[test]
fn last_hour_window() {
    let r = TimeRange::last_hour(10_000_000);
    assert_eq!((r.start_ms, r.end_ms), (6_400_000, 10_000_000));
}

#[test]
fn sqlite_inserts_and_queries_metrics() {
    let stored = vec![sample("cluster-1", "pod-a", MetricType::CpuUsage, 1_000, 0.42)];
    let results = filter_metrics(
        stored,
        &MetricsQuery {
            cluster_id: Some("cluster-1".to_string()),
            resource_type: Some(ResourceType::Pod),
            resource_ids: vec!["pod-a".to_string()],
            metric_types: vec![MetricType::CpuUsage],
            time_range: None,
        },
    );
    assert_eq!(results.len(), 1);
    assert_eq!(results[0].resource_id, "pod-a");
}

#[test]
fn metrics_filter_applies_every_constraint() {
    let stored = vec![
        sample("c1", "a", MetricType::CpuUsage, 100, 1.0),
        sample("c1", "b", MetricType::MemoryUsage, 200, 2.0),
        sample("c2", "a", MetricType::CpuUsage, 300, 3.0),
    ];
    let q = MetricsQuery {
        cluster_id: Some("c1".to_string()),
        resource_type: None,
        resource_ids: vec![],
        metric_types: vec![],
        time_range: Some(TimeRange { start_ms: 0, end_ms: 150 }),
    };
    assert!(matches_metrics_query(&stored[0], &q));
    assert!(!matches_metrics_query(&stored[1], &q));
    let kept = filter_metrics(stored, &q);
    assert_eq!(kept.len(), 1);
    assert_eq!(kept[0].reading, 1.0);
    assert_eq!(filter_metrics(vec![sample("c", "x", MetricType::DiskRead, 0, 0.0)], &MetricsQuery::default()).len(), 1);
}

#[test]
fn aggregates_filter_by_window_start() {
    let m = |start: i64, t: MetricType| AggregatedMetric {
        cluster_id: "c".to_string(),
        resource_type: ResourceType::Node,
        metric_type: t,
        window_start: start,
        window_duration_ms: 60_000,
        count: 1,
        stats: (0.0f64, 1.0f64),
    };
    let q = AggregatedQuery {
        cluster_id: None,
        resource_type: Some(ResourceType::Node),
        metric_types: vec![MetricType::CpuUsage],
        window_duration_ms: 60_000,
        time_range: Some(TimeRange { start_ms: 0, end_ms: 60_000 }),
    };
    let kept = filter_aggregated(
        vec![m(0, MetricType::CpuUsage), m(120_000, MetricType::CpuUsage), m(60_000, MetricType::NetworkIn)],
        &q,
    );
    assert_eq!(kept.len(), 1);
    assert_eq!(kept[0].window_start, 0);
}

#[test]
fn anomaly_selection_filters_then_limits() {
    let store = vec![
        anomaly("1", "c1", Severity::Critical, 10),
        anomaly("2", "c2", Severity::Critical, 20),
        anomaly("3", "c1", Severity::Warning, 30),
        anomaly("4", "c1", Severity::Critical, 40),
    ];
    let f = AnomalyFilter {
        cluster_id: Some("c1".to_string()),
        resource_id: None,
        metric_type: None,
        severity: Some(Severity::Critical),
        time_range: None,
        limit: Some(1),
    };
    let got = select_anomalies(store.clone(), &f);
    assert_eq!(got.len(), 1);
    assert_eq!(got[0].id, "1");
    let all = select_anomalies(store, &AnomalyFilter::default());
    assert_eq!(all.len(), 4);
}

#[test]
fn recommendation_selection_by_status_kind() {
    let store = vec![
        recommendation("r1", Priority::High, RecommendationStatus::Pending),
        recommendation("r2", Priority::High, RecommendationStatus::Applied { applied_at: 5 }),
        recommendation("r3", Priority::Low, RecommendationStatus::Pending),
    ];
    let f = RecommendationFilter {
        cluster_id: None,
        priority: Some(Priority::High),
        status: Some(RecommendationStatusKind::Pending),
        limit: None,
    };
    let got = select_recommendations(store, &f);
    assert_eq!(got.len(), 1);
    assert_eq!(got[0].id, "r1");
    assert_eq!(
        RecommendationStatus::Dismissed { reason: "x".to_string() }.kind(),
        RecommendationStatusKind::Dismissed
    );
}

#[test]
fn window_grouping_cuts_to_whole_windows() {
    let _ = Aggregator::new();
    let samples = vec![
        sample("c", "a", MetricType::CpuUsage, 61_500, 1.0),
        sample("c", "b", MetricType::CpuUsage, 119_999, 2.0),
        sample("c", "a", MetricType::CpuUsage, 120_000, 3.0),
        sample("c", "a", MetricType::MemoryUsage, 60_000, 4.0),
    ];
    let groups = group_by_window(&samples, 60_000);
    assert_eq!(groups.len(), 3);
    assert_eq!(groups[0].window_start, 60_000);
    assert_eq!(groups[0].readings, vec![1.0, 2.0]);
    assert_eq!(groups[1].window_start, 120_000);
    assert_eq!(groups[1].readings, vec![3.0]);
    assert_eq!(groups[2].metric_type, MetricType::MemoryUsage);
}

#[test]
fn window_grouping_rounds_negative_times_toward_zero() {
    let samples = vec![sample("c", "a", MetricType::CpuUsage, -1_500, 1.0)];
    let groups = group_by_window(&samples, 60_000);
    assert_eq!(groups.len(), 1);
    assert_eq!(groups[0].window_start, 0);
}

#[test]
fn sub_second_window_groups_nothing() {
    let samples = vec![sample("c", "a", MetricType::CpuUsage, 1, 1.0)];
    assert!(group_by_window(&samples, 999).is_empty());
}

#[test]
fn codec_round_trips_and_rejects_unknown_names() {
    for t in [ResourceType::Pod, ResourceType::Node, ResourceType::Container, ResourceType::Service] {
        assert_eq!(decode_resource_type(encode_resource_type(t)), Ok(t));
    }
    for t in [
        MetricType::CpuUsage,
        MetricType::MemoryUsage,
        MetricType::NetworkIn,
        MetricType::NetworkOut,
        MetricType::DiskRead,
        MetricType::DiskWrite,
    ] {
        assert_eq!(decode_metric_type(encode_metric_type(t)), Ok(t));
    }
    for s in [Severity::Critical, Severity::Warning, Severity::Info] {
        assert_eq!(decode_severity(encode_severity(s)), Ok(s));
    }
    assert_eq!(encode_metric_type(MetricType::CpuUsage), "cpu_usage");
    assert_eq!(decode_resource_type("Pod"), Err(DecodeError::UnknownVariant));
    assert_eq!(decode_severity(""), Err(DecodeError::UnknownVariant));
}
