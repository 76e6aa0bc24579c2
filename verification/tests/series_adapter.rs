use rotappo::access::{AccessStatus, AccessUrlInfo};
use rotappo::adapter::{refreshes_after, BootstrapAdapter};
use rotappo::assembly::{BootstrappoAssemblyPort, Check, Step};
use rotappo::health::module_specs;
use rotappo::clusters::collect_samples;
use rotappo::domain::{MetricSample, MetricType, ResourceType, TimeRange};
use rotappo::events::{BootstrapEvent, EventPayload};
use rotappo::projection::ComponentStatus;
use rotappo::series::{series_points, time_series, time_series_query};

fn sample(ts: i64, v: f64, cluster: &str) -> MetricSample<f64> {
    MetricSample {
        cluster_id: cluster.to_string(),
        resource_type: ResourceType::Pod,
        resource_id: "pod-a".to_string(),
        metric_type: MetricType::CpuUsage,
        timestamp: ts,
        unit: "cores".to_string(),
        reading: v,
    }
}

fn step(id: &str) -> Step {
    Step { id: id.to_string(), kind: "k".to_string(), required: vec![], provides: vec![], checks: vec![] }
}

#[test]
fn points_sorted_stably_by_time() {
    let samples = vec![sample(30, 1.0, "c"), sample(10, 2.0, "c"), sample(30, 3.0, "c"), sample(20, 4.0, "c")];
    let pts = series_points(&samples);
    let got: Vec<(i64, f64)> = pts.iter().map(|p| (p.timestamp, p.value)).collect();
    assert_eq!(got, vec![(10, 2.0), (20, 4.0), (30, 1.0), (30, 3.0)]);
}

#[test]
fn series_takes_cluster_and_unit_of_the_first_sample() {
    let samples = vec![sample(5, 1.0, "c2"), sample(1, 2.0, "c1")];
    let ts = time_series(&samples, "pod-a".to_string(), MetricType::CpuUsage);
    assert_eq!(ts.cluster_id, "c2");
    assert_eq!(ts.unit, "cores");
    assert_eq!(ts.points[0].timestamp, 1);
    let empty = time_series::<f64>(&vec![], "x".to_string(), MetricType::DiskRead);
    assert_eq!(empty.cluster_id, "");
    assert!(empty.points.is_empty());
}

#[test]
fn series_query_selects_one_resource_and_metric() {
    let q = time_series_query("pod-a".to_string(), MetricType::NetworkIn, TimeRange { start_ms: 1, end_ms: 2 });
    assert!(q.cluster_id.is_none() && q.resource_type.is_none());
    assert_eq!(q.resource_ids, vec!["pod-a".to_string()]);
    assert_eq!(q.metric_types, vec![MetricType::NetworkIn]);
    assert_eq!(q.time_range, Some(TimeRange { start_ms: 1, end_ms: 2 }));
}

#[test]
fn collection_round_keeps_successful_clusters() {
    let merged = collect_samples(vec![
        ("a".to_string(), Ok(vec![sample(1, 1.0, "a")])),
        ("b".to_string(), Err("unreachable".to_string())),
        ("c".to_string(), Ok(vec![sample(2, 2.0, "c"), sample(3, 3.0, "c")])),
    ]);
    let clusters: Vec<&str> = merged.iter().map(|s| s.cluster_id.as_str()).collect();
    assert_eq!(clusters, vec!["a", "c", "c"]);
}

#[test]
fn assembly_port_load_outcomes() {
    let ok = BootstrappoAssemblyPort::load(Ok(vec![step("db")]), &module_specs(vec![]));
    assert!(ok.assembly_error().is_none());
    assert_eq!(ok.assembly().unwrap().steps[0].domain, "unknown");
    assert_eq!(ok.bootstrappo_assembly().unwrap().len(), 1);
    let failed = BootstrappoAssemblyPort::load(Err("bad config".to_string()), &module_specs(vec![]));
    assert_eq!(failed.assembly_error().as_deref(), Some("bad config"));
    assert!(failed.assembly().is_none());
    assert!(failed.bootstrappo_assembly().is_none());
}

#[test]
fn adapter_seeds_the_assembly_and_follows_events() {
    let mut a: BootstrapAdapter<(), String, u32> = BootstrapAdapter::new(vec![step("db"), step("web")]);
    assert_eq!(a.component_states().len(), 2);
    assert_eq!(a.component_states().get("web").unwrap().status, ComponentStatus::Pending);
    a.handle_event_at(
        BootstrapEvent { seq: 1, timestamp_ms: 9, payload: EventPayload::ComponentStarted { id: "db".to_string() } },
        42,
    );
    let db = a.component_states().get("db").unwrap();
    assert_eq!(db.status, ComponentStatus::Running);
    assert_eq!(db.timing.started_at_ms, Some(42));
    a.handle_event(BootstrapEvent { seq: 2, timestamp_ms: 10, payload: EventPayload::Started { total_components: 2 } });
    assert_eq!(a.bootstrap_status().started_at_ms, Some(10));
    assert_eq!(a.dependency_graph().len(), 2);
}

#[test]
fn adapter_detailed_reports_and_lookups() {
    let mut a: BootstrapAdapter<(), String, u32> = BootstrapAdapter::new(vec![step("db")]);
    a.store_detailed_status_at("db".to_string(), "3 pods".to_string(), 100);
    assert_eq!(a.cached_detailed_status_at("db", 5_099), Some("3 pods".to_string()));
    assert_eq!(a.cached_detailed_status_at("db", 5_100), None);
    a.store_detailed_status("db".to_string(), "now".to_string());
    assert_eq!(a.cached_detailed_status("db"), Some("now".to_string()));
    assert!(a.step_for("db").is_ok());
    assert_eq!(a.step_for("nope").err().as_deref(), Some("Component not found in assembly"));
    a.set_timing_history(7);
    assert_eq!(a.timing_history(), Some(&7));
    a.set_access_urls(vec![AccessUrlInfo {
        service: "s".to_string(),
        url: "https://s".to_string(),
        status: AccessStatus::Ready,
    }]);
    assert_eq!(a.access_urls().len(), 1);
}

#[test]
fn only_run_completion_triggers_a_refresh() {
    let done: EventPayload<()> = EventPayload::Completed { total_duration_ms: 0, successful: 0, failed: 0, deferred: 0 };
    assert!(refreshes_after(&done));
    let other: EventPayload<()> = EventPayload::K3sCoreDnsReady;
    assert!(!refreshes_after(&other));
    let _ = Check::OidcValid;
}
