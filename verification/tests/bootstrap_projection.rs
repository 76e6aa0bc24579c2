use rotappo::events::{BootstrapEvent, EventPayload, TimingBreakdown};
use rotappo::projection::{process_event, BootstrapStatus, ComponentStates, ComponentStatus};
use rotappo::status_cache::DetailedStatusCache;

#[derive(Debug, Clone, PartialEq)]
struct Readiness {
    summary: String,
    progress: Option<f64>,
}

fn make_event(payload: EventPayload<Readiness>) -> BootstrapEvent<Readiness> {
    BootstrapEvent { seq: 1, timestamp_ms: 0, payload }
}

fn setup() -> (ComponentStates<Readiness>, BootstrapStatus, DetailedStatusCache<String>) {
    (ComponentStates::new(), BootstrapStatus::default(), DetailedStatusCache::new(5_000))
}

#[test]
fn test_component_lifecycle() {
    let (mut state, mut status, mut cache) = setup();
    let id = "test-comp".to_string();

    process_event(
        make_event(EventPayload::ComponentStarted { id: id.clone() }),
        &mut state,
        &mut status,
        &mut cache,
        10,
    );
    {
        let comp = state.get(&id).expect("Component should exist");
        assert_eq!(comp.status, ComponentStatus::Running);
        assert!(comp.timing.started_at_ms.is_some());
    }

    process_event(
        make_event(EventPayload::ComponentProgress {
            id: id.clone(),
            status: Readiness { summary: "loading".into(), progress: Some(0.5) },
            elapsed_ms: 1_000,
        }),
        &mut state,
        &mut status,
        &mut cache,
        20,
    );
    {
        let comp = state.get(&id).unwrap();
        assert_eq!(comp.status, ComponentStatus::Running);
        assert_eq!(comp.readiness.as_ref().unwrap().progress, Some(0.5));
    }

    process_event(
        make_event(EventPayload::ComponentCompleted {
            id: id.clone(),
            duration_ms: 2_000,
            timing_breakdown: TimingBreakdown {
                render_duration_ms: 100,
                apply_duration_ms: 200,
                wait_duration_ms: 300,
            },
        }),
        &mut state,
        &mut status,
        &mut cache,
        30,
    );
    {
        let comp = state.get(&id).unwrap();
        assert_eq!(comp.status, ComponentStatus::Complete);
        assert_eq!(comp.timing.total_duration_ms, Some(2_000));
    }
}

#[test]
fn test_component_failure() {
    let (mut state, mut status, mut cache) = setup();
    let id = "fail-comp".to_string();

    process_event(
        make_event(EventPayload::ComponentFailed {
            id: id.clone(),
            duration_ms: 1_000,
            error: "Something went wrong".into(),
        }),
        &mut state,
        &mut status,
        &mut cache,
        0,
    );

    let comp = state.get(&id).expect("Component should exist");
    assert_eq!(comp.status, ComponentStatus::Failed);
    assert_eq!(comp.deferred_reason, Some("Something went wrong".into()));
}

#[test]
fn test_component_deferred_cascade() {
    let (mut state, mut status, mut cache) = setup();
    let id = "upstream".to_string();
    let dep = "downstream".to_string();

    process_event(
        make_event(EventPayload::ComponentDeferred {
            id: id.clone(),
            reason: "DependencyFailed { dependency: \"other\" }".to_string(),
            affected_dependents: vec![dep.clone()],
        }),
        &mut state,
        &mut status,
        &mut cache,
        0,
    );

    let upstream = state.get(&id).unwrap();
    assert_eq!(upstream.status, ComponentStatus::Deferred);
    assert!(upstream.deferred_reason.as_ref().unwrap().contains("DependencyFailed"));

    let downstream = state.get(&dep).unwrap();
    assert_eq!(downstream.status, ComponentStatus::Deferred);
    assert!(downstream.deferred_reason.as_ref().unwrap().contains("upstream deferred"));
}

#[test]
fn test_cache_ttl() {
    let mut cache: DetailedStatusCache<String> = DetailedStatusCache::new(50);
    let id = "test".to_string();

    cache.insert_at(id.clone(), String::new(), 0);
    assert!(cache.get_at(&id, 0).is_some());

    assert!(cache.get_at(&id, 60).is_none());
}

#[test]
fn cache_ttl_on_the_clock() {
    let mut cache: DetailedStatusCache<String> = DetailedStatusCache::new(50);
    cache.insert("test".to_string(), "report".to_string());
    assert_eq!(cache.get("test"), Some("report".to_string()));
    assert!(cache.get("other").is_none());
}

#[test]
fn cache_read_back_and_invalidate() {
    let mut cache: DetailedStatusCache<u32> = DetailedStatusCache::new(100);
    cache.insert_at("a".to_string(), 1, 10);
    cache.insert_at("a".to_string(), 2, 20);
    assert_eq!(cache.get_at("a", 119), Some(2));
    assert_eq!(cache.get_at("a", 120), None);
    cache.invalidate("a");
    assert_eq!(cache.get_at("a", 21), None);
}

#[test]
fn started_and_completed_fill_the_run_summary() {
    let (mut state, mut status, mut cache) = setup();
    process_event(
        BootstrapEvent { seq: 1, timestamp_ms: 500, payload: EventPayload::Started { total_components: 7 } },
        &mut state,
        &mut status,
        &mut cache,
        0,
    );
    assert_eq!(status.started_at_ms, Some(500));
    assert_eq!(status.total_components, Some(7));
    process_event(
        make_event(EventPayload::Completed {
            total_duration_ms: 9_000,
            successful: 5,
            failed: 1,
            deferred: 1,
        }),
        &mut state,
        &mut status,
        &mut cache,
        0,
    );
    assert_eq!(status.total_duration_ms, Some(9_000));
    assert_eq!((status.successful, status.failed, status.deferred), (5, 1, 1));
    assert_eq!(state.len(), 0);
}

#[test]
fn component_events_invalidate_the_detailed_report() {
    let (mut state, mut status, mut cache) = setup();
    cache.insert_at("c".to_string(), "old".to_string(), 0);
    process_event(
        make_event(EventPayload::ComponentStarted { id: "c".to_string() }),
        &mut state,
        &mut status,
        &mut cache,
        1,
    );
    assert!(cache.get_at("c", 1).is_none());
}

#[test]
fn seeded_components_start_pending_and_stay_listed() {
    let ids = vec!["a".to_string(), "b".to_string()];
    let mut state: ComponentStates<Readiness> = ComponentStates::seeded(&ids);
    let mut status = BootstrapStatus::default();
    let mut cache: DetailedStatusCache<String> = DetailedStatusCache::new(5_000);
    assert_eq!(state.len(), 2);
    assert_eq!(state.get("a").unwrap().status, ComponentStatus::Pending);
    process_event(
        make_event(EventPayload::K3sInstallStarted),
        &mut state,
        &mut status,
        &mut cache,
        0,
    );
    process_event(
        make_event(EventPayload::ComponentStarted { id: "b".to_string() }),
        &mut state,
        &mut status,
        &mut cache,
        0,
    );
    assert_eq!(state.len(), 2);
    assert_eq!(state.get("a").unwrap().status, ComponentStatus::Pending);
    assert_eq!(state.get("b").unwrap().status, ComponentStatus::Running);
}

#[test]
fn progress_after_completion_keeps_complete() {
    let (mut state, mut status, mut cache) = setup();
    process_event(
        make_event(EventPayload::ComponentCompleted {
            id: "x".to_string(),
            duration_ms: 5,
            timing_breakdown: TimingBreakdown { render_duration_ms: 1, apply_duration_ms: 2, wait_duration_ms: 3 },
        }),
        &mut state,
        &mut status,
        &mut cache,
        0,
    );
    process_event(
        make_event(EventPayload::ComponentProgress {
            id: "x".to_string(),
            status: Readiness { summary: "late".into(), progress: None },
            elapsed_ms: 7,
        }),
        &mut state,
        &mut status,
        &mut cache,
        0,
    );
    assert_eq!(state.get("x").unwrap().status, ComponentStatus::Complete);
    assert_eq!(state.get("x").unwrap().timing.render_duration_ms, Some(1));
    assert_eq!(state.get("x").unwrap().timing.elapsed_ms, Some(7));
}

#[test]
fn restart_after_failure_keeps_failed_and_its_error() {
    let (mut state, mut status, mut cache) = setup();
    process_event(
        make_event(EventPayload::ComponentFailed { id: "y".to_string(), duration_ms: 3, error: "boom".to_string() }),
        &mut state,
        &mut status,
        &mut cache,
        0,
    );
    process_event(
        make_event(EventPayload::ComponentStarted { id: "y".to_string() }),
        &mut state,
        &mut status,
        &mut cache,
        9,
    );
    let y = state.get("y").unwrap();
    assert_eq!(y.status, ComponentStatus::Failed);
    assert_eq!(y.deferred_reason.as_deref(), Some("boom"));
    assert_eq!(y.timing.started_at_ms, Some(9));
}

#[test]
fn component_events_keep_other_components_and_the_run_summary() {
    let (mut state, mut status, mut cache) = setup();
    process_event(make_event(EventPayload::Started { total_components: 3 }), &mut state, &mut status, &mut cache, 0);
    process_event(make_event(EventPayload::ComponentStarted { id: "a".to_string() }), &mut state, &mut status, &mut cache, 1);
    let before = status;
    process_event(
        make_event(EventPayload::ComponentDeferred {
            id: "b".to_string(),
            reason: "waiting".to_string(),
            affected_dependents: vec!["c".to_string()],
        }),
        &mut state,
        &mut status,
        &mut cache,
        2,
    );
    assert_eq!(status, before);
    assert_eq!(state.len(), 3);
    assert_eq!(state.get("a").unwrap().status, ComponentStatus::Running);
    assert_eq!(state.get("b").unwrap().status, ComponentStatus::Deferred);
    assert_eq!(state.get("c").unwrap().status, ComponentStatus::Deferred);
}
