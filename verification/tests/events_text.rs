use rotappo::events::{format_bootstrap_log, format_k3s_event, EventLevel, EventPayload, TimingBreakdown};
use rotappo::text::{decimal_string, join_strings};

type P = EventPayload<()>;

#[test]
fn decimal_rendering() {
    assert_eq!(decimal_string(0), "0");
    assert_eq!(decimal_string(7), "7");
    assert_eq!(decimal_string(1_203), "1203");
    assert_eq!(decimal_string(u64::MAX), "18446744073709551615");
}

#[test]
fn joining() {
    let parts = vec!["a".to_string(), "b".to_string(), "c".to_string()];
    assert_eq!(join_strings(&parts, ", "), "a, b, c");
    assert_eq!(join_strings(&Vec::new(), ", "), "");
    assert_eq!(join_strings(&vec!["x".to_string()], "-"), "x");
}

#[test]
fn log_lines_of_component_events() {
    let started: P = EventPayload::Started { total_components: 12 };
    assert_eq!(
        format_bootstrap_log(&started),
        Some((EventLevel::Info, "bootstrap started (components: 12)".to_string()))
    );
    let done: P = EventPayload::ComponentCompleted {
        id: "dns".to_string(),
        duration_ms: 2_999,
        timing_breakdown: TimingBreakdown { render_duration_ms: 0, apply_duration_ms: 0, wait_duration_ms: 0 },
    };
    assert_eq!(
        format_bootstrap_log(&done),
        Some((EventLevel::Info, "component dns completed in 2s".to_string()))
    );
    let failed: P = EventPayload::ComponentFailed {
        id: "db".to_string(),
        duration_ms: 1,
        error: "boom".to_string(),
    };
    assert_eq!(
        format_bootstrap_log(&failed),
        Some((EventLevel::Error, "component db failed: boom".to_string()))
    );
    let progress: P = EventPayload::ComponentProgress { id: "x".to_string(), status: (), elapsed_ms: 3 };
    assert_eq!(format_bootstrap_log(&progress), None);
}

#[test]
fn deferral_lists_dependents_or_none() {
    let lone: P = EventPayload::ComponentDeferred {
        id: "a".to_string(),
        reason: "Waiting".to_string(),
        affected_dependents: vec![],
    };
    assert_eq!(
        format_bootstrap_log(&lone),
        Some((EventLevel::Warn, "component a deferred (Waiting); dependents: none".to_string()))
    );
    let chain: P = EventPayload::ComponentDeferred {
        id: "a".to_string(),
        reason: "Waiting".to_string(),
        affected_dependents: vec!["b".to_string(), "c".to_string()],
    };
    assert_eq!(
        format_bootstrap_log(&chain),
        Some((EventLevel::Warn, "component a deferred (Waiting); dependents: b, c".to_string()))
    );
}

#[test]
fn run_completion_warns_only_on_failures() {
    let clean: P = EventPayload::Completed { total_duration_ms: 61_000, successful: 3, failed: 0, deferred: 1 };
    assert_eq!(
        format_bootstrap_log(&clean),
        Some((EventLevel::Info, "bootstrap completed in 61s (ok: 3, failed: 0, deferred: 1)".to_string()))
    );
    let failing: P = EventPayload::Completed { total_duration_ms: 500, successful: 1, failed: 2, deferred: 0 };
    assert_eq!(
        format_bootstrap_log(&failing),
        Some((EventLevel::Warn, "bootstrap completed in 0s (ok: 1, failed: 2, deferred: 0)".to_string()))
    );
}

#[test]
fn k3s_messages() {
    let progress: P = EventPayload::K3sDownloadProgress { percent_label: "42".to_string() };
    assert_eq!(format_k3s_event(&progress), Some("k3s download 42%".to_string()));
    assert_eq!(
        format_bootstrap_log(&progress),
        Some((EventLevel::Info, "k3s download 42%".to_string()))
    );
    let ready: P = EventPayload::K3sApiServerReady;
    assert_eq!(format_k3s_event(&ready), Some("k3s API server ready".to_string()));
    let started: P = EventPayload::ComponentStarted { id: "a".to_string() };
    assert_eq!(format_k3s_event(&started), None);
}
