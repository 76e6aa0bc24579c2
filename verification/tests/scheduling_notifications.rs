use rotappo::domain::{
    Anomaly, MetricType, NotificationChannel, RecommendationAction, ScheduleStatus, ScheduledAction,
    Severity,
};
use rotappo::notify::{anomaly_notifications, anomaly_window, configure_channel, ntfy_url, MAX_ANOMALIES_PER_TICK};
use rotappo::scheduler::{
    cancellation, due_actions, finished_status, validate_schedule, ScheduleError, MAX_ACTIONS_PER_TICK,
};

fn action(id: &str, at: i64, status: ScheduleStatus) -> ScheduledAction {
    ScheduledAction {
        id: id.to_string(),
        execute_at: at,
        recommendation_id: "rec".to_string(),
        action: RecommendationAction::ReclaimStorage { volume: "v".to_string(), size_gb: 1 },
        status,
    }
}

fn anomaly(i: usize, t: MetricType) -> Anomaly<()> {
    Anomaly {
        id: format!("a{i}"),
        cluster_id: "c1".to_string(),
        resource_id: format!("pod-{i}"),
        detected_at: 0,
        metric_type: t,
        severity: Severity::Warning,
        description: format!("anomaly {i}"),
        related_metrics: vec![],
        root_cause: None,
        measures: (),
    }
}

#[test]
fn schedule_needs_an_id() {
    assert_eq!(validate_schedule(&action("", 0, ScheduleStatus::Pending)), Err(ScheduleError::MissingId));
    assert_eq!(validate_schedule(&action("s1", 0, ScheduleStatus::Pending)), Ok(()));
}

#[test]
fn due_actions_are_pending_and_on_time() {
    let actions = vec![
        action("a", 10, ScheduleStatus::Pending),
        action("b", 30, ScheduleStatus::Pending),
        action("c", 5, ScheduleStatus::Completed),
        action("d", 20, ScheduleStatus::Pending),
    ];
    assert_eq!(due_actions(&actions, 20), vec![0, 3]);
    assert!(due_actions(&actions, 0).is_empty());
}

#[test]
fn one_tick_executes_at_most_the_cap() {
    let actions: Vec<ScheduledAction> = (0..100).map(|i| action(&format!("s{i}"), 0, ScheduleStatus::Pending)).collect();
    let picked = due_actions(&actions, 1);
    assert_eq!(picked.len(), MAX_ACTIONS_PER_TICK);
    assert_eq!(picked[0], 0);
    assert_eq!(picked[63], 63);
}

#[test]
fn finished_status_records_the_error() {
    assert!(matches!(finished_status(Ok(())), ScheduleStatus::Completed));
    match finished_status(Err("timeout".to_string())) {
        ScheduleStatus::Failed { error } => assert_eq!(error, "timeout"),
        other => panic!("unexpected {other:?}"),
    }
}

#[test]
fn cancelling_marks_the_first_match() {
    let actions = vec![action("a", 1, ScheduleStatus::Pending), action("b", 2, ScheduleStatus::Pending)];
    let c = cancellation(actions.clone(), &"b".to_string()).unwrap();
    assert_eq!(c.id, "b");
    assert_eq!(c.execute_at, 2);
    assert!(matches!(c.status, ScheduleStatus::Cancelled));
    assert!(cancellation(actions, &"zzz".to_string()).is_none());
}

#[test]
fn anomaly_window_spans_since_last_check() {
    let f = anomaly_window(100, 200);
    let r = f.time_range.unwrap();
    assert_eq!((r.start_ms, r.end_ms), (100, 200));
    assert!(f.cluster_id.is_none() && f.severity.is_none() && f.limit.is_none());
}

#[test]
fn anomaly_notifications_title_and_fields() {
    let list = vec![anomaly(0, MetricType::MemoryUsage)];
    let n = anomaly_notifications(&list, 77);
    assert_eq!(n.len(), 1);
    assert_eq!(n[0].title, "Anomaly Detected: MemoryUsage");
    assert_eq!(n[0].message, "anomaly 0");
    assert_eq!(n[0].severity, Severity::Warning);
    assert_eq!(n[0].timestamp, 77);
    assert!(!n[0].read);
    assert_eq!(n[0].cluster_id.as_deref(), Some("c1"));
    assert_eq!(n[0].resource_id.as_deref(), Some("pod-0"));
    assert_eq!(n[0].id.len(), 36);
    let id = n[0].id.as_bytes();
    for (i, c) in id.iter().enumerate() {
        if [8, 13, 18, 23].contains(&i) {
            assert_eq!(*c, b'-');
        } else {
            assert!(c.is_ascii_digit() || (b'a'..=b'f').contains(c));
        }
    }
    assert_eq!(id[14], b'4');
    assert!([b'8', b'9', b'a', b'b'].contains(&id[19]));
}

#[test]
fn notification_ids_are_fresh() {
    let list = vec![anomaly(0, MetricType::CpuUsage), anomaly(1, MetricType::CpuUsage)];
    let n = anomaly_notifications(&list, 0);
    assert_ne!(n[0].id, n[1].id);
}

#[test]
fn anomaly_notifications_are_capped_per_tick() {
    let list: Vec<Anomaly<()>> = (0..60).map(|i| anomaly(i, MetricType::DiskWrite)).collect();
    let n = anomaly_notifications(&list, 0);
    assert_eq!(n.len(), MAX_ANOMALIES_PER_TICK);
    assert_eq!(n[49].resource_id.as_deref(), Some("pod-49"));
}

#[test]
fn configuring_a_channel_adds_or_replaces() {
    let mut channels = vec![NotificationChannel::default()];
    channels[0].id = "ntfy".to_string();
    let mut replacement = NotificationChannel::default();
    replacement.id = "ntfy".to_string();
    replacement.enabled = true;
    configure_channel(&mut channels, replacement);
    assert_eq!(channels.len(), 1);
    assert!(channels[0].enabled);
    let mut other = NotificationChannel::default();
    other.id = "mail".to_string();
    configure_channel(&mut channels, other);
    assert_eq!(channels.len(), 2);
    assert_eq!(channels[1].id, "mail");
    assert_eq!(channels[1].config_json, "{}");
}

#[test]
fn ntfy_url_drops_trailing_slashes() {
    assert_eq!(ntfy_url("https://ntfy.sh//", "alerts"), "https://ntfy.sh/alerts");
    assert_eq!(ntfy_url("https://ntfy.sh", "alerts"), "https://ntfy.sh/alerts");
    assert_eq!(ntfy_url("", "t"), "/t");
}
