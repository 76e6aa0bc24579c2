use rotappo::access::{access_urls_of, AccessStatus, IngressInfo};
use rotappo::assembly::{checks_ready, derive_pod_value, map_assembly, step_readiness, Check, OidcSettings, Step};
use rotappo::health::{
    health_round, live_status_disabled, map_health_status, module_specs, ComponentHealthStatus,
    HealthSnapshot, HealthStatus, LiveStatus, ModuleCheck, ModuleSpec, PrimerHealthPort,
};

fn check(name: &str, enabled: bool, outcome: Result<HealthStatus, String>) -> ModuleCheck {
    ModuleCheck { name: name.to_string(), enabled, outcome }
}

fn step(id: &str, checks: Vec<Check>) -> Step {
    Step {
        id: id.to_string(),
        kind: "helm".to_string(),
        required: vec!["base".to_string()],
        provides: vec!["sig".to_string()],
        checks,
    }
}

#[test]
fn round_skips_disabled_and_records_failures() {
    let t = health_round(vec![
        check("dns", true, Ok(HealthStatus::Healthy)),
        check("tls", false, Ok(HealthStatus::Healthy)),
        check("db", true, Err("timeout".to_string())),
    ]);
    assert_eq!(t.len(), 2);
    assert_eq!(t[0].0, "dns");
    assert!(matches!(t[0].1, HealthStatus::Healthy));
    assert_eq!(t[1].0, "db");
    assert!(matches!(&t[1].1, HealthStatus::Unhealthy(m) if m == "timeout"));
}

#[test]
fn later_check_of_a_name_wins() {
    let t = health_round(vec![
        check("dns", true, Ok(HealthStatus::Healthy)),
        check("dns", true, Ok(HealthStatus::Degraded("slow".to_string()))),
        check("dns", false, Ok(HealthStatus::Healthy)),
    ]);
    assert_eq!(t.len(), 1);
    assert!(matches!(&t[0].1, HealthStatus::Degraded(m) if m == "slow"));
}

#[test]
fn health_status_maps_one_to_one() {
    assert!(matches!(map_health_status(HealthStatus::Healthy), ComponentHealthStatus::Healthy));
    assert!(matches!(
        map_health_status(HealthStatus::Degraded("d".to_string())),
        ComponentHealthStatus::Degraded(m) if m == "d"
    ));
    assert!(matches!(
        map_health_status(HealthStatus::Unhealthy("u".to_string())),
        ComponentHealthStatus::Unhealthy(m) if m == "u"
    ));
}

#[test]
fn live_status_records_and_reports() {
    let mut live = LiveStatus::new();
    assert!(!live.cache());
    assert!(live.health().is_empty());
    assert!(live.last_error().is_none());
    live.record_error("kube down".to_string());
    live.record_cache_ready();
    live.record_round(vec![check("dns", true, Ok(HealthStatus::Healthy))]);
    assert!(live.cache());
    assert_eq!(live.last_error().as_deref(), Some("kube down"));
    assert_eq!(live.health().len(), 1);
    assert!(!live.is_stopped());
    live.stop();
    assert!(live.is_stopped());
    assert_eq!(live.health().len(), 1);
}

#[test]
fn live_status_switch_values() {
    assert!(live_status_disabled(Some("1")));
    assert!(live_status_disabled(Some("true")));
    assert!(live_status_disabled(Some("TrUe")));
    assert!(!live_status_disabled(Some("yes")));
    assert!(!live_status_disabled(Some("0")));
    assert!(!live_status_disabled(Some("truee")));
    assert!(!live_status_disabled(None));
}

#[test]
fn health_port_snapshot() {
    let empty: HealthSnapshot = PrimerHealthPort::new(None).snapshot();
    assert!(empty.health.is_empty() && empty.last_error.is_none() && !empty.cache_ready);
    let mut live = LiveStatus::new();
    live.record_round(vec![check("db", true, Err("down".to_string()))]);
    live.record_cache_ready();
    let snap = PrimerHealthPort::new(Some(live)).snapshot();
    assert_eq!(snap.health.len(), 1);
    assert_eq!(snap.health[0].0, "db");
    assert!(matches!(&snap.health[0].1, ComponentHealthStatus::Unhealthy(m) if m == "down"));
    assert!(snap.cache_ready);
}

#[test]
fn module_table_last_spec_wins() {
    let t = module_specs(vec![
        ModuleSpec { name: "dns".to_string(), domain: "network".to_string(), namespace: None },
        ModuleSpec { name: "db".to_string(), domain: "data".to_string(), namespace: Some("pg".to_string()) },
        ModuleSpec { name: "dns".to_string(), domain: "edge".to_string(), namespace: Some("kube-system".to_string()) },
    ]);
    assert_eq!(t.len(), 2);
    assert_eq!(t[0].0, "dns");
    assert_eq!(t[0].1 .0, "edge");
    assert_eq!(t[0].1 .1.as_deref(), Some("kube-system"));
}

#[test]
fn pod_value_from_first_named_gate_or_namespace() {
    let s = step(
        "cert-manager",
        vec![
            Check::CrdEstablished { name: "certs".to_string() },
            Check::DeploymentReady { namespace: "cm".to_string(), name: "webhook".to_string() },
            Check::JobReady { namespace: "x".to_string(), name: "y".to_string() },
        ],
    );
    assert_eq!(derive_pod_value(&s, Some("ignored")), Some("cm/webhook".to_string()));
    let bare = step("dns", vec![Check::OidcValid]);
    assert_eq!(derive_pod_value(&bare, Some("kube-system")), Some("kube-system/dns".to_string()));
    assert_eq!(derive_pod_value(&bare, None), None);
}

#[test]
fn gates_must_all_pass() {
    let s = step(
        "auth",
        vec![
            Check::SecretExists { namespace: "a".to_string(), name: "b".to_string() },
            Check::OidcValid,
        ],
    );
    let on = Some(OidcSettings { enabled: true, valid: true });
    assert!(checks_ready(&s, &vec![true, false], on));
    assert!(!checks_ready(&s, &vec![false, false], on));
    assert!(!checks_ready(&s, &vec![true, false], None));
    assert!(!checks_ready(&s, &vec![true, false], Some(OidcSettings { enabled: true, valid: false })));
    assert!(checks_ready(&step("x", vec![]), &vec![], None));
}

#[test]
fn readiness_without_cache_counts_only_ungated_steps() {
    let steps = vec![step("a", vec![]), step("b", vec![Check::OidcValid])];
    let t = step_readiness(Some(&steps), None, None);
    assert_eq!(t, vec![("a".to_string(), true), ("b".to_string(), false)]);
    assert!(step_readiness(None, None, None).is_empty());
    let cache = vec![vec![], vec![false]];
    let t = step_readiness(Some(&steps), Some(&cache), Some(OidcSettings { enabled: true, valid: true }));
    assert_eq!(t, vec![("a".to_string(), true), ("b".to_string(), true)]);
}

#[test]
fn assembly_view_uses_the_module_table() {
    let table = module_specs(vec![ModuleSpec {
        name: "db".to_string(),
        domain: "data".to_string(),
        namespace: Some("pg".to_string()),
    }]);
    let steps = vec![step("db", vec![]), step("other", vec![Check::OidcValid])];
    let a = map_assembly(&steps, &table);
    assert_eq!(a.steps.len(), 2);
    assert_eq!(a.steps[0].domain, "data");
    assert_eq!(a.steps[0].pod.as_deref(), Some("pg/db"));
    assert!(!a.steps[0].has_gates);
    assert_eq!(a.steps[0].depends_on, vec!["base".to_string()]);
    assert_eq!(a.steps[1].domain, "unknown");
    assert_eq!(a.steps[1].pod, None);
    assert!(a.steps[1].has_gates);
}

#[test]
fn access_urls_from_ingress_rules() {
    let ingresses = vec![
        IngressInfo {
            name: Some("grafana".to_string()),
            load_balancer: Some(Some(1)),
            has_spec: true,
            rule_hosts: Some(vec![Some("grafana.lab".to_string()), None, Some("g.lab".to_string())]),
        },
        IngressInfo { name: None, load_balancer: Some(None), has_spec: true, rule_hosts: Some(vec![Some("x.lab".to_string())]) },
        IngressInfo { name: Some("hidden".to_string()), load_balancer: None, has_spec: false, rule_hosts: Some(vec![Some("h".to_string())]) },
        IngressInfo { name: Some("pending".to_string()), load_balancer: Some(Some(0)), has_spec: true, rule_hosts: None },
    ];
    let urls = access_urls_of(&ingresses);
    assert_eq!(urls.len(), 3);
    assert_eq!(urls[0].service, "grafana");
    assert_eq!(urls[0].url, "https://grafana.lab");
    assert_eq!(urls[0].status, AccessStatus::Ready);
    assert_eq!(urls[1].url, "https://g.lab");
    assert_eq!(urls[2].service, "");
    assert_eq!(urls[2].status, AccessStatus::Pending);
    let unknown = access_urls_of(&vec![IngressInfo {
        name: Some("n".to_string()),
        load_balancer: None,
        has_spec: true,
        rule_hosts: Some(vec![Some("n.lab".to_string())]),
    }]);
    assert_eq!(unknown[0].status, AccessStatus::Unknown);
}
