use rotappo::ml::{IsolationForest, MlClient};
use rotappo::storage::{survives_cleanup, PostgresStorage, RetentionConfig, DAY_MS};
use rotappo::summary::{load_config_summary, MetallbPoolSummary};

#[test]
fn retention_defaults_and_cutoffs() {
    let r = RetentionConfig::default();
    assert_eq!((r.raw_days, r.aggregated_days), (7, 30));
    let now = 100 * DAY_MS;
    assert_eq!(r.cutoffs(now), (93 * DAY_MS, 70 * DAY_MS));
    assert!(survives_cleanup(93 * DAY_MS, 93 * DAY_MS));
    assert!(!survives_cleanup(93 * DAY_MS - 1, 93 * DAY_MS));
}

#[test]
fn config_summary_of_a_loaded_config() {
    let pools = vec![MetallbPoolSummary { name: "default".to_string(), ip_range: "10.0.0.1-10.0.0.9".to_string() }];
    let s = load_config_summary(Ok(("lab.local".to_string(), pools)));
    assert_eq!(s.host_domain, "lab.local");
    assert_eq!(s.metallb_pools.len(), 1);
    assert_eq!(s.metallb_pools[0].name, "default");
    assert!(s.load_error.is_none());
}

#[test]
fn config_summary_of_a_failed_load() {
    let s = load_config_summary(Err("missing file".to_string()));
    assert_eq!(s.host_domain, "unknown");
    assert!(s.metallb_pools.is_empty());
    assert_eq!(s.load_error.as_deref(), Some("missing file"));
}

#[test]
fn ml_client_keeps_its_endpoint() {
    let c = MlClient::connect("http://ml:50051");
    assert_eq!(c.endpoint(), "http://ml:50051");
    let _ = IsolationForest::fit();
    let _ = PostgresStorage::new();
}
