use rotappo::clusters::{node_samples, pod_samples, NodeUsage, PodUsage};
use rotappo::clusters::{metric_sources, ClusterManager};
use rotappo::domain::{ClusterHealth, MetricsQuery, ResourceType};

#[test]
fn adds_and_lists_clusters() {
    let mut manager = ClusterManager::new();
    let id = manager.add_cluster("dev".to_string());
    let clusters = manager.list_clusters();
    assert_eq!(clusters.len(), 1);
    assert_eq!(clusters[0].id, id);
}

#[test]
fn added_cluster_is_healthy_and_named_by_context() {
    let mut manager = ClusterManager::new();
    let id = manager.add_cluster_at("prod".to_string(), 1_234);
    assert_eq!(id, "prod");
    assert!(matches!(manager.get_cluster_health(&id), ClusterHealth::Healthy));
    let clusters = manager.list_clusters();
    assert_eq!(clusters[0].context, "prod");
    assert_eq!(clusters[0].last_seen, 1_234);
}

#[test]
fn re_adding_a_context_replaces_it() {
    let mut manager = ClusterManager::new();
    manager.add_cluster_at("a".to_string(), 1);
    manager.add_cluster_at("b".to_string(), 2);
    manager.add_cluster_at("a".to_string(), 3);
    let clusters = manager.list_clusters();
    assert_eq!(clusters.len(), 2);
    assert_eq!(clusters[0].id, "a");
    assert_eq!(clusters[0].last_seen, 3);
    assert_eq!(clusters[1].id, "b");
}

#[test]
fn removed_cluster_is_unreachable() {
    let mut manager = ClusterManager::new();
    manager.add_cluster_at("a".to_string(), 1);
    manager.remove_cluster(&"a".to_string());
    assert!(manager.list_clusters().is_empty());
    assert!(matches!(
        manager.get_cluster_health(&"a".to_string()),
        ClusterHealth::Unreachable
    ));
}

#[test]
fn metric_sources_follow_the_resource_type() {
    let mut q = MetricsQuery::default();
    assert_eq!(metric_sources(&q), (true, true));
    q.resource_type = Some(ResourceType::Node);
    assert_eq!(metric_sources(&q), (true, false));
    q.resource_type = Some(ResourceType::Pod);
    assert_eq!(metric_sources(&q), (false, true));
    q.resource_type = Some(ResourceType::Service);
    assert_eq!(metric_sources(&q), (false, false));
}

#[test]
fn node_reports_become_cpu_then_memory_samples() {
    let nodes = vec![
        NodeUsage { name: Some("n1".to_string()), cpu: Some(0.5f64), memory: Some(1024.0) },
        NodeUsage { name: None, cpu: None, memory: Some(2.0) },
        NodeUsage { name: Some("n3".to_string()), cpu: None, memory: None },
    ];
    let s = node_samples(&"c1".to_string(), &nodes, 77);
    assert_eq!(s.len(), 3);
    assert_eq!((s[0].resource_id.as_str(), s[0].unit.as_str(), s[0].reading), ("n1", "cores", 0.5));
    assert_eq!(s[0].resource_type, ResourceType::Node);
    assert_eq!(s[1].metric_type, rotappo::domain::MetricType::MemoryUsage);
    assert_eq!((s[1].unit.as_str(), s[1].timestamp), ("bytes", 77));
    assert_eq!(s[2].resource_id, "");
    assert_eq!(s[2].cluster_id, "c1");
}

#[test]
fn pod_reports_are_named_by_namespace_and_name() {
    let pods = vec![
        PodUsage { name: Some("web".to_string()), namespace: Some("prod".to_string()), totals: Some((0.25f64, 64.0)) },
        PodUsage { name: Some("idle".to_string()), namespace: None, totals: None },
    ];
    let s = pod_samples(&"c".to_string(), &pods, 5);
    assert_eq!(s.len(), 2);
    assert_eq!(s[0].resource_id, "prod/web");
    assert_eq!(s[0].resource_type, ResourceType::Pod);
    assert_eq!((s[0].unit.as_str(), s[0].reading), ("cores", 0.25));
    assert_eq!((s[1].unit.as_str(), s[1].reading), ("bytes", 64.0));
}
