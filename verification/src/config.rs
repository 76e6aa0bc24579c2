//! Configuration schema of the analytics deployment.

use vstd::prelude::*;

verus! {

#[derive(Debug, Clone)]
pub struct DeploymentConfig {
    pub mode: String,
}

#[derive(Debug, Clone)]
pub struct AnalyticsConfig {
    pub storage: String,
    pub sqlite_path: String,
    pub retention: RetentionConfig,
    pub collection: CollectionConfig,
}

#[derive(Debug, Clone, Copy)]
pub struct RetentionConfig {
    pub full_resolution_days: i64,
    pub aggregated_days: i64,
}

#[derive(Debug, Clone, Copy)]
pub struct CollectionConfig {
    pub interval_seconds: u64,
    pub batch_size: usize,
}

#[derive(Debug, Clone)]
pub struct MlModelsConfig {
    pub anomaly_detection: String,
    pub scaling_prediction: String,
}

#[derive(Debug, Clone)]
pub struct ClusterConfig {
    pub name: String,
    pub context: String,
}

#[derive(Debug, Clone)]
pub struct ServicesConfig {
    pub analytics_url: String,
    pub ml_url: String,
}

#[derive(Debug, Clone)]
pub enum NotificationChannelConfig {
    Ntfy { url: String, topic: String },
}

#[derive(Debug, Clone)]
pub struct NotificationsConfig {
    pub channels: Vec<NotificationChannelConfig>,
}

} // verus!
