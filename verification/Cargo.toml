[package]
name = "rotappo"
version = "0.1.0"
edition = "2021"
publish = false

[dependencies]
anyhow = "1"
async-trait = "0.1"
chrono = "0.4"
uuid = { version = "1", features = ["v4"] }
serde = { version = "1", features = ["derive"] }
serde_json = "1"
serde_yaml = "0.9"
tokio = { version = "1", features = ["rt-multi-thread", "macros", "sync", "time"] }
tracing = "0.1"
r2d2 = "0.8"
r2d2_sqlite = { version = "*", features = ["bundled"] }
reqwest = { version = "*", default-features = false, features = ["json", "rustls-tls"] }
kube = { version = "*", default-features = false, features = ["client", "config", "rustls-tls"] }
k8s-openapi = { version = "*", features = ["latest"] }
