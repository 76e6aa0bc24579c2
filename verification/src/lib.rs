//! Verified core of the rotappo/phenome cluster tooling: action registry,
//! caches, metric queries, window aggregation, scheduling decisions,
//! bootstrap event projection and reconcile planning.

pub mod actions;
pub mod domain;
pub mod query;
pub mod aggregate;
pub mod codec;
pub mod scheduler;
pub mod clusters;
pub mod notify;
pub mod cache;
pub mod text;
pub mod events;
pub mod status_cache;
pub mod projection;
pub mod storage;
pub mod cli;
pub mod summary;
pub mod ml;
pub mod config;
pub mod health;
pub mod assembly;
pub mod access;
pub mod series;
pub mod adapter;
pub mod wire;
pub mod requests;
