//! A node of the cluster: configuration, startup, events and project work.
pub mod bootstrap;
pub mod cas_fetch;
pub mod cli;
pub mod config;
pub mod monitor;
pub mod project_client;
pub mod project_executor;
pub mod project_snapshot;
