//! Roles, topology, scheduling and health of the cluster.
pub mod reporter;
pub mod role_engine;
pub mod runtime_loop;
pub mod scheduler;
pub mod selector;
pub mod topology;
