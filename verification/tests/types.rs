use edge_orchestrator::types::{Capabilities, ResourceLimits, Role};

#[test]
fn capabilities_default_advertises_the_project_runtime() {
    let caps = Capabilities::default();
    assert!(caps.runtimes.iter().any(|r| r == "qlean"));
    assert!(!caps.gpu_acceleration);
    assert!(!caps.project_sandbox, "must be opted in by config");
}

#[test]
fn resource_limits_default_sane() {
    let limits = ResourceLimits::default();
    assert_eq!(limits.max_memory_mb, 256);
    assert!(!limits.allow_network);
}

#[test]
fn role_display_formatting() {
    assert_eq!(Role::Storage.to_string(), "Storage");
    assert_eq!(Role::Execution.to_string(), "Execution");
    assert_eq!(Role::Inference.to_string(), "Inference");
}
