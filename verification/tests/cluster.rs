use std::collections::HashMap;

use edge_orchestrator::error::CoreError;
use edge_orchestrator::orchestration::reporter::{
    ClusterSummary, HealthStatus, NodeReport, Reporter,
};
use edge_orchestrator::orchestration::role_engine::{proposal_not_sent, RoleOrchestrationEngine};
use edge_orchestrator::orchestration::runtime_loop::{pick_executor, registration};
use edge_orchestrator::orchestration::scheduler::TaskScheduler;
use edge_orchestrator::orchestration::topology::{
    diff_topology, parse_topology_spec, ClusterTopologySpec, NodeAssignment, NodeSelector,
};
use edge_orchestrator::outside::clock::Timestamp;
use edge_orchestrator::raft::channel;
use edge_orchestrator::raft::network::{
    envelope_from_data, message_queued, route_message, RaftIdRegistry,
};
use edge_orchestrator::raft::node::{
    apply_entry, process_ready, proposed, react, OutgoingMessage, ProposeFailure, RaftAction,
    RaftEvent, RaftSettings, ReadyAction, ReadyBatch,
};
use edge_orchestrator::raft::proposal::{ApplyResult, Proposal};
use edge_orchestrator::raft::state_machine::ClusterState;
use edge_orchestrator::raft::entry_form::{entry_bytes, read_entry};
use edge_orchestrator::raft::storage::{
    conf_state_bytes, hard_state_bytes, term_of_blob, CasRaftStorage, ConfState, EntriesStep,
    HardState, LogError, RaftEntry, TermStep, ENTRY_CACHE_SIZE,
};
use edge_orchestrator::p2p::command::SwarmCommand;
use edge_orchestrator::types::{
    Capabilities, NodeDescriptor, NodeId, NodeType, OsType, ResourceLimits, Role, RoutingStrategy,
    RuntimeKind, ScheduledTask,
};

const NOW: Timestamp = Timestamp {
    secs: 1_700_000_000,
    nanos: 0,
};

fn id(text: &str) -> NodeId {
    uuid::Uuid::parse_str(text).unwrap().as_u128()
}

fn fresh() -> NodeId {
    uuid::Uuid::new_v4().as_u128()
}

fn make_descriptor(text: &str) -> NodeDescriptor {
    NodeDescriptor {
        node_id: id(text),
        node_type: NodeType::Heavy,
        os: OsType::MacOS,
        capabilities: Capabilities::default(),
        advertised_addresses: vec![],
        current_assigned_roles: vec![],
        started_at: NOW,
        raft_id: None,
    }
}

fn member(text: &str, roles: Vec<Role>, runtimes: &[&str]) -> NodeDescriptor {
    NodeDescriptor {
        node_id: id(text),
        node_type: NodeType::Heavy,
        os: OsType::MacOS,
        capabilities: Capabilities {
            storage: true,
            gpu_acceleration: false,
            runtimes: runtimes.iter().map(|s| s.to_string()).collect(),
            max_memory_mb: 1024,
            cpu_cores: 2,
            project_sandbox: false,
        },
        advertised_addresses: vec![],
        current_assigned_roles: roles,
        started_at: NOW,
        raft_id: None,
    }
}

#[test]
fn apply_register_node_updates_registry() {
    let mut state = ClusterState::default();
    let desc = make_descriptor("550e8400-e29b-41d4-a716-446655440000");
    let id = desc.node_id;

    let result = state.apply(Proposal::RegisterNode(desc.clone()));
    assert!(matches!(result, ApplyResult::NodeRegistered(_)));
    assert!(state.nodes.contains_key(&id));
    assert_eq!(state.nodes[&id], desc);
}

#[test]
fn apply_assign_role() {
    let mut state = ClusterState::default();
    let desc = make_descriptor("550e8400-e29b-41d4-a716-446655440000");
    let id = desc.node_id;

    state.apply(Proposal::RegisterNode(desc));
    let result = state.apply(Proposal::AssignRole {
        node_id: id,
        role: Role::Execution,
    });
    assert!(matches!(result, ApplyResult::RoleAssigned { .. }));
    assert!(state.role_assignments[&id].contains(&Role::Execution));
}

#[test]
fn snapshot_restore_roundtrip() {
    let mut state = ClusterState::default();
    let desc = make_descriptor("550e8400-e29b-41d4-a716-446655440000");
    state.apply(Proposal::RegisterNode(desc));
    state.apply(Proposal::AssignRole {
        node_id: id("550e8400-e29b-41d4-a716-446655440000"),
        role: Role::Storage,
    });

    let snap = state.snapshot();
    let restored = ClusterState::restore(snap);

    assert_eq!(state.nodes.len(), restored.nodes.len());
    assert_eq!(state.nodes, restored.nodes);
    assert_eq!(state.role_assignments, restored.role_assignments);
}

#[test]
fn deterministic_apply_order() {
    let mut state1 = ClusterState::default();
    let mut state2 = ClusterState::default();
    let desc = make_descriptor("550e8400-e29b-41d4-a716-446655440000");

    for state in [&mut state1, &mut state2] {
        state.apply(Proposal::RegisterNode(desc.clone()));
        state.apply(Proposal::AssignRole {
            node_id: desc.node_id,
            role: Role::Execution,
        });
    }

    assert_eq!(state1.nodes, state2.nodes);
    assert_eq!(state1.role_assignments, state2.role_assignments);
}

#[test]
fn role_for_an_unknown_node_is_rejected() {
    let mut state = ClusterState::default();
    assert_eq!(
        state.apply(Proposal::AssignRole {
            node_id: id("550e8400-e29b-41d4-a716-446655440000"),
            role: Role::Storage,
        }),
        ApplyResult::Rejected(
            "Cannot assign role to unknown node: 550e8400-e29b-41d4-a716-446655440000".to_string()
        )
    );
}

#[test]
fn proposals_that_change_nothing_are_just_applied() {
    let mut state = ClusterState::default();
    let desc = make_descriptor("550e8400-e29b-41d4-a716-446655440000");
    let node_id = desc.node_id;
    let role = Role::Storage;
    state.apply(Proposal::RegisterNode(desc.clone()));
    assert_eq!(
        state.apply(Proposal::RegisterNode(desc)),
        ApplyResult::Applied
    );
    state.apply(Proposal::AssignRole { node_id, role });
    assert_eq!(
        state.apply(Proposal::AssignRole { node_id, role }),
        ApplyResult::Applied
    );
    assert_eq!(
        state.apply(Proposal::RevokeRole { node_id, role }),
        ApplyResult::RoleRevoked { node_id, role }
    );
    assert_eq!(
        state.apply(Proposal::RevokeRole { node_id, role }),
        ApplyResult::Applied
    );
    assert_eq!(
        state.apply(Proposal::DeregisterNode(node_id)),
        ApplyResult::NodeDeregistered(node_id)
    );
    assert!(state.nodes.is_empty());
    assert!(state.role_assignments.is_empty());
}

#[test]
fn node_failure_triggers_reassignment() {
    let mut engine = RoleOrchestrationEngine::new();

    let exec_id = id("660e8400-e29b-41d4-a716-446655440000");
    let backup_id = id("770e8400-e29b-41d4-a716-446655440000");

    // Register two nodes: executor and backup
    engine.register_node(member(
        "660e8400-e29b-41d4-a716-446655440000",
        vec![Role::Execution],
        &["Wasm"],
    ));
    engine.register_node(member(
        "770e8400-e29b-41d4-a716-446655440000",
        vec![],
        &["Wasm"],
    ));

    // When the executor fails, the backup should get the role
    let (result, proposals) = engine.handle_node_failure(exec_id);
    assert!(result); // failover was triggered
    assert!(proposals.contains(&Proposal::AssignRole {
        node_id: backup_id,
        role: Role::Execution,
    }));
}

#[test]
fn no_reassignment_when_no_suitable_node() {
    let mut engine = RoleOrchestrationEngine::new();

    let exec_id = id("660e8400-e29b-41d4-a716-446655440000");

    // Register only one node — no backup available
    engine.register_node(member(
        "660e8400-e29b-41d4-a716-446655440000",
        vec![Role::Execution],
        &["Container"], // specialized runtime
    ));

    let (result, proposals) = engine.handle_node_failure(exec_id);
    assert!(result); // failover was attempted (node was registered)
    assert!(!proposals
        .iter()
        .any(|p| matches!(p, Proposal::AssignRole { .. })));
    assert_eq!(engine.handle_node_failure(exec_id).0, false);
}

#[test]
fn proposal_that_could_not_be_sent_is_a_network_error() {
    assert_eq!(
        proposal_not_sent("closed"),
        CoreError::Network("send proposal: closed".into())
    );
}

fn make_task(strategy: RoutingStrategy) -> ScheduledTask {
    ScheduledTask {
        task_id: fresh(),
        code_hash: "abc123".into(),
        required_runtime: RuntimeKind::Wasm,
        routing: strategy,
        timeout_ms: 5000,
        resource_limits: ResourceLimits::default(),
        submitted_at: NOW,
        pinned_node: None,
    }
}

#[test]
fn task_routed_to_execution_node() {
    let mut sched = TaskScheduler::new();
    let node = fresh();

    sched.register_executor(node, vec![Role::Execution]);
    sched.submit(make_task(RoutingStrategy::AnyExecutor));

    let assignments = sched.route_pending();
    assert_eq!(assignments.len(), 1);
    assert_eq!(assignments[0].1, node);
}

#[test]
fn no_routing_when_no_executors() {
    let mut sched = TaskScheduler::new();
    sched.submit(make_task(RoutingStrategy::AnyExecutor));

    let assignments = sched.route_pending();
    assert!(assignments.is_empty());
}

#[test]
fn prefer_native_routes_to_capable_executor() {
    let mut sched = TaskScheduler::new();
    let wasm_node = fresh();
    let native_node = fresh();

    sched.register_executor(wasm_node, vec![Role::Execution]);
    sched.register_executor(native_node, vec![Role::Execution]);

    sched.node_caps.insert(wasm_node, vec!["wasm".into()]);
    sched
        .node_caps
        .insert(native_node, vec!["native".into(), "container".into()]);

    sched.submit(make_task(RoutingStrategy::PreferNative));

    let assignments = sched.route_pending();
    assert_eq!(assignments.len(), 1);
    assert_eq!(assignments[0].1, native_node);
}

#[test]
fn every_submitted_task_gets_a_node_in_turn() {
    let mut sched = TaskScheduler::new();
    sched.register_executor(1, vec![Role::Execution]);
    sched.register_executor(2, vec![Role::Execution]);
    sched.register_executor(2, vec![]);
    for _ in 0..4 {
        sched.submit(make_task(RoutingStrategy::AnyExecutor));
    }
    let nodes: Vec<NodeId> = sched.route_pending().iter().map(|a| a.1).collect();
    assert_eq!(nodes, vec![1, 2, 1, 2]);
    assert!(sched.pending.is_empty());
    sched.remove_executor(&1);
    sched.submit(make_task(RoutingStrategy::Pinned(2)));
    assert_eq!(sched.route_pending()[0].1, 2);
}

/// The specification in the given YAML text.
fn spec_from(yaml: &str) -> Result<ClusterTopologySpec, String> {
    let v: serde_yaml::Value = serde_yaml::from_str(yaml).map_err(|e| e.to_string())?;
    let rows = v["assignments"].as_sequence().ok_or("no assignments")?;
    let mut assignments = Vec::new();
    for row in rows {
        let node_id = row["node_selector"]["node_id"].as_str().map(|t| id(t));
        let mut roles = Vec::new();
        for role in row["roles"].as_sequence().ok_or("no roles")? {
            roles.push(match role.as_str() {
                Some("Storage") => Role::Storage,
                Some("Execution") => Role::Execution,
                _ => return Err("unknown role".to_string()),
            });
        }
        assignments.push(NodeAssignment {
            node_selector: NodeSelector {
                node_id,
                has_capabilities: vec![],
                os: None,
            },
            roles,
        });
    }
    Ok(ClusterTopologySpec {
        version: v["version"].as_str().unwrap_or("").to_string(),
        assignments,
    })
}

#[test]
fn parse_valid_topology_spec() {
    let yaml = r#"
version: "1.0"
assignments:
  - node_selector:
      node_id: "550e8400-e29b-41d4-a716-446655440000"
    roles:
      - Storage
      - Execution
"#;
    let spec = parse_topology_spec(spec_from(yaml)).unwrap();
    assert_eq!(spec.version, "1.0");
    assert_eq!(spec.assignments.len(), 1);
    assert_eq!(spec.assignments[0].roles.len(), 2);
}

#[test]
fn topology_that_does_not_parse_is_refused() {
    assert_eq!(
        parse_topology_spec(Err("bad".into())).unwrap_err(),
        CoreError::Configuration("invalid topology spec: bad".into())
    );
}

#[test]
fn diff_generates_correct_proposals() {
    let node_id = id("550e8400-e29b-41d4-a716-446655440000");
    let yaml = r#"
version: "1.0"
assignments:
  - node_selector:
      node_id: "550e8400-e29b-41d4-a716-446655440000"
    roles:
      - Storage
"#;

    let spec = parse_topology_spec(spec_from(yaml)).unwrap();
    let mut current = HashMap::new();

    // First diff: no current roles → should assign Storage
    let proposals = diff_topology(&current, &spec);
    assert_eq!(proposals.len(), 1);
    assert!(matches!(
        &proposals[0],
        Proposal::AssignRole {
            role: Role::Storage,
            ..
        }
    ));

    // Apply the assignment
    current.insert(node_id, vec![Role::Storage]);

    // Second diff: Storage already assigned → no changes
    let proposals = diff_topology(&current, &spec);
    assert!(proposals.is_empty());
}

#[test]
fn diff_handles_role_reassignment() {
    let node_id = id("550e8400-e29b-41d4-a716-446655440000");
    let yaml = r#"
version: "1.0"
assignments:
  - node_selector:
      node_id: "550e8400-e29b-41d4-a716-446655440000"
    roles:
      - Execution
"#;

    let spec = parse_topology_spec(spec_from(yaml)).unwrap();
    let mut current = HashMap::new();
    current.insert(node_id, vec![Role::Storage]);

    // Should revoke Storage, assign Execution
    let proposals = diff_topology(&current, &spec);
    assert_eq!(proposals.len(), 2);

    let has_revoke = proposals.iter().any(|p| {
        matches!(
            p,
            Proposal::RevokeRole {
                role: Role::Storage,
                ..
            }
        )
    });
    let has_assign = proposals.iter().any(|p| {
        matches!(
            p,
            Proposal::AssignRole {
                role: Role::Execution,
                ..
            }
        )
    });
    assert!(has_revoke);
    assert!(has_assign);
}

#[test]
fn difference_applied_leads_to_the_topology() {
    let desc = make_descriptor("550e8400-e29b-41d4-a716-446655440000");
    let node_id = desc.node_id;
    let mut state = ClusterState::default();
    state.apply(Proposal::RegisterNode(desc));
    state.apply(Proposal::AssignRole {
        node_id,
        role: Role::Storage,
    });
    let spec = ClusterTopologySpec {
        version: "1".into(),
        assignments: vec![NodeAssignment {
            node_selector: NodeSelector {
                node_id: Some(node_id),
                has_capabilities: vec![],
                os: None,
            },
            roles: vec![Role::Execution],
        }],
    };
    for p in diff_topology(&state.role_assignments, &spec) {
        state.apply(p);
    }
    assert_eq!(state.role_assignments[&node_id], vec![Role::Execution]);
    assert!(diff_topology(&state.role_assignments, &spec).is_empty());
    let mut engine = RoleOrchestrationEngine::new();
    engine.register_node(make_descriptor("550e8400-e29b-41d4-a716-446655440000"));
    assert_eq!(engine.apply_topology(spec).len(), 1);
}

#[test]
fn selectors_stand_for_the_nodes_that_fit() {
    let mut engine = RoleOrchestrationEngine::new();
    let node = |text: &str, os: OsType, storage: bool, runtimes: Vec<String>| {
        let mut d = make_descriptor(text);
        d.os = os;
        d.capabilities.storage = storage;
        d.capabilities.gpu_acceleration = false;
        d.capabilities.project_sandbox = false;
        d.capabilities.runtimes = runtimes;
        d.current_assigned_roles = vec![];
        d
    };
    let a = node("00000000-0000-0000-0000-00000000000a", OsType::Linux, true, vec!["wasm".into()]);
    let b = node("00000000-0000-0000-0000-00000000000b", OsType::Linux, false, vec![]);
    let c = node("00000000-0000-0000-0000-00000000000c", OsType::MacOS, true, vec![]);
    for d in [&a, &b, &c] {
        engine.register_node(d.clone());
    }
    let selector = |caps: &[&str], os: Option<&str>| NodeSelector {
        node_id: None,
        has_capabilities: caps.iter().map(|c| c.to_string()).collect(),
        os: os.map(String::from),
    };
    let mut selected = |s: NodeSelector| {
        let mut ids: Vec<NodeId> = engine
            .apply_topology(ClusterTopologySpec {
                version: "1".into(),
                assignments: vec![NodeAssignment {
                    node_selector: s,
                    roles: vec![Role::Execution],
                }],
            })
            .into_iter()
            .map(|p| match p {
                Proposal::AssignRole { node_id, role: Role::Execution } => node_id,
                other => panic!("{other:?}"),
            })
            .collect();
        ids.sort();
        ids
    };
    assert_eq!(selected(selector(&["storage"], None)), vec![a.node_id, c.node_id]);
    assert_eq!(selected(selector(&[], Some("Linux"))), vec![a.node_id, b.node_id]);
    assert_eq!(selected(selector(&["storage"], Some("Linux"))), vec![a.node_id]);
    assert_eq!(selected(selector(&["wasm", "storage"], None)), vec![a.node_id]);
    assert_eq!(selected(selector(&["gpu_acceleration"], None)), vec![]);
    assert_eq!(selected(selector(&[], Some("Windows"))), vec![]);
    assert_eq!(selected(selector(&[], None)), vec![a.node_id, b.node_id, c.node_id]);
    let mut named = selector(&["gpu_acceleration"], None);
    named.node_id = Some(7);
    assert_eq!(selected(named), vec![7]);
}

#[test]
fn no_role_is_proposed_twice() {
    let node_id = fresh();
    let assignment = |roles: Vec<Role>| NodeAssignment {
        node_selector: NodeSelector {
            node_id: Some(node_id),
            has_capabilities: vec![],
            os: None,
        },
        roles,
    };
    let spec = ClusterTopologySpec {
        version: "1".into(),
        assignments: vec![
            assignment(vec![Role::Storage, Role::Storage]),
            assignment(vec![Role::Storage, Role::Execution]),
        ],
    };
    let proposals = diff_topology(&HashMap::new(), &spec);
    assert_eq!(proposals.len(), 2);
    assert_ne!(proposals[0], proposals[1]);
}

fn report(node_id: NodeId, health: HealthStatus, done: u64) -> NodeReport {
    NodeReport {
        node_id,
        health,
        tasks_completed: done,
        tasks_in_flight: 1,
        avg_execution_time_ms: 5,
        peer_count: 2,
    }
}

#[test]
fn summary_counts_every_node_once() {
    let mut reporter = Reporter::new();
    reporter.report(report(1, HealthStatus::Healthy, 3));
    reporter.report(report(2, HealthStatus::Unhealthy, 4));
    reporter.report(report(1, HealthStatus::Healthy, 5));
    assert_eq!(
        reporter.cluster_summary(),
        ClusterSummary {
            total_nodes: 2,
            healthy_nodes: 1,
            total_tasks_completed: 9,
            total_tasks_in_flight: 2,
        }
    );
    assert_eq!(reporter.unhealthy_nodes(), vec![2]);
    reporter.remove(&2);
    assert_eq!(reporter.cluster_summary().total_nodes, 1);
}

#[test]
fn executor_is_a_participant_that_is_not_left_out() {
    let mut state = ClusterState::default();
    for (n, text) in [
        (7, "550e8400-e29b-41d4-a716-446655440000"),
        (3, "660e8400-e29b-41d4-a716-446655440000"),
    ] {
        let mut d = make_descriptor(text);
        d.raft_id = Some(n);
        d.current_assigned_roles = vec![Role::Execution];
        state.apply(Proposal::RegisterNode(d));
    }
    assert!(matches!(pick_executor(&state, None), Some(3) | Some(7)));
    assert_eq!(pick_executor(&state, Some(3)), Some(7));
    assert_eq!(pick_executor(&state, Some(7)), Some(3));
    assert_eq!(pick_executor(&ClusterState::default(), None), None);
}

#[test]
fn node_registers_itself_until_it_is_known() {
    let mut state = ClusterState::default();
    let mut d = make_descriptor("550e8400-e29b-41d4-a716-446655440000");
    d.raft_id = Some(4);
    let p = registration(&state, 4, &d).unwrap();
    state.apply(p);
    assert_eq!(registration(&state, 4, &d), None);
}

fn log_entry(index: u64, term: u64, data: &[u8]) -> RaftEntry {
    RaftEntry {
        entry_type: 0,
        term,
        index,
        data: data.to_vec(),
        context: vec![],
        sync_log: false,
    }
}

#[test]
fn initial_state_on_empty_store() {
    let storage = CasRaftStorage::new_empty();
    let state = storage.initial_state();
    assert_eq!(state.0.term, 0);
}

#[test]
fn append_and_read_entries() {
    let mut storage = CasRaftStorage::new_empty();

    let entry = log_entry(1, 1, &[1, 2, 3]);

    storage.append_entry(&entry, Ok("hash".into())).unwrap();
    assert_eq!(storage.first_index(), 1);
    assert_eq!(storage.last_index(), 1);

    let mut cursor = storage.entries(1, 2, None);
    assert_eq!(storage.advance_entries(&mut cursor), EntriesStep::Done);
    let entries = cursor.into_entries();
    assert_eq!(entries.len(), 1);
    assert_eq!(entries[0].index, 1);
}

#[test]
fn term_lookup() {
    let mut storage = CasRaftStorage::new_empty();

    // Entry with term encoded in first 8 bytes
    let term: u64 = 5;
    let mut data = term.to_le_bytes().to_vec();
    data.extend_from_slice(b"payload");
    let entry = log_entry(1, term, &data);

    storage.append_entry(&entry, Ok("hash".into())).unwrap();
    assert_eq!(storage.term(1), TermStep::Known(Ok(term)));
    assert_eq!(term_of_blob(1, Some(data)), Ok(term));
    assert_eq!(term_of_blob(1, Some(entry_bytes(&entry))), Ok(term));
    assert_eq!(term_of_blob(1, Some(vec![5])), Err(LogError::Unavailable));
    assert_eq!(term_of_blob(1, Some(vec![])), Err(LogError::Unavailable));
    assert_eq!(term_of_blob(1, None), Err(LogError::Unavailable));
}

#[test]
fn snapshot_creation() {
    let mut storage = CasRaftStorage::new_empty();

    let mut blobs = HashMap::new();
    for i in 1..=5 {
        let entry = log_entry(i, 1, format!("entry-{i}").as_bytes());
        let hash = format!("hash-{i}");
        blobs.insert(hash.clone(), entry_bytes(&entry));
        storage.append_entry(&entry, Ok(hash)).unwrap();
    }

    let wanted = storage.snapshot_blobs(3).unwrap();
    let loaded: Vec<Option<Vec<u8>>> = wanted.iter().map(|h| blobs.get(h).cloned()).collect();
    let snapshot = storage.snapshot(&loaded);
    assert_eq!(snapshot.index, 5);
    assert!(!snapshot.data.is_empty());
    assert_eq!(snapshot.data, b"entry-1\nentry-2\nentry-3\nentry-4\nentry-5\n");
}

#[test]
fn snapshot_has_the_term_of_its_last_entry() {
    let mut storage = CasRaftStorage::new_empty();
    assert_eq!(storage.snapshot(&vec![]).term, 1, "an empty log");
    let mut loaded = Vec::new();
    for (index, term) in [(1, 3), (2, 3), (3, 8)] {
        let entry = log_entry(index, term, b"x");
        loaded.push(Some(entry_bytes(&entry)));
        storage.append_entry(&entry, Ok(format!("hash-{index}"))).unwrap();
    }
    assert_eq!(storage.snapshot(&loaded).term, 8);
    loaded[2] = None;
    assert_eq!(storage.snapshot(&loaded).term, 1, "the last blob is gone");
    loaded.pop();
    assert_eq!(storage.snapshot(&loaded).term, 1, "the last blob is another entry's");
}

fn full_log(blobs: &mut HashMap<String, Vec<u8>>) -> CasRaftStorage {
    let mut storage = CasRaftStorage::new_empty();
    for i in 1..=ENTRY_CACHE_SIZE as u64 + 4 {
        let entry = log_entry(i, 7, b"loaded");
        let hash = format!("hash-{i}");
        blobs.insert(hash.clone(), entry_bytes(&entry));
        storage.append_entry(&entry, Ok(hash)).unwrap();
    }
    storage
}

#[test]
fn entries_beyond_the_cache_are_loaded() {
    let mut blobs = HashMap::new();
    let mut storage = full_log(&mut blobs);
    let mut cursor = storage.entries(1, 4, None);
    let mut asked = Vec::new();
    while let EntriesStep::Load(hash) = storage.advance_entries(&mut cursor) {
        storage.supply_entry(&mut cursor, blobs.get(&hash).cloned());
        asked.push(hash);
    }
    let entries = cursor.into_entries();
    let appended: Vec<RaftEntry> = (1..4).map(|i| log_entry(i, 7, b"loaded")).collect();
    assert_eq!(entries, appended, "whole, with their terms");
    let mut cursor = storage.entries(1, 4, Some(7));
    assert_eq!(storage.advance_entries(&mut cursor), EntriesStep::Done);
    assert_eq!(cursor.into_entries().len(), 1, "six bytes each, seven allowed");
    assert_eq!(asked, vec!["hash-1", "hash-2", "hash-3"]);
    match storage.term(4) {
        TermStep::Load(hash) => assert_eq!(term_of_blob(4, blobs.get(&hash).cloned()), Ok(7)),
        other => panic!("{other:?}"),
    }
}

#[test]
fn loaded_entry_over_the_limit_ends_the_read() {
    let mut blobs = HashMap::new();
    let mut storage = full_log(&mut blobs);
    blobs.remove("hash-1");
    let mut cursor = storage.entries(1, 5, Some(7));
    let mut asked = Vec::new();
    while let EntriesStep::Load(hash) = storage.advance_entries(&mut cursor) {
        storage.supply_entry(&mut cursor, blobs.get(&hash).cloned());
        asked.push(hash);
    }
    assert_eq!(asked, vec!["hash-1", "hash-2", "hash-3"]);
    assert_eq!(storage.advance_entries(&mut cursor), EntriesStep::Done);
    assert_eq!(cursor.into_entries(), vec![log_entry(2, 7, b"loaded")]);
}

#[test]
fn stored_entries_are_read_back_whole() {
    let entry = RaftEntry {
        entry_type: -2,
        term: u64::MAX,
        index: 9,
        data: b"data".to_vec(),
        context: b"context".to_vec(),
        sync_log: true,
    };
    let bytes = entry_bytes(&entry);
    let mut message = Vec::new();
    prost::encoding::int32::encode(1, &entry.entry_type, &mut message);
    prost::encoding::uint64::encode(2, &entry.term, &mut message);
    prost::encoding::uint64::encode(3, &entry.index, &mut message);
    prost::encoding::bytes::encode(4, &entry.data, &mut message);
    prost::encoding::bool::encode(5, &entry.sync_log, &mut message);
    prost::encoding::bytes::encode(6, &entry.context, &mut message);
    assert_eq!(bytes, message);
    assert_eq!(
        entry_bytes(&log_entry(300, 2, b"ab")),
        [0x10, 2, 0x18, 0xac, 2, 0x22, 2, b'a', b'b']
    );
    assert_eq!(read_entry(&bytes), Some(entry));
    assert_eq!(read_entry(&bytes[..1]), None, "cut off behind a key");
    assert_eq!(read_entry(&bytes[..bytes.len() - 1]), None, "cut off in the context");
    let empty = log_entry(0, 0, b"");
    assert!(entry_bytes(&empty).is_empty());
    assert_eq!(read_entry(&entry_bytes(&empty)), Some(empty));
}

#[test]
fn fields_of_a_stored_entry_come_in_any_order() {
    let entry = log_entry(9, 4, b"d");
    assert_eq!(read_entry(&[0x22, 1, b'd', 0x18, 9, 0x10, 4]), Some(entry));
    let entry = log_entry(9, 4, b"");
    assert_eq!(read_entry(&[0x10, 3, 0x18, 9, 0x10, 4]), Some(entry), "the last counts");
    let entry = log_entry(9, 0, b"");
    let unknown = [0x38, 5, 0x42, 1, 0, 0x49, 0, 0, 0, 0, 0, 0, 0, 0, 0x55, 0, 0, 0, 0, 0x18, 9];
    assert_eq!(read_entry(&unknown), Some(entry), "unknown fields are passed over");
    assert_eq!(read_entry(&[0x12, 1, 4]), None, "a term is no bytes");
    assert_eq!(read_entry(&[0x20, 1]), None, "data is no number");
    assert_eq!(read_entry(&[0x15, 0, 0, 0, 0]), None, "a term of four bytes");
    assert_eq!(read_entry(&[0x03, 0x04]), None, "no field has the number zero");
    let mut long = vec![0x10];
    long.extend([0xff; 9]);
    long.push(1);
    assert_eq!(read_entry(&long), Some(log_entry(0, u64::MAX, b"")));
    long[10] = 2;
    assert_eq!(read_entry(&long), None, "more than 64 bits");
}

#[test]
fn foreign_blob_is_no_entry_of_the_log() {
    let mut blobs = HashMap::new();
    let mut storage = full_log(&mut blobs);
    let mut cursor = storage.entries(1, 3, None);
    while let EntriesStep::Load(hash) = storage.advance_entries(&mut cursor) {
        let blob = if hash == "hash-1" {
            entry_bytes(&log_entry(8, 7, b"loaded"))
        } else {
            b"no entry".to_vec()
        };
        storage.supply_entry(&mut cursor, Some(blob));
    }
    assert_eq!(cursor.into_entries(), vec![]);
}

#[test]
fn log_keeps_states_and_forgets_what_is_compacted() {
    let mut storage = CasRaftStorage::new();
    let hs = HardState {
        term: 3,
        vote: 1,
        commit: 2,
    };
    storage.set_hard_state(hs, Ok("h".into())).unwrap();
    let cs = ConfState {
        voters: vec![1, 2],
        learners: vec![],
        auto_leave: false,
    };
    assert!(String::from_utf8(hard_state_bytes(&hs))
        .unwrap()
        .contains("\"term\":3"));
    assert!(String::from_utf8(conf_state_bytes(&cs))
        .unwrap()
        .contains("[1,2]"));
    storage.set_conf_state(cs, Ok("c".into())).unwrap();
    let (got, members) = storage.initial_state();
    assert_eq!(got, hs);
    assert_eq!(members.voters, vec![1, 2]);
    for i in 1..=4 {
        storage
            .append_entry(&log_entry(i, 1, b"x"), Ok(format!("hash-{i}")))
            .unwrap();
    }
    storage.compact(2).unwrap();
    assert_eq!(storage.first_index(), 3);
    assert!(storage
        .append_entry(&log_entry(5, 1, b"x"), Err(CoreError::StorageIo("full".into())))
        .is_err());
    assert_eq!(storage.last_index(), 4);
}

#[test]
fn participants_are_found_by_their_id() {
    let mut registry = RaftIdRegistry::new();
    registry.insert(2, "peer-2".into());
    assert_eq!(registry.get(2), Some("peer-2".to_string()));
    assert_eq!(registry.get(3), None);
    assert!(registry.knows_all(&[2]));
    assert!(!registry.knows_all(&[2, 3]));
    assert_eq!(registry.snapshot(), vec![(2, "peer-2".to_string())]);
    let sent = route_message(&registry, 2, envelope_from_data(vec![9])).unwrap();
    assert_eq!(
        sent,
        SwarmCommand::SendRaftMessage {
            peer_id: "peer-2".into(),
            data: vec![9],
        }
    );
    assert!(route_message(&registry, 3, envelope_from_data(vec![9])).is_err());
    registry.remove(2);
    assert_eq!(registry.get(2), None);
    assert!(message_queued(2, Ok(())).is_ok());
    assert!(message_queued(2, Err("full".into()))
        .unwrap_err()
        .to_string()
        .contains("failed to queue raft message for 2: full"));
    assert!(channel::sent(5, Err("closed".into())).is_err());
}

#[test]
fn consensus_events_lead_to_actions() {
    assert_eq!(react(RaftEvent::Tick), RaftAction::Tick);
    assert_eq!(react(RaftEvent::Envelope(None)), RaftAction::Stop);
    assert_eq!(react(RaftEvent::Submitted(None)), RaftAction::Stop);
    assert_eq!(
        react(RaftEvent::Envelope(Some(envelope_from_data(vec![1])))),
        RaftAction::Step(vec![1])
    );
    assert_eq!(
        react(RaftEvent::Submitted(Some(Proposal::DeregisterNode(1)))),
        RaftAction::Propose(Proposal::DeregisterNode(1))
    );
    assert!(proposed(Ok(())).is_ok());
    assert_eq!(
        proposed(Err(ProposeFailure::Refused("not leader".into()))).unwrap_err(),
        CoreError::Raft("propose failed: not leader".into())
    );
    assert_eq!(RaftSettings::new(3).id, 3);
}

#[test]
fn entries_are_kept_before_they_are_answered_or_applied() {
    let batch = ReadyBatch {
        messages: vec![OutgoingMessage {
            to: 2,
            data: vec![1],
        }],
        hard_state: Some(HardState {
            term: 1,
            vote: 1,
            commit: 1,
        }),
        entries: vec![log_entry(1, 1, b"e")],
        persisted_messages: vec![OutgoingMessage {
            to: 3,
            data: vec![2],
        }],
        committed: vec![log_entry(1, 1, b"e")],
    };
    let actions = process_ready(batch);
    let place = |f: fn(&ReadyAction) -> bool| actions.iter().position(f).unwrap();
    let keep = place(|a| matches!(a, ReadyAction::Persist(_)));
    let apply = place(|a| matches!(a, ReadyAction::Apply(_)));
    let answer = place(|a| matches!(a, ReadyAction::Send(m) if m.to == 3));
    assert!(keep < answer);
    assert!(keep < apply);
    assert_eq!(actions.last(), Some(&ReadyAction::Advance));
}

#[test]
fn committed_entry_changes_the_state() {
    let mut state = ClusterState::default();
    let d = make_descriptor("550e8400-e29b-41d4-a716-446655440000");
    let key = d.node_id;
    apply_entry(&mut state, 4, Ok(Proposal::RegisterNode(d)));
    assert!(state.nodes.contains_key(&key));
    assert_eq!(state.last_applied_index, 4);
    apply_entry(&mut state, 5, Err("garbage".into()));
    assert_eq!(state.nodes.len(), 1);
}
