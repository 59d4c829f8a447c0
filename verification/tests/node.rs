use edge_orchestrator::error::CoreError;
use edge_orchestrator::node::bootstrap::{
    advertised, boot_plan, identity, membership, network, sandbox_policy, sandbox_preflight,
    with_listen_address, with_node_id, BootError, HostFacts, Membership,
};
use edge_orchestrator::node::cas_fetch::{BlobFetcher, Fetch, FetchEnd};
use edge_orchestrator::node::cli::Args;
use edge_orchestrator::node::config::{
    default_listen_addresses, default_node_type, default_project_vm_pool, role_of,
    CapabilitiesConfig, ConfigError, NodeConfig,
};
use edge_orchestrator::node::monitor::{Node, NodeAction};
use edge_orchestrator::node::project_client::{Catalog, ProjectClient, TaskState, RESULT_GRACE};
use edge_orchestrator::node::project_executor::{
    QleanProjectExecutor, RunAction, RunEvent, ProjectRun,
};
use edge_orchestrator::node::project_snapshot::{
    extract_snapshot, snapshot_from_dir, stored_snapshot, ArchiveFault,
};
use edge_orchestrator::outside::clock::Timestamp;
use edge_orchestrator::p2p::command::SwarmCommand;
use edge_orchestrator::p2p::discovery::Event;
use edge_orchestrator::raft::network::RaftIdRegistry;
use edge_orchestrator::raft::state_machine::ClusterState;
use edge_orchestrator::sandbox::pool::MAX_POOL_TARGET;
use edge_orchestrator::sandbox::qlean::VmMode;
use edge_orchestrator::storage::objects::{hash_blob, Blob, Object};
use edge_orchestrator::storage::store::LocalObjectStore;
use edge_orchestrator::table::TextTable;
use edge_orchestrator::types::{
    Capabilities, ExecutionResult, NodeDescriptor, NodeId, NodeType, OsType, ProjectResult,
    ProjectSnapshot, ProjectTask, ResourceLimits, Role,
};

const NOW: Timestamp = Timestamp {
    secs: 1_700_000_000,
    nanos: 0,
};

fn default_config() -> NodeConfig {
    NodeConfig {
        node_id: String::new(),
        node_type: default_node_type(),
        listen_addresses: default_listen_addresses(),
        bootstrap_peers: vec![],
        capabilities: CapabilitiesConfig::default(),
        roles: vec![],
        raft_id: None,
        raft_peers: vec![],
        identity_seed: None,
    }
}

fn config_with_mode(value: &str) -> NodeConfig {
    let mut config = default_config();
    config.capabilities.project_sandbox = true;
    config.capabilities.project_vm_mode = value.to_string();
    config
}

#[test]
fn vm_mode_defaults_to_reuse() {
    assert_eq!(default_config().project_vm_mode(), VmMode::Reuse);
}

#[test]
fn vm_mode_is_parsed_and_typos_fall_back_loudly() {
    assert_eq!(config_with_mode("fresh").project_vm_mode(), VmMode::Fresh);
    // A typo must not silently pick a mode; it falls back to the safe default.
    assert_eq!(config_with_mode("fressh").project_vm_mode(), VmMode::Reuse);
}

#[test]
fn image_template_needs_source_and_digest() {
    let mut config = default_config();
    config.capabilities.project_image_source = Some("/var/lib/eo/toolchain.qcow2".to_string());
    let err = config
        .project_image_template()
        .expect_err("digest is mandatory");
    assert!(err.contains("both source and digest"), "{err}");
    assert!(default_config().project_image_template().unwrap().is_none());
}

#[test]
fn pool_size_defaults_and_is_clamped() {
    assert_eq!(default_project_vm_pool(), 1);
    assert_eq!(default_config().project_vm_pool_size(), 1);
    let mut config = default_config();
    config.capabilities.project_vm_pool_size = MAX_POOL_TARGET + 50;
    assert_eq!(
        config.project_vm_pool_size(),
        MAX_POOL_TARGET,
        "a too-large pool must be clamped, not honoured"
    );
}

#[test]
fn each_bad_setting_is_named() {
    let mut config = default_config();
    assert!(config.validate().is_ok());
    config.node_id = "nope".into();
    assert!(matches!(config.validate(), Err(ConfigError::NodeId { .. })));
    let mut config = default_config();
    config.node_type = "Medium".into();
    let err = config.validate().unwrap_err();
    assert_eq!(
        err.to_string(),
        "node_type must be 'Heavy' or 'Light', got 'Medium'"
    );
    let configured = || {
        let mut config = default_config();
        config.listen_addresses = vec!["/ip4/0.0.0.0/tcp/1".into(), "/ip4/0.0.0.0/tcp/2".into()];
        config
    };
    let kept = with_listen_address(configured(), None);
    assert_eq!(kept.listen_addresses, configured().listen_addresses);
    let given = with_listen_address(configured(), Some("/ip4/127.0.0.1/tcp/4001"));
    assert_eq!(given.listen_addresses, vec!["/ip4/127.0.0.1/tcp/4001".to_string()]);
    assert_eq!(given.node_id, configured().node_id);
    assert_eq!(given.bootstrap_peers, configured().bootstrap_peers);
}

#[test]
fn node_without_a_raft_id_takes_no_part_in_consensus() {
    let mut config = default_config();
    let d = config.to_descriptor(5, OsType::Linux, NOW);
    assert_eq!(membership(&config, &d), Membership::LightClient);
    config.raft_id = Some(2);
    config.raft_peers = vec![1, 2, 3];
    match membership(&config, &d) {
        Membership::Voter { raft_id, peers, .. } => {
            assert_eq!(raft_id, 2);
            assert_eq!(peers, vec![1, 2, 3]);
        }
        other => panic!("{other:?}"),
    }
}

fn good_host() -> HostFacts {
    HostFacts {
        kvm_present: true,
        kvm_usable: true,
        user: Some("u".into()),
        bridge: None,
        bridge_present: true,
        helper_present: true,
        bridge_conf: Some("allow qlbr0\n".into()),
        mirror_reachable: true,
        network_script: "./fix".into(),
    }
}

#[test]
fn preflight_names_what_is_missing() {
    assert!(sandbox_preflight(&good_host()).is_empty());
    let mut facts = good_host();
    facts.kvm_present = false;
    facts.bridge_conf = None;
    facts.mirror_reachable = false;
    let notes = sandbox_preflight(&facts);
    assert_eq!(notes.len(), 3);
    assert!(notes[0].contains("/dev/kvm missing"));
    assert!(notes[1].contains("bridge.conf missing"));
    assert!(notes[2].ends_with("run ./fix for details"));
    let mut facts = good_host();
    facts.bridge_present = false;
    assert!(sandbox_preflight(&facts)[0].ends_with("Fix: sudo ./fix --fix"));
    let mut facts = good_host();
    facts.bridge_conf = Some("allow other\n".into());
    assert!(sandbox_preflight(&facts)[0].contains("has no 'allow qlbr0' line"));
}

#[test]
fn paths_come_from_the_arguments() {
    let args = Args {
        config: "c".into(),
        log_level: "info".into(),
        node_id: None,
        listen_address: None,
        ipc_socket: "~/s.sock".into(),
        no_ipc: false,
        store_dir: "~/store".into(),
    };
    let home = Some("/home/u".to_string());
    assert_eq!(args.store_path(&home), "/home/u/store");
    assert_eq!(args.socket_path(&home), Some("/home/u/s.sock".into()));
    let quiet = Args {
        no_ipc: true,
        ..args
    };
    assert_eq!(quiet.socket_path(&home), None);
}

fn make_node(node_id: NodeId, raft_id: u64, project_sandbox: bool) -> NodeDescriptor {
    NodeDescriptor {
        node_id,
        node_type: NodeType::Heavy,
        os: OsType::Linux,
        capabilities: Capabilities {
            project_sandbox,
            ..Capabilities::default()
        },
        advertised_addresses: vec![],
        current_assigned_roles: vec![],
        started_at: NOW,
        raft_id: Some(raft_id),
    }
}

fn fresh() -> NodeId {
    uuid::Uuid::new_v4().as_u128()
}

#[test]
fn resolve_peer_picks_capable_node() {
    let node_id = fresh();
    let mut state = ClusterState::default();
    state.nodes.insert(node_id, make_node(node_id, 1, true));
    let mut registry = RaftIdRegistry::new();
    registry.insert(1, "peer-1".into());
    let c = ProjectClient::new(fresh());
    let catalog = Catalog::Raft {
        state: &state,
        registry: &registry,
    };
    assert_eq!(c.resolve_peer(&catalog, None).unwrap(), "peer-1");
}

#[test]
fn resolve_peer_rejects_without_capable_node() {
    let node_id = fresh();
    let mut state = ClusterState::default();
    state.nodes.insert(node_id, make_node(node_id, 1, false));
    let registry = RaftIdRegistry::new();
    let c = ProjectClient::new(fresh());
    let catalog = Catalog::Raft {
        state: &state,
        registry: &registry,
    };
    assert!(c.resolve_peer(&catalog, None).is_err());
}

#[test]
fn resolve_peer_is_deterministic_by_raft_id() {
    let mut state = ClusterState::default();
    let n_large = fresh();
    let n_small = fresh();
    state.nodes.insert(n_large, make_node(n_large, 9, true));
    state.nodes.insert(n_small, make_node(n_small, 2, true));
    let mut registry = RaftIdRegistry::new();
    registry.insert(2, "small".into());
    registry.insert(9, "large".into());
    let c = ProjectClient::new(fresh());
    let catalog = Catalog::Raft {
        state: &state,
        registry: &registry,
    };
    assert_eq!(c.resolve_peer(&catalog, None).unwrap(), "small");
}

#[test]
fn peers_catalog_resolves_from_descriptors() {
    let mut peers = TextTable::new();
    let nid = fresh();
    peers.insert("peer-1".to_string(), make_node(nid, 1, true));
    let c = ProjectClient::new(fresh());
    let catalog = Catalog::Peers(&peers);
    assert_eq!(c.resolve_peer(&catalog, None).unwrap(), "peer-1");
    assert_eq!(c.resolve_peer(&catalog, Some(nid)).unwrap(), "peer-1");
}

#[test]
fn target_without_a_route_is_named() {
    let mut state = ClusterState::default();
    state.nodes.insert(4, make_node(4, 1, true));
    let registry = RaftIdRegistry::new();
    let c = ProjectClient::new(9);
    let catalog = Catalog::Raft {
        state: &state,
        registry: &registry,
    };
    assert_eq!(
        c.resolve_peer(&catalog, Some(4)).unwrap_err(),
        CoreError::Network(
            "no PeerId for raft id 1 (node 00000000-0000-0000-0000-000000000004)".into()
        )
    );
    assert_eq!(
        c.resolve_peer(&catalog, Some(5)).unwrap_err(),
        CoreError::InvalidState(
            "unknown target node 00000000-0000-0000-0000-000000000005".into()
        )
    );
    let mut homeless = make_node(6, 1, true);
    homeless.raft_id = None;
    state.nodes.insert(6, homeless);
    let catalog = Catalog::Raft {
        state: &state,
        registry: &registry,
    };
    assert_eq!(
        c.resolve_peer(&catalog, Some(6)).unwrap_err(),
        CoreError::InvalidState("target node has no raft_id".into())
    );
}

#[test]
fn submit_local_project_packs_and_sends_task() {
    let node_id = fresh();
    let mut state = ClusterState::default();
    state.nodes.insert(node_id, make_node(node_id, 1, true));
    let mut registry = RaftIdRegistry::new();
    registry.insert(1, "peer-1".into());
    let mut c = ProjectClient::new(fresh());
    let task_id = fresh();
    let snapshot = ProjectSnapshot {
        hash: "h".into(),
        tar_bytes: b"tar".to_vec(),
    };
    let catalog = Catalog::Raft {
        state: &state,
        registry: &registry,
    };
    let command = c
        .submit_local_project(
            &catalog,
            Ok(snapshot),
            "/root/project",
            vec!["true".into()],
            vec![],
            1000,
            None,
            task_id,
        )
        .unwrap();
    match command {
        SwarmCommand::SendProjectTask { peer_id, task } => {
            assert_eq!(peer_id, "peer-1");
            assert_eq!(task.task_id, task_id);
            assert!(!task.snapshot.tar_bytes.is_empty());
        }
        other => panic!("unexpected command: {other:?}"),
    }
    assert_eq!(c.task_sent(task_id, Ok(()), 0).unwrap(), task_id);
    assert_eq!(c.tracked_tasks(), 1);
}

fn result(task_id: NodeId) -> ProjectResult {
    ProjectResult {
        task_id,
        exit_code: 0,
        stdout: b"out".to_vec(),
        stderr: vec![],
        execution_time_ms: 1,
        executed_on: 3,
    }
}

#[test]
fn task_is_dispatched_then_done() {
    let mut c = ProjectClient::new(1);
    assert!(matches!(c.task_status(&7, 0), TaskState::Failed(_)));
    c.task_sent(7, Ok(()), 100).unwrap();
    assert_eq!(c.task_status(&7, 100), TaskState::Dispatched);
    assert_eq!(c.get_result(&7), None);
    c.record_result(result(7), 200);
    assert_eq!(c.task_status(&7, 300), TaskState::Done);
    assert_eq!(c.get_result(&7), Some(result(7)));
}

#[test]
fn task_without_an_answer_fails_in_the_end() {
    let mut c = ProjectClient::new(1);
    c.task_sent(7, Ok(()), 0).unwrap();
    assert_eq!(c.task_status(&7, RESULT_GRACE - 1), TaskState::Dispatched);
    match c.task_status(&7, RESULT_GRACE + 1_000_000_000) {
        TaskState::Failed(m) => assert!(m.starts_with("no result within 1920s"), "{m}"),
        other => panic!("{other:?}"),
    }
    assert_eq!(
        c.task_sent(8, Err("closed".into()), 0).unwrap_err(),
        CoreError::Network("send project task: closed".into())
    );
}

fn fetcher() -> BlobFetcher {
    BlobFetcher::new(LocalObjectStore::new("/store".into(), Ok(())).unwrap())
}

fn not_found(hash: &str) -> Result<Object, CoreError> {
    Err(CoreError::ObjectNotFound(hash.to_string()))
}

fn blob(data: &[u8]) -> Object {
    Object::Blob(Blob {
        hash: hash_blob(data),
        data: data.to_vec(),
    })
}

#[test]
fn local_hit_needs_no_network() {
    let mut f = fetcher();
    let write = f.put(b"snapshot-bytes");
    let got = f.ensure_blob(&write.hash, Ok(write.object), &RaftIdRegistry::new(), 1);
    assert_eq!(got, Fetch::Here(b"snapshot-bytes".to_vec()));
    assert_eq!(f.pending_fetches(), 0);
}

#[test]
fn missing_blob_without_peers_fails_fast_and_clearly() {
    let mut f = fetcher();
    let got = f.ensure_blob("deadbeef", not_found("deadbeef"), &RaftIdRegistry::new(), 1);
    let msg = match got {
        Fetch::Failed(err) => err.to_string(),
        other => panic!("must not invent data: {other:?}"),
    };
    assert!(msg.contains("no peer is known"), "{msg}");
    assert_eq!(
        f.pending_fetches(),
        0,
        "a failed fetch must not leak a waiter"
    );
}

#[test]
fn arriving_blob_wakes_the_waiter_and_lands_in_cas() {
    let mut f = fetcher();
    // A peer must be known, otherwise ensure_blob fails before waiting.
    let mut registry = RaftIdRegistry::new();
    registry.insert(1, "peer-1".into());
    // The store is content-addressed: the key must be the hash of the bytes
    // the peer will send, otherwise the fetch could never satisfy a reader.
    let hash = hash_blob(b"from-peer");

    let asked = f.ensure_blob(&hash, not_found(&hash), &registry, 42);
    assert_eq!(
        asked,
        Fetch::Ask(vec![SwarmCommand::RequestBlob {
            peer_id: "peer-1".into(),
            hash: hash.clone(),
        }])
    );
    assert_eq!(f.pending_fetches(), 1);

    let write = f
        .arriving_blob(&hash, true, &b"from-peer".to_vec())
        .unwrap();
    assert_eq!(write.hash, hash, "a fetched blob must be cached in CAS");
    assert_eq!(write.object, blob(b"from-peer"));
    let woken = f.on_blob_received(&write, Ok(()));
    assert_eq!(woken, Some(vec![42]), "delivery must report success");
    assert_eq!(
        f.fetch_ended(&hash, FetchEnd::Arrived(b"from-peer".to_vec()), 2, 1)
            .unwrap(),
        b"from-peer"
    );
    assert_eq!(f.pending_fetches(), 0);
}

#[test]
fn fetch_timeout_reports_the_wait_not_a_silent_pending() {
    let mut f = fetcher();
    let mut registry = RaftIdRegistry::new();
    registry.insert(1, "peer-1".into());
    let asked = f.ensure_blob("missing", not_found("missing"), &registry, 1);
    assert!(matches!(asked, Fetch::Ask(_)));
    let err = f
        .fetch_ended("missing", FetchEnd::TimedOut, 0, 1)
        .expect_err("no data can arrive here");
    assert!(err.to_string().contains("timed out after"), "{err:?}");
    assert_eq!(f.pending_fetches(), 0);
}

#[test]
fn dropped_fetch_is_told() {
    let mut f = fetcher();
    let mut registry = RaftIdRegistry::new();
    registry.insert(1, "peer-1".into());
    f.ensure_blob("missing", not_found("missing"), &registry, 1);
    let err = f
        .fetch_ended("missing", FetchEnd::Dropped, 0, 1)
        .unwrap_err();
    assert!(err.to_string().contains("was dropped"), "{err:?}");
    assert_eq!(f.arriving_blob("missing", false, &vec![]), None);
    let hash = hash_blob(b"x");
    assert_eq!(f.get_local(&hash, Ok(blob(b"x"))), Some(b"x".to_vec()));
}

#[test]
fn wrong_bytes_from_a_peer_wake_nobody() {
    let mut f = fetcher();
    let mut registry = RaftIdRegistry::new();
    registry.insert(1, "peer-1".into());
    let hash = hash_blob(b"wanted");
    f.ensure_blob(&hash, not_found(&hash), &registry, 7);
    assert_eq!(f.arriving_blob(&hash, true, &b"other".to_vec()), None);
    assert_eq!(f.pending_fetches(), 1, "the wait goes on");
    let write = f.arriving_blob(&hash, true, &b"wanted".to_vec()).unwrap();
    assert_eq!(write.hash, hash);
    assert_eq!(f.on_blob_received(&write, Err(CoreError::StorageIo("full".into()))), None);
    assert_eq!(f.pending_fetches(), 1);
    assert_eq!(f.on_blob_received(&write, Ok(())), Some(vec![7]));
    assert_eq!(f.get_local(&hash, Ok(blob(b"other"))), None);
    assert_eq!(f.get_local(&hash, Ok(write.object)), Some(b"wanted".to_vec()));
    let err = f
        .fetch_ended(&hash, FetchEnd::Arrived(b"other".to_vec()), 1, 1)
        .unwrap_err();
    assert_eq!(
        err,
        CoreError::HashMismatch {
            expected: hash,
            computed: hash_blob(b"other"),
        }
    );
}

#[test]
fn snapshot_hash_is_deterministic_and_lands_in_cas() {
    let store = LocalObjectStore::new("/store".into(), Ok(())).unwrap();
    let w1 = snapshot_from_dir(Ok(b"tar bytes".to_vec()), &store).unwrap();
    let w2 = snapshot_from_dir(Ok(b"tar bytes".to_vec()), &store).unwrap();
    assert_eq!(w1.object, blob(b"tar bytes"), "the CAS must hold it");
    let s1 = stored_snapshot(w1, Ok(())).unwrap();
    let s2 = stored_snapshot(w2, Ok(())).unwrap();
    assert_eq!(s1.hash, s2.hash);
    assert_eq!(
        s1.inline_len(),
        0,
        "snapshots are hash-only on the wire; the bytes live in the CAS"
    );
    let back = extract_snapshot(&s1, &store, Ok(blob(b"tar bytes"))).unwrap();
    assert_eq!(back, b"tar bytes");
}

#[test]
fn snapshot_that_is_nowhere_is_an_error() {
    let store = LocalObjectStore::new("/store".into(), Ok(())).unwrap();
    let err = extract_snapshot(
        &ProjectSnapshot::from_hash("abc".into()),
        &store,
        not_found("abc"),
    )
    .unwrap_err();
    assert!(err
        .to_string()
        .contains("snapshot abc is neither inline nor in the local CAS"));
    let inline = ProjectSnapshot {
        hash: "abc".into(),
        tar_bytes: b"inline".to_vec(),
    };
    assert_eq!(
        extract_snapshot(&inline, &store, not_found("abc")).unwrap(),
        b"inline"
    );
    let fault = ArchiveFault::Unpack {
        cause: "cut".into(),
    };
    assert!(fault.into_error().to_string().contains("untar: cut"));
}

fn project(tar: &[u8]) -> ProjectTask {
    ProjectTask {
        task_id: 7,
        snapshot: ProjectSnapshot {
            hash: "h".into(),
            tar_bytes: tar.to_vec(),
        },
        work_dir: "/root/project".into(),
        build_cmd: vec!["make".into()],
        run_cmd: vec!["./app".into()],
        timeout_ms: 1000,
        resource_limits: ResourceLimits::default(),
        pinned_node: None,
    }
}

fn start(tar: &[u8]) -> (ProjectRun, RunAction) {
    QleanProjectExecutor::new(OsType::Linux, 3).run(project(tar))
}

#[test]
fn project_is_fetched_extracted_and_run() {
    let (mut run, first) = start(b"");
    assert!(matches!(first, RunAction::EnsureBlob { hash, .. } if hash == "h"));
    let next = run.advance(RunEvent::BlobEnsured(Ok(vec![1]))).unwrap();
    assert_eq!(next, RunAction::MakeTempDir);
    let next = run
        .advance(RunEvent::TempDirMade(Ok("/tmp/t".into())))
        .unwrap();
    let dest = match next {
        RunAction::Extract { dest } => dest,
        other => panic!("{other:?}"),
    };
    assert!(dest.starts_with("/tmp/t/"), "{dest}");
    let next = run.advance(RunEvent::Extracted(Ok(()))).unwrap();
    match next {
        RunAction::RunProject(spec) => {
            assert_eq!(spec.local_project_dir, Some(dest));
            assert_eq!(spec.build_cmd, vec!["make".to_string()]);
            assert_eq!(spec.timeout_ms, 1000);
        }
        other => panic!("{other:?}"),
    }
    let done = run
        .advance(RunEvent::ProjectRan(Ok(Ok(ExecutionResult {
            exit_code: 4,
            stdout: b"o".to_vec(),
            stderr: b"e".to_vec(),
            execution_time_ms: 5,
            peak_memory_bytes: 0,
            result_hash: None,
        }))))
        .unwrap();
    assert_eq!(
        done,
        RunAction::Finish(Ok(ProjectResult {
            task_id: 7,
            exit_code: 4,
            stdout: b"o".to_vec(),
            stderr: b"e".to_vec(),
            execution_time_ms: 5,
            executed_on: 3,
        }))
    );
}

#[test]
fn project_gives_up_where_a_step_fails() {
    let (mut run, _) = start(b"");
    let end = run.advance(RunEvent::BlobEnsured(Err(CoreError::Network("down".into()))));
    match end {
        Some(RunAction::Finish(Err(m))) => {
            assert!(m.starts_with("snapshot h unavailable: "), "{m}")
        }
        other => panic!("{other:?}"),
    }
    let (mut run, first) = start(b"inline");
    assert!(matches!(first, RunAction::EnsureBlob { .. }));
    run.advance(RunEvent::BlobEnsured(Ok(vec![1])));
    run.advance(RunEvent::TempDirMade(Ok("/tmp/t".into())));
    let end = run.advance(RunEvent::Extracted(Err(CoreError::Internal("untar".into()))));
    assert!(matches!(end, Some(RunAction::Finish(Err(_)))));
    let (_, refused) = QleanProjectExecutor::new(OsType::MacOS, 3).run(project(b"x"));
    assert_eq!(
        refused,
        RunAction::Finish(Err("Qlean project executor requires Linux".into()))
    );
}

#[test]
fn node_learns_its_peers_and_dials_lost_ones_again() {
    let mut config = default_config();
    config.bootstrap_peers = vec!["/ip4/10.0.0.1/tcp/4001".into()];
    let plan = boot_plan(&config, 5, OsType::Linux, NOW).unwrap();
    let mut node = Node::bootstrap(&plan, false, OsType::Linux);
    let acts = node.on_event(Some(Event::PeerDiscovered {
        peer_id: "p".into(),
        address: "/ip4/10.0.0.2/tcp/1".into(),
    }));
    assert!(!acts.contains(&NodeAction::Stop));
    node.on_event(Some(Event::DescriptorReceived {
        peer_id: "p".into(),
        descriptor: make_node(8, 4, true),
    }));
    assert_eq!(
        node.on_event(Some(Event::ConnectionClosed { peer_id: "p".into() })),
        vec![NodeAction::Command(SwarmCommand::Dial {
            addr: "/ip4/10.0.0.2/tcp/1".into(),
        })]
    );
    assert!(node
        .on_event(Some(Event::ConnectionClosed { peer_id: "q".into() }))
        .is_empty());
    assert_eq!(node.raft_registry.get(4), Some("p".to_string()));
    assert_eq!(node.known_peers.get("p").map(|d| d.node_id), Some(8));
    assert!(node.on_tick().contains(&SwarmCommand::Dial {
        addr: "/ip4/10.0.0.1/tcp/4001".into()
    }));
    assert_eq!(node.on_event(None), vec![NodeAction::Stop]);
}
