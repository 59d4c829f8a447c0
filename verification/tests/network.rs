use edge_orchestrator::outside::clock::Timestamp;
use edge_orchestrator::p2p::command::SwarmCommand;
use edge_orchestrator::p2p::discovery::Event;
use edge_orchestrator::p2p::protocol::{
    payload_length, read_length_prefixed, write_length_prefixed, DescriptorCodec, DescriptorResponse, FrameError,
    REQUEST_MAX_SIZE, RESPONSE_MAX_SIZE,
};
use edge_orchestrator::p2p::swarm::{
    job_result, project_failure, tail, SwarmInput, SwarmOutput, SwarmState,
};
use edge_orchestrator::types::{
    Capabilities, NodeDescriptor, NodeType, OsType, ProjectResult, ProjectSnapshot, ProjectTask,
    ResourceLimits,
};

fn fresh() -> u128 {
    uuid::Uuid::new_v4().as_u128()
}

/// A task with a snapshot of its own.
fn project(id: u128, build_cmd: Vec<String>, run_cmd: Vec<String>, timeout_ms: u64) -> ProjectTask {
    ProjectTask {
        task_id: id,
        snapshot: ProjectSnapshot {
            hash: "tarhash".into(),
            tar_bytes: b"tar".to_vec(),
        },
        work_dir: "/root/proj".into(),
        build_cmd,
        run_cmd,
        timeout_ms,
        resource_limits: ResourceLimits::default(),
        pinned_node: None,
    }
}

fn descriptor() -> NodeDescriptor {
    NodeDescriptor {
        node_id: 5,
        node_type: NodeType::Heavy,
        os: OsType::Linux,
        capabilities: Capabilities::default(),
        advertised_addresses: vec![],
        current_assigned_roles: vec![],
        started_at: Timestamp { secs: 0, nanos: 0 },
        raft_id: Some(1),
    }
}

fn described() -> DescriptorResponse {
    DescriptorResponse {
        descriptor_json: "{}".into(),
    }
}

fn done(id: u128, stdout: &[u8], execution_time_ms: u64) -> ProjectResult {
    ProjectResult {
        task_id: id,
        exit_code: 0,
        stdout: stdout.to_vec(),
        stderr: vec![],
        execution_time_ms,
        executed_on: 9,
    }
}

fn ran(id: u128) -> ProjectResult {
    done(id, b"Hello from peer\n", 12)
}

#[test]
fn single_swarm_starts_listening() {
    let mut s = SwarmState::new("me".into(), 1, false);
    let out = s.step(SwarmInput::NewListenAddr {
        address: "/ip4/127.0.0.1/tcp/4001".into(),
    });
    assert_eq!(
        out,
        vec![SwarmOutput::Emit(Event::NewListenAddr {
            address: "/ip4/127.0.0.1/tcp/4001".into()
        })]
    );
}

#[test]
fn two_nodes_discover_each_other() {
    let mut a = SwarmState::new("a".into(), 1, false);
    let out = a.step(SwarmInput::Discovered(vec![(
        "b".into(),
        "/ip4/10.0.0.2/tcp/1".into(),
    )]));
    assert!(out.contains(&SwarmOutput::Emit(Event::PeerDiscovered {
        peer_id: "b".into(),
        address: "/ip4/10.0.0.2/tcp/1".into(),
    })));
    let mut b = SwarmState::new("b".into(), 2, false);
    let out = b.step(SwarmInput::Discovered(vec![(
        "a".into(),
        "/ip4/10.0.0.1/tcp/1".into(),
    )]));
    assert!(out.contains(&SwarmOutput::Emit(Event::PeerDiscovered {
        peer_id: "a".into(),
        address: "/ip4/10.0.0.1/tcp/1".into(),
    })));
}

#[test]
fn descriptor_exchange_completes() {
    let mut a = SwarmState::new("a".into(), 1, false);
    let mut b = SwarmState::new("b".into(), 2, false);
    let out = a.step(SwarmInput::Command(Some(SwarmCommand::RequestDescriptor {
        peer_id: "b".into(),
    })));
    assert!(matches!(
        &out[0],
        SwarmOutput::AskDescriptor { peer_id, request } if peer_id == "b" && request.requester_id == "00000000-0000-0000-0000-000000000001"
    ));
    let out = b.step(SwarmInput::DescriptorRequested {
        peer_id: "a".into(),
        response: Some(described()),
        channel: 3,
    });
    assert!(out.contains(&SwarmOutput::AnswerDescriptor {
        channel: 3,
        response: described()
    }));
    assert!(out.contains(&SwarmOutput::Emit(Event::DescriptorSent {
        peer_id: "a".into()
    })));
    let out = a.step(SwarmInput::DescriptorAnswered {
        peer_id: "b".into(),
        descriptor: Ok(descriptor()),
    });
    assert_eq!(
        out,
        vec![SwarmOutput::Emit(Event::DescriptorReceived {
            peer_id: "b".into(),
            descriptor: descriptor(),
        })]
    );
    let out = a.step(SwarmInput::DescriptorAnswered {
        peer_id: "b".into(),
        descriptor: Err("garbage".into()),
    });
    assert!(out.is_empty());
}

#[test]
fn peer_expires_on_timeout() {
    let mut a = SwarmState::new("a".into(), 1, false);
    let out = a.step(SwarmInput::Expired(vec![("b".into(), "/ip4/1".into())]));
    assert!(out.contains(&SwarmOutput::Emit(Event::PeerExpired {
        peer_id: "b".into()
    })));
}

#[test]
fn blob_is_served_between_two_swarms() {
    let mut blob = std::collections::HashMap::new();
    blob.insert("abc".to_string(), b"hello-blob".to_vec());
    let mut owner = SwarmState::new("owner".into(), 1, false);
    let mut reader = SwarmState::new("reader".into(), 2, false);
    let asked = reader.step(SwarmInput::Command(Some(SwarmCommand::RequestBlob {
        peer_id: "owner".into(),
        hash: "abc".into(),
    })));
    assert_eq!(
        asked,
        vec![SwarmOutput::AskBlob {
            peer_id: "owner".into(),
            hash: "abc".into()
        }]
    );
    let mut served = owner.step(SwarmInput::BlobRequested {
        peer_id: "reader".into(),
        hash: "abc".into(),
        blob: blob.get("abc").cloned(),
        channel: 1,
    });
    let (hash, found, data) = match served.remove(0) {
        SwarmOutput::AnswerBlob { channel, hash, found, data } => {
            assert_eq!(channel, 1);
            (hash, found, data)
        }
        other => panic!("{other:?}"),
    };
    let mut got = reader.step(SwarmInput::BlobAnswered {
        peer_id: "owner".into(),
        hash,
        found,
        data,
    });
    assert_eq!(got.len(), 1);
    match got.remove(0) {
        SwarmOutput::Emit(Event::BlobResponseReceived { peer_id, hash, found, data }) => {
            assert_eq!(peer_id, "owner");
            assert_eq!(hash, "abc");
            assert!(found);
            assert_eq!(data, b"hello-blob");
        }
        other => panic!("{other:?}"),
    }
}

#[test]
fn missing_blob_is_answered_as_not_found() {
    let mut owner = SwarmState::new("owner".into(), 1, false);
    let out = owner.step(SwarmInput::BlobRequested {
        peer_id: "reader".into(),
        hash: "gone".into(),
        blob: None,
        channel: 2,
    });
    assert!(out.contains(&SwarmOutput::AnswerBlob {
        channel: 2,
        hash: "gone".into(),
        found: false,
        data: vec![],
    }));
}

/// The result that a swarm reports for an answer from its peer.
fn received(s: &mut SwarmState, answered: ProjectResult) -> ProjectResult {
    let mut out = s.step(SwarmInput::ProjectAnswered {
        peer_id: "b".into(),
        result: answered,
    });
    assert_eq!(out.len(), 1);
    match out.remove(0) {
        SwarmOutput::Emit(Event::ProjectResultReceived { peer_id, result }) => {
            assert_eq!(peer_id, "b");
            result
        }
        other => panic!("{other:?}"),
    }
}

/// The answer to a project request on a channel.
fn answer_on(out: Vec<SwarmOutput>, wanted: u64) -> ProjectResult {
    out.into_iter()
        .find_map(|o| match o {
            SwarmOutput::AnswerProject { channel, result } if channel == wanted => Some(result),
            _ => None,
        })
        .expect("no answer")
}

#[test]
fn project_task_roundtrip_via_request_response() {
    let mut a = SwarmState::new("a".into(), 1, false);
    let mut b = SwarmState::new("b".into(), 2, true);
    let id = fresh();
    let sent = || project(id, vec!["make".into()], vec!["./app".into()], 5000);
    let out = a.step(SwarmInput::Command(Some(SwarmCommand::SendProjectTask {
        peer_id: "b".into(),
        task: sent(),
    })));
    assert_eq!(
        out,
        vec![SwarmOutput::SendProject {
            peer_id: "b".into(),
            task: sent()
        }]
    );
    let out = b.step(SwarmInput::ProjectRequested {
        peer_id: "a".into(),
        task: sent(),
        channel: 11,
    });
    assert_eq!(
        out,
        vec![SwarmOutput::StartJob {
            peer_id: "a".into(),
            task: sent()
        }]
    );
    let out = b.step(SwarmInput::JobFinished {
        peer_id: "a".into(),
        task_id: id,
        result: done(id, b"mock-done", 1),
    });
    let result = received(&mut a, answer_on(out, 11));
    assert_eq!(result.task_id, id);
    assert_eq!(result.stdout, b"mock-done");
    assert_eq!(result.exit_code, 0);
}

#[test]
fn project_execution_does_not_block_the_swarm_event_loop() {
    let mut a = SwarmState::new("a".into(), 1, false);
    let mut b = SwarmState::new("b".into(), 2, true);
    let id = fresh();
    let sent = || project(id, vec!["make".into()], vec!["./app".into()], 30_000);
    let out = b.step(SwarmInput::ProjectRequested {
        peer_id: "a".into(),
        task: sent(),
        channel: 11,
    });
    assert_eq!(
        out,
        vec![SwarmOutput::StartJob {
            peer_id: "a".into(),
            task: sent()
        }]
    );
    // While the job runs, other requests are answered at once.
    let out = b.step(SwarmInput::DescriptorRequested {
        peer_id: "a".into(),
        response: Some(described()),
        channel: 12,
    });
    assert!(out.contains(&SwarmOutput::AnswerDescriptor {
        channel: 12,
        response: described()
    }));
    let out = b.step(SwarmInput::RaftRequested {
        peer_id: "a".into(),
        data: vec![1],
        channel: 13,
    });
    assert!(out.contains(&SwarmOutput::AnswerRaft {
        channel: 13,
        accepted: true
    }));
    // The job's own result still arrives afterwards.
    let out = b.step(SwarmInput::JobFinished {
        peer_id: "a".into(),
        task_id: id,
        result: done(id, b"slow-done", 4000),
    });
    let result = received(&mut a, answer_on(out, 11));
    assert_eq!(result.stdout, b"slow-done");
    assert_eq!(result.exit_code, 0);
}

#[test]
fn result_with_another_id_still_answers_its_request() {
    let mut b = SwarmState::new("b".into(), 2, true);
    b.step(SwarmInput::ProjectRequested {
        peer_id: "a".into(),
        task: project(7, vec![], vec!["./app".into()], 5000),
        channel: 11,
    });
    let out = b.step(SwarmInput::JobFinished {
        peer_id: "a".into(),
        task_id: 7,
        result: ran(8),
    });
    assert_eq!(answer_on(out, 11), ran(8));
    let out = b.step(SwarmInput::JobFinished {
        peer_id: "a".into(),
        task_id: 7,
        result: ran(7),
    });
    assert_eq!(
        out,
        vec![SwarmOutput::Emit(Event::ProjectResultReceived {
            peer_id: "a".into(),
            result: ran(7),
        })],
        "answered once"
    );
}

#[test]
fn project_task_without_executor_is_rejected() {
    let mut a = SwarmState::new("a".into(), 1, false);
    let mut b = SwarmState::new("b".into(), 2, false);
    let id = fresh();
    let sent = || project(id, vec![], vec![], 5000);
    let out = b.step(SwarmInput::ProjectRequested {
        peer_id: "a".into(),
        task: sent(),
        channel: 11,
    });
    let result = received(&mut a, answer_on(out, 11));
    assert_eq!(result.task_id, id);
    assert_eq!(result.exit_code, 101);
    assert!(
        String::from_utf8_lossy(&result.stderr).contains("no project executor"),
        "unexpected rejection reason: {}",
        String::from_utf8_lossy(&result.stderr)
    );
}

#[test]
fn swarm_dials_its_bootstrap_peers_and_stops_when_closed() {
    assert_eq!(
        SwarmState::startup(vec!["/ip4/1".into()]),
        vec![SwarmOutput::Dial {
            addr: "/ip4/1".into()
        }]
    );
    let mut s = SwarmState::new("a".into(), 1, false);
    assert_eq!(s.step(SwarmInput::Command(None)), vec![SwarmOutput::Stop]);
    assert_eq!(s.step(SwarmInput::Closed), vec![SwarmOutput::Stop]);
    assert_eq!(s.step(SwarmInput::Other), vec![]);
    assert_eq!(
        s.step(SwarmInput::ConnectionClosed {
            peer_id: "b".into()
        }),
        vec![SwarmOutput::Emit(Event::ConnectionClosed {
            peer_id: "b".into()
        })]
    );
}

#[test]
fn failed_job_is_told_in_its_result() {
    let r = job_result(3, Err("boom".into()));
    assert_eq!(r.task_id, 3);
    assert_ne!(r.exit_code, 0);
    assert!(String::from_utf8(r.stderr).unwrap().contains("boom"));
    assert_eq!(job_result(3, Ok(ran(3))), ran(3));
    let f = project_failure(4, -1, "no");
    assert_eq!(f.exit_code, -1);
    assert_eq!(f.stderr, b"no");
}

#[test]
fn tail_keeps_the_last_lines() {
    assert_eq!(tail(b"a\nb\nc\n", 2), "b | c");
    assert_eq!(tail(b"ab", 3), "ab");
    assert_eq!(tail(&[0xff, b'x'], 2), "\u{fffd}x");
}

#[test]
fn frame_is_read_back() {
    let frame = write_length_prefixed(b"payload");
    assert_eq!(&frame[..4], &[0, 0, 0, 7]);
    assert_eq!(read_length_prefixed(&frame, 7), Ok(b"payload".to_vec()));
    assert!(matches!(
        read_length_prefixed(&frame, 6),
        Err(FrameError::InvalidData(_))
    ));
    assert_eq!(
        read_length_prefixed(&frame[..9], 7),
        Err(FrameError::UnexpectedEof)
    );
    assert_eq!(
        read_length_prefixed(&frame[..2], 7),
        Err(FrameError::UnexpectedEof)
    );
    assert_eq!(payload_length(&[0, 0, 1, 2], 1000), Ok(258));
    let codec = DescriptorCodec {};
    assert_eq!(codec.read_request(&frame), Ok(b"payload".to_vec()));
    assert!(codec
        .read_request(&write_length_prefixed(&vec![0; REQUEST_MAX_SIZE + 1]))
        .is_err());
    assert!(codec
        .read_response(&write_length_prefixed(&vec![0; RESPONSE_MAX_SIZE]))
        .is_ok());
    assert!(DescriptorCodec::protocol().starts_with("/edge-orch/"));
}
