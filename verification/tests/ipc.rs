use edge_orchestrator::error::CoreError;
use edge_orchestrator::ipc::handler::{
    check_code, default_code_language, default_routing, default_runtime, default_timeout,
    parse_routing, parse_runtime, respond, FetchParams, JsonRpcHandler, JsonRpcRequest,
    JsonRpcResponse, SubmitParams, CodeMethod,
};
use edge_orchestrator::ipc::project::{
    default_project_work_dir, FetchProjectParams, ProjectHandler, ProjectMethod,
    SubmitProjectParams,
};
use edge_orchestrator::ipc::server::{
    handle_connection, ConnReport, ConnStep, IpcServer, StartReport, StartStep,
};
use edge_orchestrator::node::project_client::ProjectClient;
use edge_orchestrator::outside::clock::Timestamp;
use edge_orchestrator::outside::json::Json;
use edge_orchestrator::storage::objects::hash_blob;
use edge_orchestrator::storage::store::LocalObjectStore;
use edge_orchestrator::types::{ExecutionResult, ProjectResult, RoutingStrategy, RuntimeKind};

const NOW: Timestamp = Timestamp {
    secs: 1_700_000_000,
    nanos: 0,
};

fn make_handler() -> JsonRpcHandler {
    JsonRpcHandler::new(LocalObjectStore::new("/store".into(), Ok(())).unwrap())
}

fn request(method: &str, id: u64) -> JsonRpcRequest {
    JsonRpcRequest {
        jsonrpc: "2.0".into(),
        method: method.into(),
        params: Json::Fields(vec![]),
        id: Json::Unsigned(id),
    }
}

fn submit_params(code: String) -> SubmitParams {
    SubmitParams {
        code,
        code_language: default_code_language(),
        required_runtime: default_runtime(),
        routing: default_routing(),
        timeout_ms: default_timeout(),
    }
}

fn base64(data: &[u8]) -> String {
    base64::Engine::encode(&base64::engine::general_purpose::STANDARD, data)
}

/// An execution result as it is stored.
fn result_to_bytes(r: &ExecutionResult) -> Vec<u8> {
    format!(
        "{{\"exit_code\":{},\"stdout\":{},\"stderr\":{},\"execution_time_ms\":{},\"peak_memory_bytes\":{},\"result_hash\":{}}}",
        r.exit_code,
        serde_json::to_string(&r.stdout).unwrap(),
        serde_json::to_string(&r.stderr).unwrap(),
        r.execution_time_ms,
        r.peak_memory_bytes,
        serde_json::to_string(&r.result_hash).unwrap(),
    )
    .into_bytes()
}

/// The execution result that stored bytes hold.
fn result_from_bytes(bytes: &[u8]) -> Result<ExecutionResult, String> {
    let v: serde_json::Value = serde_json::from_slice(bytes).map_err(|e| e.to_string())?;
    let output = |key: &str| serde_json::from_value(v[key].clone()).map_err(|e| e.to_string());
    Ok(ExecutionResult {
        exit_code: serde_json::from_value(v["exit_code"].clone()).map_err(|e| e.to_string())?,
        stdout: output("stdout")?,
        stderr: output("stderr")?,
        execution_time_ms: v["execution_time_ms"].as_u64().ok_or("execution_time_ms")?,
        peak_memory_bytes: v["peak_memory_bytes"].as_u64().ok_or("peak_memory_bytes")?,
        result_hash: v["result_hash"].as_str().map(String::from),
    })
}

/// What the code handler answers to a request without parameters.
fn answer(handler: &JsonRpcHandler, req: JsonRpcRequest) -> JsonRpcResponse {
    let outcome = match handler.handle(&req) {
        Ok(CodeMethod::Topology) => Ok(handler.get_cluster_topology()),
        Ok(other) => panic!("{other:?}"),
        Err(e) => Err(e),
    };
    respond(req.id, outcome)
}

#[test]
fn handler_get_cluster_topology_returns_valid_json() {
    let handler = make_handler();
    let resp = answer(&handler, request("get_cluster_topology", 1));
    assert!(resp.error.is_none(), "unexpected error: {:?}", resp.error);
    assert_eq!(resp.jsonrpc, "2.0");
    assert_eq!(resp.id, Json::Unsigned(1));
    let result = resp.result.unwrap();
    assert!(result.get("nodes").is_some());
    assert!(result.get("tasks_completed").is_some());

    let project = ProjectHandler::new();
    let req = request("get_cluster_topology", 1);
    assert_eq!(project.handle(&req), Ok(ProjectMethod::Topology));
    let result = project.get_cluster_topology();
    assert!(result.get("nodes").is_some());
    assert!(result.get("tasks_completed").is_some());
}

#[test]
fn submit_to_cas_and_raft_stores_blob_and_proposes() {
    let handler = make_handler();
    let code = b"def hello(): return 42";
    let mut params = submit_params(base64(code));
    params.required_runtime = "Wasm".into();
    params.routing = "AnyExecutor".into();
    let req = request("submit_to_cas_and_raft", 2);
    assert_eq!(handler.handle(&req), Ok(CodeMethod::Submit));

    let params = Ok(params);
    let write = handler.submit_to_cas_and_raft(&params).unwrap();
    let params = params.unwrap();
    let id = uuid::Uuid::new_v4();
    let task = JsonRpcHandler::schedule(&params, &write, Ok(()), id.as_u128(), NOW).unwrap();
    let resp = respond(req.id, JsonRpcHandler::submitted(&write.hash, task.task_id, Ok(())));
    assert!(resp.error.is_none(), "unexpected error: {:?}", resp.error);

    let result = resp.result.unwrap();
    let code_hash = result.str_field("code_hash").unwrap();
    let task_id = result.str_field("task_id").unwrap();
    assert!(!code_hash.is_empty());
    assert!(!task_id.is_empty());

    // Verify blob is retrievable
    assert_eq!(code_hash, hash_blob(code));
    let hash = write.hash.clone();
    let data = handler
        .object_store
        .get_blob(&hash, Ok(write.object))
        .unwrap();
    assert_eq!(data, code);

    // Verify the task that is proposed
    assert_eq!(task.code_hash, code_hash);
    assert_eq!(id.to_string(), task_id);
    assert_eq!(task.required_runtime, RuntimeKind::Wasm);
    assert_eq!(task.routing, RoutingStrategy::AnyExecutor);
    assert_eq!(task.submitted_at, NOW);
}

#[test]
fn fetch_execution_result_retrieves_stored_result() {
    let handler = make_handler();
    let exec_result = ExecutionResult {
        exit_code: 0,
        stdout: b"Hello, world!".to_vec(),
        stderr: vec![],
        execution_time_ms: 42,
        peak_memory_bytes: 8192,
        result_hash: None,
    };
    let stored = handler.object_store.put_blob(&result_to_bytes(&exec_result));
    let req = request("fetch_execution_result", 3);
    assert_eq!(handler.handle(&req), Ok(CodeMethod::Fetch));
    let hash = handler
        .fetch_execution_result(Ok(FetchParams {
            result_hash: stored.hash.clone(),
        }))
        .unwrap();
    assert_eq!(hash, stored.hash);
    let bytes = handler.result_bytes(&hash, Ok(stored.object)).unwrap();
    let resp = respond(
        req.id,
        JsonRpcHandler::show_result(result_from_bytes(&bytes)),
    );
    assert!(resp.error.is_none(), "unexpected error: {:?}", resp.error);

    let result = resp.result.unwrap();
    assert_eq!(result.get("exit_code"), Some(&Json::Unsigned(0)));
    assert_eq!(result.u64_field("execution_time_ms"), Some(42));
    assert_eq!(result.u64_field("peak_memory_bytes"), Some(8192));

    // Decode stdout
    let stdout_bytes = base64::Engine::decode(
        &base64::engine::general_purpose::STANDARD,
        result.str_field("stdout").unwrap(),
    )
    .unwrap();
    assert_eq!(stdout_bytes, b"Hello, world!");
}

#[test]
fn bytes_that_are_no_result_are_refused() {
    let handler = make_handler();
    let stored = handler.object_store.put_blob(b"no result");
    let hash = stored.hash.clone();
    let bytes = handler.result_bytes(&hash, Ok(stored.object)).unwrap();
    assert_eq!(bytes, b"no result");
    let refused = JsonRpcHandler::show_result(result_from_bytes(&bytes)).unwrap_err();
    assert_eq!(refused.code, -32005);
    assert!(refused.message.starts_with("Corrupted result blob: "));
}

#[test]
fn submit_rejects_oversized_code() {
    let handler = make_handler();
    // 65KB of zeros
    let big_code = vec![0u8; 65 * 1024];
    let resp = respond(
        Json::Unsigned(4),
        Err(handler
            .submit_to_cas_and_raft(&Ok(submit_params(base64(&big_code))))
            .unwrap_err()),
    );
    assert!(resp.error.is_some());
    assert_eq!(resp.error.as_ref().unwrap().code, -32001);
}

#[test]
fn handler_unknown_method_returns_error() {
    let handler = make_handler();
    let resp = answer(&handler, request("nonexistent_method", 5));
    assert!(resp.error.is_some());
    assert_eq!(resp.error.unwrap().code, -32601); // Method not found

    let refused = ProjectHandler::new()
        .handle(&request("nonexistent_method", 5))
        .unwrap_err();
    assert_eq!(refused.code, -32601);
    assert_eq!(refused.message, "Method not found: nonexistent_method");
}

#[test]
fn each_bad_submission_has_its_code() {
    let handler = make_handler();
    let code = |r: Result<_, edge_orchestrator::ipc::handler::JsonRpcErrorPayload>| match r {
        Ok(()) => 0,
        Err(e) => e.code,
    };
    let sent = |p: Result<SubmitParams, String>| handler.submit_to_cas_and_raft(&p).map(|_| ());
    assert_eq!(code(sent(Err("no code".into()))), -32602);
    let bad = sent(Ok(submit_params("***".into())));
    assert!(bad.unwrap_err().message.starts_with("Base64 decode failed: "));
    let small = handler
        .submit_to_cas_and_raft(&Ok(submit_params(base64(b"x"))))
        .unwrap();
    let mut p = submit_params(base64(b"x"));
    p.required_runtime = "Gpu".into();
    let e = JsonRpcHandler::schedule(&p, &small, Ok(()), 1, NOW).unwrap_err();
    assert_eq!(e.message, "Unknown runtime: Gpu");
    let e = JsonRpcHandler::schedule(
        &submit_params(base64(b"x")),
        &small,
        Err(CoreError::StorageIo("full".into())),
        1,
        NOW,
    )
    .unwrap_err();
    assert!(e.message.starts_with("CAS store error: "));
    let e = JsonRpcHandler::submitted("h", 1, Err("closed".into())).unwrap_err();
    assert_eq!(e.message, "Raft proposal failed: closed");
    let e = handler
        .fetch_execution_result(Err("missing field".into()))
        .unwrap_err();
    assert_eq!(e.code, -32602);
    assert_eq!(e.message, "Invalid params: missing field");
    let e = handler
        .result_bytes("h", Err(CoreError::ObjectNotFound("h".into())))
        .unwrap_err();
    assert_eq!(e.code, -32004);
    assert!(e.message.starts_with("Object not found: "));
    let tree = handler.object_store.put_tree(vec![]);
    let e = handler.result_bytes("h", Ok(tree.object)).unwrap_err();
    assert_eq!(e.code, -32004);
    let e = JsonRpcHandler::show_result(Err("cut".into())).unwrap_err();
    assert_eq!(e.code, -32005);
    assert_eq!(e.message, "Corrupted result blob: cut");
    assert!(check_code(Ok(vec![0; 65536]), &handler.object_store).is_ok());
}

#[test]
fn words_name_runtimes_and_routes() {
    assert_eq!(parse_runtime("Container"), Ok(RuntimeKind::Container));
    assert!(parse_runtime("container").is_err());
    assert_eq!(parse_routing("PreferWasm"), Ok(RoutingStrategy::PreferWasm));
    assert_eq!(
        parse_routing("Pinned:00000000-0000-0000-0000-000000000009"),
        Ok(RoutingStrategy::Pinned(9))
    );
    assert!(parse_routing("Pinned:9")
        .unwrap_err()
        .message
        .starts_with("Invalid node_id in Pinned: "));
    assert!(parse_routing("Anywhere").is_err());
}

fn project_params(target: Option<&str>) -> SubmitProjectParams {
    SubmitProjectParams {
        project_dir: "/p".into(),
        work_dir: default_project_work_dir(),
        build_cmd: vec![],
        run_cmd: vec!["./app".into()],
        timeout_ms: 1000,
        target_node: target.map(|s| s.to_string()),
    }
}

#[test]
fn project_submission_needs_a_cluster() {
    let refused = ProjectHandler::submit_project(Ok(project_params(None)), false).unwrap_err();
    assert_eq!(
        refused.message,
        "node has no cluster state; cannot submit projects"
    );
    let taken = ProjectHandler::submit_project(
        Ok(project_params(Some("00000000-0000-0000-0000-000000000009"))),
        true,
    )
    .unwrap();
    assert_eq!(taken.target, Some(9));
    let refused =
        ProjectHandler::submit_project(Ok(project_params(Some("nine"))), true).unwrap_err();
    assert!(refused.message.starts_with("invalid target_node: "));
    let told = ProjectHandler::project_submitted(Ok(9)).unwrap();
    assert_eq!(
        told.str_field("task_id"),
        Some("00000000-0000-0000-0000-000000000009")
    );
    assert!(ProjectHandler::project_submitted(Err(CoreError::Network("down".into()))).is_err());
}

#[test]
fn project_result_is_pending_then_completed() {
    let mut client = ProjectClient::new(1);
    client.task_sent(9, Ok(()), 0).unwrap();
    let ask = || {
        Ok(FetchProjectParams {
            task_id: "00000000-0000-0000-0000-000000000009".into(),
        })
    };
    let j = ProjectHandler::fetch_project_result(ask(), Some(&client), 1).unwrap();
    assert_eq!(j.str_field("status"), Some("pending"));
    client.record_result(
        ProjectResult {
            task_id: 9,
            exit_code: -3,
            stdout: b"hi".to_vec(),
            stderr: vec![],
            execution_time_ms: 6,
            executed_on: 2,
        },
        2,
    );
    let j = ProjectHandler::fetch_project_result(ask(), Some(&client), 3).unwrap();
    assert_eq!(j.str_field("status"), Some("completed"));
    assert_eq!(j.i64_field("exit_code"), Some(-3));
    assert_eq!(j.str_field("stdout"), Some("aGk="));
    let other = ProjectHandler::fetch_project_result(
        Ok(FetchProjectParams {
            task_id: "00000000-0000-0000-0000-00000000000a".into(),
        }),
        Some(&client),
        3,
    )
    .unwrap();
    assert_eq!(other.str_field("status"), Some("failed"));
    assert!(ProjectHandler::fetch_project_result(ask(), None, 3).is_err());
}

#[test]
fn server_clears_a_stale_socket_before_it_binds() {
    let server = IpcServer::new("/run/eo/s.sock".into());
    let step = server.start();
    assert_eq!(step, StartStep::MakeDir("/run/eo".into()));
    let step = server.run(step, StartReport::DirMade(Ok(())));
    assert_eq!(step, StartStep::LookForStale);
    let step = server.run(step, StartReport::Stale(true));
    assert_eq!(step, StartStep::RemoveStale);
    let step = server.run(step, StartReport::Removed(Ok(())));
    assert_eq!(step, StartStep::Bind);
    assert_eq!(
        server.run(StartStep::Bind, StartReport::Bound(Ok(()))),
        StartStep::Started(Ok(()))
    );
    assert_eq!(
        server.run(StartStep::Bind, StartReport::Bound(Err("in use".into()))),
        StartStep::Started(Err(CoreError::Network(
            "cannot bind to /run/eo/s.sock: in use".into()
        )))
    );
}

#[test]
fn connection_is_read_answered_and_shut_down() {
    assert_eq!(
        handle_connection(ConnReport::Line(Ok(Some("{}".into())))),
        ConnStep::Parse("{}".into())
    );
    assert_eq!(
        handle_connection(ConnReport::Line(Ok(None))),
        ConnStep::Closed(Ok(()))
    );
    assert_eq!(
        handle_connection(ConnReport::Parsed(Ok(()))),
        ConnStep::Serve
    );
    assert_eq!(
        handle_connection(ConnReport::Served(Ok("{}".into()))),
        ConnStep::Send("{}\n".into())
    );
    assert_eq!(
        handle_connection(ConnReport::Sent(Ok(()))),
        ConnStep::Shutdown
    );
    assert_eq!(
        handle_connection(ConnReport::ShutDown(Ok(()))),
        ConnStep::Closed(Ok(()))
    );
    assert!(matches!(
        handle_connection(ConnReport::Parsed(Err("bad".into()))),
        ConnStep::Closed(Err(CoreError::Serialization(_)))
    ));
}
