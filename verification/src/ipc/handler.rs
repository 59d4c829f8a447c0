//! Requests that submit code and fetch its results.
use vstd::prelude::*;
use vstd::string::*;
use crate::error::{error_message, Result};
use crate::outside::base64_text::{base64_decode, base64_decoded, base64_encode, base64_of};
use crate::outside::json::{Json, JsonView};
use crate::outside::uuid_text::{parse_uuid, uuid_error_text, uuid_notation, uuid_to_text, uuid_value};
use crate::storage::objects::{blob_hash, Object, ObjectView};
use crate::storage::store::{blob_in, LocalObjectStore, PendingWrite};
use crate::text::{begins_with, cat2, cat3, decimal, decimal_text, str_eq, without_prefix};
use crate::types::{default_limits, ExecutionResult, ResourceLimits, RoutingStrategy, RuntimeKind};
use crate::types::{ScheduledTask, TaskId, Timestamp};

verus! {

/// Largest code that is taken, in bytes.
pub const MAX_CODE_SIZE: usize = 65536;

/// A request.
#[derive(Debug, PartialEq, Eq)]
pub struct JsonRpcRequest {
    /// Protocol version.
    pub jsonrpc: String,
    /// The method.
    pub method: String,
    /// Its parameters.
    pub params: Json,
    /// The request's identifier.
    pub id: Json,
}

/// A response.
#[derive(Debug, PartialEq, Eq)]
pub struct JsonRpcResponse {
    /// Protocol version.
    pub jsonrpc: String,
    /// What came of the request.
    pub result: Option<Json>,
    /// Why the request failed.
    pub error: Option<JsonRpcErrorPayload>,
    /// The request's identifier.
    pub id: Json,
}

/// Why a request failed.
#[derive(Debug, PartialEq, Eq)]
pub struct JsonRpcErrorPayload {
    /// Error code.
    pub code: i32,
    /// Error message.
    pub message: String,
}

/// What a [`JsonRpcErrorPayload`] says.
pub struct PayloadView {
    pub code: int,
    pub message: Seq<char>,
}

impl View for JsonRpcErrorPayload {
    type V = PayloadView;

    open spec fn view(&self) -> PayloadView {
        PayloadView { code: self.code as int, message: self.message@ }
    }
}

/// What came of a method.
pub type Outcome = std::result::Result<Json, JsonRpcErrorPayload>;

/// The error with a code and a message.
pub fn json_rpc_error(code: i32, message: String) -> (r: JsonRpcErrorPayload)
    ensures
        r@ == (PayloadView { code: code as int, message: message@ }),
{
    JsonRpcErrorPayload { code, message }
}

/// The response to a request: its result or its error, and its identifier.
pub fn respond(id: Json, outcome: Outcome) -> (r: JsonRpcResponse)
    ensures
        r.jsonrpc@ == "2.0"@,
        r.id == id,
        match outcome {
            Ok(value) => r.result == Some(value) && r.error is None,
            Err(e) => r.result is None && r.error == Some(e),
        },
{
    match outcome {
        Ok(value) => JsonRpcResponse {
            jsonrpc: String::from_str("2.0"),
            result: Some(value),
            error: None,
            id,
        },
        Err(e) => JsonRpcResponse {
            jsonrpc: String::from_str("2.0"),
            result: None,
            error: Some(e),
            id,
        },
    }
}

/// The error for a method that does not exist.
pub fn unknown_method(method: &str) -> (r: JsonRpcErrorPayload)
    ensures
        r@ == (PayloadView { code: -32601, message: "Method not found: "@ + method@ }),
{
    json_rpc_error(-32601, cat2("Method not found: ", method))
}

/// The error for parameters that could not be read.
pub fn invalid_params(reason: &str) -> (r: JsonRpcErrorPayload)
    ensures
        r@ == (PayloadView { code: -32602, message: "Invalid params: "@ + reason@ }),
{
    json_rpc_error(-32602, cat2("Invalid params: ", reason))
}

/// Parameters of a code submission.
#[derive(Debug, PartialEq, Eq)]
pub struct SubmitParams {
    /// The code in base64.
    pub code: String,
    /// The language of the code.
    pub code_language: String,
    /// The runtime it needs.
    pub required_runtime: String,
    /// How its executor is picked.
    pub routing: String,
    /// Timeout in milliseconds.
    pub timeout_ms: u64,
}

/// The language where none is given.
pub fn default_code_language() -> (r: String)
    ensures
        r@ == "python"@,
{
    String::from_str("python")
}

/// The runtime where none is given.
pub fn default_runtime() -> (r: String)
    ensures
        r@ == "Wasm"@,
{
    String::from_str("Wasm")
}

/// The routing where none is given.
pub fn default_routing() -> (r: String)
    ensures
        r@ == "AnyExecutor"@,
{
    String::from_str("AnyExecutor")
}

/// The timeout where none is given.
pub fn default_timeout() -> (r: u64)
    ensures
        r == 30000,
{
    30000
}

/// Parameters of a request for a result.
#[derive(Debug, PartialEq, Eq)]
pub struct FetchParams {
    /// The hash of the result.
    pub result_hash: String,
}

/// The methods of the code handler.
#[derive(Debug, Clone, Copy, PartialEq, Eq, Structural)]
pub enum CodeMethod {
    /// `get_cluster_topology`.
    Topology,
    /// `submit_to_cas_and_raft`.
    Submit,
    /// `fetch_execution_result`.
    Fetch,
}

/// The method that a name stands for.
pub open spec fn code_method(name: Seq<char>) -> Option<CodeMethod> {
    if name == "get_cluster_topology"@ {
        Some(CodeMethod::Topology)
    } else if name == "submit_to_cas_and_raft"@ {
        Some(CodeMethod::Submit)
    } else if name == "fetch_execution_result"@ {
        Some(CodeMethod::Fetch)
    } else {
        None
    }
}

/// The topology that is shown.
pub open spec fn topology_view(tasks_completed: u64) -> JsonView {
    JsonView::Fields(
        map![
            "nodes"@ => JsonView::List(Seq::empty()),
            "role_assignments"@ => JsonView::Fields(Map::empty()),
            "tasks_pending"@ => JsonView::Unsigned(0),
            "tasks_completed"@ => JsonView::Unsigned(tasks_completed),
        ],
    )
}

/// The topology that is shown: no nodes and no roles yet, and how many tasks were
/// completed.
pub fn topology(tasks_completed: u64) -> (r: Json)
    ensures
        r@ == topology_view(tasks_completed),
{
    let nodes: Vec<Json> = Vec::new();
    let roles: Vec<(String, Json)> = Vec::new();
    proof {
        crate::outside::json::list_view_items(nodes@);
        assert(crate::outside::json::list_view(nodes@) =~= Seq::<JsonView>::empty());
        assert(crate::outside::json::fields_view(roles@) =~= Map::<Seq<char>, JsonView>::empty());
    }
    Json::object1("nodes", Json::List(nodes)).with("role_assignments", Json::Fields(roles)).with(
        "tasks_pending",
        Json::Unsigned(0),
    ).with("tasks_completed", Json::Unsigned(tasks_completed))
}

/// The runtime that a word names.
pub open spec fn runtime_named(word: Seq<char>) -> Option<RuntimeKind> {
    if word == "Wasm"@ {
        Some(RuntimeKind::Wasm)
    } else if word == "NativePosix"@ {
        Some(RuntimeKind::NativePosix)
    } else if word == "Container"@ {
        Some(RuntimeKind::Container)
    } else {
        None
    }
}

/// The runtime that a word names, or the error of a word that names none.
pub fn parse_runtime(word: &str) -> (r: std::result::Result<RuntimeKind, JsonRpcErrorPayload>)
    ensures
        match runtime_named(word@) {
            Some(kind) => r == Ok::<RuntimeKind, JsonRpcErrorPayload>(kind),
            None => r is Err && r->Err_0@ == (PayloadView {
                code: -32602,
                message: "Unknown runtime: "@ + word@,
            }),
        },
{
    if str_eq(word, "Wasm") {
        Ok(RuntimeKind::Wasm)
    } else if str_eq(word, "NativePosix") {
        Ok(RuntimeKind::NativePosix)
    } else if str_eq(word, "Container") {
        Ok(RuntimeKind::Container)
    } else {
        Err(json_rpc_error(-32602, cat2("Unknown runtime: ", word)))
    }
}

/// What a word for a routing strategy leads to.
pub open spec fn routing_parsed(
    word: Seq<char>,
    r: std::result::Result<RoutingStrategy, JsonRpcErrorPayload>,
) -> bool {
    if word == "AnyExecutor"@ {
        r == Ok::<RoutingStrategy, JsonRpcErrorPayload>(RoutingStrategy::AnyExecutor)
    } else if word == "PreferWasm"@ {
        r == Ok::<RoutingStrategy, JsonRpcErrorPayload>(RoutingStrategy::PreferWasm)
    } else if word == "PreferNative"@ {
        r == Ok::<RoutingStrategy, JsonRpcErrorPayload>(RoutingStrategy::PreferNative)
    } else if begins_with(word, "Pinned:"@) {
        let id = word.skip("Pinned:"@.len() as int);
        match uuid_value(id) {
            Some(n) => r == Ok::<RoutingStrategy, JsonRpcErrorPayload>(
                RoutingStrategy::Pinned(n as u128),
            ),
            None => r is Err && r->Err_0@ == (PayloadView {
                code: -32602,
                message: "Invalid node_id in Pinned: "@ + uuid_error_text(id),
            }),
        }
    } else {
        r is Err && r->Err_0@ == (PayloadView {
            code: -32602,
            message: "Unknown routing strategy: "@ + word,
        })
    }
}

/// The routing strategy that a word names, or the error of a word that names none.
pub fn parse_routing(word: &str) -> (r: std::result::Result<RoutingStrategy, JsonRpcErrorPayload>)
    ensures
        routing_parsed(word@, r),
{
    if str_eq(word, "AnyExecutor") {
        Ok(RoutingStrategy::AnyExecutor)
    } else if str_eq(word, "PreferWasm") {
        Ok(RoutingStrategy::PreferWasm)
    } else if str_eq(word, "PreferNative") {
        Ok(RoutingStrategy::PreferNative)
    } else {
        match without_prefix(word, "Pinned:") {
            Some(rest) => match parse_uuid(rest.as_str()) {
                Ok(id) => Ok(RoutingStrategy::Pinned(id)),
                Err(e) => Err(
                    json_rpc_error(-32602, cat2("Invalid node_id in Pinned: ", e.as_str())),
                ),
            },
            None => Err(json_rpc_error(-32602, cat2("Unknown routing strategy: ", word))),
        }
    }
}

/// What decoded code leads to: the blob to store, unless it could not be decoded or
/// is too large.
pub open spec fn code_checked(
    decoded: std::result::Result<Seq<u8>, Seq<char>>,
    r: std::result::Result<PendingWrite, JsonRpcErrorPayload>,
) -> bool {
    match decoded {
        Err(e) => r is Err && r->Err_0@ == (PayloadView {
            code: -32602,
            message: "Base64 decode failed: "@ + e,
        }),
        Ok(bytes) => if bytes.len() > MAX_CODE_SIZE {
            r is Err && r->Err_0@ == (PayloadView {
                code: -32001,
                message: "Code too large: "@ + decimal(bytes.len()) + " bytes (max 65536)"@,
            })
        } else {
            r is Ok && r->Ok_0.stores(ObjectView::Blob { hash: blob_hash(bytes), data: bytes })
        },
    }
}

/// What decoded code, or the text of a decoding error, looks like to contracts.
pub open spec fn decoded_view(d: std::result::Result<Vec<u8>, String>) -> std::result::Result<
    Seq<u8>,
    Seq<char>,
> {
    match d {
        Ok(v) => Ok(v@),
        Err(e) => Err(e@),
    }
}

/// The blob to store for decoded code.
pub fn check_code(decoded: std::result::Result<Vec<u8>, String>, store: &LocalObjectStore) -> (r: std::result::Result<
    PendingWrite,
    JsonRpcErrorPayload,
>)
    ensures
        code_checked(decoded_view(decoded), r),
{
    match decoded {
        Err(e) => Err(json_rpc_error(-32602, cat2("Base64 decode failed: ", e.as_str()))),
        Ok(bytes) => if bytes.len() > MAX_CODE_SIZE {
            Err(
                json_rpc_error(
                    -32001,
                    cat3(
                        "Code too large: ",
                        decimal_text(bytes.len() as u64).as_str(),
                        " bytes (max 65536)",
                    ),
                ),
            )
        } else {
            Ok(store.put_blob(bytes.as_slice()))
        },
    }
}

/// The result of a run as it is shown.
pub open spec fn result_view(r: ExecutionResult) -> JsonView {
    JsonView::Fields(
        map![
            "exit_code"@ => int_view(r.exit_code),
            "stdout"@ => JsonView::Text(base64_of(r.stdout@)),
            "stderr"@ => JsonView::Text(base64_of(r.stderr@)),
            "execution_time_ms"@ => JsonView::Unsigned(r.execution_time_ms),
            "peak_memory_bytes"@ => JsonView::Unsigned(r.peak_memory_bytes),
        ],
    )
}

/// A number as it is shown.
pub open spec fn int_view(n: i32) -> JsonView {
    if n < 0 {
        JsonView::Negative(n as i64)
    } else {
        JsonView::Unsigned(n as u64)
    }
}

/// A number as a JSON value.
pub fn json_int(n: i32) -> (r: Json)
    ensures
        r@ == int_view(n),
{
    if n < 0 {
        Json::Negative(n as i64)
    } else {
        Json::Unsigned(n as u64)
    }
}

/// Serves requests that submit code.
#[derive(Debug, PartialEq, Eq)]
pub struct JsonRpcHandler {
    /// Where code and results are stored.
    pub object_store: LocalObjectStore,
    /// How many tasks were completed.
    pub tasks_completed: u64,
}

impl JsonRpcHandler {
    /// A handler over a store.
    pub fn new(object_store: LocalObjectStore) -> (r: Self)
        ensures
            r.object_store == object_store,
            r.tasks_completed == 0,
    {
        JsonRpcHandler { object_store, tasks_completed: 0 }
    }

    /// The method that a request asks for.
    pub fn handle(&self, request: &JsonRpcRequest) -> (r: std::result::Result<
        CodeMethod,
        JsonRpcErrorPayload,
    >)
        ensures
            match code_method(request.method@) {
                Some(m) => r == Ok::<CodeMethod, JsonRpcErrorPayload>(m),
                None => r is Err && r->Err_0@ == (PayloadView {
                    code: -32601,
                    message: "Method not found: "@ + request.method@,
                }),
            },
    {
        let name = request.method.as_str();
        if str_eq(name, "get_cluster_topology") {
            Ok(CodeMethod::Topology)
        } else if str_eq(name, "submit_to_cas_and_raft") {
            Ok(CodeMethod::Submit)
        } else if str_eq(name, "fetch_execution_result") {
            Ok(CodeMethod::Fetch)
        } else {
            Err(unknown_method(name))
        }
    }

    /// The topology that is shown.
    pub fn get_cluster_topology(&self) -> (r: Json)
        ensures
            r@ == topology_view(self.tasks_completed),
    {
        topology(self.tasks_completed)
    }

    /// The blob to store for submitted code. What a client encoded is what is
    /// stored.
    pub fn submit_to_cas_and_raft(&self, params: &std::result::Result<SubmitParams, String>) -> (r: std::result::Result<
        PendingWrite,
        JsonRpcErrorPayload,
    >)
        ensures
            match *params {
                Err(e) => r is Err && r->Err_0@ == (PayloadView {
                    code: -32602,
                    message: "Invalid params: "@ + e@,
                }),
                Ok(p) => code_checked(base64_decoded(p.code@), r) && forall|data: Seq<u8>|
                    p.code@ == #[trigger] base64_of(data) ==> code_checked(Ok(data), r),
            },
    {
        match params {
            Err(e) => Err(invalid_params(e.as_str())),
            Ok(p) => {
                let decoded = base64_decode(p.code.as_str());
                assert(decoded_view(decoded) == base64_decoded(p.code@));
                check_code(decoded, &self.object_store)
            },
        }
    }

    /// The task to propose once the code was stored, under a fresh id.
    pub fn schedule(
        params: &SubmitParams,
        write: &PendingWrite,
        stored: Result<()>,
        fresh: TaskId,
        now: Timestamp,
    ) -> (r: std::result::Result<ScheduledTask, JsonRpcErrorPayload>)
        ensures
            match stored {
                Err(e) => r is Err && r->Err_0@ == (PayloadView {
                    code: -32002,
                    message: "CAS store error: "@ + error_message(e@),
                }),
                Ok(_) => match runtime_named(params.required_runtime@) {
                    None => r is Err && r->Err_0@ == (PayloadView {
                        code: -32602,
                        message: "Unknown runtime: "@ + params.required_runtime@,
                    }),
                    Some(kind) => match r {
                        Err(e) => routing_parsed(params.routing@, Err(e)),
                        Ok(task) => {
                            &&& routing_parsed(params.routing@, Ok(task.routing))
                            &&& task.task_id == fresh
                            &&& task.code_hash@ == write.hash@
                            &&& task.required_runtime == kind
                            &&& task.timeout_ms == params.timeout_ms
                            &&& task.resource_limits == default_limits()
                            &&& task.submitted_at == now
                            &&& task.pinned_node is None
                        },
                    },
                },
            },
    {
        match stored {
            Err(e) => {
                return Err(
                    json_rpc_error(-32002, cat2("CAS store error: ", e.to_string().as_str())),
                );
            },
            Ok(_) => {},
        }
        let required_runtime = match parse_runtime(params.required_runtime.as_str()) {
            Ok(kind) => kind,
            Err(e) => {
                return Err(e);
            },
        };
        match parse_routing(params.routing.as_str()) {
            Err(e) => Err(e),
            Ok(routing) => Ok(
                ScheduledTask {
                    task_id: fresh,
                    code_hash: write.hash.clone(),
                    required_runtime,
                    routing,
                    timeout_ms: params.timeout_ms,
                    resource_limits: ResourceLimits::default(),
                    submitted_at: now,
                    pinned_node: None,
                },
            ),
        }
    }

    /// What a submission gives once its task was proposed, or could not be.
    pub fn submitted(code_hash: &str, task_id: TaskId, sent: std::result::Result<(), String>) -> (r: Outcome)
        ensures
            match sent {
                Ok(_) => r is Ok && r->Ok_0@ == JsonView::Fields(
                    map![
                        "code_hash"@ => JsonView::Text(code_hash@),
                        "task_id"@ => JsonView::Text(uuid_notation(task_id)),
                    ],
                ),
                Err(e) => r is Err && r->Err_0@ == (PayloadView {
                    code: -32003,
                    message: "Raft proposal failed: "@ + e@,
                }),
            },
    {
        match sent {
            Ok(_) => {
                let id = uuid_to_text(task_id);
                Ok(
                    Json::object1("code_hash", Json::text(code_hash)).with(
                        "task_id",
                        Json::text(id.as_str()),
                    ),
                )
            },
            Err(e) => Err(json_rpc_error(-32003, cat2("Raft proposal failed: ", e.as_str()))),
        }
    }

    /// The hash of the blob to read for a requested result.
    pub fn fetch_execution_result(&self, params: std::result::Result<FetchParams, String>) -> (r: std::result::Result<
        String,
        JsonRpcErrorPayload,
    >)
        ensures
            match params {
                Err(e) => r is Err && r->Err_0@ == (PayloadView {
                    code: -32602,
                    message: "Invalid params: "@ + e@,
                }),
                Ok(p) => r is Ok && r->Ok_0@ == p.result_hash@,
            },
    {
        match params {
            Err(e) => Err(invalid_params(e.as_str())),
            Ok(p) => Ok(p.result_hash),
        }
    }

    /// The bytes that spell a requested result, from what was read for its hash.
    pub fn result_bytes(&self, hash: &str, read: Result<Object>) -> (r: std::result::Result<
        Vec<u8>,
        JsonRpcErrorPayload,
    >)
        ensures
            match blob_in(hash@, read) {
                Ok(data) => r is Ok && r->Ok_0@ == data,
                Err(e) => r is Err && r->Err_0@ == (PayloadView {
                    code: -32004,
                    message: "Object not found: "@ + error_message(e),
                }),
            },
    {
        match self.object_store.get_blob(hash, read) {
            Err(e) => Err(
                json_rpc_error(-32004, cat2("Object not found: ", e.to_string().as_str())),
            ),
            Ok(bytes) => Ok(bytes),
        }
    }

    /// What a request for a result gives, from the result that the bytes spell or
    /// the text of the error in them.
    pub fn show_result(parsed: std::result::Result<ExecutionResult, String>) -> (r: Outcome)
        ensures
            match parsed {
                Err(e) => r is Err && r->Err_0@ == (PayloadView {
                    code: -32005,
                    message: "Corrupted result blob: "@ + e@,
                }),
                Ok(result) => r is Ok && r->Ok_0@ == result_view(result),
            },
    {
        match parsed {
            Err(e) => Err(json_rpc_error(-32005, cat2("Corrupted result blob: ", e.as_str()))),
            Ok(result) => {
                let stdout = base64_encode(result.stdout.as_slice());
                let stderr = base64_encode(result.stderr.as_slice());
                Ok(
                    Json::object1("exit_code", json_int(result.exit_code)).with(
                        "stdout",
                        Json::Text(stdout),
                    ).with("stderr", Json::Text(stderr)).with(
                        "execution_time_ms",
                        Json::Unsigned(result.execution_time_ms),
                    ).with("peak_memory_bytes", Json::Unsigned(result.peak_memory_bytes)),
                )
            },
        }
    }
}

/// Code is stored byte for byte as it was decoded, as long as it has no more than
/// 65536 bytes; more is refused.
pub proof fn code_is_stored_as_sent(
    bytes: Seq<u8>,
    r: std::result::Result<PendingWrite, JsonRpcErrorPayload>,
)
    requires
        code_checked(Ok(bytes), r),
    ensures
        r is Ok <==> bytes.len() <= 65536,
        r matches Ok(write) ==> write.hash@ == blob_hash(bytes) && (write.object matches Object::Blob(
            blob,
        ) && blob.data@ == bytes && blob.hash@ == blob_hash(bytes)),
        r matches Err(e) ==> e.code == -32001,
{
}

/// What is shown of a run is what it did: its exit code, its output and its times,
/// each under its name.
pub proof fn shown_result_is_the_result(r: ExecutionResult)
    ensures
        result_view(r) matches JsonView::Fields(m) && {
            &&& m.contains_key("exit_code"@)
            &&& r.exit_code >= 0 ==> m["exit_code"@] == JsonView::Unsigned(r.exit_code as u64)
            &&& r.exit_code < 0 ==> m["exit_code"@] == JsonView::Negative(r.exit_code as i64)
            &&& m.contains_key("stdout"@) && m["stdout"@] == JsonView::Text(base64_of(r.stdout@))
            &&& m.contains_key("stderr"@) && m["stderr"@] == JsonView::Text(base64_of(r.stderr@))
            &&& m.contains_key("execution_time_ms"@) && m["execution_time_ms"@]
                == JsonView::Unsigned(r.execution_time_ms)
            &&& m.contains_key("peak_memory_bytes"@) && m["peak_memory_bytes"@]
                == JsonView::Unsigned(r.peak_memory_bytes)
        },
{
    reveal_strlit("exit_code");
    reveal_strlit("stdout");
    reveal_strlit("stderr");
    reveal_strlit("execution_time_ms");
    reveal_strlit("peak_memory_bytes");
    assert("stdout"@[3] == 'o' && "stderr"@[3] == 'e');
    assert("execution_time_ms"@.len() == 17 && "peak_memory_bytes"@.len() == 17);
    assert("execution_time_ms"@[0] == 'e' && "peak_memory_bytes"@[0] == 'p');
}

/// A pinned task goes to the node whose id follows the word, in any notation of the
/// id, and every other known word names its strategy.
pub proof fn routing_words_name_their_strategies(
    word: Seq<char>,
    id: Seq<char>,
    r: std::result::Result<RoutingStrategy, JsonRpcErrorPayload>,
)
    requires
        routing_parsed(word, r),
    ensures
        word == "AnyExecutor"@ ==> r == Ok::<RoutingStrategy, JsonRpcErrorPayload>(
            RoutingStrategy::AnyExecutor,
        ),
        word == "PreferWasm"@ ==> r == Ok::<RoutingStrategy, JsonRpcErrorPayload>(
            RoutingStrategy::PreferWasm,
        ),
        word == "PreferNative"@ ==> r == Ok::<RoutingStrategy, JsonRpcErrorPayload>(
            RoutingStrategy::PreferNative,
        ),
        word == "Pinned:"@ + id ==> (uuid_value(id) matches Some(n) ==> r == Ok::<
            RoutingStrategy,
            JsonRpcErrorPayload,
        >(RoutingStrategy::Pinned(n as u128))) && (uuid_value(id) is None ==> r is Err),
        r matches Ok(RoutingStrategy::Pinned(_)) ==> exists|rest: Seq<char>|
            word == #[trigger] ("Pinned:"@ + rest),
{
    reveal_strlit("AnyExecutor");
    reveal_strlit("PreferWasm");
    reveal_strlit("PreferNative");
    reveal_strlit("Pinned:");
    assert("AnyExecutor"@[0] == 'A' && "PreferWasm"@[1] == 'r' && "PreferNative"@[1] == 'r'
        && "Pinned:"@[1] == 'i' && "Pinned:"@[0] == 'P');
    assert("PreferWasm"@.len() == 10 && "PreferNative"@.len() == 12);
    if word == "Pinned:"@ + id {
        assert(word[0] == 'P' && word[1] == 'i');
        assert(word.take("Pinned:"@.len() as int) =~= "Pinned:"@);
        assert(word.skip("Pinned:"@.len() as int) =~= id);
    }
    if begins_with(word, "Pinned:"@) {
        assert(word =~= "Pinned:"@ + word.skip("Pinned:"@.len() as int));
    }
}

/// Each method has a name of its own, and so does each runtime.
pub proof fn names_are_told_apart(name: Seq<char>)
    ensures
        code_method(name) == Some(CodeMethod::Topology) <==> name == "get_cluster_topology"@,
        code_method(name) == Some(CodeMethod::Submit) <==> name == "submit_to_cas_and_raft"@,
        code_method(name) == Some(CodeMethod::Fetch) <==> name == "fetch_execution_result"@,
        runtime_named(name) == Some(RuntimeKind::Wasm) <==> name == "Wasm"@,
        runtime_named(name) == Some(RuntimeKind::NativePosix) <==> name == "NativePosix"@,
        runtime_named(name) == Some(RuntimeKind::Container) <==> name == "Container"@,
{
    reveal_strlit("get_cluster_topology");
    reveal_strlit("submit_to_cas_and_raft");
    reveal_strlit("fetch_execution_result");
    reveal_strlit("Wasm");
    reveal_strlit("NativePosix");
    reveal_strlit("Container");
    assert("get_cluster_topology"@[0] == 'g' && "submit_to_cas_and_raft"@[0] == 's'
        && "fetch_execution_result"@[0] == 'f');
    assert("Wasm"@[0] == 'W' && "NativePosix"@[0] == 'N' && "Container"@[0] == 'C');
}

/// A routing or code that cannot be read is a fault of the parameters, under its own
/// code.
pub proof fn unreadable_parameters_have_their_code(
    word: Seq<char>,
    routing: std::result::Result<RoutingStrategy, JsonRpcErrorPayload>,
    text: Seq<char>,
    code: std::result::Result<PendingWrite, JsonRpcErrorPayload>,
)
    requires
        routing_parsed(word, routing),
        code_checked(Err(text), code),
    ensures
        routing matches Err(e) ==> e.code == -32602,
        code is Err && code->Err_0.code == -32602,
{
}

/// The topology says how many tasks were completed, and that none is pending.
pub proof fn topology_counts_tasks(tasks_completed: u64)
    ensures
        topology_view(tasks_completed) matches JsonView::Fields(m) && {
            &&& m.contains_key("tasks_completed"@) && m["tasks_completed"@] == JsonView::Unsigned(
                tasks_completed,
            )
            &&& m.contains_key("tasks_pending"@) && m["tasks_pending"@] == JsonView::Unsigned(0)
            &&& m.contains_key("nodes"@) && m["nodes"@] == JsonView::List(Seq::empty())
            &&& m.contains_key("role_assignments"@) && m["role_assignments"@] == JsonView::Fields(
                Map::empty(),
            )
        },
{
    reveal_strlit("tasks_completed");
    reveal_strlit("tasks_pending");
    reveal_strlit("nodes");
    reveal_strlit("role_assignments");
    assert("tasks_completed"@.len() == 15 && "tasks_pending"@.len() == 13 && "nodes"@.len() == 5
        && "role_assignments"@.len() == 16);
}

} // verus!
