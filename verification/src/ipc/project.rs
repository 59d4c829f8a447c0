//! Requests that submit projects and fetch their results.
use vstd::prelude::*;
use vstd::string::*;
use crate::error::{error_message, Result};
use crate::ipc::handler::{int_view, invalid_params, json_int, json_rpc_error, topology, topology_view, unknown_method};
use crate::ipc::handler::{JsonRpcErrorPayload, JsonRpcRequest, Outcome, PayloadView};
use crate::node::project_client::{status_at, ClientView, ProjectClient, TaskState, TaskView};
use crate::outside::base64_text::{base64_encode, base64_of};
use crate::outside::json::{Json, JsonView};
use crate::outside::uuid_text::{parse_uuid, uuid_error_text, uuid_notation, uuid_to_text, uuid_value};
use crate::text::{cat2, str_eq};
use crate::types::{NodeId, ProjectResultView, TaskId};

verus! {

/// Parameters of a project submission.
#[derive(Debug, PartialEq, Eq)]
pub struct SubmitProjectParams {
    /// The project's directory.
    pub project_dir: String,
    /// Where it is unpacked.
    pub work_dir: String,
    /// Build command with arguments.
    pub build_cmd: Vec<String>,
    /// Run command with arguments.
    pub run_cmd: Vec<String>,
    /// Timeout in milliseconds.
    pub timeout_ms: u64,
    /// The node to run on.
    pub target_node: Option<String>,
}

/// The working directory where none is given.
pub fn default_project_work_dir() -> (r: String)
    ensures
        r@ == "/root/project"@,
{
    String::from_str("/root/project")
}

/// Parameters of a request for a project's result.
#[derive(Debug, PartialEq, Eq)]
pub struct FetchProjectParams {
    /// The task.
    pub task_id: String,
}

/// The methods of the project handler.
#[derive(Debug, Clone, Copy, PartialEq, Eq, Structural)]
pub enum ProjectMethod {
    /// `get_cluster_topology`.
    Topology,
    /// `submit_project`.
    Submit,
    /// `fetch_project_result`.
    Fetch,
}

/// The method that a name stands for.
pub open spec fn project_method(name: Seq<char>) -> Option<ProjectMethod> {
    if name == "get_cluster_topology"@ {
        Some(ProjectMethod::Topology)
    } else if name == "submit_project"@ {
        Some(ProjectMethod::Submit)
    } else if name == "fetch_project_result"@ {
        Some(ProjectMethod::Fetch)
    } else {
        None
    }
}

/// A project submission that was accepted.
#[derive(Debug, PartialEq, Eq)]
pub struct AcceptedProject {
    /// What to submit.
    pub params: SubmitProjectParams,
    /// The node to run on, if one is asked for.
    pub target: Option<NodeId>,
}

/// The error of a node that cannot submit projects.
pub open spec fn no_client(message: Seq<char>) -> PayloadView {
    PayloadView { code: -32010, message }
}

/// A completed project as it is shown.
pub open spec fn completed_view(r: ProjectResultView) -> JsonView {
    JsonView::Fields(
        map![
            "status"@ => JsonView::Text("completed"@),
            "exit_code"@ => int_view(r.exit_code),
            "stdout"@ => JsonView::Text(base64_of(r.stdout)),
            "stderr"@ => JsonView::Text(base64_of(r.stderr)),
            "execution_time_ms"@ => JsonView::Unsigned(r.execution_time_ms),
            "executed_on"@ => JsonView::Text(uuid_notation(r.executed_on)),
        ],
    )
}

/// What is shown of a task: a failure with its reason, a result where there is one,
/// and else that it is pending.
pub open spec fn shown(c: ClientView, task_id: TaskId, now: u128) -> JsonView {
    match status_at(c, task_id, now) {
        TaskView::Failed(reason) => JsonView::Fields(
            map!["status"@ => JsonView::Text("failed"@), "error"@ => JsonView::Text(reason)],
        ),
        _ => if c.results.contains_key(task_id) {
            completed_view(c.results[task_id])
        } else {
            JsonView::Fields(map!["status"@ => JsonView::Text("pending"@)])
        },
    }
}

/// Serves requests that submit projects.
#[derive(Debug, Clone, Copy, PartialEq, Eq, Structural)]
pub struct ProjectHandler {
    /// How many tasks were completed.
    pub tasks_completed: u64,
}

impl ProjectHandler {
    /// A handler that has seen no task.
    pub fn new() -> (r: Self)
        ensures
            r.tasks_completed == 0,
    {
        ProjectHandler { tasks_completed: 0 }
    }

    /// The method that a request asks for.
    pub fn handle(&self, request: &JsonRpcRequest) -> (r: std::result::Result<
        ProjectMethod,
        JsonRpcErrorPayload,
    >)
        ensures
            match project_method(request.method@) {
                Some(m) => r == Ok::<ProjectMethod, JsonRpcErrorPayload>(m),
                None => r is Err && r->Err_0@ == (PayloadView {
                    code: -32601,
                    message: "Method not found: "@ + request.method@,
                }),
            },
    {
        let name = request.method.as_str();
        if str_eq(name, "get_cluster_topology") {
            Ok(ProjectMethod::Topology)
        } else if str_eq(name, "submit_project") {
            Ok(ProjectMethod::Submit)
        } else if str_eq(name, "fetch_project_result") {
            Ok(ProjectMethod::Fetch)
        } else {
            Err(unknown_method(name))
        }
    }

    /// The topology that is shown.
    pub fn get_cluster_topology(&self) -> (r: Json)
        ensures
            r@ == topology_view(self.tasks_completed),
    {
        topology(self.tasks_completed)
    }

    /// Check a project submission: its parameters, then whether this node can
    /// submit projects, then the node it asks for.
    pub fn submit_project(
        params: std::result::Result<SubmitProjectParams, String>,
        has_client: bool,
    ) -> (r: std::result::Result<AcceptedProject, JsonRpcErrorPayload>)
        ensures
            match params {
                Err(e) => r is Err && r->Err_0@ == (PayloadView {
                    code: -32602,
                    message: "Invalid params: "@ + e@,
                }),
                Ok(p) => if !has_client {
                    r is Err && r->Err_0@ == no_client(
                        "node has no cluster state; cannot submit projects"@,
                    )
                } else {
                    match p.target_node {
                        None => r is Ok && r->Ok_0.params == p && r->Ok_0.target is None,
                        Some(s) => match uuid_value(s@) {
                            Some(id) => r is Ok && r->Ok_0.params == p && r->Ok_0.target == Some(
                                id as u128,
                            ),
                            None => r is Err && r->Err_0@ == (PayloadView {
                                code: -32602,
                                message: "invalid target_node: "@ + uuid_error_text(s@),
                            }),
                        },
                    }
                },
            },
    {
        let p = match params {
            Err(e) => {
                return Err(invalid_params(e.as_str()));
            },
            Ok(p) => p,
        };
        if !has_client {
            return Err(
                json_rpc_error(
                    -32010,
                    String::from_str("node has no cluster state; cannot submit projects"),
                ),
            );
        }
        let target: Option<NodeId> = match &p.target_node {
            None => None,
            Some(s) => match parse_uuid(s.as_str()) {
                Ok(id) => Some(id),
                Err(e) => {
                    return Err(
                        json_rpc_error(-32602, cat2("invalid target_node: ", e.as_str())),
                    );
                },
            },
        };
        Ok(AcceptedProject { params: p, target })
    }

    /// What a project submission gives.
    pub fn project_submitted(outcome: Result<TaskId>) -> (r: Outcome)
        ensures
            match outcome {
                Ok(id) => r is Ok && r->Ok_0@ == JsonView::Fields(
                    map!["task_id"@ => JsonView::Text(uuid_notation(id))],
                ),
                Err(e) => r is Err && r->Err_0@ == (PayloadView {
                    code: -32011,
                    message: "submit project failed: "@ + error_message(e@),
                }),
            },
    {
        match outcome {
            Ok(id) => {
                let text = uuid_to_text(id);
                Ok(Json::object1("task_id", Json::text(text.as_str())))
            },
            Err(e) => Err(
                json_rpc_error(-32011, cat2("submit project failed: ", e.to_string().as_str())),
            ),
        }
    }

    /// What is known of a task: completed with its result, failed with a reason, or
    /// pending.
    pub fn fetch_project_result(
        params: std::result::Result<FetchProjectParams, String>,
        client: Option<&ProjectClient>,
        now: u128,
    ) -> (r: Outcome)
        ensures
            match params {
                Err(e) => r is Err && r->Err_0@ == (PayloadView {
                    code: -32602,
                    message: "Invalid params: "@ + e@,
                }),
                Ok(p) => match client {
                    None => r is Err && r->Err_0@ == no_client("node has no cluster state"@),
                    Some(c) => match uuid_value(p.task_id@) {
                        None => r is Err && r->Err_0@ == (PayloadView {
                            code: -32602,
                            message: "invalid task_id: "@ + uuid_error_text(p.task_id@),
                        }),
                        Some(id) => r is Ok && r->Ok_0@ == shown(c@, id as u128, now),
                    },
                },
            },
    {
        let p = match params {
            Err(e) => {
                return Err(invalid_params(e.as_str()));
            },
            Ok(p) => p,
        };
        let client = match client {
            None => {
                return Err(
                    json_rpc_error(-32010, String::from_str("node has no cluster state")),
                );
            },
            Some(c) => c,
        };
        let task_id = match parse_uuid(p.task_id.as_str()) {
            Ok(id) => id,
            Err(e) => {
                return Err(json_rpc_error(-32602, cat2("invalid task_id: ", e.as_str())));
            },
        };
        match client.task_status(&task_id, now) {
            TaskState::Failed(reason) => {
                return Ok(
                    Json::object1("status", Json::text("failed")).with(
                        "error",
                        Json::Text(reason),
                    ),
                );
            },
            _ => {},
        }
        match client.get_result(&task_id) {
            Some(result) => {
                let stdout = base64_encode(result.stdout.as_slice());
                let stderr = base64_encode(result.stderr.as_slice());
                let node = uuid_to_text(result.executed_on);
                Ok(
                    Json::object1("status", Json::text("completed")).with(
                        "exit_code",
                        json_int(result.exit_code),
                    ).with("stdout", Json::Text(stdout)).with("stderr", Json::Text(stderr)).with(
                        "execution_time_ms",
                        Json::Unsigned(result.execution_time_ms),
                    ).with("executed_on", Json::Text(node)),
                )
            },
            None => Ok(Json::object1("status", Json::text("pending"))),
        }
    }
}

/// Whether a shown value has a text under a name.
pub open spec fn shows_text(j: JsonView, name: Seq<char>, text: Seq<char>) -> bool {
    j matches JsonView::Fields(m) && m.contains_key(name) && m[name] == JsonView::Text(text)
}

proof fn field_names_differ()
    ensures
        "status"@ != "exit_code"@,
        "status"@ != "stdout"@,
        "status"@ != "stderr"@,
        "status"@ != "execution_time_ms"@,
        "status"@ != "executed_on"@,
        "status"@ != "error"@,
        "exit_code"@ != "stdout"@,
        "exit_code"@ != "stderr"@,
        "exit_code"@ != "execution_time_ms"@,
        "exit_code"@ != "executed_on"@,
        "stdout"@ != "stderr"@,
        "stdout"@ != "execution_time_ms"@,
        "stdout"@ != "executed_on"@,
        "stderr"@ != "execution_time_ms"@,
        "stderr"@ != "executed_on"@,
        "execution_time_ms"@ != "executed_on"@,
{
    reveal_strlit("status");
    reveal_strlit("exit_code");
    reveal_strlit("stdout");
    reveal_strlit("stderr");
    reveal_strlit("execution_time_ms");
    reveal_strlit("executed_on");
    reveal_strlit("error");
    assert("exit_code"@[1] == 'x' && "exit_code"@[2] == 'i' && "execution_time_ms"@[2] == 'e'
        && "executed_on"@[2] == 'e');
    assert("exit_code"@.len() == 9 && "execution_time_ms"@.len() == 17 && "executed_on"@.len()
        == 11);
    assert("status"@[1] == 't' && "status"@[2] == 'a' && "stdout"@[2] == 'd' && "stderr"@[2] == 'd');
    assert("stdout"@[3] == 'o' && "stderr"@[3] == 'e');
}

/// A project whose result was recorded is shown as completed, with the exit code,
/// the output and the node of that very result.
pub proof fn recorded_result_is_shown(
    c: ClientView,
    result: ProjectResultView,
    recorded: u128,
    now: u128,
)
    ensures
        ({
            let j = shown(
                crate::node::project_client::with_result(c, result, recorded),
                result.task_id,
                now,
            );
            &&& shows_text(j, "status"@, "completed"@)
            &&& shows_text(j, "stdout"@, base64_of(result.stdout))
            &&& shows_text(j, "stderr"@, base64_of(result.stderr))
            &&& shows_text(j, "executed_on"@, uuid_notation(result.executed_on))
            &&& j matches JsonView::Fields(m) && {
                &&& m.contains_key("exit_code"@)
                &&& result.exit_code >= 0 ==> m["exit_code"@] == JsonView::Unsigned(
                    result.exit_code as u64,
                )
                &&& result.exit_code < 0 ==> m["exit_code"@] == JsonView::Negative(
                    result.exit_code as i64,
                )
                &&& m.contains_key("execution_time_ms"@) && m["execution_time_ms"@]
                    == JsonView::Unsigned(result.execution_time_ms)
            }
        }),
{
    field_names_differ();
    crate::node::project_client::recorded_result_is_read_back(c, result, recorded, now);
}

/// A task that was sent and has no result is shown as pending while its time lasts,
/// and as failed afterwards; so is a task that nobody sent.
pub proof fn task_without_result_is_shown(
    c: ClientView,
    task_id: TaskId,
    since: u128,
    now: u128,
)
    requires
        !c.results.contains_key(task_id),
    ensures
        since <= now <= since + 1_920_000_000_000 ==> shows_text(
            shown(crate::node::project_client::with_task(c, task_id, since), task_id, now),
            "status"@,
            "pending"@,
        ),
        now > since + 1_920_000_000_000 ==> shows_text(
            shown(crate::node::project_client::with_task(c, task_id, since), task_id, now),
            "status"@,
            "failed"@,
        ),
        !c.tasks.contains_key(task_id) ==> shows_text(
            shown(c, task_id, now),
            "status"@,
            "failed"@,
        ),
{
    field_names_differ();
}

/// Each method has a name of its own.
pub proof fn project_methods_are_told_apart(name: Seq<char>)
    ensures
        project_method(name) == Some(ProjectMethod::Topology) <==> name == "get_cluster_topology"@,
        project_method(name) == Some(ProjectMethod::Submit) <==> name == "submit_project"@,
        project_method(name) == Some(ProjectMethod::Fetch) <==> name == "fetch_project_result"@,
{
    reveal_strlit("get_cluster_topology");
    reveal_strlit("submit_project");
    reveal_strlit("fetch_project_result");
    assert("get_cluster_topology"@[0] == 'g' && "submit_project"@[0] == 's'
        && "fetch_project_result"@[0] == 'f');
}

} // verus!
