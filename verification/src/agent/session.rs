//! A session with the cluster: requests to the node, waiting for the result, and
//! repeated attempts.
use vstd::prelude::*;
use vstd::string::*;
use vstd::utf8::encode_utf8;
use crate::agent::plan::{heuristic_plan, layout_plan, Plan, PlanView};
use crate::agent::workspace::WorkspaceInfo;
use crate::outside::base64_text::{base64_decode, base64_decoded};
use crate::outside::json::{json_document, json_field, json_has, json_i64, json_items, json_str, json_text, parse_json, plain, render_json, Json, JsonView};
use crate::outside::lossy::{lossy_text, text_lossy};
use crate::outside::uuid_text::{uuid_notation, uuid_to_text};
use crate::text::{begins_with, cat2, cat3, cat4, cat5, decimal, decimal_text, signed_decimal, signed_text, str_eq, tail_lines, tail_of, trim_text, trimmed, without_prefix};
use crate::types::texts;

verus! {

/// How often the result is asked for.
pub const MAX_POLLS: u64 = 600;

/// Seconds between two questions for the result.
pub const POLL_SECONDS: u64 = 3;

/// The path of a socket: a leading `~/` stands for the home directory.
pub open spec fn socket_path(path: Seq<char>, home: Option<Seq<char>>) -> Seq<char> {
    match home {
        Some(h) if begins_with(path, "~/"@) => h + "/"@ + path.skip("~/"@.len() as int),
        _ => path,
    }
}

/// The path of a socket.
pub fn expand_socket(path: &str, home: Option<&str>) -> (r: String)
    ensures
        r@ == socket_path(
            path@,
            match home {
                Some(h) => Some(h@),
                None => None,
            },
        ),
{
    match without_prefix(path, "~/") {
        Some(rest) => match home {
            Some(h) => cat3(h, "/", rest.as_str()),
            None => String::from_str(path),
        },
        None => String::from_str(path),
    }
}

/// A request to the node.
pub open spec fn request_view(method: Seq<char>, params: JsonView, id: u128) -> JsonView {
    JsonView::Fields(
        map![
            "jsonrpc"@ => JsonView::Text("2.0"@),
            "method"@ => JsonView::Text(method),
            "params"@ => params,
            "id"@ => JsonView::Text(uuid_notation(id)),
        ],
    )
}

/// The line that asks the node.
pub fn rpc_request(method: &str, params: Json, id: u128) -> (r: String)
    ensures
        r@ == json_text(request_view(method@, params@, id)) + "\n"@,
{
    let name = uuid_to_text(id);
    let request = Json::object1("jsonrpc", Json::text("2.0")).with(
        "method",
        Json::text(method),
    ).with("params", params).with("id", Json::Text(name));
    cat2(render_json(&request).as_str(), "\n")
}

/// What an answer of the node means: its result, or its error.
pub open spec fn answer_read(
    method: Seq<char>,
    j: JsonView,
    r: std::result::Result<Json, String>,
) -> bool {
    if json_has(j, "error"@) {
        r is Err && r->Err_0@ == "RPC "@ + method + " failed: "@ + json_text(
            json_field(j, "error"@),
        )
    } else {
        r is Ok && r->Ok_0@ == json_field(j, "result"@)
    }
}

/// What an answer of the node means.
pub fn read_answer(method: &str, answer: Json) -> (r: std::result::Result<Json, String>)
    ensures
        answer_read(method@, answer@, r),
{
    match answer.get("error") {
        Some(e) => {
            return Err(cat4("RPC ", method, " failed: ", render_json(e).as_str()));
        },
        None => {},
    }
    Ok(answer.take("result"))
}

/// What a line of the node means. A line that the node wrote for an answer is read
/// as that answer.
pub fn rpc(method: &str, line: &str) -> (r: std::result::Result<Json, String>)
    ensures
        match json_document(encode_utf8(trimmed(line@))) {
            Ok(j) => answer_read(method@, j, r),
            Err(_) => r is Err && r->Err_0@ == "invalid RPC response"@,
        },
        forall|j: JsonView|
            plain(j, 127) && trimmed(line@) == #[trigger] json_text(j) ==> answer_read(
                method@,
                j,
                r,
            ),
{
    let text = trim_text(line);
    match parse_json(text.as_str().as_bytes()) {
        Ok(j) => read_answer(method, j),
        Err(_) => Err(String::from_str("invalid RPC response")),
    }
}

/// A list of texts as a JSON array.
pub open spec fn list_json(v: Seq<Seq<char>>) -> JsonView {
    JsonView::List(v.map_values(|s: Seq<char>| JsonView::Text(s)))
}

/// The parameters of a project submission.
pub open spec fn submission_view(
    root: Seq<char>,
    plan: PlanView,
    target: Option<Seq<char>>,
) -> JsonView {
    JsonView::Fields(
        map![
            "project_dir"@ => JsonView::Text(root),
            "work_dir"@ => JsonView::Text(plan.work_dir),
            "build_cmd"@ => list_json(plan.build_cmd),
            "run_cmd"@ => list_json(plan.run_cmd),
            "timeout_ms"@ => JsonView::Unsigned(300000),
            "target_node"@ => match target {
                Some(t) => JsonView::Text(t),
                None => JsonView::Null,
            },
        ],
    )
}

/// The parameters of a project submission.
pub fn submission(info: &WorkspaceInfo, plan: &Plan, target: &Option<String>) -> (r: Json)
    ensures
        r@ == submission_view(
            info.root@,
            plan@,
            match *target {
                Some(t) => Some(t@),
                None => None,
            },
        ),
{
    let node = match target {
        Some(t) => Json::text(t.as_str()),
        None => Json::Null,
    };
    Json::object1("project_dir", Json::text(info.root.as_str())).with(
        "work_dir",
        Json::text(plan.work_dir.as_str()),
    ).with("build_cmd", Json::texts(&plan.build_cmd)).with("run_cmd", Json::texts(&plan.run_cmd)).with(
        "timeout_ms",
        Json::Unsigned(300000),
    ).with("target_node", node)
}

/// A task that was submitted, and how often its result was asked for.
#[derive(Debug, PartialEq, Eq)]
pub struct Waiting {
    /// The task.
    pub task_id: String,
    /// How often its result was asked for.
    pub polls: u64,
}

/// The status that an answer reports.
pub open spec fn status_of(j: JsonView) -> Seq<char> {
    match json_str(json_field(j, "status"@)) {
        Some(s) => s,
        None => "pending"@,
    }
}

/// What an answer for the result of a task leads to: nothing yet, the result, or
/// an error.
pub open spec fn poll_outcome(
    task_id: Seq<char>,
    polls: u64,
    reply: std::result::Result<Json, String>,
    r: Option<std::result::Result<Json, String>>,
) -> bool {
    match reply {
        Err(e) => r == Some(Err::<Json, String>(e)),
        Ok(j) => if status_of(j@) == "completed"@ {
            r == Some(Ok::<Json, String>(j))
        } else if status_of(j@) == "failed"@ {
            r is Some && r->Some_0 is Err && r->Some_0->Err_0@ == "task "@ + task_id
                + " failed on the cluster: "@ + (match json_str(json_field(j@, "error"@)) {
                Some(s) => s,
                None => "<no reason given>"@,
            })
        } else if polls + 1 < MAX_POLLS {
            r is None
        } else {
            r is Some && r->Some_0 is Err && r->Some_0->Err_0@
                == "timed out after 30 min waiting for project result of task "@ + task_id
                + "; check the node logs of the executing node (look for 'project task ... accepted')"@
        },
    }
}

impl Waiting {
    /// The task that an answer to a submission names.
    pub fn submitted(reply: std::result::Result<Json, String>) -> (r: std::result::Result<
        Waiting,
        String,
    >)
        ensures
            match reply {
                Err(e) => r == Err::<Waiting, String>(e),
                Ok(j) => match json_str(json_field(j@, "task_id"@)) {
                    Some(id) => r is Ok && r->Ok_0.task_id@ == id && r->Ok_0.polls == 0,
                    None => r is Err && r->Err_0@ == "submit_project returned no task_id"@,
                },
            },
    {
        match reply {
            Err(e) => Err(e),
            Ok(j) => match j.str_field("task_id") {
                Some(id) => Ok(Waiting { task_id: String::from_str(id), polls: 0 }),
                None => Err(String::from_str("submit_project returned no task_id")),
            },
        }
    }

    /// The parameters that ask for the result.
    pub fn question(&self) -> (r: Json)
        ensures
            r@ == JsonView::Fields(map!["task_id"@ => JsonView::Text(self.task_id@)]),
    {
        Json::object1("task_id", Json::text(self.task_id.as_str()))
    }

    /// What an answer leads to: the result or an error, or nothing yet, and then
    /// the result is asked for again after a while. A failed task is an error at
    /// once; after the last question the wait is over.
    pub fn submit_and_wait(&mut self, reply: std::result::Result<Json, String>) -> (r: Option<
        std::result::Result<Json, String>,
    >)
        requires
            old(self).polls < MAX_POLLS,
        ensures
            poll_outcome(old(self).task_id@, old(self).polls, reply, r),
            final(self).task_id == old(self).task_id,
            final(self).polls == old(self).polls + 1,
            r is None ==> final(self).polls < MAX_POLLS,
    {
        self.polls += 1;
        let j = match reply {
            Err(e) => {
                return Some(Err(e));
            },
            Ok(j) => j,
        };
        let (completed, failed) = match j.str_field("status") {
            Some(s) => (str_eq(s, "completed"), str_eq(s, "failed")),
            None => (false, false),
        };
        proof {
            reveal_strlit("pending");
            reveal_strlit("completed");
            reveal_strlit("failed");
            assert("pending"@.len() != "completed"@.len());
            assert("pending"@.len() != "failed"@.len());
        }
        if completed {
            return Some(Ok(j));
        }
        if failed {
            let reason = match j.str_field("error") {
                Some(s) => s,
                None => "<no reason given>",
            };
            return Some(
                Err(cat4("task ", self.task_id.as_str(), " failed on the cluster: ", reason)),
            );
        }
        if self.polls < MAX_POLLS {
            None
        } else {
            Some(
                Err(
                    cat3(
                        "timed out after 30 min waiting for project result of task ",
                        self.task_id.as_str(),
                        "; check the node logs of the executing node (look for 'project task ... accepted')",
                    ),
                ),
            )
        }
    }

    /// The note that is shown at every fifth question.
    pub fn progress_note(&self, status: &str) -> (r: Option<String>)
        requires
            self.polls <= MAX_POLLS,
        ensures
            if self.polls > 0 && self.polls % 5 == 0 {
                r is Some && r->Some_0@ == "[eo-agent] still running... "@ + decimal(
                    (self.polls * POLL_SECONDS) as nat,
                ) + "s (status="@ + status@ + ")"@
            } else {
                r is None
            },
    {
        if self.polls > 0 && self.polls % 5 == 0 {
            Some(
                cat5(
                    "[eo-agent] still running... ",
                    decimal_text(self.polls * POLL_SECONDS).as_str(),
                    "s (status=",
                    status,
                    ")",
                ),
            )
        } else {
            None
        }
    }
}

/// What captured output in base64 is shown as; nothing, where it is malformed.
pub open spec fn output_text(b64: Seq<char>) -> Seq<char> {
    match base64_decoded(b64) {
        Ok(bytes) => lossy_text(bytes),
        Err(_) => Seq::empty(),
    }
}

/// What captured output in base64 is shown as.
pub fn decode(b64: &str) -> (r: String)
    ensures
        r@ == output_text(b64@),
{
    match base64_decode(b64) {
        Ok(bytes) => text_lossy(bytes.as_slice()),
        Err(_) => {
            let none = String::new();
            assert(none@ =~= Seq::<char>::empty());
            none
        },
    }
}

/// The exit code that a result reports, or -1.
pub open spec fn exit_code_in(j: JsonView) -> int {
    match json_i64(json_field(j, "exit_code"@)) {
        Some(n) => n as int,
        None => -1,
    }
}

/// The text of a field, or nothing.
pub open spec fn text_in(j: JsonView, key: Seq<char>) -> Seq<char> {
    match json_str(json_field(j, key)) {
        Some(s) => s,
        None => ""@,
    }
}

/// What a result reports.
#[derive(Debug, PartialEq, Eq)]
pub struct Outcome {
    /// The exit code.
    pub exit_code: i64,
    /// Standard output.
    pub stdout: String,
    /// Standard error.
    pub stderr: String,
}

/// What a result reports.
pub fn outcome_of(result: &Json) -> (r: Outcome)
    ensures
        r.exit_code == exit_code_in(result@),
        r.stdout@ == output_text(text_in(result@, "stdout"@)),
        r.stderr@ == output_text(text_in(result@, "stderr"@)),
{
    let exit_code: i64 = match result.i64_field("exit_code") {
        Some(n) => n,
        None => -1,
    };
    let stdout = match result.str_field("stdout") {
        Some(s) => decode(s),
        None => decode(""),
    };
    let stderr = match result.str_field("stderr") {
        Some(s) => decode(s),
        None => decode(""),
    };
    Outcome { exit_code, stdout, stderr }
}

/// What is said of an outcome: the last lines of its output, or of its errors.
pub open spec fn analysis_text(exit_code: int, stdout: Seq<char>, stderr: Seq<char>) -> Seq<char> {
    if exit_code == 0 {
        "success (exit 0). last output:\n"@ + tail_lines(stdout, 5, "\n"@)
    } else {
        "failure (exit "@ + signed_decimal(exit_code) + "). stderr tail:\n"@ + tail_lines(
            stderr,
            15,
            "\n"@,
        )
    }
}

/// What is said of an outcome.
pub fn describe(outcome: &Outcome) -> (r: String)
    ensures
        r@ == analysis_text(outcome.exit_code as int, outcome.stdout@, outcome.stderr@),
{
    if outcome.exit_code == 0 {
        cat2(
            "success (exit 0). last output:\n",
            tail_of(outcome.stdout.as_str(), 5, "\n").as_str(),
        )
    } else {
        cat4(
            "failure (exit ",
            signed_text(outcome.exit_code).as_str(),
            "). stderr tail:\n",
            tail_of(outcome.stderr.as_str(), 15, "\n").as_str(),
        )
    }
}

/// What is said of a result.
pub fn heuristic_analysis(result: &Json) -> (r: String)
    ensures
        r@ == analysis_text(
            exit_code_in(result@),
            output_text(text_in(result@, "stdout"@)),
            output_text(text_in(result@, "stderr"@)),
        ),
{
    describe(&outcome_of(result))
}

/// The first plan: the model's, where there is one and it gave one, and else the
/// one for the layout.
pub fn first_plan(proposed: Option<std::result::Result<Plan, String>>, info: &WorkspaceInfo) -> (r: Plan)
    ensures
        match proposed {
            Some(Ok(p)) => r == p,
            _ => r@ == layout_plan(texts(info.files@)),
        },
{
    match proposed {
        Some(Ok(p)) => p,
        _ => heuristic_plan(info),
    }
}

/// What a session does next.
#[derive(Debug, Clone, Copy, PartialEq, Eq, Structural)]
pub enum SessionStep {
    /// Show the plan and end.
    ShowPlan,
    /// Submit the plan and wait for its result.
    Submit,
    /// Ask the model to correct the plan.
    Revise,
    /// End with this status.
    Exit(i32),
}

/// A session: the plan, the attempts at it, and the exit code of the last one.
#[derive(Debug, PartialEq, Eq)]
pub struct Session {
    /// The plan.
    pub plan: Plan,
    /// The attempt under way, from 1.
    pub attempt: u32,
    /// The last attempt.
    pub attempts: u32,
    /// Whether a model can correct the plan.
    pub llm: bool,
    /// The exit code of the last attempt, -1 before the first.
    pub last_code: i64,
}

/// The status that a session ends with.
pub open spec fn status_for(exit_code: int) -> i32 {
    if exit_code == 0 {
        0
    } else {
        1
    }
}

/// What follows a run that ended with an exit code.
pub open spec fn after_run(s: Session, exit_code: int, t: Session, step: SessionStep) -> bool {
    &&& t.plan == s.plan
    &&& t.attempt == s.attempt
    &&& t.attempts == s.attempts
    &&& t.llm == s.llm
    &&& t.last_code == exit_code
    &&& step == (if exit_code != 0 && s.attempt < s.attempts && s.llm {
        SessionStep::Revise
    } else {
        SessionStep::Exit(status_for(exit_code))
    })
}

impl Session {
    /// The attempt is one of those allowed.
    pub open spec fn wf(self) -> bool {
        1 <= self.attempt <= self.attempts
    }

    /// A session at its start: it shows the plan, or makes the first of several
    /// attempts; one is made at least.
    pub fn begin(plan: Plan, max_attempts: u32, llm: bool, dry_run: bool) -> (r: (Self, SessionStep))
        ensures
            r.0.wf(),
            r.0 == (Session {
                plan,
                attempt: 1,
                attempts: if max_attempts > 1 {
                    max_attempts
                } else {
                    1
                },
                llm,
                last_code: (-1) as i64,
            }),
            r.1 == (if dry_run {
                SessionStep::ShowPlan
            } else {
                SessionStep::Submit
            }),
    {
        let attempts: u32 = if max_attempts > 1 {
            max_attempts
        } else {
            1
        };
        let session = Session { plan, attempt: 1, attempts, llm, last_code: -1 };
        (
            session,
            if dry_run {
                SessionStep::ShowPlan
            } else {
                SessionStep::Submit
            },
        )
    }

    /// What follows the result of an attempt: the plan is corrected after a
    /// failure, where a model can do that and an attempt is left; else the session
    /// ends.
    pub fn run(&mut self, result: &Json) -> (r: SessionStep)
        requires
            old(self).wf(),
        ensures
            final(self).wf(),
            *final(self) == (Session {
                last_code: exit_code_in(result@) as i64,
                ..*old(self)
            }),
            final(self).last_code == exit_code_in(result@),
            after_run(*old(self), exit_code_in(result@), *final(self), r),
            r == (if exit_code_in(result@) != 0 && old(self).attempt < old(self).attempts
                && old(self).llm {
                SessionStep::Revise
            } else {
                SessionStep::Exit(status_for(exit_code_in(result@)))
            }),
    {
        let code: i64 = match result.i64_field("exit_code") {
            Some(n) => n,
            None => -1,
        };
        self.last_code = code;
        if code == 0 {
            SessionStep::Exit(0)
        } else if self.attempt == self.attempts || !self.llm {
            SessionStep::Exit(1)
        } else {
            SessionStep::Revise
        }
    }

    /// What follows a correction: the next attempt with the corrected plan; where
    /// there is none, the session ends as the last attempt did.
    pub fn revised(&mut self, plan: std::result::Result<Plan, String>) -> (r: SessionStep)
        requires
            old(self).wf(),
            old(self).attempt < old(self).attempts,
        ensures
            final(self).wf(),
            match plan {
                Ok(p) => r == SessionStep::Submit && *final(self) == (Session {
                    plan: p,
                    attempt: (old(self).attempt + 1) as u32,
                    ..*old(self)
                }),
                Err(_) => r == SessionStep::Exit(status_for(old(self).last_code as int))
                    && *final(self) == *old(self),
            },
    {
        match plan {
            Ok(p) => {
                self.plan = p;
                self.attempt += 1;
                SessionStep::Submit
            },
            Err(_) => if self.last_code == 0 {
                SessionStep::Exit(0)
            } else {
                SessionStep::Exit(1)
            },
        }
    }
}

proof fn request_names_differ()
    ensures
        "jsonrpc"@ != "method"@,
        "jsonrpc"@ != "params"@,
        "jsonrpc"@ != "id"@,
        "method"@ != "params"@,
        "method"@ != "id"@,
        "params"@ != "id"@,
{
    reveal_strlit("jsonrpc");
    reveal_strlit("method");
    reveal_strlit("params");
    reveal_strlit("id");
    assert("jsonrpc"@[0] == 'j' && "method"@[0] == 'm' && "params"@[0] == 'p' && "id"@[0] == 'i');
}

/// A request names its protocol, its method and its identifier, and carries the
/// parameters as they are.
pub proof fn request_carries_its_parts(method: Seq<char>, params: JsonView, id: u128)
    ensures
        json_field(request_view(method, params, id), "jsonrpc"@) == JsonView::Text("2.0"@),
        json_field(request_view(method, params, id), "method"@) == JsonView::Text(method),
        json_field(request_view(method, params, id), "params"@) == params,
        json_field(request_view(method, params, id), "id"@) == JsonView::Text(uuid_notation(id)),
{
    request_names_differ();
}

proof fn submission_names_differ()
    ensures
        "project_dir"@ != "work_dir"@,
        "project_dir"@ != "build_cmd"@,
        "project_dir"@ != "run_cmd"@,
        "project_dir"@ != "timeout_ms"@,
        "project_dir"@ != "target_node"@,
        "work_dir"@ != "build_cmd"@,
        "work_dir"@ != "run_cmd"@,
        "work_dir"@ != "timeout_ms"@,
        "work_dir"@ != "target_node"@,
        "build_cmd"@ != "run_cmd"@,
        "build_cmd"@ != "timeout_ms"@,
        "build_cmd"@ != "target_node"@,
        "run_cmd"@ != "timeout_ms"@,
        "run_cmd"@ != "target_node"@,
        "timeout_ms"@ != "target_node"@,
{
    reveal_strlit("project_dir");
    reveal_strlit("work_dir");
    reveal_strlit("build_cmd");
    reveal_strlit("run_cmd");
    reveal_strlit("timeout_ms");
    reveal_strlit("target_node");
    assert("project_dir"@[0] == 'p' && "work_dir"@[0] == 'w' && "build_cmd"@[0] == 'b'
        && "run_cmd"@[0] == 'r' && "timeout_ms"@[0] == 't' && "target_node"@[0] == 't');
    assert("timeout_ms"@[1] == 'i' && "target_node"@[1] == 'a');
}

/// A submission carries the plan as it is: directory, working directory, every word of
/// both commands in order, and the node that was asked for, if any.
pub proof fn submission_carries_the_plan(
    root: Seq<char>,
    plan: PlanView,
    target: Option<Seq<char>>,
    i: int,
)
    ensures
        ({
            let j = submission_view(root, plan, target);
            &&& json_field(j, "project_dir"@) == JsonView::Text(root)
            &&& json_field(j, "work_dir"@) == JsonView::Text(plan.work_dir)
            &&& json_items(json_field(j, "build_cmd"@)).len() == plan.build_cmd.len()
            &&& 0 <= i < plan.build_cmd.len() ==> json_items(json_field(j, "build_cmd"@))[i]
                == JsonView::Text(plan.build_cmd[i])
            &&& json_items(json_field(j, "run_cmd"@)).len() == plan.run_cmd.len()
            &&& 0 <= i < plan.run_cmd.len() ==> json_items(json_field(j, "run_cmd"@))[i]
                == JsonView::Text(plan.run_cmd[i])
            &&& json_field(j, "timeout_ms"@) == JsonView::Unsigned(300000)
            &&& target matches Some(t) ==> json_field(j, "target_node"@) == JsonView::Text(t)
            &&& target is None ==> json_field(j, "target_node"@) == JsonView::Null
        }),
{
    submission_names_differ();
}

/// An answer is an error exactly where it has one; else it is its result.
pub proof fn answer_is_its_result_or_its_error(
    method: Seq<char>,
    j: JsonView,
    r: std::result::Result<Json, String>,
)
    requires
        answer_read(method, j, r),
        j is Fields,
    ensures
        r is Err <==> j->Fields_0.contains_key("error"@),
        r is Ok && j->Fields_0.contains_key("result"@) ==> r->Ok_0@ == j->Fields_0["result"@],
        r is Ok && !j->Fields_0.contains_key("result"@) ==> r->Ok_0@ == JsonView::Null,
{
}

/// Waiting ends with the result only where the task is completed, at once with an
/// error where it failed, and at the latest with the six hundredth question.
pub proof fn waiting_ends_with_the_task(
    task_id: Seq<char>,
    polls: u64,
    reply: std::result::Result<Json, String>,
    r: Option<std::result::Result<Json, String>>,
)
    requires
        poll_outcome(task_id, polls, reply, r),
    ensures
        r is Some && r->Some_0 is Ok ==> reply is Ok && r->Some_0->Ok_0 == reply->Ok_0
            && json_field(reply->Ok_0@, "status"@) == JsonView::Text("completed"@),
        reply is Ok && json_field(reply->Ok_0@, "status"@) == JsonView::Text("completed"@) ==> r
            is Some && r->Some_0 is Ok,
        reply is Ok && json_field(reply->Ok_0@, "status"@) == JsonView::Text("failed"@) ==> r
            is Some && r->Some_0 is Err,
        reply is Err ==> r is Some && r->Some_0 is Err,
        r is None ==> polls < 599,
        reply is Ok && json_field(reply->Ok_0@, "status"@) == JsonView::Text("pending"@) && polls
            < 599 ==> r is None,
{
    reveal_strlit("pending");
    reveal_strlit("completed");
    reveal_strlit("failed");
    assert("pending"@.len() == 7 && "completed"@.len() == 9 && "failed"@.len() == 6);
}

/// The exit code and the output that the node shows of a recorded result are those
/// that the session reads.
pub proof fn session_reads_what_the_node_shows(
    c: crate::node::project_client::ClientView,
    result: crate::types::ProjectResultView,
    recorded: u128,
    now: u128,
)
    ensures
        ({
            let j = crate::ipc::project::shown(
                crate::node::project_client::with_result(c, result, recorded),
                result.task_id,
                now,
            );
            &&& status_of(j) == "completed"@
            &&& exit_code_in(j) == result.exit_code
            &&& text_in(j, "stdout"@) == crate::outside::base64_text::base64_of(result.stdout)
            &&& text_in(j, "stderr"@) == crate::outside::base64_text::base64_of(result.stderr)
        }),
{
    crate::ipc::project::recorded_result_is_shown(c, result, recorded, now);
}

/// A session that ends reports success exactly where the last run succeeded.
pub proof fn status_tells_success(exit_code: int)
    ensures
        status_for(exit_code) == 0 <==> exit_code == 0,
        status_for(exit_code) != 0 ==> status_for(exit_code) == 1,
{
}

/// A result that says nothing of its exit code counts as a failure.
pub proof fn missing_exit_code_is_a_failure(j: JsonView)
    requires
        json_field(j, "exit_code"@) is Null,
    ensures
        exit_code_in(j) == -1,
        status_for(exit_code_in(j)) == 1,
{
}

/// What is said of a result begins with the word for how it ended.
pub proof fn analysis_says_how_it_ended(exit_code: int, stdout: Seq<char>, stderr: Seq<char>)
    ensures
        begins_with(analysis_text(exit_code, stdout, stderr), "success"@) <==> exit_code == 0,
        begins_with(analysis_text(exit_code, stdout, stderr), "failure"@) <==> exit_code != 0,
{
    reveal_strlit("success");
    reveal_strlit("failure");
    reveal_strlit("success (exit 0). last output:\n");
    reveal_strlit("failure (exit ");
    let t = analysis_text(exit_code, stdout, stderr);
    if exit_code == 0 {
        assert(t.take(7) =~= "success"@);
        assert(t[0] == 's');
        assert("failure"@[0] == 'f');
        if begins_with(t, "failure"@) {
            assert(t.take(7)[0] == 'f');
        }
    } else {
        assert(t.take(7) =~= "failure"@);
        assert(t[0] == 'f');
        assert("success"@[0] == 's');
        if begins_with(t, "success"@) {
            assert(t.take(7)[0] == 's');
        }
    }
}

/// Only a leading `~/` of a socket's path stands for the home directory.
pub proof fn socket_lies_at_home(path: Seq<char>, home: Seq<char>, rest: Seq<char>)
    ensures
        socket_path(path, None) == path,
        path.len() == 0 || path[0] != '~' ==> socket_path(path, Some(home)) == path,
        path == seq!['~', '/'] + rest ==> socket_path(path, Some(home)) == home + seq!['/'] + rest,
{
    reveal_strlit("~/");
    reveal_strlit("/");
    assert("~/"@ =~= seq!['~', '/']);
    assert("/"@ =~= seq!['/']);
    if path == seq!['~', '/'] + rest {
        assert(path.take(2) =~= "~/"@);
        assert(path.skip(2) =~= rest);
    }
    if begins_with(path, "~/"@) {
        assert(path[0] == path.take(2)[0]);
    }
}

/// A session ends with success exactly when a run did, corrects its plan only after a
/// failure, and makes no more attempts than are allowed.
pub proof fn session_ends_as_its_last_run(
    s: Session,
    exit_code: int,
    t: Session,
    step: SessionStep,
)
    requires
        s.wf(),
        after_run(s, exit_code, t, step),
    ensures
        step == SessionStep::Exit(0) <==> exit_code == 0,
        step is Exit && exit_code != 0 ==> step == SessionStep::Exit(1),
        step is Revise ==> exit_code != 0 && t.llm && t.attempt + 1 <= t.attempts,
        exit_code != 0 && s.llm && s.attempt < s.attempts ==> step is Revise,
        step is Revise || step is Exit,
        t.plan == s.plan,
        t.wf(),
{
}

} // verus!
