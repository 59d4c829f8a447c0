//! Running a project task on an execution node: the snapshot is fetched, unpacked
//! and handed to the sandbox.
use vstd::prelude::*;
use vstd::string::*;
use crate::error::{error_message, Result};
use crate::node::cas_fetch::DEFAULT_FETCH_TIMEOUT;
use crate::paths::{file_name, file_name_of, join_path, joined_path};
use crate::text::{cat2, cat4};
use crate::types::{clone_texts, texts, ExecutionResult, NodeId, OsType};
use crate::types::{ProjectResult, ProjectResultView, ProjectSpec, ProjectTask};

verus! {

/// What is to be done for a task.
#[derive(Debug, PartialEq, Eq)]
pub enum RunAction {
    /// Make sure that the snapshot is in the local store.
    EnsureBlob { hash: String, timeout: u128 },
    /// Make a temporary directory.
    MakeTempDir,
    /// Unpack the snapshot into this directory.
    Extract { dest: String },
    /// Run the project in the sandbox.
    RunProject(ProjectSpec),
    /// The task is done.
    Finish(std::result::Result<ProjectResult, String>),
}

/// What was done for a task.
#[derive(Debug, PartialEq, Eq)]
pub enum RunEvent {
    /// Whether the snapshot is in the local store.
    BlobEnsured(Result<Vec<u8>>),
    /// The temporary directory.
    TempDirMade(std::result::Result<String, String>),
    /// Whether the snapshot was unpacked.
    Extracted(Result<()>),
    /// What the sandbox said, unless its thread broke down.
    ProjectRan(std::result::Result<Result<ExecutionResult>, String>),
}

/// What a task waits for.
#[derive(Debug, PartialEq, Eq)]
pub enum RunStage {
    /// The snapshot.
    Fetching,
    /// The temporary directory.
    MakingTempDir,
    /// The unpacking into a directory.
    Extracting { dest: String },
    /// The sandbox.
    Running,
    /// Nothing more.
    Over,
}

/// A task on its way.
#[derive(Debug, PartialEq, Eq)]
pub struct ProjectRun {
    /// The task.
    pub task: ProjectTask,
    /// The node that runs it.
    pub node_id: NodeId,
    /// What it waits for.
    pub stage: RunStage,
}

/// Runs project tasks on a host.
#[derive(Debug, Clone, Copy, PartialEq, Eq, Structural)]
pub struct QleanProjectExecutor {
    /// The host's operating system.
    pub os: OsType,
    /// The node that runs the tasks.
    pub self_node_id: NodeId,
}

/// The directory that a project is unpacked into: named like the working
/// directory, so that its upload lands there.
pub open spec fn unpack_dir(tmp: Seq<char>, work_dir: Seq<char>) -> Seq<char> {
    joined_path(
        tmp,
        match file_name(work_dir) {
            Some(name) => name,
            None => "project"@,
        },
    )
}

/// The task ends without a result.
pub open spec fn gives_up(new: ProjectRun, action: RunAction, message: Seq<char>) -> bool {
    &&& new.stage is Over
    &&& action is Finish
    &&& action->Finish_0 is Err
    &&& action->Finish_0->Err_0@ == message
}

/// What the sandbox is asked to run for a task.
pub open spec fn spec_of(task: ProjectTask, dest: Seq<char>, spec: ProjectSpec) -> bool {
    &&& spec.snapshot_hash@ == task.snapshot.hash@
    &&& spec.local_project_dir is Some
    &&& spec.local_project_dir->Some_0@ == dest
    &&& spec.work_dir@ == task.work_dir@
    &&& texts(spec.build_cmd@) == texts(task.build_cmd@)
    &&& texts(spec.run_cmd@) == texts(task.run_cmd@)
    &&& spec.timeout_ms == task.timeout_ms
    &&& spec.resource_limits == task.resource_limits
}

/// Whether an event reports what a stage waits for.
pub open spec fn reports(stage: RunStage, event: RunEvent) -> bool {
    match stage {
        RunStage::Fetching => event is BlobEnsured,
        RunStage::MakingTempDir => event is TempDirMade,
        RunStage::Extracting { .. } => event is Extracted,
        RunStage::Running => event is ProjectRan,
        RunStage::Over => false,
    }
}

/// What an expected event leads to.
pub open spec fn run_step(old: ProjectRun, event: RunEvent, new: ProjectRun, action: RunAction) -> bool {
    match event {
        RunEvent::BlobEnsured(Ok(_)) => new.stage is MakingTempDir && action
            == RunAction::MakeTempDir,
        RunEvent::BlobEnsured(Err(e)) => gives_up(
            new,
            action,
            "snapshot "@ + old.task.snapshot.hash@ + " unavailable: "@ + error_message(e@),
        ),
        RunEvent::TempDirMade(Ok(tmp)) => {
            &&& new.stage is Extracting
            &&& new.stage->Extracting_dest@ == unpack_dir(tmp@, old.task.work_dir@)
            &&& action is Extract
            &&& action->Extract_dest@ == new.stage->Extracting_dest@
        },
        RunEvent::TempDirMade(Err(e)) => gives_up(new, action, e@),
        RunEvent::Extracted(Ok(_)) => {
            &&& new.stage is Running
            &&& action is RunProject
            &&& spec_of(old.task, old.stage->Extracting_dest@, action->RunProject_0)
        },
        RunEvent::Extracted(Err(e)) => gives_up(
            new,
            action,
            "extract snapshot: "@ + error_message(e@),
        ),
        RunEvent::ProjectRan(Ok(Ok(done))) => {
            &&& new.stage is Over
            &&& action is Finish
            &&& action->Finish_0 is Ok
            &&& action->Finish_0->Ok_0@ == (ProjectResultView {
                task_id: old.task.task_id,
                exit_code: done.exit_code,
                stdout: done.stdout@,
                stderr: done.stderr@,
                execution_time_ms: done.execution_time_ms,
                executed_on: old.node_id,
            })
        },
        RunEvent::ProjectRan(Ok(Err(e))) => gives_up(
            new,
            action,
            "qlean run_project: "@ + error_message(e@),
        ),
        RunEvent::ProjectRan(Err(e)) => gives_up(new, action, "join: "@ + e@),
    }
}

fn failed(message: String) -> (r: RunAction)
    ensures
        r is Finish,
        r->Finish_0 is Err,
        r->Finish_0->Err_0@ == message@,
{
    RunAction::Finish(Err(message))
}

impl QleanProjectExecutor {
    /// An executor of the given node.
    pub fn new(os: OsType, self_node_id: NodeId) -> (r: Self)
        ensures
            r == (QleanProjectExecutor { os, self_node_id }),
    {
        QleanProjectExecutor { os, self_node_id }
    }

    /// A task at its start and the first thing to do for it: fetch its snapshot.
    /// Only a Linux host runs tasks.
    pub fn run(&self, task: ProjectTask) -> (r: (ProjectRun, RunAction))
        ensures
            r.0.task == task,
            r.0.node_id == self.self_node_id,
            if self.os == OsType::Linux {
                &&& r.0.stage is Fetching
                &&& r.1 is EnsureBlob
                &&& r.1->EnsureBlob_hash@ == task.snapshot.hash@
                &&& r.1->EnsureBlob_timeout == DEFAULT_FETCH_TIMEOUT
            } else {
                gives_up(r.0, r.1, "Qlean project executor requires Linux"@)
            },
    {
        if self.os != OsType::Linux {
            return (
                ProjectRun { task, node_id: self.self_node_id, stage: RunStage::Over },
                failed(String::from_str("Qlean project executor requires Linux")),
            );
        }
        let hash = task.snapshot.hash.clone();
        (
            ProjectRun { task, node_id: self.self_node_id, stage: RunStage::Fetching },
            RunAction::EnsureBlob { hash, timeout: DEFAULT_FETCH_TIMEOUT },
        )
    }
}

impl ProjectRun {
    fn spec(&self, dest: String) -> (r: ProjectSpec)
        ensures
            spec_of(self.task, dest@, r),
    {
        ProjectSpec {
            snapshot_hash: self.task.snapshot.hash.clone(),
            local_project_dir: Some(dest),
            work_dir: self.task.work_dir.clone(),
            build_cmd: clone_texts(&self.task.build_cmd),
            run_cmd: clone_texts(&self.task.run_cmd),
            timeout_ms: self.task.timeout_ms,
            resource_limits: self.task.resource_limits,
        }
    }

    /// What an event leads to; nothing, where the task waits for something else.
    pub fn advance(&mut self, event: RunEvent) -> (r: Option<RunAction>)
        ensures
            final(self).task == old(self).task,
            final(self).node_id == old(self).node_id,
            r is Some == reports(old(self).stage, event),
            r is None ==> *final(self) == *old(self),
            r is Some ==> run_step(*old(self), event, *final(self), r->Some_0),
    {
        let mut stage = RunStage::Over;
        std::mem::swap(&mut stage, &mut self.stage);
        match (stage, event) {
            (RunStage::Fetching, RunEvent::BlobEnsured(Ok(_))) => {
                self.stage = RunStage::MakingTempDir;
                Some(RunAction::MakeTempDir)
            },
            (RunStage::Fetching, RunEvent::BlobEnsured(Err(e))) => Some(
                failed(
                    cat4(
                        "snapshot ",
                        self.task.snapshot.hash.as_str(),
                        " unavailable: ",
                        e.to_string().as_str(),
                    ),
                ),
            ),
            (RunStage::MakingTempDir, RunEvent::TempDirMade(Ok(tmp))) => {
                let name = match file_name_of(self.task.work_dir.as_str()) {
                    Some(name) => name,
                    None => String::from_str("project"),
                };
                let dest = join_path(tmp.as_str(), name.as_str());
                self.stage = RunStage::Extracting { dest: dest.clone() };
                Some(RunAction::Extract { dest })
            },
            (RunStage::MakingTempDir, RunEvent::TempDirMade(Err(e))) => Some(failed(e)),
            (RunStage::Extracting { dest }, RunEvent::Extracted(Ok(_))) => {
                self.stage = RunStage::Running;
                Some(RunAction::RunProject(self.spec(dest)))
            },
            (RunStage::Extracting { .. }, RunEvent::Extracted(Err(e))) => Some(
                failed(cat2("extract snapshot: ", e.to_string().as_str())),
            ),
            (RunStage::Running, RunEvent::ProjectRan(Ok(Ok(done)))) => Some(
                RunAction::Finish(
                    Ok(
                        ProjectResult {
                            task_id: self.task.task_id,
                            exit_code: done.exit_code,
                            stdout: done.stdout,
                            stderr: done.stderr,
                            execution_time_ms: done.execution_time_ms,
                            executed_on: self.node_id,
                        },
                    ),
                ),
            ),
            (RunStage::Running, RunEvent::ProjectRan(Ok(Err(e)))) => Some(
                failed(cat2("qlean run_project: ", e.to_string().as_str())),
            ),
            (RunStage::Running, RunEvent::ProjectRan(Err(e))) => Some(
                failed(cat2("join: ", e.as_str())),
            ),
            (stage, _) => {
                self.stage = stage;
                None
            },
        }
    }
}

/// What a task reports is what its project did: the result carries the task's id, the
/// node that ran it, and the exit code, the output and the time that the sandbox
/// reported. There is a result only where the sandbox gave one.
pub proof fn task_reports_what_the_sandbox_did(
    old: ProjectRun,
    event: RunEvent,
    new: ProjectRun,
    action: RunAction,
)
    requires
        reports(old.stage, event),
        run_step(old, event, new, action),
    ensures
        action matches RunAction::Finish(Ok(result)) ==> (event matches RunEvent::ProjectRan(
            Ok(Ok(done)),
        ) && {
            &&& result.task_id == old.task.task_id
            &&& result.executed_on == old.node_id
            &&& result.exit_code == done.exit_code
            &&& result.stdout@ == done.stdout@
            &&& result.stderr@ == done.stderr@
            &&& result.execution_time_ms == done.execution_time_ms
        }),
        event matches RunEvent::ProjectRan(Ok(Ok(_))) ==> action is Finish && action->Finish_0 is Ok,
        event matches RunEvent::ProjectRan(Ok(Err(_))) ==> action is Finish
            && action->Finish_0 is Err,
        event matches RunEvent::ProjectRan(Err(_)) ==> action is Finish && action->Finish_0 is Err,
        event matches RunEvent::BlobEnsured(Err(_)) ==> action is Finish && action->Finish_0 is Err,
        event matches RunEvent::TempDirMade(Err(_)) ==> action is Finish && action->Finish_0 is Err,
        event matches RunEvent::Extracted(Err(_)) ==> action is Finish && action->Finish_0 is Err,
{
}

/// The sandbox is asked to run what the task asks for: its commands, in its working
/// directory, within its time and its limits, on the files that were unpacked.
pub proof fn sandbox_runs_the_task(
    old: ProjectRun,
    event: RunEvent,
    new: ProjectRun,
    action: RunAction,
)
    requires
        reports(old.stage, event),
        run_step(old, event, new, action),
        action is RunProject,
    ensures
        old.stage is Extracting,
        event matches RunEvent::Extracted(Ok(_)),
        ({
            let spec = action->RunProject_0;
            &&& texts(spec.run_cmd@) == texts(old.task.run_cmd@)
            &&& texts(spec.build_cmd@) == texts(old.task.build_cmd@)
            &&& spec.work_dir@ == old.task.work_dir@
            &&& spec.timeout_ms == old.task.timeout_ms
            &&& spec.resource_limits == old.task.resource_limits
            &&& spec.snapshot_hash@ == old.task.snapshot.hash@
            &&& spec.local_project_dir matches Some(dir) && dir@ == old.stage->Extracting_dest@
        }),
{
}

/// A project is unpacked below the temporary directory, under the name of the working
/// directory.
pub proof fn project_is_unpacked_under_its_name(
    old: ProjectRun,
    tmp: String,
    new: ProjectRun,
    action: RunAction,
)
    requires
        run_step(old, RunEvent::TempDirMade(Ok(tmp)), new, action),
    ensures
        action is Extract,
        new.stage is Extracting,
        action->Extract_dest@ == new.stage->Extracting_dest@,
        file_name(old.task.work_dir@) matches Some(name) ==> action->Extract_dest@ == joined_path(
            tmp@,
            name,
        ),
{
}

} // verus!
