//! Running one project in a booted machine: cleaning, upload, build and run, each
//! within its share of the time budget.
use vstd::prelude::*;
use vstd::string::*;
use crate::error::{CoreError, ErrorView, Result};
use crate::paths::{parent_dir, parent_of};
use crate::text::{cat2, cat3, cat4, decimal, decimal_text, join_texts, joined};
use crate::types::{texts, ExecutionResult, ExecutionView, ProjectSpec};

verus! {

/// One second in nanoseconds.
pub const SECOND: u128 = 1_000_000_000;

/// Ceiling for preparing the image.
pub const IMAGE_PREPARE_TIMEOUT: u128 = 300_000_000_000;

/// Ceiling for booting a machine.
pub const BOOT_TIMEOUT: u128 = 600_000_000_000;

/// Ceiling for uploading a snapshot.
pub const UPLOAD_TIMEOUT: u128 = 300_000_000_000;

/// Ceiling for a build or a run.
pub const COMMAND_TIMEOUT: u128 = 1_800_000_000_000;

/// The stages of a task that share its time budget.
#[derive(Debug, Clone, Copy, PartialEq, Eq, Structural)]
pub enum PhaseBudget {
    Image,
    Boot,
    Upload,
    Build,
    Run,
}

/// A phase's share of the remaining time.
pub open spec fn phase_share(remaining: int, phase: PhaseBudget) -> int {
    match phase {
        PhaseBudget::Image => remaining / 3,
        PhaseBudget::Boot => remaining / 2,
        PhaseBudget::Upload => remaining,
        PhaseBudget::Build => remaining,
        PhaseBudget::Run => if remaining > 5 * SECOND {
            remaining - 5 * SECOND
        } else {
            0
        },
    }
}

/// The ceiling of a phase.
pub open spec fn phase_cap(phase: PhaseBudget) -> int {
    match phase {
        PhaseBudget::Image => IMAGE_PREPARE_TIMEOUT as int,
        PhaseBudget::Boot => BOOT_TIMEOUT as int,
        PhaseBudget::Upload => UPLOAD_TIMEOUT as int,
        PhaseBudget::Build => COMMAND_TIMEOUT as int,
        PhaseBudget::Run => COMMAND_TIMEOUT as int,
    }
}

/// The time a phase gets: its share under its ceiling, and at least one second.
pub open spec fn budget_of(now: u128, deadline: u128, phase: PhaseBudget) -> int {
    let remaining = if deadline > now {
        deadline - now
    } else {
        0
    };
    let share = phase_share(remaining, phase);
    let capped = if share < phase_cap(phase) {
        share
    } else {
        phase_cap(phase)
    };
    if capped < SECOND {
        SECOND as int
    } else {
        capped
    }
}

/// The time a phase gets, in nanoseconds.
pub fn phase_budget(now: u128, deadline: u128, phase: PhaseBudget) -> (r: u128)
    ensures
        r == budget_of(now, deadline, phase),
        SECOND <= r <= phase_cap(phase),
{
    let remaining: u128 = if deadline > now {
        deadline - now
    } else {
        0
    };
    let share: u128 = match phase {
        PhaseBudget::Image => remaining / 3,
        PhaseBudget::Boot => remaining / 2,
        PhaseBudget::Upload => remaining,
        PhaseBudget::Build => remaining,
        PhaseBudget::Run => if remaining > 5 * SECOND {
            remaining - 5 * SECOND
        } else {
            0
        },
    };
    let cap: u128 = match phase {
        PhaseBudget::Image => IMAGE_PREPARE_TIMEOUT,
        PhaseBudget::Boot => BOOT_TIMEOUT,
        PhaseBudget::Upload => UPLOAD_TIMEOUT,
        PhaseBudget::Build => COMMAND_TIMEOUT,
        PhaseBudget::Run => COMMAND_TIMEOUT,
    };
    let capped: u128 = if share < cap {
        share
    } else {
        cap
    };
    if capped < SECOND {
        SECOND
    } else {
        capped
    }
}

/// The whole seconds of a duration.
pub open spec fn whole_seconds(nanos: u128) -> nat {
    (nanos / SECOND) as nat
}

fn seconds_text(nanos: u128) -> (r: String)
    requires
        nanos <= COMMAND_TIMEOUT,
    ensures
        r@ == decimal(whole_seconds(nanos)),
{
    decimal_text((nanos / SECOND) as u64)
}

/// The moment `ms` milliseconds after `now`, in nanoseconds.
pub fn deadline_in(now: u128, ms: u64) -> (r: u128)
    requires
        now + ms * 1_000_000 <= u128::MAX,
    ensures
        r == now + ms * 1_000_000,
{
    now + ms as u128 * 1_000_000
}

/// The whole milliseconds from `start` to `now`, modulo 2^64.
pub open spec fn elapsed(start: u128, now: u128) -> u64 {
    (if now > start {
        (now - start) / 1_000_000 % 18446744073709551616
    } else {
        0
    }) as u64
}

/// The whole milliseconds from `start` to `now`.
pub fn elapsed_ms(start: u128, now: u128) -> (r: u64)
    ensures
        r == elapsed(start, now),
{
    if now > start {
        ((now - start) / 1_000_000 % 18446744073709551616) as u64
    } else {
        0
    }
}

/// The exit code of a guest command: its own, or 128 and the signal that killed
/// it, or 1.
pub open spec fn exit_code(code: Option<i32>, signal: Option<i32>) -> int {
    match code {
        Some(c) => c as int,
        None => match signal {
            Some(s) => 128 + s,
            None => 1,
        },
    }
}

/// The exit code of a guest command.
pub fn exit_code_of(code: Option<i32>, signal: Option<i32>) -> (r: i32)
    requires
        signal is Some ==> signal->Some_0 <= i32::MAX - 128,
    ensures
        r == exit_code(code, signal),
{
    match code {
        Some(c) => c,
        None => match signal {
            Some(s) => 128 + s,
            None => 1,
        },
    }
}

/// A command without an exit code of its own is never reported as a success.
pub proof fn killed_command_is_a_failure(signal: Option<i32>)
    requires
        signal is Some ==> signal->Some_0 > 0,
    ensures
        exit_code(None, signal) != 0,
{
}

/// A job of the worker: the project and the moment it has to be done, in
/// nanoseconds.
#[derive(Debug, PartialEq, Eq)]
pub struct Job {
    /// What to run.
    pub spec: ProjectSpec,
    /// When the time is up.
    pub deadline: u128,
}

/// How an operation with a time limit ended.
#[derive(Debug, PartialEq, Eq)]
pub enum Timed {
    /// It was done.
    Done,
    /// It failed, with this text.
    Failed(String),
    /// The time was up.
    TimedOut,
}

/// What a finished guest command left.
#[derive(Debug, PartialEq, Eq)]
pub struct CommandOutput {
    /// Exit code, unless a signal killed the command.
    pub code: Option<i32>,
    /// The signal that killed the command.
    pub signal: Option<i32>,
    /// Captured standard output.
    pub stdout: Vec<u8>,
    /// Captured standard error.
    pub stderr: Vec<u8>,
}

/// How a guest command with a time limit ended.
#[derive(Debug, PartialEq, Eq)]
pub enum Ran {
    /// It came to its end.
    Finished(CommandOutput),
    /// It could not be run, with this text.
    Failed(String),
    /// The time was up.
    TimedOut,
}

/// What is to be done in the machine.
#[derive(Debug, PartialEq, Eq)]
pub enum VmAction {
    /// Run a command without a time limit; how it ends does not matter.
    Clean { cmd: String },
    /// See whether a host directory is there.
    LookForDir { dir: String },
    /// Upload a host directory into a guest directory.
    Upload { dir: String, parent: String, budget: u128 },
    /// Run a command.
    Exec { cmd: String, budget: u128 },
    /// The project is done.
    Finish(Result<ExecutionResult>),
}

/// What was done in the machine.
#[derive(Debug, PartialEq, Eq)]
pub enum VmEvent {
    /// The cleaning command ended.
    Cleaned,
    /// Whether the host directory is there.
    DirThere(bool),
    /// How the upload ended.
    Uploaded(Timed),
    /// How the command ended.
    Ran(Ran),
}

/// What a project waits for.
#[derive(Debug, Clone, Copy, PartialEq, Eq, Structural)]
pub enum VmStage {
    /// The old project is being removed.
    Cleaning,
    /// The host directory is being looked for.
    Looking,
    /// The snapshot is being uploaded.
    Uploading { budget: u128 },
    /// The build runs.
    Building { budget: u128 },
    /// The program runs.
    Running { budget: u128 },
    /// Nothing more.
    Over,
}

/// A project on its way through a machine.
#[derive(Debug, PartialEq, Eq)]
pub struct VmRun {
    /// The project and its deadline.
    pub job: Job,
    /// When the project started.
    pub start: u128,
    /// What it waits for.
    pub stage: VmStage,
    /// Standard output so far.
    pub stdout: Vec<u8>,
    /// Standard error so far.
    pub stderr: Vec<u8>,
}

/// The command line of a list of words, run in a directory.
pub open spec fn command_in(work: Seq<char>, words: Seq<Seq<char>>) -> Seq<char> {
    "cd "@ + work + " && "@ + joined(words, " "@)
}

fn command_text(work: &str, words: &Vec<String>) -> (r: String)
    ensures
        r@ == command_in(work@, texts(words@)),
{
    cat4("cd ", work, " && ", join_texts(words, " ").as_str())
}

/// The guest directory that holds the working directory.
pub open spec fn upload_target(work: Seq<char>) -> Seq<char> {
    match parent_dir(work) {
        Some(p) => p,
        None => "/root"@,
    }
}

/// Budgets in a stage stay under the ceilings.
pub open spec fn stage_ok(stage: VmStage) -> bool {
    match stage {
        VmStage::Uploading { budget } => budget <= UPLOAD_TIMEOUT,
        VmStage::Building { budget } => budget <= COMMAND_TIMEOUT,
        VmStage::Running { budget } => budget <= COMMAND_TIMEOUT,
        _ => true,
    }
}

/// Whether an event reports what a stage waits for.
pub open spec fn awaited(stage: VmStage, event: VmEvent) -> bool {
    match stage {
        VmStage::Cleaning => event is Cleaned,
        VmStage::Looking => event is DirThere,
        VmStage::Uploading { .. } => event is Uploaded,
        VmStage::Building { .. } => event is Ran,
        VmStage::Running { .. } => event is Ran,
        VmStage::Over => false,
    }
}

/// The project starts its program.
pub open spec fn starts_run(job: Job, now: u128, stage: VmStage, action: VmAction) -> bool {
    &&& stage is Running
    &&& stage->Running_budget == budget_of(now, job.deadline, PhaseBudget::Run)
    &&& action is Exec
    &&& action->Exec_cmd@ == command_in(job.spec.work_dir@, texts(job.spec.run_cmd@))
    &&& action->Exec_budget == stage->Running_budget
}

/// The project starts its build, or its program where there is no build.
pub open spec fn starts_build(job: Job, now: u128, stage: VmStage, action: VmAction) -> bool {
    if job.spec.build_cmd@.len() == 0 {
        starts_run(job, now, stage, action)
    } else {
        &&& stage is Building
        &&& stage->Building_budget == budget_of(now, job.deadline, PhaseBudget::Build)
        &&& action is Exec
        &&& action->Exec_cmd@ == command_in(job.spec.work_dir@, texts(job.spec.build_cmd@))
        &&& action->Exec_budget == stage->Building_budget
    }
}

/// The project ends with an error of the sandbox.
pub open spec fn ends_in_error(stage: VmStage, action: VmAction, message: Seq<char>) -> bool {
    &&& stage == VmStage::Over
    &&& action is Finish
    &&& action->Finish_0 is Err
    &&& action->Finish_0->Err_0@ == ErrorView::SandboxExecution(message)
}

/// The project ends with a result.
pub open spec fn ends_in_result(
    stage: VmStage,
    action: VmAction,
    code: int,
    stdout: Seq<u8>,
    stderr: Seq<u8>,
    time: u64,
) -> bool {
    &&& stage == VmStage::Over
    &&& action is Finish
    &&& action->Finish_0 is Ok
    &&& action->Finish_0->Ok_0@ == (ExecutionView {
        exit_code: code as i32,
        stdout,
        stderr,
        execution_time_ms: time,
        peak_memory_bytes: 0,
        result_hash: None,
    })
}

/// What an awaited event makes a project do: it stays the same project with the
/// same start, and collects output only from its commands.
pub open spec fn vm_step(old: VmRun, event: VmEvent, now: u128, new: VmRun, action: VmAction) -> bool {
    &&& new.job == old.job
    &&& new.start == old.start
    &&& !(event is Ran) ==> new.stdout@ == old.stdout@ && new.stderr@ == old.stderr@
    &&& stage_step(old, event, now, new, action)
}

/// What each stage of a project makes of the event it waits for.
pub open spec fn stage_step(
    old: VmRun,
    event: VmEvent,
    now: u128,
    new: VmRun,
    action: VmAction,
) -> bool {
    let job = old.job;
    match (old.stage, event) {
        (VmStage::Cleaning, VmEvent::Cleaned) => match job.spec.local_project_dir {
            Some(dir) => new.stage == VmStage::Looking && action is LookForDir
                && action->LookForDir_dir@ == dir@,
            None => starts_build(job, now, new.stage, action),
        },
        (VmStage::Looking, VmEvent::DirThere(there)) => if there
            && job.spec.local_project_dir is Some {
            &&& new.stage is Uploading
            &&& new.stage->Uploading_budget == budget_of(now, job.deadline, PhaseBudget::Upload)
            &&& action is Upload
            &&& action->Upload_dir@ == job.spec.local_project_dir->Some_0@
            &&& action->Upload_parent@ == upload_target(job.spec.work_dir@)
            &&& action->Upload_budget == new.stage->Uploading_budget
        } else {
            starts_build(job, now, new.stage, action)
        },
        (VmStage::Uploading { budget }, VmEvent::Uploaded(how)) => match how {
            Timed::Done => starts_build(job, now, new.stage, action),
            Timed::Failed(e) => ends_in_error(new.stage, action, "upload: "@ + e@),
            Timed::TimedOut => ends_in_error(
                new.stage,
                action,
                "upload timed out after "@ + decimal(whole_seconds(budget))
                    + "s (guest unreachable or snapshot too large)"@,
            ),
        },
        (VmStage::Building { budget }, VmEvent::Ran(how)) => match how {
            Ran::Finished(o) => if o.code == Some(0i32) {
                &&& starts_run(job, now, new.stage, action)
                &&& new.stdout@ == old.stdout@ + o.stdout@
                &&& new.stderr@ == old.stderr@ + o.stderr@
            } else {
                ends_in_result(
                    new.stage,
                    action,
                    exit_code(o.code, o.signal),
                    old.stdout@ + o.stdout@,
                    old.stderr@ + o.stderr@,
                    elapsed(old.start, now),
                )
            },
            Ran::Failed(e) => ends_in_error(new.stage, action, "build: "@ + e@),
            Ran::TimedOut => ends_in_error(
                new.stage,
                action,
                "build timed out after "@ + decimal(whole_seconds(budget))
                    + "s (command did not return; the VM may be rebooting or apt-get may be stuck)"@,
            ),
        },
        (VmStage::Running { budget }, VmEvent::Ran(how)) => match how {
            Ran::Finished(o) => ends_in_result(
                new.stage,
                action,
                exit_code(o.code, o.signal),
                old.stdout@ + o.stdout@,
                old.stderr@ + o.stderr@,
                elapsed(old.start, now),
            ),
            Ran::Failed(e) => ends_in_error(new.stage, action, "run: "@ + e@),
            Ran::TimedOut => ends_in_error(
                new.stage,
                action,
                "run timed out after "@ + decimal(whole_seconds(budget))
                    + "s (guest command did not return; no hard kill is available for a single in-guest command)"@,
            ),
        },
        _ => true,
    }
}

/// Whether a result is that of a guest command that came to its end: its exit code
/// where it has one, 128 and the signal where one killed it, and a success only
/// where the command was one.
pub open spec fn ended_by(event: VmEvent, result: ExecutionView) -> bool {
    match event {
        VmEvent::Ran(Ran::Finished(o)) => {
            &&& o.code matches Some(c) ==> result.exit_code == c
            &&& o.code is None && o.signal is Some ==> result.exit_code == 128 + o.signal->Some_0
            &&& result.exit_code == 0 <==> o.code == Some(0i32)
        },
        _ => false,
    }
}

/// Signals that an event reports are positive and leave room for the exit code.
pub open spec fn event_ok(event: VmEvent) -> bool {
    match event {
        VmEvent::Ran(Ran::Finished(o)) => o.signal is Some ==> 0 < o.signal->Some_0
            <= i32::MAX - 128,
        _ => true,
    }
}

fn sandbox_error(message: String) -> (r: VmAction)
    ensures
        r is Finish,
        r->Finish_0 is Err,
        r->Finish_0->Err_0@ == ErrorView::SandboxExecution(message@),
{
    VmAction::Finish(Err(CoreError::SandboxExecution(message)))
}

fn timed_out(before: &str, budget: u128, after: &str) -> (r: VmAction)
    requires
        budget <= COMMAND_TIMEOUT,
    ensures
        r is Finish,
        r->Finish_0 is Err,
        r->Finish_0->Err_0@ == ErrorView::SandboxExecution(
            before@ + decimal(whole_seconds(budget)) + after@,
        ),
{
    sandbox_error(cat3(before, seconds_text(budget).as_str(), after))
}

impl VmRun {
    /// A project at its start, and the first thing to do: remove what an earlier
    /// project left in the working directory.
    pub fn begin(job: Job, now: u128) -> (r: (Self, VmAction))
        ensures
            r.0.job == job,
            r.0.start == now,
            r.0.stage == VmStage::Cleaning,
            r.0.stdout@.len() == 0,
            r.0.stderr@.len() == 0,
            r.1 is Clean,
            r.1->Clean_cmd@ == "rm -rf "@ + job.spec.work_dir@,
    {
        let cmd = cat2("rm -rf ", job.spec.work_dir.as_str());
        (
            VmRun {
                job,
                start: now,
                stage: VmStage::Cleaning,
                stdout: Vec::new(),
                stderr: Vec::new(),
            },
            VmAction::Clean { cmd },
        )
    }

    fn start_run(&mut self, now: u128) -> (r: VmAction)
        ensures
            final(self).job == old(self).job,
            final(self).start == old(self).start,
            final(self).stdout == old(self).stdout,
            final(self).stderr == old(self).stderr,
            stage_ok(final(self).stage),
            starts_run(old(self).job, now, final(self).stage, r),
    {
        let budget = phase_budget(now, self.job.deadline, PhaseBudget::Run);
        self.stage = VmStage::Running { budget };
        let cmd = command_text(self.job.spec.work_dir.as_str(), &self.job.spec.run_cmd);
        VmAction::Exec { cmd, budget }
    }

    fn start_build(&mut self, now: u128) -> (r: VmAction)
        ensures
            final(self).job == old(self).job,
            final(self).start == old(self).start,
            final(self).stdout == old(self).stdout,
            final(self).stderr == old(self).stderr,
            stage_ok(final(self).stage),
            starts_build(old(self).job, now, final(self).stage, r),
    {
        if self.job.spec.build_cmd.len() == 0 {
            return self.start_run(now);
        }
        let budget = phase_budget(now, self.job.deadline, PhaseBudget::Build);
        self.stage = VmStage::Building { budget };
        let cmd = command_text(self.job.spec.work_dir.as_str(), &self.job.spec.build_cmd);
        VmAction::Exec { cmd, budget }
    }

    fn finish(&mut self, code: Option<i32>, signal: Option<i32>, now: u128) -> (r: VmAction)
        requires
            signal is Some ==> signal->Some_0 <= i32::MAX - 128,
        ensures
            final(self).job == old(self).job,
            final(self).start == old(self).start,
            ends_in_result(
                final(self).stage,
                r,
                exit_code(code, signal),
                old(self).stdout@,
                old(self).stderr@,
                elapsed(old(self).start, now),
            ),
    {
        let mut stdout: Vec<u8> = Vec::new();
        std::mem::swap(&mut stdout, &mut self.stdout);
        let mut stderr: Vec<u8> = Vec::new();
        std::mem::swap(&mut stderr, &mut self.stderr);
        self.stage = VmStage::Over;
        VmAction::Finish(
            Ok(
                ExecutionResult {
                    exit_code: exit_code_of(code, signal),
                    stdout,
                    stderr,
                    execution_time_ms: elapsed_ms(self.start, now),
                    peak_memory_bytes: 0,
                    result_hash: None,
                },
            ),
        )
    }

    /// What an event makes the project do at time `now`; nothing, where the stage
    /// waits for something else.
    ///
    /// A build that fails ends the project with the build's exit code; the program
    /// runs only after a build that succeeded, or where there is none.
    pub fn advance(&mut self, event: VmEvent, now: u128) -> (r: Option<VmAction>)
        requires
            stage_ok(old(self).stage),
            event_ok(event),
        ensures
            stage_ok(final(self).stage),
            r is Some == awaited(old(self).stage, event),
            r is None ==> *final(self) == *old(self),
            r is Some ==> vm_step(*old(self), event, now, *final(self), r->Some_0),
            r matches Some(VmAction::Finish(Ok(result))) ==> ended_by(event, result@),
    {
        let ghost before = *self;
        match (self.stage, event) {
            (VmStage::Cleaning, VmEvent::Cleaned) => {
                let looked_for: Option<String> = match &self.job.spec.local_project_dir {
                    Some(dir) => Some(dir.clone()),
                    None => None,
                };
                match looked_for {
                    Some(dir) => {
                        self.stage = VmStage::Looking;
                        Some(VmAction::LookForDir { dir })
                    },
                    None => Some(self.start_build(now)),
                }
            },
            (VmStage::Looking, VmEvent::DirThere(there)) => {
                let uploaded: Option<String> = match &self.job.spec.local_project_dir {
                    Some(dir) => if there {
                        Some(dir.clone())
                    } else {
                        None
                    },
                    None => None,
                };
                match uploaded {
                    Some(dir) => {
                        let parent = match parent_of(self.job.spec.work_dir.as_str()) {
                            Some(p) => p,
                            None => String::from_str("/root"),
                        };
                        let budget = phase_budget(now, self.job.deadline, PhaseBudget::Upload);
                        self.stage = VmStage::Uploading { budget };
                        Some(VmAction::Upload { dir, parent, budget })
                    },
                    None => Some(self.start_build(now)),
                }
            },
            (VmStage::Uploading { budget }, VmEvent::Uploaded(how)) => match how {
                Timed::Done => Some(self.start_build(now)),
                Timed::Failed(e) => {
                    self.stage = VmStage::Over;
                    Some(sandbox_error(cat2("upload: ", e.as_str())))
                },
                Timed::TimedOut => {
                    self.stage = VmStage::Over;
                    Some(
                        timed_out(
                            "upload timed out after ",
                            budget,
                            "s (guest unreachable or snapshot too large)",
                        ),
                    )
                },
            },
            (VmStage::Building { budget }, VmEvent::Ran(how)) => match how {
                Ran::Finished(o) => {
                    self.stdout.extend_from_slice(o.stdout.as_slice());
                    assert(self.stdout@ =~= before.stdout@ + o.stdout@);
                    self.stderr.extend_from_slice(o.stderr.as_slice());
                    assert(self.stderr@ =~= before.stderr@ + o.stderr@);
                    if o.code == Some(0i32) {
                        Some(self.start_run(now))
                    } else {
                        Some(self.finish(o.code, o.signal, now))
                    }
                },
                Ran::Failed(e) => {
                    self.stage = VmStage::Over;
                    Some(sandbox_error(cat2("build: ", e.as_str())))
                },
                Ran::TimedOut => {
                    self.stage = VmStage::Over;
                    Some(
                        timed_out(
                            "build timed out after ",
                            budget,
                            "s (command did not return; the VM may be rebooting or apt-get may be stuck)",
                        ),
                    )
                },
            },
            (VmStage::Running { budget }, VmEvent::Ran(how)) => match how {
                Ran::Finished(o) => {
                    self.stdout.extend_from_slice(o.stdout.as_slice());
                    assert(self.stdout@ =~= before.stdout@ + o.stdout@);
                    self.stderr.extend_from_slice(o.stderr.as_slice());
                    assert(self.stderr@ =~= before.stderr@ + o.stderr@);
                    Some(self.finish(o.code, o.signal, now))
                },
                Ran::Failed(e) => {
                    self.stage = VmStage::Over;
                    Some(sandbox_error(cat2("run: ", e.as_str())))
                },
                Ran::TimedOut => {
                    self.stage = VmStage::Over;
                    Some(
                        timed_out(
                            "run timed out after ",
                            budget,
                            "s (guest command did not return; no hard kill is available for a single in-guest command)",
                        ),
                    )
                },
            },
            _ => None,
        }
    }
}

/// One project from its start on: its states, what happened, when, and what it did
/// about each event.
pub struct VmCourse {
    pub states: Seq<VmRun>,
    pub events: Seq<VmEvent>,
    pub times: Seq<u128>,
    pub actions: Seq<VmAction>,
}

impl VmCourse {
    /// Whether the states follow from each other, beginning with a fresh project.
    pub open spec fn valid(self) -> bool {
        &&& self.states.len() == self.events.len() + 1
        &&& self.times.len() == self.events.len()
        &&& self.actions.len() == self.events.len()
        &&& self.states[0].stage == VmStage::Cleaning
        &&& self.states[0].stdout@.len() == 0
        &&& self.states[0].stderr@.len() == 0
        &&& forall|i: int| 0 <= i < self.events.len() ==> #[trigger] self.steps(i)
    }

    /// Whether the state behind an event follows from the one before it.
    pub open spec fn steps(self, i: int) -> bool {
        &&& awaited(self.states[i].stage, self.events[i])
        &&& event_ok(self.events[i])
        &&& vm_step(
            self.states[i],
            self.events[i],
            self.times[i],
            self.states[i + 1],
            self.actions[i],
        )
    }
}

/// Everything that finished commands wrote to standard output, in order.
pub open spec fn all_stdout(events: Seq<VmEvent>) -> Seq<u8>
    decreases events.len(),
{
    if events.len() == 0 {
        Seq::empty()
    } else {
        match events.last() {
            VmEvent::Ran(Ran::Finished(o)) => all_stdout(events.drop_last()) + o.stdout@,
            _ => all_stdout(events.drop_last()),
        }
    }
}

/// Everything that finished commands wrote to standard error, in order.
pub open spec fn all_stderr(events: Seq<VmEvent>) -> Seq<u8>
    decreases events.len(),
{
    if events.len() == 0 {
        Seq::empty()
    } else {
        match events.last() {
            VmEvent::Ran(Ran::Finished(o)) => all_stderr(events.drop_last()) + o.stderr@,
            _ => all_stderr(events.drop_last()),
        }
    }
}

/// Whether an action runs a list of words in a directory.
pub open spec fn runs_words(action: VmAction, work: Seq<char>, words: Seq<Seq<char>>) -> bool {
    &&& action is Exec
    &&& action->Exec_cmd@ == "cd "@ + work + " && "@ + joined(words, " "@)
}

/// What holds of a project that is not over yet: it is the one that was started,
/// every command so far succeeded, their output is kept, and where the program
/// runs, it was started by the latest action.
proof fn course_so_far(c: VmCourse, n: int)
    requires
        c.valid(),
        0 <= n < c.states.len(),
        !(c.states[n].stage is Over),
    ensures
        c.states[n].job == c.states[0].job,
        c.states[n].start == c.states[0].start,
        c.states[n].stdout@ == all_stdout(c.events.take(n)),
        c.states[n].stderr@ == all_stderr(c.events.take(n)),
        forall|i: int|
            0 <= i < n ==> ((#[trigger] c.events[i]) matches VmEvent::Ran(Ran::Finished(o))
                ==> o.code == Some(0i32)),
        forall|i: int| 0 <= i < n ==> !((#[trigger] c.actions[i]) is Finish),
        c.states[n].stage is Running ==> n > 0 && runs_words(
            c.actions[n - 1],
            c.states[0].job.spec.work_dir@,
            texts(c.states[0].job.spec.run_cmd@),
        ),
        c.states[n].stage is Building ==> n > 0 && runs_words(
            c.actions[n - 1],
            c.states[0].job.spec.work_dir@,
            texts(c.states[0].job.spec.build_cmd@),
        ),
        c.states[n].stage is Running && c.states[0].job.spec.build_cmd@.len() > 0 ==> exists|i: int|
            0 <= i < n && runs_words(
                #[trigger] c.actions[i],
                c.states[0].job.spec.work_dir@,
                texts(c.states[0].job.spec.build_cmd@),
            ) && i + 1 < n && (c.events[i + 1] matches VmEvent::Ran(Ran::Finished(o)) && o.code
                == Some(0i32)),
    decreases n,
{
    if n == 0 {
        assert(c.events.take(0) =~= Seq::<VmEvent>::empty());
        assert(c.states[0].stdout@ =~= Seq::<u8>::empty());
        assert(c.states[0].stderr@ =~= Seq::<u8>::empty());
    } else {
        let m = n - 1;
        assert(c.steps(m));
        assert(!(c.states[m].stage is Over));
        course_so_far(c, m);
        assert(c.events.take(n).drop_last() =~= c.events.take(m));
        assert(c.events.take(n).last() == c.events[m]);
        if c.states[m].stage is Building && c.states[n].stage is Running {
            assert(runs_words(
                c.actions[m - 1],
                c.states[0].job.spec.work_dir@,
                texts(c.states[0].job.spec.build_cmd@),
            ));
        }
    }
}

/// What a project reports is how its last command ended. The exit code is that of
/// the command, or 128 and the signal that killed it, and it is zero exactly where
/// the command ended with zero. The output is all that its commands wrote, in
/// order, and every command before the last one succeeded. A project that reports
/// success has run its program, and its build before that where it has one.
pub proof fn project_reports_its_last_command(c: VmCourse, result: ExecutionResult)
    requires
        c.valid(),
        c.events.len() > 0,
        c.actions.last() == VmAction::Finish(Ok(result)),
    ensures
        c.events.last() matches VmEvent::Ran(Ran::Finished(o)) && {
            &&& o.code matches Some(code) ==> result.exit_code == code
            &&& o.code is None && o.signal is Some ==> result.exit_code == 128 + o.signal->Some_0
            &&& result.exit_code == 0 <==> o.code == Some(0i32)
        },
        result.stdout@ == all_stdout(c.events),
        result.stderr@ == all_stderr(c.events),
        forall|i: int|
            0 <= i < c.events.len() - 1 ==> ((#[trigger] c.events[i]) matches VmEvent::Ran(
                Ran::Finished(o),
            ) ==> o.code == Some(0i32)),
        result.exit_code == 0 ==> c.events.len() > 1 && runs_words(
            c.actions[c.events.len() - 2],
            c.states[0].job.spec.work_dir@,
            texts(c.states[0].job.spec.run_cmd@),
        ),
        result.exit_code == 0 && c.states[0].job.spec.build_cmd@.len() > 0 ==> exists|i: int|
            0 <= i < c.events.len() - 2 && runs_words(
                #[trigger] c.actions[i],
                c.states[0].job.spec.work_dir@,
                texts(c.states[0].job.spec.build_cmd@),
            ),
        ({
            let start = c.states[0].start as int;
            let now = c.times.last() as int;
            let time = result.execution_time_ms as int;
            start <= now < start + 18446744073709551616 * 1_000_000 ==> start + time * 1_000_000
                <= now < start + (time + 1) * 1_000_000
        }),
{
    let m = c.events.len() - 1;
    assert(c.steps(m));
    assert(!(c.states[m].stage is Over));
    course_so_far(c, m);
    assert(c.events.drop_last() =~= c.events.take(m));
    assert(c.events.last() == c.events[m]);
    assert(c.actions.last() == c.actions[m]);
}

/// A project goes on until something goes wrong or its program ends. A command
/// that fails, and the program however it ends, is the last one; whatever could
/// not be done at all, or not in time, ends the project in an error.
pub proof fn project_ends_where_it_must(
    old: VmRun,
    event: VmEvent,
    now: u128,
    new: VmRun,
    action: VmAction,
)
    requires
        awaited(old.stage, event),
        event_ok(event),
        vm_step(old, event, now, new, action),
    ensures
        action is Finish <==> new.stage is Over,
        event matches VmEvent::Ran(Ran::Finished(o)) ==> (action is Finish <==> old.stage is Running
            || o.code != Some(0i32)) && (action is Finish ==> action->Finish_0 is Ok),
        event matches VmEvent::Ran(Ran::Failed(_)) ==> action is Finish && action->Finish_0 is Err,
        event matches VmEvent::Ran(Ran::TimedOut) ==> action is Finish && action->Finish_0 is Err,
        event matches VmEvent::Uploaded(Timed::Failed(_)) ==> action is Finish
            && action->Finish_0 is Err,
        event matches VmEvent::Uploaded(Timed::TimedOut) ==> action is Finish
            && action->Finish_0 is Err,
        event matches VmEvent::Uploaded(Timed::Done) ==> action is Exec,
        event is Cleaned ==> !(action is Finish),
        event is DirThere ==> !(action is Finish),
{
}

/// Whatever a phase is given, it is at least a second, never more than the time
/// that is left unless that is under a second, and never more than its ceiling. The
/// program leaves five seconds of what is left.
pub proof fn budgets_stay_within_the_deadline(now: u128, deadline: u128, phase: PhaseBudget)
    ensures
        budget_of(now, deadline, phase) >= 1_000_000_000,
        deadline - now >= 1_000_000_000 ==> budget_of(now, deadline, phase) <= deadline - now,
        phase is Image || phase is Upload ==> budget_of(now, deadline, phase) <= 300_000_000_000,
        phase is Boot ==> budget_of(now, deadline, phase) <= 600_000_000_000,
        phase is Build || phase is Run ==> budget_of(now, deadline, phase) <= 1_800_000_000_000,
        phase is Run && deadline - now >= 6_000_000_000 ==> budget_of(now, deadline, phase) <= deadline
            - now - 5_000_000_000,
        phase is Upload && 1_000_000_000 <= deadline - now <= 300_000_000_000 ==> budget_of(
            now,
            deadline,
            phase,
        ) == deadline - now,
        phase is Build && 1_000_000_000 <= deadline - now <= 1_800_000_000_000 ==> budget_of(
            now,
            deadline,
            phase,
        ) == deadline - now,
        phase is Run && 6_000_000_000 <= deadline - now <= 1_805_000_000_000 ==> budget_of(
            now,
            deadline,
            phase,
        ) == deadline - now - 5_000_000_000,
{
}

/// Preparing the image takes a third of the time that is left, and booting half of
/// it, as long as neither is under a second or over its ceiling.
pub proof fn image_and_boot_share_the_time(now: u128, deadline: u128)
    requires
        deadline > now,
    ensures
        3_000_000_000 <= deadline - now <= 900_000_000_000 ==> budget_of(
            now,
            deadline,
            PhaseBudget::Image,
        ) == (deadline - now) / 3,
        deadline - now > 900_000_000_000 ==> budget_of(now, deadline, PhaseBudget::Image)
            == 300_000_000_000,
        2_000_000_000 <= deadline - now <= 1_200_000_000_000 ==> budget_of(
            now,
            deadline,
            PhaseBudget::Boot,
        ) == (deadline - now) / 2,
        deadline - now > 1_200_000_000_000 ==> budget_of(now, deadline, PhaseBudget::Boot)
            == 600_000_000_000,
{
}

/// A command's own exit code is reported as it is; a command that a signal ended has a
/// code over 128, another for each signal; and one that ended without either failed.
pub proof fn exit_codes_tell_how_commands_end(code: i32, signal: i32, other: i32)
    requires
        signal > 0,
    ensures
        exit_code(Some(code), None) == code,
        exit_code(Some(code), Some(signal)) == code,
        exit_code(None, Some(signal)) - signal == 128,
        signal != other ==> exit_code(None, Some(signal)) != exit_code(None, Some(other)),
        exit_code(None, None) == 1,
{
}

/// The time of a run is the whole milliseconds between its start and its end.
pub proof fn time_is_counted_in_milliseconds(start: u128, now: u128)
    requires
        now - start < 18446744073709551616 * 1_000_000,
    ensures
        now <= start ==> elapsed(start, now) == 0,
        now > start ==> elapsed(start, now) * 1_000_000 <= now - start < (elapsed(start, now) + 1)
            * 1_000_000,
{
    if now > start {
        let ms = (now - start) / 1_000_000;
        assert(0 <= ms < 18446744073709551616);
        assert(ms % 18446744073709551616 == ms);
    }
}

} // verus!
