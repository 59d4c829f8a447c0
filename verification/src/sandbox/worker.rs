//! The worker that owns at most one machine: what it does for a job, and what
//! becomes of the machine afterwards.
use vstd::prelude::*;
use vstd::string::*;
use crate::error::{CoreError, ErrorView, Result};
use crate::sandbox::pool::{actions_after_job, PoolAction, PoolPlan};
use crate::sandbox::vm::{awaited, budget_of, ended_by, event_ok, phase_budget, project_ends_where_it_must, stage_ok, vm_step, whole_seconds};
use crate::sandbox::vm::{Job, PhaseBudget, Ran, Timed, VmAction, VmEvent, VmRun, VmStage};
use crate::sandbox::vm::{BOOT_TIMEOUT, IMAGE_PREPARE_TIMEOUT, SECOND};
use crate::text::{cat2, cat3, decimal, decimal_text};
use crate::types::ExecutionResult;

verus! {

/// The worker's machine.
#[derive(Debug, Clone, Copy, PartialEq, Eq, Structural)]
pub enum MachineSlot {
    /// There is none.
    Empty,
    /// It is booted and no project ran in it.
    Unused,
    /// A project ran in it.
    Used,
}

/// What a machine is booted for.
#[derive(Debug, PartialEq, Eq)]
pub enum Purpose {
    /// For this job.
    Task(Job),
    /// For the next job; this is the outcome of the last one.
    Refill(Result<ExecutionResult>),
}

/// What the worker waits for.
#[derive(Debug, PartialEq, Eq)]
pub enum WorkerStage {
    /// A job.
    Waiting,
    /// The image.
    PreparingImage { job: Job, budget: u128 },
    /// Whether the machine still runs.
    CheckingMachine { job: Job },
    /// A new machine.
    Creating { purpose: Purpose, budget: u128 },
    /// The boot of a new machine.
    Booting { purpose: Purpose, budget: u128 },
    /// A project in the machine.
    Working { run: VmRun },
    /// The end of a machine that is not to be trusted.
    Dropping { outcome: Result<ExecutionResult> },
    /// The shutdown of a machine after its task.
    Discarding { outcome: Result<ExecutionResult> },
    /// The shutdown of the machine at the end.
    Closing,
    /// Nothing more.
    Stopped,
}

/// The worker: its policy, whether the image is there, its machine, and what it
/// waits for.
#[derive(Debug, PartialEq, Eq)]
pub struct Worker {
    /// What becomes of machines after a job.
    pub plan: PoolPlan,
    /// Whether the image is there.
    pub image_ready: bool,
    /// The machine.
    pub slot: MachineSlot,
    /// What the worker waits for.
    pub stage: WorkerStage,
}

/// What reaches the worker.
#[derive(Debug, PartialEq, Eq)]
pub enum WorkerEvent {
    /// A job.
    JobReceived(Job),
    /// How the preparation of the image ended.
    ImagePrepared(Timed),
    /// Whether the machine still runs.
    MachineRunning(bool),
    /// How the creation of a machine ended.
    MachineCreated(Timed),
    /// How the boot of the new machine ended.
    MachineBooted(Timed),
    /// What was done in the machine.
    InMachine(VmEvent),
    /// The machine is gone.
    MachineDropped,
    /// The machine was shut down, or refused to be.
    MachineShutDown,
    /// No more jobs will come.
    Closed,
}

/// What the worker does.
#[derive(Debug, PartialEq, Eq)]
pub enum WorkerAction {
    /// Prepare the image.
    PrepareImage { budget: u128 },
    /// See whether the machine still runs.
    CheckMachine,
    /// Create a machine from the image.
    CreateMachine { budget: u128 },
    /// Boot the new machine; once booted, it is the worker's machine.
    BootMachine { budget: u128 },
    /// Do something in the machine.
    InMachine(VmAction),
    /// Drop the machine.
    DropMachine,
    /// Shut the machine down.
    ShutDownMachine,
    /// Answer the job.
    Reply(Result<ExecutionResult>),
    /// End the worker.
    Stop,
}

/// Whether an event reports what the worker waits for.
pub open spec fn expects(stage: WorkerStage, event: WorkerEvent) -> bool {
    match stage {
        WorkerStage::Waiting => event is JobReceived || event is Closed,
        WorkerStage::PreparingImage { .. } => event is ImagePrepared,
        WorkerStage::CheckingMachine { .. } => event is MachineRunning,
        WorkerStage::Creating { .. } => event is MachineCreated,
        WorkerStage::Booting { .. } => event is MachineBooted,
        WorkerStage::Working { run } => event is InMachine && awaited(
            run.stage,
            event->InMachine_0,
        ),
        WorkerStage::Dropping { .. } => event is MachineDropped,
        WorkerStage::Discarding { .. } => event is MachineShutDown,
        WorkerStage::Closing => event is MachineShutDown,
        WorkerStage::Stopped => false,
    }
}

/// Whether the worker owes an answer.
pub open spec fn owes_answer(stage: WorkerStage) -> bool {
    !(stage is Waiting || stage is Closing || stage is Stopped)
}

/// What every worker keeps: budgets under their ceilings, a project only in a used
/// machine, no machine while one is being thrown away, and in fresh mode no used
/// machine beside the one at work.
pub open spec fn worker_ok(w: Worker) -> bool {
    &&& match w.stage {
        WorkerStage::PreparingImage { budget, .. } => budget <= IMAGE_PREPARE_TIMEOUT,
        WorkerStage::CheckingMachine { .. } => w.image_ready && w.slot != MachineSlot::Empty,
        WorkerStage::Creating { purpose, budget } => w.image_ready && budget <= BOOT_TIMEOUT && (
        purpose is Refill ==> !w.plan.reuse && w.slot == MachineSlot::Empty),
        WorkerStage::Booting { purpose, budget } => w.image_ready && budget <= BOOT_TIMEOUT && (
        purpose is Refill ==> !w.plan.reuse && w.slot == MachineSlot::Empty),
        WorkerStage::Working { run } => w.image_ready && w.slot == MachineSlot::Used && stage_ok(
            run.stage,
        ),
        WorkerStage::Dropping { outcome } => w.slot == MachineSlot::Empty && outcome is Err,
        WorkerStage::Discarding { .. } => w.slot == MachineSlot::Empty && !w.plan.reuse,
        _ => true,
    }
    &&& !w.plan.reuse && !(w.stage is Working) ==> w.slot != MachineSlot::Used
}

/// The outcome of the job that the worker carries on or answers with.
pub open spec fn carried(stage: WorkerStage, action: WorkerAction) -> Result<ExecutionResult> {
    match stage {
        WorkerStage::Dropping { outcome } => outcome,
        WorkerStage::Discarding { outcome } => outcome,
        WorkerStage::Creating { purpose, .. } => purpose->Refill_0,
        _ => action->Reply_0,
    }
}

/// The worker boots a machine for the next job where the plan asks for one, and
/// else answers.
pub open spec fn refills(w: Worker, new: Worker, action: WorkerAction) -> bool {
    &&& new.slot == w.slot
    &&& if !w.plan.reuse && w.plan.target > 0 && w.image_ready {
        &&& new.stage is Creating
        &&& new.stage->Creating_purpose is Refill
        &&& new.stage->Creating_budget == BOOT_TIMEOUT
        &&& action == (WorkerAction::CreateMachine { budget: BOOT_TIMEOUT })
    } else {
        &&& new.stage is Waiting
        &&& action is Reply
    }
}

/// The worker follows the plan after a job: it keeps its machine, or shuts it down
/// and goes on.
pub open spec fn follows_plan(w: Worker, new: Worker, action: WorkerAction) -> bool {
    if !w.plan.reuse && w.slot != MachineSlot::Empty {
        &&& new.slot == MachineSlot::Empty
        &&& new.stage is Discarding
        &&& action == WorkerAction::ShutDownMachine
    } else {
        refills(w, new, action)
    }
}

/// The worker is done with a job: after a failure it drops its machine first.
pub open spec fn settles(w: Worker, failed: bool, new: Worker, action: WorkerAction) -> bool {
    &&& carried(new.stage, action) is Err == failed
    &&& if failed && w.slot != MachineSlot::Empty {
        &&& new.slot == MachineSlot::Empty
        &&& new.stage is Dropping
        &&& action == WorkerAction::DropMachine
    } else {
        follows_plan(w, new, action)
    }
}

/// The worker is done with a job that failed in the sandbox.
pub open spec fn fails(w: Worker, message: Seq<char>, new: Worker, action: WorkerAction) -> bool {
    &&& settles(w, true, new, action)
    &&& carried(new.stage, action)->Err_0@ == ErrorView::SandboxExecution(message)
}

/// The worker goes on to a job's machine: it looks whether the one it has still
/// runs, or creates one.
pub open spec fn seeks_machine(
    w: Worker,
    job: Job,
    now: u128,
    new: Worker,
    action: WorkerAction,
) -> bool {
    &&& new.slot == w.slot
    &&& new.image_ready
    &&& if w.slot == MachineSlot::Empty {
        creates_machine(job, now, new.stage, action)
    } else {
        new.stage == (WorkerStage::CheckingMachine { job }) && action == WorkerAction::CheckMachine
    }
}

/// The worker creates a machine for a job.
pub open spec fn creates_machine(
    job: Job,
    now: u128,
    stage: WorkerStage,
    action: WorkerAction,
) -> bool {
    &&& stage is Creating
    &&& stage->Creating_purpose == Purpose::Task(job)
    &&& stage->Creating_budget == budget_of(now, job.deadline, PhaseBudget::Boot)
    &&& action == (WorkerAction::CreateMachine { budget: stage->Creating_budget })
}

/// The worker starts a job's project in its machine.
pub open spec fn starts_work(job: Job, now: u128, new: Worker, action: WorkerAction) -> bool {
    &&& new.slot == MachineSlot::Used
    &&& new.stage is Working
    &&& new.stage->Working_run.job == job
    &&& new.stage->Working_run.start == now
    &&& new.stage->Working_run.stage == VmStage::Cleaning
    &&& new.stage->Working_run.stdout@.len() == 0
    &&& new.stage->Working_run.stderr@.len() == 0
    &&& action is InMachine
    &&& action->InMachine_0 is Clean
    &&& action->InMachine_0->Clean_cmd@ == "rm -rf "@ + job.spec.work_dir@
}

/// The message for an image that was not there in time.
pub open spec fn image_late(budget: u128) -> Seq<char> {
    "image preparation timed out after "@ + decimal(whole_seconds(budget))
        + "s (image download/cache unavailable?)"@
}

/// The message for a machine that was not created in time.
pub open spec fn machine_late(budget: u128) -> Seq<char> {
    "machine creation timed out after "@ + decimal(whole_seconds(budget)) + "s"@
}

/// The message for a machine that did not boot in time.
pub open spec fn boot_late(budget: u128) -> Seq<char> {
    "VM boot timed out after "@ + decimal(whole_seconds(budget))
        + "s (cloud-init stuck? check /dev/kvm and qemu-bridge-helper permissions)"@
}

/// What an expected event makes the worker do.
pub open spec fn worker_step(
    w: Worker,
    event: WorkerEvent,
    now: u128,
    new: Worker,
    action: WorkerAction,
) -> bool {
    match (w.stage, event) {
        (WorkerStage::Waiting, WorkerEvent::JobReceived(job)) => if w.image_ready {
            seeks_machine(w, job, now, new, action)
        } else {
            let budget = budget_of(now, job.deadline, PhaseBudget::Image) as u128;
            &&& new.slot == w.slot
            &&& !new.image_ready
            &&& new.stage == (WorkerStage::PreparingImage { job, budget })
            &&& action == (WorkerAction::PrepareImage { budget })
        },
        (WorkerStage::Waiting, WorkerEvent::Closed) => if w.slot == MachineSlot::Empty {
            new.stage is Stopped && new.slot == w.slot && action == WorkerAction::Stop
        } else {
            new.stage is Closing && new.slot == MachineSlot::Empty && action
                == WorkerAction::ShutDownMachine
        },
        (WorkerStage::PreparingImage { job, budget }, WorkerEvent::ImagePrepared(how)) => match how {
            Timed::Done => seeks_machine(w, job, now, new, action),
            Timed::Failed(e) => fails(w, "image: "@ + e@, new, action),
            Timed::TimedOut => fails(w, image_late(budget), new, action),
        },
        (WorkerStage::CheckingMachine { job }, WorkerEvent::MachineRunning(runs)) => if runs {
            starts_work(job, now, new, action)
        } else {
            new.slot == w.slot && creates_machine(job, now, new.stage, action)
        },
        (WorkerStage::Creating { purpose, budget }, WorkerEvent::MachineCreated(how)) => match how {
            Timed::Done => {
                &&& new.slot == w.slot
                &&& new.stage == (WorkerStage::Booting { purpose, budget })
                &&& action == (WorkerAction::BootMachine { budget })
            },
            Timed::Failed(e) => match purpose {
                Purpose::Task(_) => fails(w, "machine: "@ + e@, new, action),
                Purpose::Refill(outcome) => new.slot == w.slot && new.stage is Waiting && action
                    == WorkerAction::Reply(outcome),
            },
            Timed::TimedOut => match purpose {
                Purpose::Task(_) => fails(w, machine_late(budget), new, action),
                Purpose::Refill(outcome) => new.slot == w.slot && new.stage is Waiting && action
                    == WorkerAction::Reply(outcome),
            },
        },
        (WorkerStage::Booting { purpose, budget }, WorkerEvent::MachineBooted(how)) => match how {
            Timed::Done => match purpose {
                Purpose::Task(job) => starts_work(job, now, new, action),
                Purpose::Refill(outcome) => new.slot == MachineSlot::Unused && new.stage is Waiting
                    && action == WorkerAction::Reply(outcome),
            },
            Timed::Failed(e) => match purpose {
                Purpose::Task(_) => fails(w, "boot: "@ + e@, new, action),
                Purpose::Refill(outcome) => new.slot == w.slot && new.stage is Waiting && action
                    == WorkerAction::Reply(outcome),
            },
            Timed::TimedOut => match purpose {
                Purpose::Task(_) => fails(w, boot_late(budget), new, action),
                Purpose::Refill(outcome) => new.slot == w.slot && new.stage is Waiting && action
                    == WorkerAction::Reply(outcome),
            },
        },
        (WorkerStage::Working { run }, WorkerEvent::InMachine(e)) => exists|run2: VmRun, done: VmAction|
            {
                &&& #[trigger] vm_step(run, e, now, run2, done)
                &&& match done {
                    VmAction::Finish(outcome) => settles(w, outcome is Err, new, action) && carried(
                        new.stage,
                        action,
                    ) == outcome,
                    _ => new.slot == w.slot && new.stage == (WorkerStage::Working { run: run2 })
                        && action == WorkerAction::InMachine(done),
                }
            },
        (WorkerStage::Dropping { outcome }, WorkerEvent::MachineDropped) => follows_plan(
            w,
            new,
            action,
        ) && carried(new.stage, action) == outcome,
        (WorkerStage::Discarding { outcome }, WorkerEvent::MachineShutDown) => refills(
            w,
            new,
            action,
        ) && carried(new.stage, action) == outcome,
        (WorkerStage::Closing, WorkerEvent::MachineShutDown) => new.stage is Stopped && new.slot
            == w.slot && action == WorkerAction::Stop,
        _ => true,
    }
}

fn late(before: &str, budget: u128, after: &str) -> (r: String)
    requires
        budget <= BOOT_TIMEOUT,
    ensures
        r@ == before@ + decimal(whole_seconds(budget)) + after@,
{
    cat3(before, decimal_text((budget / SECOND) as u64).as_str(), after)
}

impl Worker {
    /// A worker without image and machine.
    pub fn new(plan: PoolPlan) -> (r: Self)
        ensures
            r == (Worker {
                plan,
                image_ready: false,
                slot: MachineSlot::Empty,
                stage: WorkerStage::Waiting,
            }),
            worker_ok(r),
    {
        Worker {
            plan,
            image_ready: false,
            slot: MachineSlot::Empty,
            stage: WorkerStage::Waiting,
        }
    }

    fn refill(self, outcome: Result<ExecutionResult>) -> (r: (Worker, WorkerAction))
        requires
            !self.plan.reuse ==> self.slot == MachineSlot::Empty,
        ensures
            r.0.plan == self.plan,
            r.0.image_ready == self.image_ready,
            worker_ok(r.0),
            refills(self, r.0, r.1),
            carried(r.0.stage, r.1) == outcome,
            r.0.stage is Waiting == r.1 is Reply,
    {
        if !self.plan.reuse && self.plan.target > 0 && self.image_ready {
            (
                Worker {
                    stage: WorkerStage::Creating {
                        purpose: Purpose::Refill(outcome),
                        budget: BOOT_TIMEOUT,
                    },
                    ..self
                },
                WorkerAction::CreateMachine { budget: BOOT_TIMEOUT },
            )
        } else {
            (Worker { stage: WorkerStage::Waiting, ..self }, WorkerAction::Reply(outcome))
        }
    }

    fn follow_plan(self, outcome: Result<ExecutionResult>) -> (r: (Worker, WorkerAction))
        ensures
            r.0.plan == self.plan,
            r.0.image_ready == self.image_ready,
            worker_ok(r.0),
            follows_plan(self, r.0, r.1),
            carried(r.0.stage, r.1) == outcome,
            r.0.stage is Waiting == r.1 is Reply,
    {
        if !self.plan.reuse && self.slot != MachineSlot::Empty {
            (
                Worker {
                    slot: MachineSlot::Empty,
                    stage: WorkerStage::Discarding { outcome },
                    ..self
                },
                WorkerAction::ShutDownMachine,
            )
        } else {
            self.refill(outcome)
        }
    }

    fn settle(self, outcome: Result<ExecutionResult>) -> (r: (Worker, WorkerAction))
        ensures
            r.0.plan == self.plan,
            r.0.image_ready == self.image_ready,
            worker_ok(r.0),
            settles(self, outcome is Err, r.0, r.1),
            carried(r.0.stage, r.1) == outcome,
            r.0.stage is Waiting == r.1 is Reply,
    {
        if outcome.is_err() && self.slot != MachineSlot::Empty {
            (
                Worker {
                    slot: MachineSlot::Empty,
                    stage: WorkerStage::Dropping { outcome },
                    ..self
                },
                WorkerAction::DropMachine,
            )
        } else {
            self.follow_plan(outcome)
        }
    }

    fn fail(self, message: String) -> (r: (Worker, WorkerAction))
        ensures
            r.0.plan == self.plan,
            r.0.image_ready == self.image_ready,
            worker_ok(r.0),
            fails(self, message@, r.0, r.1),
            r.0.stage is Waiting == r.1 is Reply,
    {
        self.settle(Err(CoreError::SandboxExecution(message)))
    }

    fn answer(self, outcome: Result<ExecutionResult>) -> (r: (Worker, WorkerAction))
        requires
            !self.plan.reuse ==> self.slot != MachineSlot::Used,
        ensures
            r.0 == (Worker { stage: WorkerStage::Waiting, ..self }),
            r.1 == WorkerAction::Reply(outcome),
            worker_ok(r.0),
    {
        (Worker { stage: WorkerStage::Waiting, ..self }, WorkerAction::Reply(outcome))
    }

    fn create_machine(self, job: Job, now: u128) -> (r: (Worker, WorkerAction))
        requires
            self.image_ready,
            !self.plan.reuse ==> self.slot != MachineSlot::Used,
        ensures
            r.0.plan == self.plan,
            r.0.image_ready,
            r.0.slot == self.slot,
            worker_ok(r.0),
            creates_machine(job, now, r.0.stage, r.1),
    {
        let budget = phase_budget(now, job.deadline, PhaseBudget::Boot);
        (
            Worker {
                stage: WorkerStage::Creating { purpose: Purpose::Task(job), budget },
                ..self
            },
            WorkerAction::CreateMachine { budget },
        )
    }

    fn seek_machine(self, job: Job, now: u128) -> (r: (Worker, WorkerAction))
        requires
            self.image_ready,
            !self.plan.reuse ==> self.slot != MachineSlot::Used,
        ensures
            r.0.plan == self.plan,
            worker_ok(r.0),
            seeks_machine(self, job, now, r.0, r.1),
    {
        if self.slot == MachineSlot::Empty {
            self.create_machine(job, now)
        } else {
            (
                Worker { stage: WorkerStage::CheckingMachine { job }, ..self },
                WorkerAction::CheckMachine,
            )
        }
    }

    fn start_work(self, job: Job, now: u128) -> (r: (Worker, WorkerAction))
        requires
            self.image_ready,
        ensures
            r.0.plan == self.plan,
            r.0.image_ready,
            worker_ok(r.0),
            starts_work(job, now, r.0, r.1),
    {
        let (run, first) = VmRun::begin(job, now);
        (
            Worker { slot: MachineSlot::Used, stage: WorkerStage::Working { run }, ..self },
            WorkerAction::InMachine(first),
        )
    }

    /// What an event makes the worker do at time `now`; nothing, where the worker
    /// waits for something else.
    ///
    /// The image is prepared once. A job gets the machine that is there, if it
    /// still runs, or a new one. A job that fails takes its machine with it. Then
    /// the plan says whether the machine stays, and whether one is booted for the
    /// next job. The answer goes out last.
    pub fn step(self, event: WorkerEvent, now: u128) -> (r: (Worker, Option<WorkerAction>))
        requires
            worker_ok(self),
            event is InMachine ==> event_ok(event->InMachine_0),
        ensures
            worker_ok(r.0),
            r.0.plan == self.plan,
            r.0.image_ready == (self.image_ready || self.stage is PreparingImage && event
                == WorkerEvent::ImagePrepared(Timed::Done)),
            r.1 is Some == expects(self.stage, event),
            r.1 is None ==> r.0 == self,
            r.1 is Some ==> worker_step(self, event, now, r.0, r.1->Some_0),
            r.1 is Some ==> (r.1->Some_0 is Reply) == (owes_answer(self.stage) && r.0.stage is Waiting),
    {
        let Worker { plan, image_ready, slot, stage } = self;
        let idle = Worker { plan, image_ready, slot, stage: WorkerStage::Waiting };
        match (stage, event) {
            (WorkerStage::Waiting, WorkerEvent::JobReceived(job)) => {
                if image_ready {
                    let (w, a) = idle.seek_machine(job, now);
                    (w, Some(a))
                } else {
                    let budget = phase_budget(now, job.deadline, PhaseBudget::Image);
                    (
                        Worker { stage: WorkerStage::PreparingImage { job, budget }, ..idle },
                        Some(WorkerAction::PrepareImage { budget }),
                    )
                }
            },
            (WorkerStage::Waiting, WorkerEvent::Closed) => {
                if slot == MachineSlot::Empty {
                    (Worker { stage: WorkerStage::Stopped, ..idle }, Some(WorkerAction::Stop))
                } else {
                    (
                        Worker { slot: MachineSlot::Empty, stage: WorkerStage::Closing, ..idle },
                        Some(WorkerAction::ShutDownMachine),
                    )
                }
            },
            (WorkerStage::PreparingImage { job, budget }, WorkerEvent::ImagePrepared(how)) => {
                let (w, a) = match how {
                    Timed::Done => Worker { image_ready: true, ..idle }.seek_machine(job, now),
                    Timed::Failed(e) => idle.fail(cat2("image: ", e.as_str())),
                    Timed::TimedOut => idle.fail(
                        late(
                            "image preparation timed out after ",
                            budget,
                            "s (image download/cache unavailable?)",
                        ),
                    ),
                };
                (w, Some(a))
            },
            (WorkerStage::CheckingMachine { job }, WorkerEvent::MachineRunning(runs)) => {
                let (w, a) = if runs {
                    idle.start_work(job, now)
                } else {
                    idle.create_machine(job, now)
                };
                (w, Some(a))
            },
            (WorkerStage::Creating { purpose, budget }, WorkerEvent::MachineCreated(how)) => {
                match how {
                    Timed::Done => (
                        Worker { stage: WorkerStage::Booting { purpose, budget }, ..idle },
                        Some(WorkerAction::BootMachine { budget }),
                    ),
                    Timed::Failed(e) => {
                        let (w, a) = match purpose {
                            Purpose::Task(_) => idle.fail(cat2("machine: ", e.as_str())),
                            Purpose::Refill(outcome) => idle.answer(outcome),
                        };
                        (w, Some(a))
                    },
                    Timed::TimedOut => {
                        let (w, a) = match purpose {
                            Purpose::Task(_) => idle.fail(
                                late("machine creation timed out after ", budget, "s"),
                            ),
                            Purpose::Refill(outcome) => idle.answer(outcome),
                        };
                        (w, Some(a))
                    },
                }
            },
            (WorkerStage::Booting { purpose, budget }, WorkerEvent::MachineBooted(how)) => {
                let (w, a) = match how {
                    Timed::Done => match purpose {
                        Purpose::Task(job) => idle.start_work(job, now),
                        Purpose::Refill(outcome) => Worker {
                            slot: MachineSlot::Unused,
                            ..idle
                        }.answer(outcome),
                    },
                    Timed::Failed(e) => match purpose {
                        Purpose::Task(_) => idle.fail(cat2("boot: ", e.as_str())),
                        Purpose::Refill(outcome) => idle.answer(outcome),
                    },
                    Timed::TimedOut => match purpose {
                        Purpose::Task(_) => idle.fail(
                            late(
                                "VM boot timed out after ",
                                budget,
                                "s (cloud-init stuck? check /dev/kvm and qemu-bridge-helper permissions)",
                            ),
                        ),
                        Purpose::Refill(outcome) => idle.answer(outcome),
                    },
                };
                (w, Some(a))
            },
            (WorkerStage::Working { run }, WorkerEvent::InMachine(e)) => {
                let ghost before = run;
                let mut run = run;
                match run.advance(e, now) {
                    None => (Worker { stage: WorkerStage::Working { run }, ..idle }, None),
                    Some(done) => {
                        assert(vm_step(before, e, now, run, done));
                        match done {
                            VmAction::Finish(outcome) => {
                                let (w, a) = idle.settle(outcome);
                                (w, Some(a))
                            },
                            other => (
                                Worker { stage: WorkerStage::Working { run }, ..idle },
                                Some(WorkerAction::InMachine(other)),
                            ),
                        }
                    },
                }
            },
            (WorkerStage::Dropping { outcome }, WorkerEvent::MachineDropped) => {
                let (w, a) = idle.follow_plan(outcome);
                (w, Some(a))
            },
            (WorkerStage::Discarding { outcome }, WorkerEvent::MachineShutDown) => {
                let (w, a) = idle.refill(outcome);
                (w, Some(a))
            },
            (WorkerStage::Closing, WorkerEvent::MachineShutDown) => (
                Worker { stage: WorkerStage::Stopped, ..idle },
                Some(WorkerAction::Stop),
            ),
            (stage, _) => (Worker { stage, ..idle }, None),
        }
    }
}

/// In fresh mode no two tasks share a machine: a project starts only in a machine
/// that was just booted for it, or in one that no project ran in.
pub proof fn fresh_tasks_share_no_machine(
    w: Worker,
    event: WorkerEvent,
    now: u128,
    new: Worker,
    action: WorkerAction,
)
    requires
        worker_ok(w),
        !w.plan.reuse,
        expects(w.stage, event),
        worker_step(w, event, now, new, action),
        !(w.stage is Working),
        new.stage is Working,
    ensures
        (w.stage is Booting && event == WorkerEvent::MachineBooted(Timed::Done)) || w.slot
            == MachineSlot::Unused,
{
}

/// A machine in which a job failed is never used again: it is gone before the
/// worker goes on.
pub proof fn failed_machine_is_dropped(w: Worker, new: Worker, action: WorkerAction)
    requires
        settles(w, true, new, action),
    ensures
        new.slot == MachineSlot::Empty,
{
}

/// What the worker does after a job is what the plan lists: a listed discard is a
/// machine shut down, and a listed refill a machine booted once the image is there.
pub proof fn plan_is_followed(w: Worker, new: Worker, action: WorkerAction)
    requires
        follows_plan(w, new, action),
    ensures
        actions_after_job(w.plan).contains(PoolAction::Keep) ==> new.slot == w.slot
            && new.stage is Waiting,
        actions_after_job(w.plan).contains(PoolAction::Discard) ==> new.slot == MachineSlot::Empty,
        (actions_after_job(w.plan).contains(PoolAction::Refill { target: w.plan.target })
            && w.image_ready && w.slot == MachineSlot::Empty) == (new.stage is Creating),
{
    let listed = actions_after_job(w.plan);
    if w.plan.reuse {
        assert(listed[0] == PoolAction::Keep);
    } else {
        assert(listed[0] == PoolAction::Discard);
        if w.plan.target > 0 {
            assert(listed[1] == (PoolAction::Refill { target: w.plan.target }));
        }
    }
}

/// How many events, at most, a job is away from its answer.
pub open spec fn steps_left(stage: WorkerStage) -> nat {
    match stage {
        WorkerStage::PreparingImage { .. } => 13,
        WorkerStage::CheckingMachine { .. } => 12,
        WorkerStage::Creating { purpose, .. } => if purpose is Task {
            11
        } else {
            2
        },
        WorkerStage::Booting { purpose, .. } => if purpose is Task {
            10
        } else {
            1
        },
        WorkerStage::Working { run } => match run.stage {
            VmStage::Cleaning => 9,
            VmStage::Looking => 8,
            VmStage::Uploading { .. } => 7,
            VmStage::Building { .. } => 6,
            VmStage::Running { .. } => 5,
            VmStage::Over => 5,
        },
        WorkerStage::Dropping { .. } => 4,
        WorkerStage::Discarding { .. } => 3,
        _ => 0,
    }
}

/// Every job is answered: each event brings it closer to its answer, however the
/// event turns out, and no job is further away than thirteen events.
pub proof fn every_job_is_answered(
    w: Worker,
    event: WorkerEvent,
    now: u128,
    new: Worker,
    action: WorkerAction,
)
    requires
        worker_ok(w),
        expects(w.stage, event),
        worker_step(w, event, now, new, action),
        owes_answer(w.stage),
    ensures
        steps_left(new.stage) < steps_left(w.stage),
        steps_left(new.stage) == 0 ==> new.stage is Waiting && action is Reply,
{
}

/// The job that the worker is at, before its project is over.
pub open spec fn job_at(stage: WorkerStage) -> Option<Job> {
    match stage {
        WorkerStage::PreparingImage { job, .. } => Some(job),
        WorkerStage::CheckingMachine { job } => Some(job),
        WorkerStage::Creating { purpose: Purpose::Task(job), .. } => Some(job),
        WorkerStage::Booting { purpose: Purpose::Task(job), .. } => Some(job),
        WorkerStage::Working { run } => Some(run.job),
        _ => None,
    }
}

/// The outcome that the worker holds for the job it is about to answer.
pub open spec fn outcome_at(stage: WorkerStage) -> Option<Result<ExecutionResult>> {
    match stage {
        WorkerStage::Creating { purpose: Purpose::Refill(outcome), .. } => Some(outcome),
        WorkerStage::Booting { purpose: Purpose::Refill(outcome), .. } => Some(outcome),
        WorkerStage::Dropping { outcome } => Some(outcome),
        WorkerStage::Discarding { outcome } => Some(outcome),
        _ => None,
    }
}

/// The worker takes up the job it is given and stays at it: until the project is
/// over, or could not be started, it is at that very job.
pub proof fn worker_stays_at_its_job(
    w: Worker,
    event: WorkerEvent,
    now: u128,
    new: Worker,
    action: WorkerAction,
    job: Job,
)
    requires
        worker_ok(w),
        expects(w.stage, event),
        worker_step(w, event, now, new, action),
        job_at(w.stage) == Some(job) || event == WorkerEvent::JobReceived(job),
    ensures
        job_at(new.stage) == Some(job) || (job_at(new.stage) is None && owes_answer(w.stage) && (
        outcome_at(new.stage) is Some || action is Reply)),
        event is JobReceived ==> job_at(new.stage) == Some(job),
{
}

/// The outcome of a project is what the worker answers with, whatever becomes of its
/// machines on the way.
pub proof fn outcome_is_answered_unchanged(
    w: Worker,
    event: WorkerEvent,
    now: u128,
    new: Worker,
    action: WorkerAction,
    outcome: Result<ExecutionResult>,
)
    requires
        worker_ok(w),
        expects(w.stage, event),
        worker_step(w, event, now, new, action),
        outcome_at(w.stage) == Some(outcome),
    ensures
        outcome_at(new.stage) == Some(outcome) || (new.stage is Waiting && action
            == WorkerAction::Reply(outcome)),
{
}

/// A project that comes to its end in the machine is answered with its result: the
/// worker holds the very outcome that the project reported, or answers with it.
pub proof fn finished_project_is_answered(
    w: Worker,
    event: VmEvent,
    now: u128,
    new: Worker,
    action: WorkerAction,
)
    requires
        worker_ok(w),
        w.stage is Working,
        awaited(w.stage->Working_run.stage, event),
        event_ok(event),
        worker_step(w, WorkerEvent::InMachine(event), now, new, action),
        !(new.stage is Working),
    ensures
        ({
            let outcome = if new.stage is Waiting {
                action->Reply_0
            } else {
                outcome_at(new.stage)->Some_0
            };
            &&& new.stage is Waiting ==> action is Reply
            &&& !(new.stage is Waiting) ==> outcome_at(new.stage) is Some
            &&& outcome matches Ok(result) ==> ended_by(event, result@)
            &&& event matches VmEvent::Ran(Ran::Finished(o)) ==> outcome is Ok
        }),
{
    let run = w.stage->Working_run;
    let (run2, done) = choose|run2: VmRun, done: VmAction|
        {
            &&& #[trigger] vm_step(run, event, now, run2, done)
            &&& match done {
                VmAction::Finish(outcome) => settles(w, outcome is Err, new, action) && carried(
                    new.stage,
                    action,
                ) == outcome,
                _ => new.slot == w.slot && new.stage == (WorkerStage::Working { run: run2 })
                    && action == WorkerAction::InMachine(done),
            }
        };
    assert(done is Finish);
    project_ends_where_it_must(run, event, now, run2, done);
}

/// A job whose image, machine or boot fails, or is late, is answered with an error.
pub proof fn missing_machine_is_an_error(
    w: Worker,
    event: WorkerEvent,
    now: u128,
    new: Worker,
    action: WorkerAction,
)
    requires
        worker_ok(w),
        expects(w.stage, event),
        worker_step(w, event, now, new, action),
        job_at(w.stage) is Some,
        event matches WorkerEvent::ImagePrepared(how) ==> how != Timed::Done,
        event matches WorkerEvent::MachineCreated(how) ==> how != Timed::Done,
        event matches WorkerEvent::MachineBooted(how) ==> how != Timed::Done,
        event is ImagePrepared || event is MachineCreated || event is MachineBooted,
    ensures
        outcome_at(new.stage) matches Some(outcome) ==> outcome is Err,
        outcome_at(new.stage) is None ==> action is Reply && action->Reply_0 is Err,
        new.slot == MachineSlot::Empty,
{
}

/// In reuse mode the machine of a project that gave a result is kept, and the next
/// job runs in it where it still runs, without another boot.
pub proof fn reused_machine_is_kept(
    w: Worker,
    event: WorkerEvent,
    now: u128,
    new: Worker,
    action: WorkerAction,
)
    requires
        worker_ok(w),
        w.plan.reuse,
        expects(w.stage, event),
        worker_step(w, event, now, new, action),
    ensures
        w.stage is Working && action is Reply && action->Reply_0 is Ok ==> new.slot
            == MachineSlot::Used,
        w.stage is Waiting && w.image_ready && w.slot == MachineSlot::Used && event is JobReceived
            ==> action == WorkerAction::CheckMachine,
        event == WorkerEvent::MachineRunning(true) ==> new.stage is Working && action is InMachine,
        event == WorkerEvent::MachineRunning(false) ==> action is CreateMachine,
{
}

/// No machine outlives its worker: one that is left is shut down before the worker
/// stops.
pub proof fn no_machine_outlives_the_worker(
    w: Worker,
    event: WorkerEvent,
    now: u128,
    new: Worker,
    action: WorkerAction,
)
    requires
        worker_ok(w),
        expects(w.stage, event),
        worker_step(w, event, now, new, action),
        event == WorkerEvent::Closed || w.stage is Closing,
    ensures
        w.slot != MachineSlot::Empty && event == WorkerEvent::Closed ==> action
            == WorkerAction::ShutDownMachine && new.stage is Closing,
        w.slot == MachineSlot::Empty && event == WorkerEvent::Closed ==> action
            == WorkerAction::Stop,
        w.stage is Closing ==> action == WorkerAction::Stop,
        action == WorkerAction::Stop ==> new.stage is Stopped,
        event == WorkerEvent::Closed ==> new.slot == MachineSlot::Empty,
{
}

/// A job waits for the image only until it was prepared once.
pub proof fn image_is_prepared_once(
    w: Worker,
    event: WorkerEvent,
    now: u128,
    new: Worker,
    action: WorkerAction,
)
    requires
        worker_ok(w),
        expects(w.stage, event),
        worker_step(w, event, now, new, action),
    ensures
        event is JobReceived && w.stage is Waiting && !w.image_ready ==> action is PrepareImage,
        event is JobReceived && w.stage is Waiting && w.image_ready ==> action is CheckMachine
            || action is CreateMachine || action is InMachine,
        event == WorkerEvent::ImagePrepared(Timed::Done) ==> action is CheckMachine
            || action is CreateMachine || action is InMachine,
{
}

/// Work in a machine begins with the removal of what an earlier task left in the working
/// directory of the job, and with nothing captured yet.
pub proof fn work_begins_in_a_clean_directory(
    w: Worker,
    event: WorkerEvent,
    now: u128,
    new: Worker,
    action: WorkerAction,
    job: Job,
)
    requires
        worker_ok(w),
        expects(w.stage, event),
        worker_step(w, event, now, new, action),
        job_at(w.stage) == Some(job),
        !(w.stage is Working),
        new.stage is Working,
    ensures
        action is InMachine,
        action->InMachine_0 is Clean,
        action->InMachine_0->Clean_cmd@ == "rm -rf "@ + job.spec.work_dir@,
        new.stage->Working_run.job == job,
        new.stage->Working_run.start == now,
        new.stage->Working_run.stdout@.len() == 0,
        new.stage->Working_run.stderr@.len() == 0,
        new.slot == MachineSlot::Used,
{
}

} // verus!
