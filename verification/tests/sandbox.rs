use edge_orchestrator::error::CoreError;
use edge_orchestrator::sandbox::container::LinuxContainerSandbox;
use edge_orchestrator::sandbox::pool::{PoolAction, PoolPlan, MAX_POOL_TARGET};
use edge_orchestrator::sandbox::qlean::{ImageTemplate, QleanSandbox, VmMode};
use edge_orchestrator::sandbox::registry::{default_registry, HostFactory, SandboxRegistry};
use edge_orchestrator::sandbox::vm::{
    deadline_in, elapsed_ms, exit_code_of, phase_budget, CommandOutput, Job, PhaseBudget, Ran,
    Timed, VmAction, VmEvent, VmRun, BOOT_TIMEOUT, SECOND,
};
use edge_orchestrator::sandbox::wasm::WasmtimeSandbox;
use edge_orchestrator::sandbox::worker::{MachineSlot, Worker, WorkerAction, WorkerEvent};
use edge_orchestrator::traits::{EngineReport, Sandbox};
use edge_orchestrator::types::{OsType, ProjectSpec, ResourceLimits, RuntimeKind};

#[test]
fn reuse_mode_keeps_one_machine_and_never_pools() {
    let plan = PoolPlan::new(true, 4);
    assert_eq!(plan.target, 0, "reuse must not pre-boot extra VMs");
    assert_eq!(plan.after_job(), vec![PoolAction::Keep]);
    assert!(!plan.take_from_pool_when_available());
}

#[test]
fn fresh_without_a_pool_discards_everything() {
    let plan = PoolPlan::new(false, 0);
    assert_eq!(plan.after_job(), vec![PoolAction::Discard]);
    assert_eq!(plan.boots_needed(0), 0);
    assert!(!plan.take_from_pool_when_available());
}

#[test]
fn fresh_with_a_pool_discards_then_refills() {
    let plan = PoolPlan::new(false, 2);
    assert_eq!(
        plan.after_job(),
        vec![PoolAction::Discard, PoolAction::Refill { target: 2 }]
    );
    assert!(plan.take_from_pool_when_available());
    assert_eq!(plan.boots_needed(2), 0, "a full pool needs no boots");
    assert_eq!(plan.boots_needed(0), 2);
}

#[test]
fn pool_size_is_capped() {
    let plan = PoolPlan::new(false, MAX_POOL_TARGET + 100);
    assert_eq!(plan.target, MAX_POOL_TARGET);
}

#[test]
fn parses_both_modes_and_rejects_typos() {
    assert_eq!(VmMode::parse("reuse").unwrap(), VmMode::Reuse);
    assert_eq!(VmMode::parse("").unwrap(), VmMode::Reuse);
    assert_eq!(VmMode::parse("FRESH").unwrap(), VmMode::Fresh);
    assert_eq!(VmMode::parse("per-task").unwrap(), VmMode::Fresh);
    assert!(
        VmMode::parse("isoltion").is_err(),
        "typos must not be guessed"
    );
}

#[test]
fn only_reuse_mode_keeps_the_machine() {
    assert!(VmMode::Reuse.allows_reuse());
    assert!(!VmMode::Fresh.allows_reuse());
}

#[test]
fn execute_is_an_honest_error() {
    // On non-Linux platforms new() fails; on Linux it constructs but is a stub.
    if let Ok(sandbox) = LinuxContainerSandbox::new(OsType::Linux) {
        let result = sandbox.execute_code(Vec::new());
        assert!(result.is_err());
    }
    assert!(LinuxContainerSandbox::new(OsType::Linux).is_ok());
    assert_eq!(
        LinuxContainerSandbox::new(OsType::MacOS),
        Err(CoreError::UnsupportedPlatform(
            "Linux container sandbox requires Linux".to_string()
        ))
    );
}

#[test]
fn registry_creates_wasm_sandbox() {
    let reg = default_registry(OsType::Linux, Ok(()));
    let sandbox = reg
        .create(RuntimeKind::Wasm, ResourceLimits::default())
        .unwrap();
    // Just verifying creation succeeds
    sandbox.destroy().unwrap();
}

#[test]
fn sandbox_needs_its_engine() {
    let refused = CoreError::SandboxExecution(
        "failed to create Wasmtime engine: no such target".to_string(),
    );
    assert_eq!(
        WasmtimeSandbox::new(Err("no such target".into())),
        Err(CoreError::SandboxExecution(
            "failed to create Wasmtime engine: no such target".to_string()
        ))
    );
    let reg = default_registry(OsType::MacOS, Err("no such target".into()));
    assert_eq!(
        reg.create(RuntimeKind::Wasm, ResourceLimits::default()),
        Err(refused)
    );
}

#[test]
fn later_factory_takes_the_place_of_an_earlier_one() {
    let mut reg: SandboxRegistry<HostFactory> = SandboxRegistry::new();
    reg.register(RuntimeKind::Wasm, HostFactory::Wasm(Err("none".into())));
    reg.register(RuntimeKind::NativePosix, HostFactory::Container(OsType::MacOS));
    reg.register(RuntimeKind::Wasm, HostFactory::Wasm(Ok(())));
    assert!(reg.create(RuntimeKind::Wasm, ResourceLimits::default()).is_ok());
    assert!(reg.create(RuntimeKind::NativePosix, ResourceLimits::default()).is_err());
}

#[test]
fn registry_rejects_unknown_kind() {
    let reg: SandboxRegistry<HostFactory> = SandboxRegistry::new();
    let result = reg.create(RuntimeKind::Container, ResourceLimits::default());
    assert!(result.is_err());
    assert_eq!(
        result.unwrap_err(),
        CoreError::UnsupportedRuntime("no factory for Container".to_string())
    );
}

#[test]
fn limits_of_zero_are_refused() {
    let mut limits = ResourceLimits::default();
    limits.max_memory_mb = 0;
    let sandbox = WasmtimeSandbox::new(Ok(())).unwrap();
    assert_eq!(
        sandbox.prepare_env(limits).unwrap_err(),
        CoreError::SandboxExecution("resource limits must be non-zero".to_string())
    );
}

#[test]
fn module_is_asked_for_its_start_within_the_limits() {
    let limits = ResourceLimits {
        max_memory_mb: 1,
        max_cpu_time_ms: 300,
        max_disk_mb: 1,
        allow_network: false,
        max_fds: 1,
    };
    let sandbox = WasmtimeSandbox::with_limits(limits, Ok(())).unwrap();
    let request = sandbox.execute_code(vec![0, 1]).unwrap();
    assert_eq!(request.bytecode, vec![0, 1]);
    assert_eq!(request.entry, "_start");
    assert_eq!(request.memory_bytes, 1024 * 1024);
    assert_eq!(request.deadline_ms, 300);
}

#[test]
fn module_outcomes_are_told_apart() {
    let limits = ResourceLimits {
        max_memory_mb: 1,
        max_cpu_time_ms: 300,
        max_disk_mb: 1,
        allow_network: false,
        max_fds: 1,
    };
    let sandbox = WasmtimeSandbox::with_limits(limits, Ok(())).unwrap();
    assert!(sandbox
        .conclude(EngineReport::NotCompiled("not wasm".into()), 1)
        .is_err());
    assert!(sandbox
        .conclude(EngineReport::NotInstantiated("memory".into()), 1)
        .is_err());
    let ok = sandbox.conclude(EngineReport::Returned, 9).unwrap();
    assert_eq!(ok.exit_code, 0);
    assert_eq!(ok.execution_time_ms, 9);
    let late = sandbox
        .conclude(
            EngineReport::Failed {
                error: "epoch".into(),
                timed_out: true,
            },
            301,
        )
        .unwrap();
    assert_ne!(late.exit_code, 0);
    assert_eq!(late.stderr, b"timeout: exceeded 300ms cpu budget");
    let trap = sandbox
        .conclude(
            EngineReport::Failed {
                error: "unreachable".into(),
                timed_out: false,
            },
            1,
        )
        .unwrap();
    assert_eq!(trap.exit_code, 1);
    assert_eq!(trap.stderr, b"trap: unreachable");
}

#[test]
fn image_needs_both_halves() {
    assert_eq!(ImageTemplate::from_config(None, None).unwrap(), None);
    assert!(ImageTemplate::from_config(Some("/i"), None).is_err());
    assert!(ImageTemplate::from_config(None, Some("sha256:1")).is_err());
    assert_eq!(
        ImageTemplate::from_config(Some("/i"), Some("sha256:1")).unwrap(),
        Some(ImageTemplate {
            source: "/i".into(),
            digest: "sha256:1".into(),
        })
    );
}

fn spec(build: &[&str]) -> ProjectSpec {
    ProjectSpec {
        snapshot_hash: "h".into(),
        local_project_dir: Some("/tmp/p".into()),
        work_dir: "/root/project".into(),
        build_cmd: build.iter().map(|s| s.to_string()).collect(),
        run_cmd: vec!["./app".into(), "-v".into()],
        timeout_ms: 1_000_000,
        resource_limits: ResourceLimits::default(),
    }
}

fn output(code: Option<i32>, signal: Option<i32>, out: &str) -> Ran {
    Ran::Finished(CommandOutput {
        code,
        signal,
        stdout: out.as_bytes().to_vec(),
        stderr: vec![],
    })
}

#[test]
fn project_needs_linux() {
    assert!(QleanSandbox::new(OsType::Windows)
        .and_then(|s| s.run_project(spec(&[]), 0))
        .is_err());
    let sandbox = QleanSandbox::with_policy(OsType::Linux, VmMode::Fresh, 2).unwrap();
    assert_eq!(sandbox.plan(), PoolPlan::new(false, 2));
    let job = sandbox.run_project(spec(&[]), 5 * SECOND).unwrap();
    assert_eq!(job.deadline, 5 * SECOND + 1_000_000 * 1_000_000);
}

#[test]
fn lost_worker_is_told_apart_from_a_lost_reply() {
    assert_eq!(
        QleanSandbox::project_outcome(false, None).unwrap_err(),
        CoreError::Internal("qlean worker gone".into())
    );
    assert_eq!(
        QleanSandbox::project_outcome(true, None).unwrap_err(),
        CoreError::Internal(
            "qlean worker dropped the reply (worker thread died; see node logs)".into()
        )
    );
}

#[test]
fn phases_end_at_the_deadline() {
    assert_eq!(phase_budget(0, 5_000 * SECOND, PhaseBudget::Boot), BOOT_TIMEOUT);
    assert_eq!(phase_budget(0, 10 * SECOND, PhaseBudget::Boot), 5 * SECOND);
    assert_eq!(phase_budget(0, 9 * SECOND, PhaseBudget::Image), 3 * SECOND);
    assert_eq!(phase_budget(0, 9 * SECOND, PhaseBudget::Run), 4 * SECOND);
    assert_eq!(phase_budget(9 * SECOND, SECOND, PhaseBudget::Build), SECOND);
    assert_eq!(deadline_in(SECOND, 2_000), 3 * SECOND);
    assert_eq!(elapsed_ms(SECOND, 3 * SECOND), 2_000);
    assert_eq!(elapsed_ms(3 * SECOND, SECOND), 0);
}

#[test]
fn killed_command_keeps_its_signal() {
    assert_eq!(exit_code_of(Some(3), None), 3);
    assert_eq!(exit_code_of(None, Some(9)), 137);
    assert_ne!(exit_code_of(None, None), 0);
}

fn run_to_end(build: &[&str], answers: Vec<VmEvent>) -> (Vec<VmAction>, VmAction) {
    let job = Job {
        spec: spec(build),
        deadline: 1_000_000 * SECOND,
    };
    let (mut run, first) = VmRun::begin(job, 0);
    let mut seen = vec![first];
    let mut last = None;
    for answer in answers {
        last = run.advance(answer, SECOND);
        if let Some(VmAction::Finish(_)) = last {
            break;
        }
        seen.push(last.take().unwrap());
    }
    (seen, last.unwrap())
}

#[test]
fn project_is_uploaded_built_and_run() {
    let (seen, end) = run_to_end(
        &["make"],
        vec![
            VmEvent::Cleaned,
            VmEvent::DirThere(true),
            VmEvent::Uploaded(Timed::Done),
            VmEvent::Ran(output(Some(0), None, "built\n")),
            VmEvent::Ran(output(Some(0), None, "hello\n")),
        ],
    );
    assert_eq!(
        seen[0],
        VmAction::Clean {
            cmd: "rm -rf /root/project".into()
        }
    );
    assert_eq!(
        seen[1],
        VmAction::LookForDir {
            dir: "/tmp/p".into()
        }
    );
    assert!(matches!(&seen[2], VmAction::Upload { dir, parent, .. } if dir == "/tmp/p" && parent == "/root"));
    assert!(
        matches!(&seen[3], VmAction::Exec { cmd, .. } if cmd == "cd /root/project && make")
    );
    assert!(
        matches!(&seen[4], VmAction::Exec { cmd, .. } if cmd == "cd /root/project && ./app -v")
    );
    match end {
        VmAction::Finish(Ok(r)) => {
            assert_eq!(r.exit_code, 0);
            assert_eq!(r.stdout, b"built\nhello\n");
            assert_eq!(r.execution_time_ms, 1_000);
        }
        other => panic!("{other:?}"),
    }
}

#[test]
fn failed_build_is_not_run() {
    let (seen, end) = run_to_end(
        &["make"],
        vec![
            VmEvent::Cleaned,
            VmEvent::DirThere(true),
            VmEvent::Uploaded(Timed::Done),
            VmEvent::Ran(output(Some(2), None, "")),
            VmEvent::Ran(output(Some(0), None, "never")),
        ],
    );
    assert_eq!(seen.len(), 4);
    match end {
        VmAction::Finish(Ok(r)) => assert_eq!(r.exit_code, 2),
        other => panic!("{other:?}"),
    }
}

#[test]
fn stuck_command_is_named_with_its_budget() {
    let (_, end) = run_to_end(
        &[],
        vec![
            VmEvent::Cleaned,
            VmEvent::DirThere(true),
            VmEvent::Uploaded(Timed::Done),
            VmEvent::Ran(Ran::TimedOut),
        ],
    );
    match end {
        VmAction::Finish(Err(CoreError::SandboxExecution(m))) => {
            assert!(m.starts_with("run timed out after 1800s"), "{m}")
        }
        other => panic!("{other:?}"),
    }
    let (_, end) = run_to_end(
        &[],
        vec![
            VmEvent::Cleaned,
            VmEvent::DirThere(true),
            VmEvent::Uploaded(Timed::Failed("scp".into())),
        ],
    );
    assert_eq!(
        end,
        VmAction::Finish(Err(CoreError::SandboxExecution("upload: scp".into())))
    );
}

fn job() -> Job {
    Job {
        spec: spec(&[]),
        deadline: 1_000_000 * SECOND,
    }
}

/// Drives a worker until it wants something other than a step that succeeds.
fn serve(worker: Worker, jobs: usize) -> (Worker, Vec<WorkerAction>) {
    let mut w = worker;
    let mut seen = Vec::new();
    for _ in 0..jobs {
        let (next, mut action) = w.step(WorkerEvent::JobReceived(job()), 0);
        w = next;
        while let Some(a) = action {
            let event = match &a {
                WorkerAction::PrepareImage { .. } => WorkerEvent::ImagePrepared(Timed::Done),
                WorkerAction::CheckMachine => WorkerEvent::MachineRunning(true),
                WorkerAction::CreateMachine { .. } => WorkerEvent::MachineCreated(Timed::Done),
                WorkerAction::BootMachine { .. } => WorkerEvent::MachineBooted(Timed::Done),
                WorkerAction::InMachine(VmAction::Clean { .. }) => {
                    WorkerEvent::InMachine(VmEvent::Cleaned)
                }
                WorkerAction::InMachine(VmAction::LookForDir { .. }) => {
                    WorkerEvent::InMachine(VmEvent::DirThere(true))
                }
                WorkerAction::InMachine(VmAction::Upload { .. }) => {
                    WorkerEvent::InMachine(VmEvent::Uploaded(Timed::Done))
                }
                WorkerAction::InMachine(VmAction::Exec { .. }) => {
                    WorkerEvent::InMachine(VmEvent::Ran(output(Some(0), None, "")))
                }
                WorkerAction::InMachine(VmAction::Finish(_)) => unreachable!(),
                WorkerAction::DropMachine => WorkerEvent::MachineDropped,
                WorkerAction::ShutDownMachine => WorkerEvent::MachineShutDown,
                WorkerAction::Reply(_) | WorkerAction::Stop => {
                    seen.push(a);
                    break;
                }
            };
            seen.push(a);
            let (next, following) = w.step(event, 0);
            w = next;
            action = following;
        }
    }
    (w, seen)
}

fn count(seen: &[WorkerAction], f: fn(&WorkerAction) -> bool) -> usize {
    seen.iter().filter(|a| f(a)).count()
}

fn boots(a: &WorkerAction) -> bool {
    matches!(a, WorkerAction::BootMachine { .. })
}

fn shut_downs(a: &WorkerAction) -> bool {
    matches!(a, WorkerAction::ShutDownMachine)
}

fn replies(a: &WorkerAction) -> bool {
    matches!(a, WorkerAction::Reply(Ok(_)))
}

#[test]
fn reused_machine_is_booted_once() {
    let (w, seen) = serve(Worker::new(PoolPlan::new(true, 0)), 3);
    assert_eq!(count(&seen, boots), 1);
    assert_eq!(count(&seen, shut_downs), 0);
    assert_eq!(count(&seen, replies), 3);
    assert_eq!(w.slot, MachineSlot::Used);
}

#[test]
fn fresh_tasks_never_meet_a_used_machine() {
    let (w, seen) = serve(Worker::new(PoolPlan::new(false, 0)), 3);
    assert_eq!(count(&seen, boots), 3);
    assert_eq!(count(&seen, shut_downs), 3);
    assert_eq!(count(&seen, replies), 3);
    assert_eq!(w.slot, MachineSlot::Empty);
    let (w, _) = serve(Worker::new(PoolPlan::new(false, 1)), 2);
    assert_eq!(w.slot, MachineSlot::Unused, "the pool is filled again");
}

#[test]
fn failed_boot_is_answered_and_leaves_no_machine() {
    let w = Worker::new(PoolPlan::new(true, 0));
    let (w, a) = w.step(WorkerEvent::JobReceived(job()), 0);
    assert!(matches!(a, Some(WorkerAction::PrepareImage { .. })));
    let (w, a) = w.step(WorkerEvent::ImagePrepared(Timed::Done), 0);
    assert!(matches!(a, Some(WorkerAction::CreateMachine { .. })));
    let (w, a) = w.step(WorkerEvent::MachineCreated(Timed::Done), 0);
    assert_eq!(
        a,
        Some(WorkerAction::BootMachine {
            budget: BOOT_TIMEOUT
        })
    );
    let (w, a) = w.step(WorkerEvent::MachineBooted(Timed::TimedOut), 0);
    match a {
        Some(WorkerAction::Reply(Err(CoreError::SandboxExecution(m)))) => {
            assert!(m.starts_with("VM boot timed out after 600s"), "{m}")
        }
        other => panic!("{other:?}"),
    }
    assert_eq!(w.slot, MachineSlot::Empty);
}
