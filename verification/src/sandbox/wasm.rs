//! WebAssembly sandbox: the limits an engine is given, and what becomes of its
//! report.
use vstd::prelude::*;
use vstd::string::*;
use vstd::utf8::encode_utf8;
use crate::error::{CoreError, ErrorView, Result};
use crate::text::{cat2, cat3, decimal, decimal_text};
use crate::traits::{EngineReport, EngineRequest, Sandbox};
use crate::types::{clone_bytes, default_limits, ExecutionResult, ExecutionView, ResourceLimits};

verus! {

/// Largest number of instances.
pub const MAX_INSTANCES: usize = 100;

/// Largest number of tables.
pub const MAX_TABLES: usize = 100;

/// Largest number of memories.
pub const MAX_MEMORIES: usize = 100;

/// The WebAssembly sandbox.
#[derive(Debug, PartialEq, Eq)]
pub struct WasmtimeSandbox {
    limits: ResourceLimits,
}

/// The memory limit in bytes, as far as it can be counted.
pub open spec fn memory_limit(max_memory_mb: u64) -> u64 {
    if max_memory_mb * 1048576 > u64::MAX {
        u64::MAX
    } else {
        (max_memory_mb * 1048576) as u64
    }
}

/// A memory limit and a time limit are needed.
pub open spec fn limits_checked(limits: ResourceLimits, r: Result<()>) -> bool {
    if limits.max_memory_mb == 0 || limits.max_cpu_time_ms == 0 {
        r is Err && r->Err_0@ == ErrorView::SandboxExecution("resource limits must be non-zero"@)
    } else {
        r is Ok
    }
}

/// What a run of the bytecode under the given limits asks of the engine.
pub open spec fn asks_for(limits: ResourceLimits, bytecode: Vec<u8>, request: EngineRequest) -> bool {
    &&& request.bytecode == bytecode
    &&& request.memory_bytes == memory_limit(limits.max_memory_mb) as usize
    &&& request.instances == MAX_INSTANCES
    &&& request.tables == MAX_TABLES
    &&& request.memories == MAX_MEMORIES
    &&& request.entry@ == "_start"@
    &&& request.deadline_ms == limits.max_cpu_time_ms
    &&& request.timeout_from_ms == (if limits.max_cpu_time_ms > 50 {
        limits.max_cpu_time_ms - 50
    } else {
        0
    })
}

/// The result of a run with the given exit code and standard error.
pub open spec fn wasm_result(exit_code: i32, stderr: Seq<u8>, time_ms: u64) -> ExecutionView {
    ExecutionView {
        exit_code,
        stdout: Seq::empty(),
        stderr,
        execution_time_ms: time_ms,
        peak_memory_bytes: 0,
        result_hash: None,
    }
}

/// What a report means under the given limits.
pub open spec fn concluded(
    limits: ResourceLimits,
    report: EngineReport,
    time_ms: u64,
    r: Result<ExecutionResult>,
) -> bool {
    match report {
        EngineReport::NotCompiled(e) => r is Err && r->Err_0@ == ErrorView::SandboxExecution(
            "failed to compile wasm module: "@ + e@,
        ),
        EngineReport::NotInstantiated(e) => r is Err && r->Err_0@ == ErrorView::SandboxExecution(
            "failed to instantiate module: "@ + e@,
        ),
        EngineReport::NoEntry => r is Ok && r->Ok_0@ == wasm_result(0, Seq::empty(), time_ms),
        EngineReport::Returned => r is Ok && r->Ok_0@ == wasm_result(0, Seq::empty(), time_ms),
        EngineReport::Failed { error, timed_out } => r is Ok && r->Ok_0@ == (if timed_out {
            wasm_result(
                124,
                encode_utf8(
                    "timeout: exceeded "@ + decimal(limits.max_cpu_time_ms as nat)
                        + "ms cpu budget"@,
                ),
                time_ms,
            )
        } else {
            wasm_result(1, encode_utf8("trap: "@ + error@), time_ms)
        }),
    }
}

fn finished(exit_code: i32, stderr: &str, time_ms: u64) -> (r: ExecutionResult)
    ensures
        r@ == wasm_result(exit_code, encode_utf8(stderr@), time_ms),
{
    let stdout: Vec<u8> = Vec::new();
    assert(stdout@ =~= Seq::<u8>::empty());
    ExecutionResult {
        exit_code,
        stdout,
        stderr: clone_bytes(stderr.as_bytes()),
        execution_time_ms: time_ms,
        peak_memory_bytes: 0,
        result_hash: None,
    }
}

fn quiet(time_ms: u64) -> (r: ExecutionResult)
    ensures
        r@ == wasm_result(0, Seq::empty(), time_ms),
{
    let stdout: Vec<u8> = Vec::new();
    assert(stdout@ =~= Seq::<u8>::empty());
    let stderr: Vec<u8> = Vec::new();
    assert(stderr@ =~= Seq::<u8>::empty());
    ExecutionResult {
        exit_code: 0,
        stdout,
        stderr,
        execution_time_ms: time_ms,
        peak_memory_bytes: 0,
        result_hash: None,
    }
}

/// What making a sandbox gives: a sandbox with the limits where its engine could be
/// created, and else the engine's error.
pub open spec fn made(
    limits: ResourceLimits,
    engine: std::result::Result<(), String>,
    r: Result<WasmtimeSandbox>,
) -> bool {
    match engine {
        Ok(_) => r is Ok && r->Ok_0.run_limits() == limits,
        Err(e) => r is Err && r->Err_0@ == ErrorView::SandboxExecution(
            "failed to create Wasmtime engine: "@ + e@,
        ),
    }
}

impl WasmtimeSandbox {
    /// The limits of a run.
    pub closed spec fn run_limits(self) -> ResourceLimits {
        self.limits
    }

    /// A sandbox with the default limits, given what came of creating its engine.
    pub fn new(engine: std::result::Result<(), String>) -> (r: Result<Self>)
        ensures
            made(default_limits(), engine, r),
    {
        Self::with_limits(ResourceLimits::default(), engine)
    }

    /// A sandbox with given limits, given what came of creating its engine.
    pub fn with_limits(
        limits: ResourceLimits,
        engine: std::result::Result<(), String>,
    ) -> (r: Result<Self>)
        ensures
            made(limits, engine, r),
    {
        match engine {
            Ok(_) => Ok(WasmtimeSandbox { limits }),
            Err(e) => Err(
                CoreError::SandboxExecution(
                    cat2("failed to create Wasmtime engine: ", e.as_str()),
                ),
            ),
        }
    }
}

impl Sandbox for WasmtimeSandbox {
    fn prepare_env(&self, limits: ResourceLimits) -> (r: Result<()>)
        ensures
            limits_checked(limits, r),
    {
        if limits.max_memory_mb == 0 || limits.max_cpu_time_ms == 0 {
            return Err(
                CoreError::SandboxExecution(String::from_str("resource limits must be non-zero")),
            );
        }
        Ok(())
    }

    fn execute_code(&self, bytecode: Vec<u8>) -> (r: Result<EngineRequest>)
        ensures
            r is Ok,
            asks_for(self.run_limits(), bytecode, r->Ok_0),
    {
        let limit: u64 = if self.limits.max_memory_mb > u64::MAX / 1048576 {
            u64::MAX
        } else {
            self.limits.max_memory_mb * 1048576
        };
        let timeout_from_ms: u64 = if self.limits.max_cpu_time_ms > 50 {
            self.limits.max_cpu_time_ms - 50
        } else {
            0
        };
        Ok(
            EngineRequest {
                bytecode,
                memory_bytes: limit as usize,
                instances: MAX_INSTANCES,
                tables: MAX_TABLES,
                memories: MAX_MEMORIES,
                entry: String::from_str("_start"),
                deadline_ms: self.limits.max_cpu_time_ms,
                timeout_from_ms,
            },
        )
    }

    fn conclude(&self, report: EngineReport, time_ms: u64) -> (r: Result<ExecutionResult>)
        ensures
            concluded(self.run_limits(), report, time_ms, r),
    {
        match report {
            EngineReport::NotCompiled(e) => Err(
                CoreError::SandboxExecution(cat2("failed to compile wasm module: ", e.as_str())),
            ),
            EngineReport::NotInstantiated(e) => Err(
                CoreError::SandboxExecution(cat2("failed to instantiate module: ", e.as_str())),
            ),
            EngineReport::NoEntry => Ok(quiet(time_ms)),
            EngineReport::Returned => Ok(quiet(time_ms)),
            EngineReport::Failed { error, timed_out } => if timed_out {
                let message = cat3(
                    "timeout: exceeded ",
                    decimal_text(self.limits.max_cpu_time_ms).as_str(),
                    "ms cpu budget",
                );
                Ok(finished(124, message.as_str(), time_ms))
            } else {
                Ok(finished(1, cat2("trap: ", error.as_str()).as_str(), time_ms))
            },
        }
    }

    fn destroy(&self) -> (r: Result<()>)
        ensures
            r is Ok,
    {
        Ok(())
    }
}

/// A run gets the bytecode it was given, a megabyte of memory for each one allowed,
/// and the time that is allowed; a run that ends within its last fifty milliseconds
/// counts as out of time, and no other.
pub proof fn run_gets_what_its_limits_allow(
    limits: ResourceLimits,
    bytecode: Vec<u8>,
    request: EngineRequest,
)
    requires
        asks_for(limits, bytecode, request),
    ensures
        request.bytecode@ == bytecode@,
        limits.max_memory_mb * 1048576 <= usize::MAX ==> request.memory_bytes
            == limits.max_memory_mb * 1048576,
        request.deadline_ms == limits.max_cpu_time_ms,
        request.timeout_from_ms <= request.deadline_ms,
        limits.max_cpu_time_ms >= 50 ==> request.deadline_ms - request.timeout_from_ms == 50,
        limits.max_cpu_time_ms < 50 ==> request.timeout_from_ms == 0,
{
}

/// A run succeeds with exit code zero exactly where the program came to its end or has
/// no entry; a trap is one, and running out of time is 124. A program that cannot be
/// run at all is an error, and never a made-up exit code.
pub proof fn exit_code_tells_how_the_run_ended(
    limits: ResourceLimits,
    report: EngineReport,
    time_ms: u64,
    r: Result<ExecutionResult>,
)
    requires
        concluded(limits, report, time_ms, r),
    ensures
        r is Err <==> report is NotCompiled || report is NotInstantiated,
        r matches Ok(result) ==> {
            &&& result.exit_code == 0 <==> report is Returned || report is NoEntry
            &&& result.exit_code == 124 <==> report is Failed && report->timed_out
            &&& result.exit_code == 1 <==> report is Failed && !report->timed_out
            &&& result.execution_time_ms == time_ms
            &&& result.stdout@.len() == 0
            &&& result.peak_memory_bytes == 0
            &&& result.exit_code == 0 ==> result.stderr@.len() == 0
        },
{
}

/// A run takes some memory and some time: an environment is prepared exactly where
/// both limits are positive.
pub proof fn limits_have_to_be_positive(limits: ResourceLimits, r: Result<()>)
    requires
        limits_checked(limits, r),
    ensures
        r is Ok <==> limits.max_memory_mb > 0 && limits.max_cpu_time_ms > 0,
{
}

/// A sandbox comes about exactly where its engine does, and keeps its limits.
pub proof fn sandbox_keeps_its_limits(
    limits: ResourceLimits,
    engine: std::result::Result<(), String>,
    r: Result<WasmtimeSandbox>,
)
    requires
        made(limits, engine, r),
    ensures
        r is Ok <==> engine is Ok,
        r is Ok ==> r->Ok_0.run_limits() == limits,
{
}

} // verus!
