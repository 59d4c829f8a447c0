//! Linux container sandbox: a documented stub whose execution is an explicit
//! error, never a made-up exit code.
use vstd::prelude::*;
use vstd::string::*;
use crate::error::{CoreError, ErrorView, Result};
use crate::traits::{EngineReport, EngineRequest, Sandbox};
use crate::types::{ExecutionResult, OsType, ResourceLimits};

verus! {

/// The container sandbox of a host.
#[derive(Debug, PartialEq, Eq)]
pub struct LinuxContainerSandbox {
    os: OsType,
}

/// The error on any other host than Linux.
pub open spec fn needs_linux() -> ErrorView {
    ErrorView::UnsupportedPlatform("Linux container sandbox requires Linux"@)
}

/// The error of an execution.
pub open spec fn not_implemented() -> ErrorView {
    ErrorView::SandboxExecution("container sandbox is not implemented in v3 (documented stub)"@)
}

fn stub_error() -> (r: CoreError)
    ensures
        r@ == not_implemented(),
{
    CoreError::SandboxExecution(
        String::from_str("container sandbox is not implemented in v3 (documented stub)"),
    )
}

impl LinuxContainerSandbox {
    /// The host's operating system.
    pub closed spec fn host(self) -> OsType {
        self.os
    }

    /// A sandbox on the given host.
    pub fn new(os: OsType) -> (r: Result<Self>)
        ensures
            if os == OsType::Linux {
                r is Ok && r->Ok_0.host() == os
            } else {
                r is Err && r->Err_0@ == needs_linux()
            },
    {
        if os != OsType::Linux {
            return Err(
                CoreError::UnsupportedPlatform(
                    String::from_str("Linux container sandbox requires Linux"),
                ),
            );
        }
        Ok(LinuxContainerSandbox { os })
    }
}

impl Sandbox for LinuxContainerSandbox {
    fn prepare_env(&self, limits: ResourceLimits) -> (r: Result<()>)
        ensures
            if self.host() == OsType::Linux {
                r is Ok
            } else {
                r is Err && r->Err_0@ == needs_linux()
            },
    {
        if self.os != OsType::Linux {
            return Err(
                CoreError::UnsupportedPlatform(
                    String::from_str("Linux container sandbox requires Linux"),
                ),
            );
        }
        Ok(())
    }

    fn execute_code(&self, bytecode: Vec<u8>) -> (r: Result<EngineRequest>)
        ensures
            r is Err,
            r->Err_0@ == not_implemented(),
    {
        Err(stub_error())
    }

    fn conclude(&self, report: EngineReport, time_ms: u64) -> (r: Result<ExecutionResult>)
        ensures
            r is Err,
            r->Err_0@ == not_implemented(),
    {
        Err(stub_error())
    }

    fn destroy(&self) -> (r: Result<()>)
        ensures
            r is Ok,
    {
        Ok(())
    }
}

} // verus!
