//! The virtual machine sandbox: how a project runs in a machine, and how one
//! worker keeps, boots and discards machines between jobs.
use vstd::prelude::*;
use vstd::string::*;
use crate::error::{CoreError, ErrorView, Result};
use crate::sandbox::vm::{Job, deadline_in};
use crate::sandbox::pool::{pool_plan, PoolPlan};
use crate::text::{ascii_lower, cat2, cat3, lower_text, str_eq, trim_text, trimmed};
use crate::types::{ExecutionResult, OsType, ProjectSpec};

verus! {

/// What happens to the machine between tasks.
#[derive(Debug, Clone, Copy, PartialEq, Eq, Structural)]
pub enum VmMode {
    /// Keep one booted machine and reuse it: fastest, least isolated.
    Reuse,
    /// Boot a new machine with its own disk for every task, then drop it.
    Fresh,
}

impl Default for VmMode {
    fn default() -> (r: Self)
        ensures
            r == VmMode::Reuse,
    {
        VmMode::Reuse
    }
}

/// The mode that a configured word names, if it names one.
pub open spec fn mode_named(word: Seq<char>) -> Option<VmMode> {
    if word == ""@ || word == "reuse"@ || word == "warm"@ {
        Some(VmMode::Reuse)
    } else if word == "fresh"@ || word == "per-task"@ || word == "isolated"@ {
        Some(VmMode::Fresh)
    } else {
        None
    }
}

/// The message for a word that names no mode.
pub open spec fn unknown_mode(word: Seq<char>) -> Seq<char> {
    "unknown project sandbox vm_mode '"@ + word + "' (expected 'reuse' or 'fresh')"@
}

impl VmMode {
    /// Read a configured value; surrounding white space and the case of ASCII
    /// letters do not matter, and an unknown word is an error.
    pub fn parse(raw: &str) -> (r: Result<Self>)
        ensures
            match mode_named(ascii_lower(trimmed(raw@))) {
                Some(mode) => r == Ok::<VmMode, CoreError>(mode),
                None => r is Err && r->Err_0@ == ErrorView::Configuration(
                    unknown_mode(ascii_lower(trimmed(raw@))),
                ),
            },
    {
        let word = lower_text(trim_text(raw).as_str());
        let w = word.as_str();
        if str_eq(w, "") || str_eq(w, "reuse") || str_eq(w, "warm") {
            Ok(VmMode::Reuse)
        } else if str_eq(w, "fresh") || str_eq(w, "per-task") || str_eq(w, "isolated") {
            Ok(VmMode::Fresh)
        } else {
            Err(
                CoreError::Configuration(
                    cat3(
                        "unknown project sandbox vm_mode '",
                        w,
                        "' (expected 'reuse' or 'fresh')",
                    ),
                ),
            )
        }
    }

    /// Whether a machine may survive a task.
    pub fn allows_reuse(self) -> (r: bool)
        ensures
            r == (self == VmMode::Reuse),
    {
        match self {
            VmMode::Reuse => true,
            VmMode::Fresh => false,
        }
    }
}

/// A custom base image for the guest: where it comes from and the digest that the
/// download is checked against.
#[derive(Debug, PartialEq, Eq)]
pub struct ImageTemplate {
    /// Path or address of the image.
    pub source: String,
    /// Digest of the image.
    pub digest: String,
}

impl ImageTemplate {
    /// The configured image, if any. A source without a digest, or the reverse, is
    /// an error.
    pub fn from_config(source: Option<&str>, digest: Option<&str>) -> (r: Result<Option<Self>>)
        ensures
            match (source, digest) {
                (Some(s), Some(d)) => r is Ok && r->Ok_0 is Some && r->Ok_0->Some_0.source@ == s@
                    && r->Ok_0->Some_0.digest@ == d@,
                (None, None) => r is Ok && r->Ok_0 is None,
                _ => r is Err && r->Err_0@ == ErrorView::Configuration(
                    "a custom sandbox image needs both source and digest"@,
                ),
            },
    {
        match (source, digest) {
            (Some(s), Some(d)) => Ok(
                Some(ImageTemplate { source: String::from_str(s), digest: String::from_str(d) }),
            ),
            (None, None) => Ok(None),
            _ => Err(
                CoreError::Configuration(
                    String::from_str("a custom sandbox image needs both source and digest"),
                ),
            ),
        }
    }
}

/// The time a project may take, in milliseconds: what it asks for, and a second at least.
pub open spec fn time_for(spec: ProjectSpec) -> int {
    if spec.timeout_ms > 1000 {
        spec.timeout_ms as int
    } else {
        1000
    }
}

/// The virtual machine sandbox of a host.
#[derive(Debug, PartialEq, Eq)]
pub struct QleanSandbox {
    os: OsType,
    mode: VmMode,
    pool_size: usize,
    template: Option<ImageTemplate>,
}

impl QleanSandbox {
    /// The host's operating system.
    pub closed spec fn host(self) -> OsType {
        self.os
    }

    /// What happens to the machine between tasks.
    pub closed spec fn vm_mode(self) -> VmMode {
        self.mode
    }

    /// The configured pool size.
    pub closed spec fn pool(self) -> usize {
        self.pool_size
    }

    /// The custom base image.
    pub closed spec fn image(self) -> Option<ImageTemplate> {
        self.template
    }

    /// A sandbox that reuses its machine.
    pub fn new(os: OsType) -> (r: Result<Self>)
        ensures
            r is Ok,
            r->Ok_0.host() == os,
            r->Ok_0.vm_mode() == VmMode::Reuse,
            r->Ok_0.pool() == 0,
            r->Ok_0.image() is None,
    {
        Self::with_mode(os, VmMode::Reuse)
    }

    /// A sandbox with a given mode and no pool.
    pub fn with_mode(os: OsType, mode: VmMode) -> (r: Result<Self>)
        ensures
            r is Ok,
            r->Ok_0.host() == os,
            r->Ok_0.vm_mode() == mode,
            r->Ok_0.pool() == 0,
            r->Ok_0.image() is None,
    {
        Self::with_policy(os, mode, 0)
    }

    /// A sandbox with a given mode and pool size.
    pub fn with_policy(os: OsType, mode: VmMode, pool_size: usize) -> (r: Result<Self>)
        ensures
            r is Ok,
            r->Ok_0.host() == os,
            r->Ok_0.vm_mode() == mode,
            r->Ok_0.pool() == pool_size,
            r->Ok_0.image() is None,
    {
        Self::with_template(os, mode, pool_size, None)
    }

    /// A sandbox with a given mode, pool size and base image.
    pub fn with_template(
        os: OsType,
        mode: VmMode,
        pool_size: usize,
        template: Option<ImageTemplate>,
    ) -> (r: Result<Self>)
        ensures
            r is Ok,
            r->Ok_0.host() == os,
            r->Ok_0.vm_mode() == mode,
            r->Ok_0.pool() == pool_size,
            r->Ok_0.image() == template,
    {
        Ok(QleanSandbox { os, mode, pool_size, template })
    }

    /// The policy that the worker follows.
    pub fn plan(&self) -> (r: PoolPlan)
        ensures
            r == pool_plan(self.vm_mode() == VmMode::Reuse, self.pool()),
    {
        PoolPlan::new(self.mode.allows_reuse(), self.pool_size)
    }

    /// The job to hand to the worker for a project, at time `now` in nanoseconds.
    /// A project gets at least one second. Only a Linux host takes jobs.
    pub fn run_project(&self, spec: ProjectSpec, now: u128) -> (r: Result<Job>)
        requires
            now + u64::MAX * 1_000_000 <= u128::MAX,
        ensures
            if self.host() == OsType::Linux {
                &&& r is Ok
                &&& r->Ok_0.spec == spec
                &&& r->Ok_0.deadline == now + (if spec.timeout_ms > 1000 {
                    spec.timeout_ms as int
                } else {
                    1000
                }) * 1_000_000
                &&& r->Ok_0.deadline == now + time_for(spec) * 1_000_000
            } else {
                r is Err && r->Err_0@ == ErrorView::UnsupportedPlatform(
                    "Qlean sandbox requires a Linux host with KVM"@,
                )
            },
    {
        if self.os != OsType::Linux {
            return Err(
                CoreError::UnsupportedPlatform(
                    String::from_str("Qlean sandbox requires a Linux host with KVM"),
                ),
            );
        }
        let timeout_ms: u64 = if spec.timeout_ms > 1000 {
            spec.timeout_ms
        } else {
            1000
        };
        let deadline = deadline_in(now, timeout_ms);
        Ok(Job { spec, deadline })
    }

    /// What a caller gets once the job was handed over (or not) and the worker
    /// replied (or died first).
    pub fn project_outcome(handed_over: bool, reply: Option<Result<ExecutionResult>>) -> (r: Result<
        ExecutionResult,
    >)
        ensures
            if !handed_over {
                r is Err && r->Err_0@ == ErrorView::Internal("qlean worker gone"@)
            } else {
                match reply {
                    Some(result) => r == result,
                    None => r is Err && r->Err_0@ == ErrorView::Internal(
                        "qlean worker dropped the reply (worker thread died; see node logs)"@,
                    ),
                }
            },
    {
        if !handed_over {
            return Err(CoreError::Internal(String::from_str("qlean worker gone")));
        }
        match reply {
            Some(result) => result,
            None => Err(
                CoreError::Internal(
                    String::from_str(
                        "qlean worker dropped the reply (worker thread died; see node logs)",
                    ),
                ),
            ),
        }
    }

    /// The error for a worker thread that could not be started.
    pub fn spawn_failed(reason: &str) -> (r: CoreError)
        ensures
            r@ == ErrorView::Internal("spawn qlean worker: "@ + reason@),
    {
        CoreError::Internal(cat2("spawn qlean worker: ", reason))
    }
}

/// A project gets the time it asks for, and never under a second.
pub proof fn project_gets_its_time(spec: ProjectSpec)
    ensures
        time_for(spec) >= 1000,
        spec.timeout_ms >= 1000 ==> time_for(spec) == spec.timeout_ms,
        spec.timeout_ms < 1000 ==> time_for(spec) == 1000,
{
}

} // verus!
