//! Registry of sandboxes by runtime kind.
use std::collections::HashMap;
use vstd::prelude::*;
use vstd::string::*;
use crate::error::{CoreError, ErrorView, Result};
use crate::sandbox::container::{needs_linux, not_implemented, LinuxContainerSandbox};
use crate::sandbox::wasm::{asks_for, concluded, limits_checked, WasmtimeSandbox};
use crate::text::cat2;
use crate::traits::{EngineReport, EngineRequest, Sandbox};
use crate::types::{default_limits, ExecutionResult, OsType, ResourceLimits, RuntimeKind};

verus! {

broadcast use vstd::std_specs::hash::group_hash_axioms;

/// Creates sandboxes.
pub trait SandboxFactory {
    /// The sandboxes it creates.
    type Made: Sandbox;

    /// What the factory may return for given limits.
    spec fn makes(&self, limits: ResourceLimits, r: Result<Self::Made>) -> bool;

    /// A new sandbox.
    fn create(&self, limits: ResourceLimits) -> (r: Result<Self::Made>)
        ensures
            self.makes(limits, r),
    ;
}

/// The name of a runtime kind.
pub open spec fn kind_name(kind: RuntimeKind) -> Seq<char> {
    match kind {
        RuntimeKind::Wasm => "Wasm"@,
        RuntimeKind::NativePosix => "NativePosix"@,
        RuntimeKind::Container => "Container"@,
    }
}

/// The key of a runtime kind.
pub open spec fn key_of(kind: RuntimeKind) -> u64 {
    match kind {
        RuntimeKind::Wasm => 0,
        RuntimeKind::NativePosix => 1,
        RuntimeKind::Container => 2,
    }
}

fn key(kind: RuntimeKind) -> (r: u64)
    ensures
        r == key_of(kind),
{
    match kind {
        RuntimeKind::Wasm => 0,
        RuntimeKind::NativePosix => 1,
        RuntimeKind::Container => 2,
    }
}

/// One factory at most for each runtime kind.
#[derive(Debug)]
pub struct SandboxRegistry<F> {
    factories: HashMap<u64, F>,
}

impl<F: SandboxFactory> SandboxRegistry<F> {
    /// The factory registered for a kind.
    pub closed spec fn factory(self, kind: RuntimeKind) -> Option<F> {
        if self.factories@.contains_key(key_of(kind)) {
            Some(self.factories@[key_of(kind)])
        } else {
            None
        }
    }

    /// An empty registry.
    pub fn new() -> (r: Self)
        ensures
            forall|kind: RuntimeKind| #[trigger] r.factory(kind) is None,
    {
        SandboxRegistry { factories: HashMap::new() }
    }

    /// Register the factory for a kind, in place of an earlier one.
    pub fn register(&mut self, kind: RuntimeKind, factory: F)
        ensures
            forall|k: RuntimeKind| #[trigger]
                final(self).factory(k) == (if k == kind {
                    Some(factory)
                } else {
                    old(self).factory(k)
                }),
    {
        self.factories.insert(key(kind), factory);
    }

    /// A sandbox of the given kind.
    pub fn create(&self, kind: RuntimeKind, limits: ResourceLimits) -> (r: Result<F::Made>)
        ensures
            match self.factory(kind) {
                Some(factory) => factory.makes(limits, r),
                None => r is Err && r->Err_0@ == ErrorView::UnsupportedRuntime(
                    "no factory for "@ + kind_name(kind),
                ),
            },
    {
        if let Some(factory) = self.factories.get(&key(kind)) {
            return factory.create(limits);
        }
        let name = match kind {
            RuntimeKind::Wasm => "Wasm",
            RuntimeKind::NativePosix => "NativePosix",
            RuntimeKind::Container => "Container",
        };
        Err(CoreError::UnsupportedRuntime(cat2("no factory for ", name)))
    }
}

impl<F: SandboxFactory> Default for SandboxRegistry<F> {
    fn default() -> (r: Self)
        ensures
            forall|kind: RuntimeKind| #[trigger] r.factory(kind) is None,
    {
        Self::new()
    }
}

/// The sandboxes of a host.
#[derive(Debug, PartialEq, Eq)]
pub enum HostSandbox {
    /// WebAssembly.
    Wasm(WasmtimeSandbox),
    /// Linux container.
    Container(LinuxContainerSandbox),
}

impl Sandbox for HostSandbox {
    fn prepare_env(&self, limits: ResourceLimits) -> (r: Result<()>)
        ensures
            match self {
                HostSandbox::Wasm(_) => limits_checked(limits, r),
                HostSandbox::Container(s) => if s.host() == OsType::Linux {
                    r is Ok
                } else {
                    r is Err && r->Err_0@ == needs_linux()
                },
            },
    {
        match self {
            HostSandbox::Wasm(s) => s.prepare_env(limits),
            HostSandbox::Container(s) => s.prepare_env(limits),
        }
    }

    fn execute_code(&self, bytecode: Vec<u8>) -> (r: Result<EngineRequest>)
        ensures
            match self {
                HostSandbox::Wasm(s) => r is Ok && asks_for(s.run_limits(), bytecode, r->Ok_0),
                HostSandbox::Container(_) => r is Err && r->Err_0@ == not_implemented(),
            },
    {
        match self {
            HostSandbox::Wasm(s) => s.execute_code(bytecode),
            HostSandbox::Container(s) => s.execute_code(bytecode),
        }
    }

    fn conclude(&self, report: EngineReport, time_ms: u64) -> (r: Result<ExecutionResult>)
        ensures
            match self {
                HostSandbox::Wasm(s) => concluded(s.run_limits(), report, time_ms, r),
                HostSandbox::Container(_) => r is Err && r->Err_0@ == not_implemented(),
            },
    {
        match self {
            HostSandbox::Wasm(s) => s.conclude(report, time_ms),
            HostSandbox::Container(s) => s.conclude(report, time_ms),
        }
    }

    fn destroy(&self) -> (r: Result<()>)
        ensures
            r is Ok,
    {
        match self {
            HostSandbox::Wasm(s) => s.destroy(),
            HostSandbox::Container(s) => s.destroy(),
        }
    }
}

/// Creates the sandboxes of a host.
#[derive(Debug, PartialEq, Eq)]
pub enum HostFactory {
    /// WebAssembly sandboxes, with the default limits, on a host where creating an
    /// engine came to this.
    Wasm(std::result::Result<(), String>),
    /// Container sandboxes on a host with this operating system.
    Container(OsType),
}

impl SandboxFactory for HostFactory {
    type Made = HostSandbox;

    open spec fn makes(&self, limits: ResourceLimits, r: Result<HostSandbox>) -> bool {
        match *self {
            HostFactory::Wasm(Ok(_)) => r is Ok && r->Ok_0 is Wasm
                && r->Ok_0->Wasm_0.run_limits() == default_limits(),
            HostFactory::Wasm(Err(e)) => r is Err && r->Err_0@ == ErrorView::SandboxExecution(
                "failed to create Wasmtime engine: "@ + e@,
            ),
            HostFactory::Container(os) => if os == OsType::Linux {
                r is Ok && r->Ok_0 is Container && r->Ok_0->Container_0.host() == os
            } else {
                r is Err && r->Err_0@ == needs_linux()
            },
        }
    }

    fn create(&self, limits: ResourceLimits) -> (r: Result<HostSandbox>) {
        match self {
            HostFactory::Wasm(engine) => {
                let engine: std::result::Result<(), String> = match engine {
                    Ok(_) => Ok(()),
                    Err(e) => Err(e.clone()),
                };
                match WasmtimeSandbox::new(engine) {
                    Ok(sandbox) => Ok(HostSandbox::Wasm(sandbox)),
                    Err(e) => Err(e),
                }
            },
            HostFactory::Container(os) => match LinuxContainerSandbox::new(*os) {
                Ok(sandbox) => match sandbox.prepare_env(limits) {
                    Ok(_) => Ok(HostSandbox::Container(sandbox)),
                    Err(e) => Err(e),
                },
                Err(e) => Err(e),
            },
        }
    }
}

/// The registry of a host: WebAssembly everywhere, native processes and containers
/// on Linux. `engine` is what creating a WebAssembly engine came to.
pub fn default_registry(os: OsType, engine: std::result::Result<(), String>) -> (r: SandboxRegistry<
    HostFactory,
>)
    ensures
        r.factory(RuntimeKind::Wasm) == Some(HostFactory::Wasm(engine)),
        os == OsType::Linux ==> r.factory(RuntimeKind::NativePosix) == Some(
            HostFactory::Container(os),
        ) && r.factory(RuntimeKind::Container) == Some(HostFactory::Container(os)),
        os != OsType::Linux ==> r.factory(RuntimeKind::NativePosix) is None && r.factory(
            RuntimeKind::Container,
        ) is None,
{
    let mut registry: SandboxRegistry<HostFactory> = SandboxRegistry::new();
    registry.register(RuntimeKind::Wasm, HostFactory::Wasm(engine));
    if os == OsType::Linux {
        registry.register(RuntimeKind::NativePosix, HostFactory::Container(os));
        registry.register(RuntimeKind::Container, HostFactory::Container(os));
    }
    registry
}

/// A factory makes sandboxes of its own kind, where the host can run them, and none
/// elsewhere.
pub proof fn factories_make_their_own_kind(
    factory: HostFactory,
    limits: ResourceLimits,
    r: Result<HostSandbox>,
)
    requires
        factory.makes(limits, r),
    ensures
        factory is Wasm ==> (r is Ok <==> factory->Wasm_0 is Ok),
        factory is Container ==> (r is Ok <==> factory->Container_0 == OsType::Linux),
        r is Ok ==> (r->Ok_0 is Wasm <==> factory is Wasm),
        r is Ok && r->Ok_0 is Wasm ==> r->Ok_0->Wasm_0.run_limits() == default_limits(),
{
}

/// Each kind of runtime has a key and a name of its own.
pub proof fn kinds_are_told_apart(a: RuntimeKind, b: RuntimeKind)
    ensures
        key_of(a) == key_of(b) ==> a == b,
        kind_name(a) == kind_name(b) ==> a == b,
{
    reveal_strlit("Wasm");
    reveal_strlit("NativePosix");
    reveal_strlit("Container");
    assert("Wasm"@[0] == 'W' && "NativePosix"@[0] == 'N' && "Container"@[0] == 'C');
}

} // verus!
