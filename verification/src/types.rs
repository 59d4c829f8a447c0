//! The data shared by every subsystem: nodes, capabilities, roles, tasks and
//! results.
use vstd::prelude::*;
use vstd::string::*;
pub use crate::outside::clock::Timestamp;

verus! {

/// Identifies a node of the cluster (a UUID).
pub type NodeId = u128;

/// Identifies a task (a UUID).
pub type TaskId = u128;

/// The texts of a list.
pub open spec fn texts(v: Seq<String>) -> Seq<Seq<char>> {
    Seq::new(v.len(), |i: int| v[i]@)
}

/// A copy of a list of texts.
pub fn clone_texts(v: &Vec<String>) -> (r: Vec<String>)
    ensures
        texts(r@) == texts(v@),
        r@.len() == v@.len(),
{
    let mut out: Vec<String> = Vec::new();
    let mut i: usize = 0;
    while i < v.len()
        invariant
            i <= v@.len(),
            out@.len() == i,
            forall|k: int| 0 <= k < i ==> out@[k]@ == v@[k]@,
        decreases v@.len() - i,
    {
        out.push(v[i].clone());
        i += 1;
    }
    assert(texts(out@) =~= texts(v@));
    out
}

/// A copy of a byte string.
pub fn clone_bytes(v: &[u8]) -> (r: Vec<u8>)
    ensures
        r@ == v@,
{
    let mut out: Vec<u8> = Vec::new();
    out.extend_from_slice(v);
    assert(out@ =~= v@);
    out
}

/// Classification of a node's resource profile.
#[derive(Debug, Clone, Copy, PartialEq, Eq, Structural)]
pub enum NodeType {
    /// Full-featured node: persistent storage, multiple runtimes.
    Heavy,
    /// Constrained node: limited resources, may sleep or disconnect.
    Light,
}

/// Operating system running on a node.
#[derive(Debug, Clone, Copy, PartialEq, Eq, Structural)]
pub enum OsType {
    MacOS,
    Linux,
    Windows,
    Ios,
    Android,
    Unknown,
}

/// A role assigned to a node by the orchestration engine.
#[derive(Debug, Clone, Copy, PartialEq, Eq, Hash, Structural)]
pub enum Role {
    /// Serves stored objects to peers.
    Storage,
    /// Runs sandboxed code.
    Execution,
    /// Runs inference workloads.
    Inference,
    /// Runs the orchestration engine and scheduler.
    Coordinator,
    /// Initial cluster seed.
    Bootstrap,
}

/// The name of a role.
pub open spec fn role_name(role: Role) -> Seq<char> {
    match role {
        Role::Storage => "Storage"@,
        Role::Execution => "Execution"@,
        Role::Inference => "Inference"@,
        Role::Coordinator => "Coordinator"@,
        Role::Bootstrap => "Bootstrap"@,
    }
}

impl Role {
    /// The role's name.
    pub fn to_string(&self) -> (r: String)
        ensures
            r@ == role_name(*self),
    {
        match self {
            Role::Storage => String::from_str("Storage"),
            Role::Execution => String::from_str("Execution"),
            Role::Inference => String::from_str("Inference"),
            Role::Coordinator => String::from_str("Coordinator"),
            Role::Bootstrap => String::from_str("Bootstrap"),
        }
    }
}

/// A copy of a list of roles.
pub fn clone_roles(v: &Vec<Role>) -> (r: Vec<Role>)
    ensures
        r@ == v@,
{
    let mut out: Vec<Role> = Vec::new();
    let mut i: usize = 0;
    while i < v.len()
        invariant
            i <= v@.len(),
            out@ == v@.take(i as int),
        decreases v@.len() - i,
    {
        out.push(v[i]);
        assert(v@.take(i as int).push(v@[i as int]) =~= v@.take(i + 1));
        i += 1;
    }
    assert(v@.take(v@.len() as int) =~= v@);
    out
}

/// Whether a list holds a role.
pub fn has_role(v: &Vec<Role>, role: Role) -> (r: bool)
    ensures
        r == v@.contains(role),
{
    let mut i: usize = 0;
    while i < v.len()
        invariant
            i <= v@.len(),
            forall|k: int| 0 <= k < i ==> v@[k] != role,
        decreases v@.len() - i,
    {
        if v[i] == role {
            return true;
        }
        i += 1;
    }
    false
}

/// The capabilities a node advertises to the cluster.
#[derive(Debug, PartialEq, Eq)]
pub struct Capabilities {
    /// Whether this node has persistent disk storage available.
    pub storage: bool,
    /// Whether GPU acceleration is available.
    pub gpu_acceleration: bool,
    /// Free-form runtime names, compared when roles are re-assigned.
    pub runtimes: Vec<String>,
    /// Memory available for sandbox execution, in megabytes.
    pub max_memory_mb: u64,
    /// CPU cores available for execution.
    pub cpu_cores: u32,
    /// Whether this node can run project sandboxes.
    pub project_sandbox: bool,
}

/// What [`Capabilities`] say.
pub struct CapabilitiesView {
    pub storage: bool,
    pub gpu_acceleration: bool,
    pub runtimes: Seq<Seq<char>>,
    pub max_memory_mb: u64,
    pub cpu_cores: u32,
    pub project_sandbox: bool,
}

impl View for Capabilities {
    type V = CapabilitiesView;

    open spec fn view(&self) -> CapabilitiesView {
        CapabilitiesView {
            storage: self.storage,
            gpu_acceleration: self.gpu_acceleration,
            runtimes: texts(self.runtimes@),
            max_memory_mb: self.max_memory_mb,
            cpu_cores: self.cpu_cores,
            project_sandbox: self.project_sandbox,
        }
    }
}

impl Clone for Capabilities {
    fn clone(&self) -> (r: Self)
        ensures
            r@ == self@,
    {
        Capabilities {
            storage: self.storage,
            gpu_acceleration: self.gpu_acceleration,
            runtimes: clone_texts(&self.runtimes),
            max_memory_mb: self.max_memory_mb,
            cpu_cores: self.cpu_cores,
            project_sandbox: self.project_sandbox,
        }
    }
}

impl Default for Capabilities {
    fn default() -> (r: Self)
        ensures
            r@ == (CapabilitiesView {
                storage: true,
                gpu_acceleration: false,
                runtimes: seq!["qlean"@],
                max_memory_mb: 1024,
                cpu_cores: 2,
                project_sandbox: false,
            }),
    {
        let mut runtimes: Vec<String> = Vec::new();
        runtimes.push(String::from_str("qlean"));
        assert(texts(runtimes@) =~= seq!["qlean"@]);
        Capabilities {
            storage: true,
            gpu_acceleration: false,
            runtimes,
            max_memory_mb: 1024,
            cpu_cores: 2,
            project_sandbox: false,
        }
    }
}

/// Describes a node of the cluster.
#[derive(Debug, PartialEq, Eq)]
pub struct NodeDescriptor {
    /// Unique identifier of this node.
    pub node_id: NodeId,
    /// Heavy or light.
    pub node_type: NodeType,
    /// Operating system of this node.
    pub os: OsType,
    /// What this node can do.
    pub capabilities: Capabilities,
    /// Addresses this node can be reached at (multiaddresses as text).
    pub advertised_addresses: Vec<String>,
    /// Roles assigned to this node.
    pub current_assigned_roles: Vec<Role>,
    /// When this node started up.
    pub started_at: Timestamp,
    /// Consensus participant id; none for a node outside the group.
    pub raft_id: Option<u64>,
}

/// What a [`NodeDescriptor`] says.
pub struct DescriptorView {
    pub node_id: NodeId,
    pub node_type: NodeType,
    pub os: OsType,
    pub capabilities: CapabilitiesView,
    pub advertised_addresses: Seq<Seq<char>>,
    pub current_assigned_roles: Seq<Role>,
    pub started_at: Timestamp,
    pub raft_id: Option<u64>,
}

impl View for NodeDescriptor {
    type V = DescriptorView;

    open spec fn view(&self) -> DescriptorView {
        DescriptorView {
            node_id: self.node_id,
            node_type: self.node_type,
            os: self.os,
            capabilities: self.capabilities@,
            advertised_addresses: texts(self.advertised_addresses@),
            current_assigned_roles: self.current_assigned_roles@,
            started_at: self.started_at,
            raft_id: self.raft_id,
        }
    }
}

impl Clone for NodeDescriptor {
    fn clone(&self) -> (r: Self)
        ensures
            r@ == self@,
    {
        NodeDescriptor {
            node_id: self.node_id,
            node_type: self.node_type,
            os: self.os,
            capabilities: self.capabilities.clone(),
            advertised_addresses: clone_texts(&self.advertised_addresses),
            current_assigned_roles: clone_roles(&self.current_assigned_roles),
            started_at: self.started_at,
            raft_id: self.raft_id,
        }
    }
}

/// Resource limits enforced by the sandbox layer.
#[derive(Debug, Clone, Copy, PartialEq, Eq, Structural)]
pub struct ResourceLimits {
    /// Maximum memory in megabytes.
    pub max_memory_mb: u64,
    /// Maximum CPU time in milliseconds.
    pub max_cpu_time_ms: u64,
    /// Maximum disk space in megabytes.
    pub max_disk_mb: u64,
    /// Whether network access is allowed.
    pub allow_network: bool,
    /// Maximum number of file descriptors.
    pub max_fds: u32,
}

/// The limits used when none are given.
pub open spec fn default_limits() -> ResourceLimits {
    ResourceLimits {
        max_memory_mb: 256,
        max_cpu_time_ms: 30_000,
        max_disk_mb: 100,
        allow_network: false,
        max_fds: 64,
    }
}

impl Default for ResourceLimits {
    fn default() -> (r: Self)
        ensures
            r == default_limits(),
    {
        ResourceLimits {
            max_memory_mb: 256,
            max_cpu_time_ms: 30_000,
            max_disk_mb: 100,
            allow_network: false,
            max_fds: 64,
        }
    }
}

/// A project-level execution request for the sandbox.
#[derive(Debug, PartialEq, Eq)]
pub struct ProjectSpec {
    /// Content hash of the project snapshot.
    pub snapshot_hash: String,
    /// Local directory to be uploaded into the machine.
    pub local_project_dir: Option<String>,
    /// Working directory inside the sandbox.
    pub work_dir: String,
    /// Build command with arguments.
    pub build_cmd: Vec<String>,
    /// Run command with arguments.
    pub run_cmd: Vec<String>,
    /// Wall-clock timeout for build and run, in milliseconds.
    pub timeout_ms: u64,
    /// Resource limits for the sandbox.
    pub resource_limits: ResourceLimits,
}

/// A packed project: the tar bytes, or only their hash when they live in the
/// object store.
#[derive(Debug, PartialEq, Eq)]
pub struct ProjectSnapshot {
    /// Content hash of the tar bytes.
    pub hash: String,
    /// The tar bytes; empty when only the hash travels.
    pub tar_bytes: Vec<u8>,
}

impl ProjectSnapshot {
    /// A snapshot whose bytes live in the object store.
    pub fn from_hash(hash: String) -> (r: Self)
        ensures
            r.hash@ == hash@,
            r.tar_bytes@.len() == 0,
    {
        ProjectSnapshot { hash, tar_bytes: Vec::new() }
    }

    /// How many bytes travel with the snapshot itself.
    pub fn inline_len(&self) -> (r: usize)
        ensures
            r == self.tar_bytes@.len(),
    {
        self.tar_bytes.len()
    }
}

/// A project execution request sent to an execution node.
#[derive(Debug, PartialEq, Eq)]
pub struct ProjectTask {
    /// The task's identifier.
    pub task_id: TaskId,
    /// The packed project.
    pub snapshot: ProjectSnapshot,
    /// Directory inside the sandbox where the snapshot is unpacked.
    pub work_dir: String,
    /// Build command with arguments.
    pub build_cmd: Vec<String>,
    /// Run command with arguments.
    pub run_cmd: Vec<String>,
    /// Wall-clock timeout in milliseconds.
    pub timeout_ms: u64,
    /// Resource limits for the sandbox.
    pub resource_limits: ResourceLimits,
    /// The node the task is pinned to, if any.
    pub pinned_node: Option<NodeId>,
}

/// Result of a project execution.
#[derive(Debug, PartialEq, Eq)]
pub struct ProjectResult {
    /// The task this answers.
    pub task_id: TaskId,
    /// Process exit code.
    pub exit_code: i32,
    /// Captured standard output.
    pub stdout: Vec<u8>,
    /// Captured standard error.
    pub stderr: Vec<u8>,
    /// Wall-clock time in milliseconds.
    pub execution_time_ms: u64,
    /// The node that ran the task.
    pub executed_on: NodeId,
}

/// What a [`ProjectResult`] says.
pub struct ProjectResultView {
    pub task_id: TaskId,
    pub exit_code: i32,
    pub stdout: Seq<u8>,
    pub stderr: Seq<u8>,
    pub execution_time_ms: u64,
    pub executed_on: NodeId,
}

impl View for ProjectResult {
    type V = ProjectResultView;

    open spec fn view(&self) -> ProjectResultView {
        ProjectResultView {
            task_id: self.task_id,
            exit_code: self.exit_code,
            stdout: self.stdout@,
            stderr: self.stderr@,
            execution_time_ms: self.execution_time_ms,
            executed_on: self.executed_on,
        }
    }
}

impl Clone for ProjectResult {
    fn clone(&self) -> (r: Self)
        ensures
            r@ == self@,
    {
        ProjectResult {
            task_id: self.task_id,
            exit_code: self.exit_code,
            stdout: clone_bytes(self.stdout.as_slice()),
            stderr: clone_bytes(self.stderr.as_slice()),
            execution_time_ms: self.execution_time_ms,
            executed_on: self.executed_on,
        }
    }
}

/// Result of executing code in a sandbox.
#[derive(Debug, PartialEq, Eq)]
pub struct ExecutionResult {
    /// Process exit code, zero for success.
    pub exit_code: i32,
    /// Captured standard output.
    pub stdout: Vec<u8>,
    /// Captured standard error.
    pub stderr: Vec<u8>,
    /// Wall-clock time in milliseconds.
    pub execution_time_ms: u64,
    /// Peak memory in bytes.
    pub peak_memory_bytes: u64,
    /// Content hash of the stored result, if it was stored.
    pub result_hash: Option<String>,
}

/// What an [`ExecutionResult`] says.
pub struct ExecutionView {
    pub exit_code: i32,
    pub stdout: Seq<u8>,
    pub stderr: Seq<u8>,
    pub execution_time_ms: u64,
    pub peak_memory_bytes: u64,
    pub result_hash: Option<Seq<char>>,
}

impl View for ExecutionResult {
    type V = ExecutionView;

    open spec fn view(&self) -> ExecutionView {
        ExecutionView {
            exit_code: self.exit_code,
            stdout: self.stdout@,
            stderr: self.stderr@,
            execution_time_ms: self.execution_time_ms,
            peak_memory_bytes: self.peak_memory_bytes,
            result_hash: match self.result_hash {
                Some(h) => Some(h@),
                None => None,
            },
        }
    }
}

/// The runtimes a scheduled task can ask for.
#[derive(Debug, Clone, Copy, PartialEq, Eq, Hash, Structural)]
pub enum RuntimeKind {
    /// WebAssembly.
    Wasm,
    /// Native POSIX process.
    NativePosix,
    /// Linux container.
    Container,
}

/// How a scheduled task picks its executor.
#[derive(Debug, Clone, Copy, PartialEq, Eq, Structural)]
pub enum RoutingStrategy {
    /// Exactly this node.
    Pinned(NodeId),
    /// An executor with a WebAssembly runtime, else any.
    PreferWasm,
    /// An executor with a native or container runtime, else any.
    PreferNative,
    /// Any executor in turn.
    AnyExecutor,
}

/// A task waiting to be routed to an executor.
#[derive(Debug, PartialEq, Eq)]
pub struct ScheduledTask {
    /// The task's identifier.
    pub task_id: TaskId,
    /// Content hash of the code to run.
    pub code_hash: String,
    /// The runtime the code needs.
    pub required_runtime: RuntimeKind,
    /// How to pick the executor.
    pub routing: RoutingStrategy,
    /// Timeout in milliseconds.
    pub timeout_ms: u64,
    /// Resource limits for the sandbox.
    pub resource_limits: ResourceLimits,
    /// When the task was submitted.
    pub submitted_at: Timestamp,
    /// The node the task is pinned to, if any.
    pub pinned_node: Option<NodeId>,
}

} // verus!
