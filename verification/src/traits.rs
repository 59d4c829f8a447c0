//! Plugin points for sandboxes, storage and execution.
use vstd::prelude::*;
use vstd::string::*;
use crate::error::Result;
use crate::types::{ExecutionResult, ProjectResult, ProjectTask, ResourceLimits};

verus! {

/// What an engine is asked to run, and within which limits.
#[derive(Debug, PartialEq, Eq)]
pub struct EngineRequest {
    /// The compiled module.
    pub bytecode: Vec<u8>,
    /// Largest size of a memory, in bytes.
    pub memory_bytes: usize,
    /// Largest number of instances.
    pub instances: usize,
    /// Largest number of tables.
    pub tables: usize,
    /// Largest number of memories.
    pub memories: usize,
    /// The function to call, if the module has it.
    pub entry: String,
    /// After how many milliseconds the call is interrupted.
    pub deadline_ms: u64,
    /// After how many milliseconds a failed call counts as interrupted.
    pub timeout_from_ms: u64,
}

/// What an engine reports of a module.
#[derive(Debug, PartialEq, Eq)]
pub enum EngineReport {
    /// The module could not be compiled.
    NotCompiled(String),
    /// The module could not be instantiated within the limits.
    NotInstantiated(String),
    /// The module has no function of that name.
    NoEntry,
    /// The call returned.
    Returned,
    /// The call failed, with this text; whether it had run long enough to count as
    /// interrupted.
    Failed { error: String, timed_out: bool },
}

/// A polymorphic sandbox for executing untrusted code.
pub trait Sandbox {
    /// Prepare the execution environment with the given limits.
    fn prepare_env(&self, limits: ResourceLimits) -> Result<()>;

    /// What running the bytecode asks of an engine.
    fn execute_code(&self, bytecode: Vec<u8>) -> Result<EngineRequest>;

    /// The result of a run that an engine reports, and that took `time_ms`.
    fn conclude(&self, report: EngineReport, time_ms: u64) -> Result<ExecutionResult>;

    /// Tear the sandbox down.
    fn destroy(&self) -> Result<()>;
}

/// A tree entry of the content-addressed store.
#[derive(Debug, PartialEq, Eq)]
pub struct TreeEntry {
    /// File or directory name.
    pub name: String,
    /// Hash of the object this entry points to.
    pub hash: String,
    /// Blob, tree or executable.
    pub mode: ObjectMode,
}

/// What a [`TreeEntry`] says.
pub struct EntryView {
    pub name: Seq<char>,
    pub hash: Seq<char>,
    pub mode: ObjectMode,
}

impl View for TreeEntry {
    type V = EntryView;

    open spec fn view(&self) -> EntryView {
        EntryView { name: self.name@, hash: self.hash@, mode: self.mode }
    }
}

impl Clone for TreeEntry {
    fn clone(&self) -> (r: Self)
        ensures
            r@ == self@,
    {
        TreeEntry { name: self.name.clone(), hash: self.hash.clone(), mode: self.mode }
    }
}

/// The type of object a tree entry references.
#[derive(Debug, Clone, Copy, PartialEq, Eq, Structural)]
pub enum ObjectMode {
    /// Regular file.
    Blob,
    /// Directory.
    Tree,
    /// Executable file.
    Executable,
}

/// The entries of a tree.
pub open spec fn entries_view(v: Seq<TreeEntry>) -> Seq<EntryView> {
    Seq::new(v.len(), |i: int| v[i]@)
}

/// Content-addressed object storage following the Git model.
pub trait ObjectStore {
    /// Store bytes and return their content hash.
    fn put_blob(&self, data: &[u8]) -> Result<String>;

    /// Retrieve a blob by its content hash.
    fn get_blob(&self, hash: &String) -> Result<Vec<u8>>;

    /// Store a directory tree and return its content hash.
    fn put_tree(&self, entries: Vec<TreeEntry>) -> Result<String>;

    /// Retrieve a directory tree by its content hash.
    fn get_tree(&self, hash: &String) -> Result<Vec<TreeEntry>>;

    /// Create a commit pointing to a tree and return the commit hash.
    fn commit(
        &self,
        tree_hash: String,
        parent_hashes: Vec<String>,
        author: &str,
        message: &str,
    ) -> Result<String>;

    /// Whether an object with the given hash exists in the store.
    fn contains(&self, hash: &String) -> bool;
}

/// A runtime that manages the lifecycle of sandboxes and storage.
pub trait Runtime {
    /// Start the runtime.
    fn start(&self) -> Result<()>;

    /// Shut every subsystem down.
    fn shutdown(&self) -> Result<()>;

    /// Whether the runtime is healthy.
    fn is_healthy(&self) -> bool;
}

/// A source of content-addressed blobs for peers that ask.
pub trait BlobProvider {
    /// The bytes with the given hash, if they are here.
    fn get_blob(&self, hash: &str) -> Option<Vec<u8>>;
}

/// Executes a project task and returns its result, or the reason it could not.
pub trait ProjectExecutor {
    /// Run the task to its end.
    fn run(&self, task: ProjectTask) -> std::result::Result<ProjectResult, String>;
}

} // verus!
