//! The error type shared by every subsystem.
use vstd::prelude::*;
use vstd::string::*;
use crate::text::{cat2, cat4, decimal, decimal_text};

verus! {

/// Result type used across the crate.
pub type Result<T> = std::result::Result<T, CoreError>;

/// Unified error type; each variant belongs to one subsystem.
#[derive(Debug, PartialEq, Eq)]
pub enum CoreError {
    /// Failed to establish or maintain a P2P connection.
    Network(String),
    /// Peer was not found in the local peer table.
    PeerNotFound(String),
    /// Timed out waiting for a response from a peer.
    PeerTimeout(String),
    /// Failed to start or configure the swarm.
    Swarm(String),
    /// Object not found in the content-addressed store.
    ObjectNotFound(String),
    /// Hash verification failed.
    HashMismatch {
        /// The expected hash.
        expected: String,
        /// The hash computed from the data.
        computed: String,
    },
    /// I/O error during storage operations.
    StorageIo(String),
    /// Garbage collection or packfile corruption.
    StorageCorruption(String),
    /// Consensus protocol error.
    Raft(String),
    /// Proposal was rejected.
    ProposalRejected(String),
    /// Not the current leader.
    NotLeader(Option<u64>),
    /// Sandbox execution failed.
    SandboxExecution(String),
    /// Resource limit exceeded during sandbox execution.
    ResourceLimitExceeded(String),
    /// The requested runtime kind is not supported.
    UnsupportedRuntime(String),
    /// The requested sandbox kind is not supported on this platform.
    UnsupportedPlatform(String),
    /// Configuration is invalid or missing.
    Configuration(String),
    /// Invalid argument or state transition.
    InvalidState(String),
    /// Failed to serialize or deserialize data.
    Serialization(String),
    /// An internal error that should not normally occur.
    Internal(String),
}

/// What a [`CoreError`] says, over mathematical text.
pub enum ErrorView {
    Network(Seq<char>),
    PeerNotFound(Seq<char>),
    PeerTimeout(Seq<char>),
    Swarm(Seq<char>),
    ObjectNotFound(Seq<char>),
    HashMismatch { expected: Seq<char>, computed: Seq<char> },
    StorageIo(Seq<char>),
    StorageCorruption(Seq<char>),
    Raft(Seq<char>),
    ProposalRejected(Seq<char>),
    NotLeader(Option<u64>),
    SandboxExecution(Seq<char>),
    ResourceLimitExceeded(Seq<char>),
    UnsupportedRuntime(Seq<char>),
    UnsupportedPlatform(Seq<char>),
    Configuration(Seq<char>),
    InvalidState(Seq<char>),
    Serialization(Seq<char>),
    Internal(Seq<char>),
}

impl View for CoreError {
    type V = ErrorView;

    open spec fn view(&self) -> ErrorView {
        match self {
            CoreError::Network(s) => ErrorView::Network(s@),
            CoreError::PeerNotFound(s) => ErrorView::PeerNotFound(s@),
            CoreError::PeerTimeout(s) => ErrorView::PeerTimeout(s@),
            CoreError::Swarm(s) => ErrorView::Swarm(s@),
            CoreError::ObjectNotFound(s) => ErrorView::ObjectNotFound(s@),
            CoreError::HashMismatch { expected, computed } => ErrorView::HashMismatch {
                expected: expected@,
                computed: computed@,
            },
            CoreError::StorageIo(s) => ErrorView::StorageIo(s@),
            CoreError::StorageCorruption(s) => ErrorView::StorageCorruption(s@),
            CoreError::Raft(s) => ErrorView::Raft(s@),
            CoreError::ProposalRejected(s) => ErrorView::ProposalRejected(s@),
            CoreError::NotLeader(l) => ErrorView::NotLeader(*l),
            CoreError::SandboxExecution(s) => ErrorView::SandboxExecution(s@),
            CoreError::ResourceLimitExceeded(s) => ErrorView::ResourceLimitExceeded(s@),
            CoreError::UnsupportedRuntime(s) => ErrorView::UnsupportedRuntime(s@),
            CoreError::UnsupportedPlatform(s) => ErrorView::UnsupportedPlatform(s@),
            CoreError::Configuration(s) => ErrorView::Configuration(s@),
            CoreError::InvalidState(s) => ErrorView::InvalidState(s@),
            CoreError::Serialization(s) => ErrorView::Serialization(s@),
            CoreError::Internal(s) => ErrorView::Internal(s@),
        }
    }
}

/// The message shown for an error.
pub open spec fn error_message(e: ErrorView) -> Seq<char> {
    match e {
        ErrorView::Network(s) => "network error: "@ + s,
        ErrorView::PeerNotFound(s) => "peer not found: "@ + s,
        ErrorView::PeerTimeout(s) => "peer timeout: "@ + s,
        ErrorView::Swarm(s) => "swarm error: "@ + s,
        ErrorView::ObjectNotFound(s) => "object not found: "@ + s,
        ErrorView::HashMismatch { expected, computed } => "hash mismatch: expected "@ + expected
            + ", computed "@ + computed,
        ErrorView::StorageIo(s) => "storage I/O error: "@ + s,
        ErrorView::StorageCorruption(s) => "storage corruption: "@ + s,
        ErrorView::Raft(s) => "raft error: "@ + s,
        ErrorView::ProposalRejected(s) => "proposal rejected: "@ + s,
        ErrorView::NotLeader(l) => "not leader — leader is "@ + leader_text(l),
        ErrorView::SandboxExecution(s) => "sandbox execution error: "@ + s,
        ErrorView::ResourceLimitExceeded(s) => "resource limit exceeded: "@ + s,
        ErrorView::UnsupportedRuntime(s) => "unsupported runtime: "@ + s,
        ErrorView::UnsupportedPlatform(s) => "unsupported platform for sandbox: "@ + s,
        ErrorView::Configuration(s) => "configuration error: "@ + s,
        ErrorView::InvalidState(s) => "invalid state: "@ + s,
        ErrorView::Serialization(s) => "serialization error: "@ + s,
        ErrorView::Internal(s) => "internal error: "@ + s,
    }
}

/// How a known or unknown leader is written.
pub open spec fn leader_text(l: Option<u64>) -> Seq<char> {
    match l {
        Some(id) => "Some("@ + decimal(id as nat) + ")"@,
        None => "None"@,
    }
}

impl CoreError {
    /// The message shown for this error.
    pub fn to_string(&self) -> (r: String)
        ensures
            r@ == error_message(self@),
    {
        match self {
            CoreError::Network(s) => cat2("network error: ", s.as_str()),
            CoreError::PeerNotFound(s) => cat2("peer not found: ", s.as_str()),
            CoreError::PeerTimeout(s) => cat2("peer timeout: ", s.as_str()),
            CoreError::Swarm(s) => cat2("swarm error: ", s.as_str()),
            CoreError::ObjectNotFound(s) => cat2("object not found: ", s.as_str()),
            CoreError::HashMismatch { expected, computed } => cat4(
                "hash mismatch: expected ",
                expected.as_str(),
                ", computed ",
                computed.as_str(),
            ),
            CoreError::StorageIo(s) => cat2("storage I/O error: ", s.as_str()),
            CoreError::StorageCorruption(s) => cat2("storage corruption: ", s.as_str()),
            CoreError::Raft(s) => cat2("raft error: ", s.as_str()),
            CoreError::ProposalRejected(s) => cat2("proposal rejected: ", s.as_str()),
            CoreError::NotLeader(l) => {
                let who = match l {
                    Some(id) => {
                        let mut t = cat2("Some(", decimal_text(*id).as_str());
                        t.append(")");
                        t
                    },
                    None => String::from_str("None"),
                };
                cat2("not leader — leader is ", who.as_str())
            },
            CoreError::SandboxExecution(s) => cat2("sandbox execution error: ", s.as_str()),
            CoreError::ResourceLimitExceeded(s) => cat2("resource limit exceeded: ", s.as_str()),
            CoreError::UnsupportedRuntime(s) => cat2("unsupported runtime: ", s.as_str()),
            CoreError::UnsupportedPlatform(s) => cat2(
                "unsupported platform for sandbox: ",
                s.as_str(),
            ),
            CoreError::Configuration(s) => cat2("configuration error: ", s.as_str()),
            CoreError::InvalidState(s) => cat2("invalid state: ", s.as_str()),
            CoreError::Serialization(s) => cat2("serialization error: ", s.as_str()),
            CoreError::Internal(s) => cat2("internal error: ", s.as_str()),
        }
    }

    /// The error for a failed I/O operation, given its text.
    pub fn from_io(text: String) -> (r: Self)
        ensures
            r@ == ErrorView::StorageIo(text@),
    {
        CoreError::StorageIo(text)
    }

    /// The error for failed JSON handling, given its text.
    pub fn from_json(text: String) -> (r: Self)
        ensures
            r@ == ErrorView::Serialization(text@),
    {
        CoreError::Serialization(text)
    }

    /// The error for a malformed UUID, given the parser's text.
    pub fn from_uuid(text: &str) -> (r: Self)
        ensures
            r@ == ErrorView::InvalidState("invalid UUID: "@ + text@),
    {
        CoreError::InvalidState(cat2("invalid UUID: ", text))
    }
}

} // verus!
