//! Consensus messages addressed by participant id, handed to the peer layer.
use vstd::prelude::*;
use vstd::string::*;
use crate::error::{CoreError, ErrorView, Result};
use crate::text::{cat4, decimal, decimal_text};

verus! {

/// A consensus message on its way.
#[derive(Debug, PartialEq, Eq)]
pub struct RaftEnvelope {
    /// The sender's participant id.
    pub from: u64,
    /// The recipient's participant id.
    pub to: u64,
    /// The message's bytes.
    pub data: Vec<u8>,
}

impl RaftEnvelope {
    /// An envelope for an encoded message.
    pub fn new(from: u64, to: u64, data: Vec<u8>) -> (r: Self)
        ensures
            r.from == from,
            r.to == to,
            r.data@ == data@,
    {
        RaftEnvelope { from, to, data }
    }
}

/// Commands from consensus to the peer layer.
#[derive(Debug, PartialEq, Eq)]
pub enum SwarmRaftCommand {
    /// Send a message to a participant.
    SendRaftMessage {
        /// The recipient's participant id.
        to: u64,
        /// The message's bytes.
        data: Vec<u8>,
    },
}

/// What came of handing a message to the peer layer.
pub fn sent(to: u64, queued: std::result::Result<(), String>) -> (r: Result<()>)
    ensures
        match queued {
            Ok(_) => r is Ok,
            Err(e) => r is Err && r->Err_0@ == ErrorView::Network(
                "failed to send Raft message to "@ + decimal(to as nat) + ": "@ + e@,
            ),
        },
{
    match queued {
        Ok(_) => Ok(()),
        Err(e) => Err(
            CoreError::Network(
                cat4(
                    "failed to send Raft message to ",
                    decimal_text(to).as_str(),
                    ": ",
                    e.as_str(),
                ),
            ),
        ),
    }
}

/// A registry of peers that maps nothing yet.
#[derive(Debug, Clone, Copy, PartialEq, Eq)]
pub struct PeerRegistry {}

impl PeerRegistry {
    /// An empty registry.
    pub fn new() -> (r: Self)
        ensures
            r == (PeerRegistry {  }),
    {
        PeerRegistry {  }
    }
}

} // verus!
