//! Commands to the swarm.
use vstd::prelude::*;
use vstd::string::*;
use crate::types::ProjectTask;

verus! {

/// Commands that the swarm carries out. Peers are named by their peer id and
/// addresses by their notation.
#[derive(Debug, PartialEq, Eq)]
pub enum SwarmCommand {
    /// Dial a peer.
    Dial {
        /// The address to dial.
        addr: String,
    },
    /// Request a descriptor from a peer.
    RequestDescriptor {
        /// The peer to request from.
        peer_id: String,
    },
    /// Send a consensus message to a peer.
    SendRaftMessage {
        /// The recipient.
        peer_id: String,
        /// The message's bytes.
        data: Vec<u8>,
    },
    /// Ask a peer for a blob.
    RequestBlob {
        /// The peer to ask.
        peer_id: String,
        /// The blob's hash.
        hash: String,
    },
    /// Send a project task to a peer.
    SendProjectTask {
        /// The executor.
        peer_id: String,
        /// The task.
        task: ProjectTask,
    },
}

/// What a [`SwarmCommand`] says.
pub enum CommandView {
    Dial { addr: Seq<char> },
    RequestDescriptor { peer_id: Seq<char> },
    SendRaftMessage { peer_id: Seq<char>, data: Seq<u8> },
    RequestBlob { peer_id: Seq<char>, hash: Seq<char> },
    SendProjectTask { peer_id: Seq<char>, task: ProjectTask },
}

impl View for SwarmCommand {
    type V = CommandView;

    open spec fn view(&self) -> CommandView {
        match self {
            SwarmCommand::Dial { addr } => CommandView::Dial { addr: addr@ },
            SwarmCommand::RequestDescriptor { peer_id } => CommandView::RequestDescriptor {
                peer_id: peer_id@,
            },
            SwarmCommand::SendRaftMessage { peer_id, data } => CommandView::SendRaftMessage {
                peer_id: peer_id@,
                data: data@,
            },
            SwarmCommand::RequestBlob { peer_id, hash } => CommandView::RequestBlob {
                peer_id: peer_id@,
                hash: hash@,
            },
            SwarmCommand::SendProjectTask { peer_id, task } => CommandView::SendProjectTask {
                peer_id: peer_id@,
                task: *task,
            },
        }
    }
}

/// What commands say.
pub open spec fn commands_view(v: Seq<SwarmCommand>) -> Seq<CommandView> {
    Seq::new(v.len(), |i: int| v[i]@)
}

} // verus!
