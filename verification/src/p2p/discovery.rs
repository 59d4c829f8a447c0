//! Events that the swarm reports to the node.
use vstd::prelude::*;
use vstd::string::*;
use crate::types::{NodeDescriptor, ProjectResult};

verus! {

/// An event on the peer network. Peers are named by their peer id and addresses
/// by their notation.
#[derive(Debug, PartialEq, Eq)]
pub enum Event {
    /// A peer was discovered.
    PeerDiscovered { peer_id: String, address: String },
    /// A connection to a peer was established.
    PeerConnected { peer_id: String },
    /// A discovered peer has expired.
    PeerExpired { peer_id: String },
    /// A peer sent its descriptor.
    DescriptorReceived { peer_id: String, descriptor: NodeDescriptor },
    /// Our descriptor was sent to a peer.
    DescriptorSent { peer_id: String },
    /// A new listen address is active.
    NewListenAddr { address: String },
    /// A peer identified itself.
    Identified { peer_id: String, agent_version: String },
    /// The connection to a peer closed.
    ConnectionClosed { peer_id: String },
    /// A peer asked for a blob.
    BlobRequestReceived { peer_id: String, hash: String },
    /// A peer answered a request for a blob.
    BlobResponseReceived { peer_id: String, hash: String, found: bool, data: Vec<u8> },
    /// A peer sent a consensus message.
    RaftMessageReceived { peer_id: String, data: Vec<u8> },
    /// The result of a project task is known.
    ProjectResultReceived { peer_id: String, result: ProjectResult },
}

} // verus!
