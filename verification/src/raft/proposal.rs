//! Operations submitted to the cluster for consensus, and what came of them.
use vstd::prelude::*;
use vstd::string::*;
use crate::types::{DescriptorView, NodeDescriptor, NodeId, Role};

verus! {

/// An operation on the cluster state.
#[derive(Debug, PartialEq, Eq)]
pub enum Proposal {
    /// Register a new node, or update a known one.
    RegisterNode(NodeDescriptor),
    /// Remove a node from the cluster.
    DeregisterNode(NodeId),
    /// Assign a role to a node.
    AssignRole {
        /// The node to assign the role to.
        node_id: NodeId,
        /// The role to assign.
        role: Role,
    },
    /// Revoke a role from a node.
    RevokeRole {
        /// The node to revoke the role from.
        node_id: NodeId,
        /// The role to revoke.
        role: Role,
    },
}

/// What a [`Proposal`] says.
pub enum ProposalView {
    RegisterNode(DescriptorView),
    DeregisterNode(NodeId),
    AssignRole { node_id: NodeId, role: Role },
    RevokeRole { node_id: NodeId, role: Role },
}

impl View for Proposal {
    type V = ProposalView;

    open spec fn view(&self) -> ProposalView {
        match self {
            Proposal::RegisterNode(d) => ProposalView::RegisterNode(d@),
            Proposal::DeregisterNode(id) => ProposalView::DeregisterNode(*id),
            Proposal::AssignRole { node_id, role } => ProposalView::AssignRole {
                node_id: *node_id,
                role: *role,
            },
            Proposal::RevokeRole { node_id, role } => ProposalView::RevokeRole {
                node_id: *node_id,
                role: *role,
            },
        }
    }
}

/// What proposals say.
pub open spec fn proposals_view(v: Seq<Proposal>) -> Seq<ProposalView> {
    Seq::new(v.len(), |i: int| v[i]@)
}

/// What came of applying a proposal.
#[derive(Debug, PartialEq, Eq)]
pub enum ApplyResult {
    /// Applied; nothing to add.
    Applied,
    /// The node was registered.
    NodeRegistered(NodeId),
    /// The node was deregistered.
    NodeDeregistered(NodeId),
    /// The role was assigned.
    RoleAssigned { node_id: NodeId, role: Role },
    /// The role was revoked.
    RoleRevoked { node_id: NodeId, role: Role },
    /// The proposal was rejected, and why.
    Rejected(String),
}

/// What an [`ApplyResult`] says.
pub enum ApplyView {
    Applied,
    NodeRegistered(NodeId),
    NodeDeregistered(NodeId),
    RoleAssigned { node_id: NodeId, role: Role },
    RoleRevoked { node_id: NodeId, role: Role },
    Rejected(Seq<char>),
}

impl View for ApplyResult {
    type V = ApplyView;

    open spec fn view(&self) -> ApplyView {
        match self {
            ApplyResult::Applied => ApplyView::Applied,
            ApplyResult::NodeRegistered(id) => ApplyView::NodeRegistered(*id),
            ApplyResult::NodeDeregistered(id) => ApplyView::NodeDeregistered(*id),
            ApplyResult::RoleAssigned { node_id, role } => ApplyView::RoleAssigned {
                node_id: *node_id,
                role: *role,
            },
            ApplyResult::RoleRevoked { node_id, role } => ApplyView::RoleRevoked {
                node_id: *node_id,
                role: *role,
            },
            ApplyResult::Rejected(s) => ApplyView::Rejected(s@),
        }
    }
}

} // verus!
