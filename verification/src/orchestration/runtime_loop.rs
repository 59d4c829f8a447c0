//! Registration of a node in the replicated state, and the choice of an executor.
use vstd::prelude::*;
use crate::maps::keys_of;
use crate::raft::proposal::{Proposal, ProposalView};
use crate::raft::state_machine::{after_proposal, ClusterState, ClusterView};
use crate::types::{has_role, DescriptorView, NodeDescriptor, NodeId, Role};

verus! {

broadcast use vstd::std_specs::hash::group_hash_axioms;

/// Time between attempts to register, in milliseconds.
pub const REGISTER_INTERVAL_MS: u64 = 2000;

/// Whether a node can be given work: it executes, takes part in consensus, and is
/// not the excluded one.
pub open spec fn executes(d: DescriptorView, exclude: Option<u64>) -> bool {
    d.raft_id is Some && d.current_assigned_roles.contains(Role::Execution) && d.raft_id != exclude
}

/// The participant id of a node that can be given work, if there is one.
pub fn pick_executor(state: &ClusterState, exclude: Option<u64>) -> (r: Option<u64>)
    ensures
        match r {
            Some(id) => exists|k: NodeId| #[trigger]
                state@.nodes.contains_key(k) && executes(state@.nodes[k], exclude)
                    && state@.nodes[k].raft_id == Some(id),
            None => forall|k: NodeId| #[trigger]
                state@.nodes.contains_key(k) ==> !executes(state@.nodes[k], exclude),
        },
{
    let ids = keys_of(&state.nodes);
    let mut i: usize = 0;
    while i < ids.len()
        invariant
            i <= ids@.len(),
            forall|k: NodeId| #[trigger] state.nodes@.contains_key(k) == ids@.contains(k),
            forall|j: int|
                0 <= j < i ==> !executes(state@.nodes[#[trigger] ids@[j]], exclude),
        decreases ids@.len() - i,
    {
        let id = ids[i];
        assert(ids@.contains(id));
        assert(state.nodes@.contains_key(id));
        match state.nodes.get(&id) {
            Some(d) => {
                assert(state@.nodes.contains_key(id) && state@.nodes[id] == d@);
                match d.raft_id {
                    Some(raft_id) => {
                        let excluded = match exclude {
                            Some(x) => x == raft_id,
                            None => false,
                        };
                        if !excluded && has_role(&d.current_assigned_roles, Role::Execution) {
                            return Some(raft_id);
                        }
                    },
                    None => {},
                }
            },
            None => {},
        }
        i += 1;
    }
    proof {
        assert forall|k: NodeId| #[trigger] state@.nodes.contains_key(k) implies !executes(
            state@.nodes[k],
            exclude,
        ) by {
            assert(state.nodes@.contains_key(k));
            let j = choose|j: int| 0 <= j < ids@.len() && ids@[j] == k;
            assert(!executes(state@.nodes[ids@[j]], exclude));
        }
    }
    None
}

/// Whether a participant is registered.
pub open spec fn registered(s: ClusterView, raft_id: u64) -> bool {
    exists|k: NodeId| #[trigger] s.nodes.contains_key(k) && s.nodes[k].raft_id == Some(raft_id)
}

fn is_registered(state: &ClusterState, raft_id: u64) -> (r: bool)
    ensures
        r == registered(state@, raft_id),
{
    let ids = keys_of(&state.nodes);
    let mut i: usize = 0;
    while i < ids.len()
        invariant
            i <= ids@.len(),
            forall|k: NodeId| #[trigger] state.nodes@.contains_key(k) == ids@.contains(k),
            forall|j: int| 0 <= j < i ==> state@.nodes[#[trigger] ids@[j]].raft_id != Some(raft_id),
        decreases ids@.len() - i,
    {
        let id = ids[i];
        assert(ids@.contains(id));
        assert(state.nodes@.contains_key(id));
        match state.nodes.get(&id) {
            Some(d) => {
                assert(state@.nodes.contains_key(id) && state@.nodes[id] == d@);
                match d.raft_id {
                    Some(x) => {
                        if x == raft_id {
                            return true;
                        }
                    },
                    None => {},
                }
            },
            None => {},
        }
        i += 1;
    }
    proof {
        assert forall|k: NodeId| #[trigger] state@.nodes.contains_key(k) implies state@.nodes[k].raft_id
            != Some(raft_id) by {
            assert(state.nodes@.contains_key(k));
            let j = choose|j: int| 0 <= j < ids@.len() && ids@[j] == k;
            assert(state@.nodes[ids@[j]].raft_id != Some(raft_id));
        }
    }
    false
}

/// What a node proposes at every interval: its registration, until it is
/// registered.
pub fn registration(state: &ClusterState, raft_id: u64, descriptor: &NodeDescriptor) -> (r: Option<
    Proposal,
>)
    ensures
        match r {
            Some(p) => !registered(state@, raft_id) && p@ == ProposalView::RegisterNode(
                descriptor@,
            ),
            None => registered(state@, raft_id),
        },
{
    if is_registered(state, raft_id) {
        None
    } else {
        Some(Proposal::RegisterNode(descriptor.clone()))
    }
}

/// Once a node's registration is applied the node is registered, so that it
/// proposes nothing further.
pub proof fn registration_registers(s: ClusterView, d: DescriptorView, raft_id: u64)
    requires
        d.raft_id == Some(raft_id),
    ensures
        registered(after_proposal(s, ProposalView::RegisterNode(d)), raft_id),
{
    let t = after_proposal(s, ProposalView::RegisterNode(d));
    assert(t.nodes.contains_key(d.node_id));
}

/// A node can be given work exactly where it has the role for it and takes part in
/// consensus under another id than the excluded one.
pub proof fn executors_have_the_role(d: DescriptorView, exclude: Option<u64>)
    ensures
        executes(d, exclude) <==> d.raft_id is Some && (exists|i: int|
            0 <= i < d.current_assigned_roles.len() && #[trigger] d.current_assigned_roles[i]
                == Role::Execution) && (exclude matches Some(x) ==> d.raft_id != Some(x)),
{
}

} // verus!
