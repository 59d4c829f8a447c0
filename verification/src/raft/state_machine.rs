//! The replicated cluster state: known nodes and their roles.
use std::collections::HashMap;
use vstd::prelude::*;
use vstd::string::*;
use crate::outside::uuid_text::{uuid_notation, uuid_to_text};
use crate::raft::proposal::{ApplyResult, ApplyView, Proposal, ProposalView};
use crate::text::cat2;
use crate::types::{has_role, DescriptorView, NodeDescriptor, NodeId, Role};

verus! {

broadcast use vstd::std_specs::hash::group_hash_axioms;

/// The replicated cluster state.
#[derive(Debug)]
pub struct ClusterState {
    /// Registry of all known nodes.
    pub nodes: HashMap<NodeId, NodeDescriptor>,
    /// Current role assignments by node.
    pub role_assignments: HashMap<NodeId, Vec<Role>>,
    /// The last applied log index.
    pub last_applied_index: u64,
}

/// What a [`ClusterState`] says.
#[verifier::ext_equal]
pub struct ClusterView {
    pub nodes: Map<NodeId, DescriptorView>,
    pub roles: Map<NodeId, Seq<Role>>,
    pub last_applied_index: u64,
}

impl View for ClusterState {
    type V = ClusterView;

    open spec fn view(&self) -> ClusterView {
        ClusterView {
            nodes: self.nodes@.map_values(|d: NodeDescriptor| d@),
            roles: self.role_assignments@.map_values(|v: Vec<Role>| v@),
            last_applied_index: self.last_applied_index,
        }
    }
}

/// The roles of a node, none where it has no assignment.
pub open spec fn roles_of(s: ClusterView, node_id: NodeId) -> Seq<Role> {
    if s.roles.contains_key(node_id) {
        s.roles[node_id]
    } else {
        Seq::empty()
    }
}

/// The cluster state after a proposal.
pub open spec fn after_proposal(s: ClusterView, p: ProposalView) -> ClusterView {
    match p {
        ProposalView::RegisterNode(d) => ClusterView { nodes: s.nodes.insert(d.node_id, d), ..s },
        ProposalView::DeregisterNode(id) => ClusterView {
            nodes: s.nodes.remove(id),
            roles: s.roles.remove(id),
            ..s
        },
        ProposalView::AssignRole { node_id, role } => if s.nodes.contains_key(node_id)
            && !roles_of(s, node_id).contains(role) {
            ClusterView {
                roles: s.roles.insert(node_id, roles_of(s, node_id).push(role)),
                ..s
            }
        } else {
            s
        },
        ProposalView::RevokeRole { node_id, role } => if roles_of(s, node_id).contains(role) {
            ClusterView {
                roles: s.roles.insert(
                    node_id,
                    roles_of(s, node_id).remove(roles_of(s, node_id).index_of_first(role)->0),
                ),
                ..s
            }
        } else {
            s
        },
    }
}

/// What is answered to a proposal.
pub open spec fn answer_to(s: ClusterView, p: ProposalView) -> ApplyView {
    match p {
        ProposalView::RegisterNode(d) => if s.nodes.contains_key(d.node_id) {
            ApplyView::Applied
        } else {
            ApplyView::NodeRegistered(d.node_id)
        },
        ProposalView::DeregisterNode(id) => ApplyView::NodeDeregistered(id),
        ProposalView::AssignRole { node_id, role } => if !s.nodes.contains_key(node_id) {
            ApplyView::Rejected(
                "Cannot assign role to unknown node: "@ + uuid_notation(node_id),
            )
        } else if roles_of(s, node_id).contains(role) {
            ApplyView::Applied
        } else {
            ApplyView::RoleAssigned { node_id, role }
        },
        ProposalView::RevokeRole { node_id, role } => if roles_of(s, node_id).contains(role) {
            ApplyView::RoleRevoked { node_id, role }
        } else {
            ApplyView::Applied
        },
    }
}

/// The cluster state after proposals applied in order.
pub open spec fn after_proposals(s: ClusterView, ps: Seq<ProposalView>) -> ClusterView
    decreases ps.len(),
{
    if ps.len() == 0 {
        s
    } else {
        after_proposal(after_proposals(s, ps.drop_last()), ps.last())
    }
}

/// The state of a cluster that nothing happened to.
pub open spec fn initial_cluster() -> ClusterView {
    ClusterView { nodes: Map::empty(), roles: Map::empty(), last_applied_index: 0 }
}

/// What every reachable state satisfies: each node is registered under its own
/// id, only registered nodes have roles, and no node has a role twice.
pub open spec fn consistent(s: ClusterView) -> bool {
    &&& forall|id: NodeId| #[trigger] s.nodes.contains_key(id) ==> s.nodes[id].node_id == id
    &&& forall|id: NodeId| #[trigger] s.roles.contains_key(id) ==> s.nodes.contains_key(id)
    &&& forall|id: NodeId| #[trigger] s.roles.contains_key(id) ==> s.roles[id].no_duplicates()
}

/// Every proposal keeps the cluster state consistent.
pub proof fn proposal_keeps_consistent(s: ClusterView, p: ProposalView)
    requires
        consistent(s),
    ensures
        consistent(after_proposal(s, p)),
{
    match p {
        ProposalView::AssignRole { node_id, role } => {
            let t = after_proposal(s, p);
            if t != s {
                let before = roles_of(s, node_id);
                assert(before.no_duplicates());
                assert(t.roles[node_id] == before.push(role));
                assert(before.push(role).no_duplicates()) by {
                    assert forall|i: int, j: int| 0 <= i < before.len() + 1 && 0 <= j
                        < before.len() + 1 && i != j implies before.push(role)[i]
                        != before.push(role)[j] by {
                        if i == before.len() {
                            assert(before.contains(before[j]));
                        }
                        if j == before.len() {
                            assert(before.contains(before[i]));
                        }
                    }
                }
            }
        },
        ProposalView::RevokeRole { node_id, role } => {
            let before = roles_of(s, node_id);
            if before.contains(role) {
                before.index_of_first_ensures(role);
                let at = before.index_of_first(role)->0;
                assert(before.remove(at).no_duplicates());
            }
        },
        _ => {},
    }
}

/// Every state reached from the initial one is consistent.
pub proof fn reachable_states_are_consistent(ps: Seq<ProposalView>)
    ensures
        consistent(after_proposals(initial_cluster(), ps)),
    decreases ps.len(),
{
    if ps.len() > 0 {
        reachable_states_are_consistent(ps.drop_last());
        proposal_keeps_consistent(
            after_proposals(initial_cluster(), ps.drop_last()),
            ps.last(),
        );
    }
}

/// Replicas that apply the same proposals in the same order hold the same state.
pub proof fn replicas_agree(a: ClusterView, b: ClusterView, ps: Seq<ProposalView>)
    requires
        a == b,
    ensures
        after_proposals(a, ps) == after_proposals(b, ps),
{
}

/// Revoking a role that was just assigned leaves the node's roles as they were.
pub proof fn revoke_undoes_assign(s: ClusterView, node_id: NodeId, role: Role)
    requires
        s.nodes.contains_key(node_id),
        !roles_of(s, node_id).contains(role),
    ensures
        ({
            let assigned = after_proposal(s, ProposalView::AssignRole { node_id, role });
            let revoked = after_proposal(assigned, ProposalView::RevokeRole { node_id, role });
            &&& roles_of(assigned, node_id).contains(role)
            &&& roles_of(revoked, node_id) == roles_of(s, node_id)
            &&& revoked.nodes == s.nodes
            &&& revoked.roles.remove(node_id) == s.roles.remove(node_id)
        }),
{
    let before = roles_of(s, node_id);
    let after = before.push(role);
    let assigned = after_proposal(s, ProposalView::AssignRole { node_id, role });
    let revoked = after_proposal(assigned, ProposalView::RevokeRole { node_id, role });
    assert(after[before.len() as int] == role);
    assert(after.contains(role));
    after.index_of_first_ensures(role);
    let at = after.index_of_first(role)->0;
    assert(at == before.len()) by {
        if at < before.len() {
            assert(before[at] == role);
            assert(before.contains(role));
        }
    }
    assert(after.remove(at) =~= before);
    assert(revoked.roles.remove(node_id) =~= s.roles.remove(node_id));
}

/// A point-in-time copy of the cluster state.
#[derive(Debug)]
pub struct ClusterSnapshot {
    /// Registry of all known nodes.
    pub nodes: HashMap<NodeId, NodeDescriptor>,
    /// Role assignments by node.
    pub role_assignments: HashMap<NodeId, Vec<Role>>,
    /// The last applied log index.
    pub last_applied_index: u64,
}

impl View for ClusterSnapshot {
    type V = ClusterView;

    open spec fn view(&self) -> ClusterView {
        ClusterView {
            nodes: self.nodes@.map_values(|d: NodeDescriptor| d@),
            roles: self.role_assignments@.map_values(|v: Vec<Role>| v@),
            last_applied_index: self.last_applied_index,
        }
    }
}

impl Default for ClusterState {
    fn default() -> (r: Self)
        ensures
            r@ == initial_cluster(),
    {
        let r = ClusterState {
            nodes: HashMap::new(),
            role_assignments: HashMap::new(),
            last_applied_index: 0,
        };
        assert(r@ =~= initial_cluster());
        r
    }
}

fn first_role(v: &Vec<Role>, role: Role) -> (r: Option<usize>)
    ensures
        match r {
            Some(i) => v@.contains(role) && v@.index_of_first(role) == Some(i as int) && i
                < v@.len(),
            None => !v@.contains(role),
        },
{
    let mut i: usize = 0;
    while i < v.len()
        invariant
            i <= v@.len(),
            forall|k: int| 0 <= k < i ==> v@[k] != role,
        decreases v@.len() - i,
    {
        if v[i] == role {
            proof {
                v@.index_of_first_ensures(role);
            }
            return Some(i);
        }
        i += 1;
    }
    None
}

impl ClusterState {
    /// Applies a committed proposal.
    pub fn apply(&mut self, proposal: Proposal) -> (r: ApplyResult)
        ensures
            final(self)@ == after_proposal(old(self)@, proposal@),
            r@ == answer_to(old(self)@, proposal@),
    {
        let ghost before = self@;
        match proposal {
            Proposal::RegisterNode(desc) => {
                let node_id = desc.node_id;
                let is_new = !self.nodes.contains_key(&node_id);
                self.nodes.insert(node_id, desc);
                assert(self@ =~= after_proposal(before, ProposalView::RegisterNode(desc@)));
                if is_new {
                    ApplyResult::NodeRegistered(node_id)
                } else {
                    ApplyResult::Applied
                }
            },
            Proposal::DeregisterNode(node_id) => {
                self.nodes.remove(&node_id);
                self.role_assignments.remove(&node_id);
                assert(self@ =~= after_proposal(before, ProposalView::DeregisterNode(node_id)));
                ApplyResult::NodeDeregistered(node_id)
            },
            Proposal::AssignRole { node_id, role } => {
                if !self.nodes.contains_key(&node_id) {
                    return ApplyResult::Rejected(
                        cat2(
                            "Cannot assign role to unknown node: ",
                            uuid_to_text(node_id).as_str(),
                        ),
                    );
                }
                let held = match self.role_assignments.get(&node_id) {
                    Some(roles) => has_role(roles, role),
                    None => false,
                };
                if held {
                    ApplyResult::Applied
                } else {
                    let mut roles = match self.role_assignments.remove(&node_id) {
                        Some(roles) => roles,
                        None => Vec::new(),
                    };
                    assert(roles@ =~= roles_of(before, node_id));
                    roles.push(role);
                    self.role_assignments.insert(node_id, roles);
                    assert(self@ =~= after_proposal(
                        before,
                        ProposalView::AssignRole { node_id, role },
                    ));
                    ApplyResult::RoleAssigned { node_id, role }
                }
            },
            Proposal::RevokeRole { node_id, role } => {
                let at = match self.role_assignments.get(&node_id) {
                    Some(roles) => first_role(roles, role),
                    None => None,
                };
                match at {
                    Some(pos) => {
                        let mut roles = match self.role_assignments.remove(&node_id) {
                            Some(roles) => roles,
                            None => Vec::new(),
                        };
                        roles.remove(pos);
                        self.role_assignments.insert(node_id, roles);
                        assert(self@ =~= after_proposal(
                            before,
                            ProposalView::RevokeRole { node_id, role },
                        ));
                        ApplyResult::RoleRevoked { node_id, role }
                    },
                    None => ApplyResult::Applied,
                }
            },
        }
    }

    /// A copy of the current state.
    pub fn snapshot(&self) -> (r: ClusterSnapshot)
        ensures
            r@ == self@,
    {
        ClusterSnapshot {
            nodes: self.nodes.clone(),
            role_assignments: self.role_assignments.clone(),
            last_applied_index: self.last_applied_index,
        }
    }

    /// The state that a snapshot holds.
    pub fn restore(snapshot: ClusterSnapshot) -> (r: Self)
        ensures
            r@ == snapshot@,
    {
        ClusterState {
            nodes: snapshot.nodes,
            role_assignments: snapshot.role_assignments,
            last_applied_index: snapshot.last_applied_index,
        }
    }
}

/// Restoring a snapshot gives back the state it was taken of.
pub proof fn restore_gives_back_snapshot(
    state: ClusterState,
    snapshot: ClusterSnapshot,
    restored: ClusterState,
)
    requires
        snapshot@ == state@,
        restored@ == snapshot@,
    ensures
        restored@ == state@,
{
}

/// The node that a proposal is about.
pub open spec fn node_in(p: ProposalView) -> NodeId {
    match p {
        ProposalView::RegisterNode(d) => d.node_id,
        ProposalView::DeregisterNode(id) => id,
        ProposalView::AssignRole { node_id, .. } => node_id,
        ProposalView::RevokeRole { node_id, .. } => node_id,
    }
}

/// A proposal about one node changes nothing about any other: every other node is
/// registered afterwards exactly where it was before, with the same descriptor and
/// the same roles.
pub proof fn other_nodes_are_left_alone(s: ClusterView, p: ProposalView, id: NodeId)
    requires
        id != node_in(p),
    ensures
        after_proposal(s, p).nodes.contains_key(id) == s.nodes.contains_key(id),
        s.nodes.contains_key(id) ==> after_proposal(s, p).nodes[id] == s.nodes[id],
        after_proposal(s, p).roles.contains_key(id) == s.roles.contains_key(id),
        s.roles.contains_key(id) ==> after_proposal(s, p).roles[id] == s.roles[id],
        after_proposal(s, p).last_applied_index == s.last_applied_index,
{
}

/// A registered node is known by what it said of itself, and keeps the roles it
/// had.
pub proof fn registered_node_is_known(s: ClusterView, d: DescriptorView)
    ensures
        ({
            let t = after_proposal(s, ProposalView::RegisterNode(d));
            &&& t.nodes.contains_key(d.node_id)
            &&& t.nodes[d.node_id] == d
            &&& t.roles == s.roles
        }),
{
}

/// A deregistered node is neither registered nor holds roles, and has none when it
/// registers again.
pub proof fn deregistered_node_is_gone(s: ClusterView, id: NodeId, d: DescriptorView)
    requires
        d.node_id == id,
    ensures
        ({
            let t = after_proposal(s, ProposalView::DeregisterNode(id));
            let again = after_proposal(t, ProposalView::RegisterNode(d));
            &&& !t.nodes.contains_key(id)
            &&& !t.roles.contains_key(id)
            &&& again.nodes.contains_key(id)
            &&& !again.roles.contains_key(id)
        }),
{
}

/// A registered node has a role once it is assigned, beside those it had, and no
/// other role with it. A node that is not registered gets none, and nothing
/// changes.
pub proof fn assigned_role_is_held(s: ClusterView, node_id: NodeId, role: Role)
    ensures
        ({
            let t = after_proposal(s, ProposalView::AssignRole { node_id, role });
            &&& t.nodes == s.nodes
            &&& s.nodes.contains_key(node_id) ==> t.roles.contains_key(node_id)
                && t.roles[node_id].contains(role)
            &&& s.nodes.contains_key(node_id) ==> forall|r: Role|
                r != role ==> (#[trigger] t.roles[node_id].contains(r) <==> s.roles.contains_key(
                    node_id,
                ) && s.roles[node_id].contains(r))
            &&& !s.nodes.contains_key(node_id) ==> t.roles == s.roles
        }),
{
    let before = roles_of(s, node_id);
    let after = before.push(role);
    assert(after[before.len() as int] == role);
    assert forall|r: Role| r != role implies #[trigger] after.contains(r) == before.contains(r) by {
        if before.contains(r) {
            let i = choose|i: int| 0 <= i < before.len() && before[i] == r;
            assert(after[i] == r);
        }
        if after.contains(r) {
            let i = choose|i: int| 0 <= i < after.len() && after[i] == r;
            assert(before[i] == r);
        }
    }
}

/// A node no longer has a role once it is revoked, where it had it once, and keeps
/// every other role.
pub proof fn revoked_role_is_lost(s: ClusterView, node_id: NodeId, role: Role)
    requires
        s.roles.contains_key(node_id) ==> s.roles[node_id].no_duplicates(),
    ensures
        ({
            let t = after_proposal(s, ProposalView::RevokeRole { node_id, role });
            &&& t.nodes == s.nodes
            &&& t.roles.contains_key(node_id) == s.roles.contains_key(node_id)
            &&& t.roles.contains_key(node_id) ==> !t.roles[node_id].contains(role)
            &&& t.roles.contains_key(node_id) ==> forall|r: Role|
                r != role ==> (#[trigger] t.roles[node_id].contains(r)
                    <==> s.roles[node_id].contains(r))
        }),
{
    let before = roles_of(s, node_id);
    if before.contains(role) {
        before.index_of_first_ensures(role);
        let at = before.index_of_first(role)->0;
        let after = before.remove(at);
        assert forall|r: Role| #[trigger] after.contains(r) == (r != role && before.contains(r)) by {
            if after.contains(r) {
                let i = choose|i: int| 0 <= i < after.len() && after[i] == r;
                let j = if i < at {
                    i
                } else {
                    i + 1
                };
                assert(before[j] == r);
                assert(before[j] != before[at]);
            }
            if r != role && before.contains(r) {
                let j = choose|j: int| 0 <= j < before.len() && before[j] == r;
                let i = if j < at {
                    j
                } else {
                    j - 1
                };
                assert(after[i] == r);
            }
        }
    }
}

/// The answer to a proposal tells what it did: whether a node is new, whether a role
/// was assigned or revoked, and that a role for a node that is not registered was
/// refused.
pub proof fn answer_tells_what_happened(s: ClusterView, p: ProposalView)
    ensures
        ({
            let t = after_proposal(s, p);
            let answer = answer_to(s, p);
            match p {
                ProposalView::RegisterNode(d) => if s.nodes.contains_key(d.node_id) {
                    answer == ApplyView::Applied
                } else {
                    answer == ApplyView::NodeRegistered(d.node_id)
                },
                ProposalView::DeregisterNode(id) => answer == ApplyView::NodeDeregistered(id),
                ProposalView::AssignRole { node_id, role } => {
                    &&& answer is Rejected <==> !s.nodes.contains_key(node_id)
                    &&& answer is RoleAssigned <==> t.roles != s.roles
                    &&& answer is RoleAssigned ==> answer == ApplyView::RoleAssigned {
                        node_id,
                        role,
                    }
                    &&& answer is Rejected || answer is RoleAssigned || answer is Applied
                },
                ProposalView::RevokeRole { node_id, role } => {
                    &&& answer is RoleRevoked <==> t.roles != s.roles
                    &&& answer is RoleRevoked ==> answer == ApplyView::RoleRevoked { node_id, role }
                    &&& answer is RoleRevoked || answer is Applied
                },
            }
        }),
{
    let t = after_proposal(s, p);
    match p {
        ProposalView::AssignRole { node_id, role } => {
            let before = roles_of(s, node_id);
            if s.nodes.contains_key(node_id) && !before.contains(role) {
                assert(t.roles[node_id].len() == before.len() + 1);
                assert(s.roles.contains_key(node_id) ==> s.roles[node_id].len() == before.len());
                assert(t.roles.contains_key(node_id));
            }
        },
        ProposalView::RevokeRole { node_id, role } => {
            let before = roles_of(s, node_id);
            if before.contains(role) {
                before.index_of_first_ensures(role);
                assert(t.roles[node_id].len() == before.len() - 1);
            }
        },
        _ => {},
    }
}

/// A cluster begins with nobody in it and nothing applied.
pub proof fn cluster_begins_empty(id: NodeId)
    ensures
        !initial_cluster().nodes.contains_key(id),
        roles_of(initial_cluster(), id).len() == 0,
        initial_cluster().last_applied_index == 0,
{
}

} // verus!
