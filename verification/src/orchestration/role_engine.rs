//! The role engine: applies topologies and reassigns the roles of failed nodes.
use std::collections::HashMap;
use vstd::prelude::*;
use vstd::string::*;
use crate::error::{CoreError, ErrorView};
use crate::maps::keys_of;
use crate::orchestration::selector::{desired_among, resolve};
use crate::orchestration::topology::{diff_topology, is_difference, lists_distinct, lists_view, ClusterTopologySpec};
use crate::raft::proposal::{proposals_view, Proposal, ProposalView};
use crate::text::{cat2, str_eq};
use crate::types::{clone_roles, texts, Capabilities, CapabilitiesView, DescriptorView, NodeDescriptor, NodeId, NodeType, Role};

verus! {

broadcast use vstd::std_specs::hash::group_hash_axioms;

/// Keeps role assignments at the desired topology.
#[derive(Debug)]
pub struct RoleOrchestrationEngine {
    desired_topology: Option<ClusterTopologySpec>,
    nodes: HashMap<NodeId, NodeDescriptor>,
}

/// What a [`RoleOrchestrationEngine`] knows.
#[verifier::ext_equal]
pub struct EngineView {
    /// The topology that was applied last.
    pub desired: Option<ClusterTopologySpec>,
    /// The known nodes.
    pub nodes: Map<NodeId, DescriptorView>,
}

impl View for RoleOrchestrationEngine {
    type V = EngineView;

    closed spec fn view(&self) -> EngineView {
        EngineView {
            desired: self.desired_topology,
            nodes: self.nodes@.map_values(|d: NodeDescriptor| d@),
        }
    }
}

/// The roles that nodes say they have.
pub open spec fn current_roles(nodes: Map<NodeId, DescriptorView>) -> Map<NodeId, Seq<Role>> {
    nodes.map_values(|d: DescriptorView| d.current_assigned_roles)
}

/// Whether two lists share a text.
pub open spec fn share(a: Seq<Seq<char>>, b: Seq<Seq<char>>) -> bool {
    exists|i: int| 0 <= i < a.len() && b.contains(#[trigger] a[i])
}

/// Whether a node can take over a role from one with the given capabilities.
pub open spec fn suits(d: DescriptorView, role: Role, lost: CapabilitiesView) -> bool {
    match role {
        Role::Execution => share(d.capabilities.runtimes, lost.runtimes),
        Role::Storage => d.capabilities.storage,
        Role::Inference => d.capabilities.gpu_acceleration,
        Role::Coordinator => true,
        Role::Bootstrap => d.node_type == NodeType::Heavy,
    }
}

/// Whether any node can take over a role.
pub open spec fn any_suits(nodes: Map<NodeId, DescriptorView>, role: Role, lost: CapabilitiesView) -> bool {
    exists|k: NodeId| #[trigger] nodes.contains_key(k) && suits(nodes[k], role, lost)
}

/// Whether proposals give each lost role, in order, to a node that can take it
/// over; a role that no node can take over is left out.
pub open spec fn failover(
    nodes: Map<NodeId, DescriptorView>,
    roles: Seq<Role>,
    lost: CapabilitiesView,
    r: Seq<ProposalView>,
) -> bool
    decreases roles.len(),
{
    if roles.len() == 0 {
        r.len() == 0
    } else if any_suits(nodes, roles.last(), lost) {
        &&& r.len() > 0
        &&& r.last() is AssignRole
        &&& r.last()->AssignRole_role == roles.last()
        &&& nodes.contains_key(r.last()->AssignRole_node_id)
        &&& suits(nodes[r.last()->AssignRole_node_id], roles.last(), lost)
        &&& failover(nodes, roles.drop_last(), lost, r.drop_last())
    } else {
        failover(nodes, roles.drop_last(), lost, r)
    }
}

fn have_common(a: &Vec<String>, b: &Vec<String>) -> (r: bool)
    ensures
        r == share(texts(a@), texts(b@)),
{
    let mut i: usize = 0;
    while i < a.len()
        invariant
            i <= a@.len(),
            forall|k: int| 0 <= k < i ==> !texts(b@).contains(#[trigger] texts(a@)[k]),
        decreases a@.len() - i,
    {
        let mut j: usize = 0;
        while j < b.len()
            invariant
                i < a@.len(),
                j <= b@.len(),
                forall|k: int| 0 <= k < j ==> texts(b@)[k] != texts(a@)[i as int],
            decreases b@.len() - j,
        {
            if str_eq(a[i].as_str(), b[j].as_str()) {
                assert(texts(b@)[j as int] == texts(a@)[i as int]);
                assert(texts(b@).contains(texts(a@)[i as int]));
                return true;
            }
            j += 1;
        }
        i += 1;
    }
    false
}

fn can_take(d: &NodeDescriptor, role: Role, lost: &Capabilities) -> (r: bool)
    ensures
        r == suits(d@, role, lost@),
{
    match role {
        Role::Execution => have_common(&d.capabilities.runtimes, &lost.runtimes),
        Role::Storage => d.capabilities.storage,
        Role::Inference => d.capabilities.gpu_acceleration,
        Role::Coordinator => true,
        Role::Bootstrap => d.node_type == NodeType::Heavy,
    }
}

/// The error for a proposal that could not be sent.
pub fn proposal_not_sent(reason: &str) -> (r: CoreError)
    ensures
        r@ == ErrorView::Network("send proposal: "@ + reason@),
{
    CoreError::Network(cat2("send proposal: ", reason))
}

impl RoleOrchestrationEngine {
    /// An engine that knows no node.
    pub fn new() -> (r: Self)
        ensures
            r@ == (EngineView { desired: None, nodes: Map::empty() }),
    {
        let r = RoleOrchestrationEngine { desired_topology: None, nodes: HashMap::new() };
        assert(r@ =~= (EngineView { desired: None, nodes: Map::empty() }));
        r
    }

    /// Take a topology over: the proposals that lead there. An assignment that names
    /// no node is meant for every known node that has its capabilities and runs its
    /// operating system.
    pub fn apply_topology(&mut self, spec: ClusterTopologySpec) -> (r: Vec<Proposal>)
        ensures
            is_difference(
                current_roles(old(self)@.nodes),
                desired_among(spec.assignments@, old(self)@.nodes),
                proposals_view(r@),
            ),
            lists_distinct(current_roles(old(self)@.nodes)) ==> proposals_view(
                r@,
            ).no_duplicates(),
            final(self)@ == (EngineView { desired: Some(spec), ..old(self)@ }),
    {
        let ids = keys_of(&self.nodes);
        let mut roles: HashMap<NodeId, Vec<Role>> = HashMap::new();
        let mut i: usize = 0;
        while i < ids.len()
            invariant
                i <= ids@.len(),
                *self == *old(self),
                forall|k: NodeId| #[trigger] self.nodes@.contains_key(k) == ids@.contains(k),
                forall|k: NodeId| #[trigger]
                    roles@.contains_key(k) == ids@.take(i as int).contains(k),
                forall|k: NodeId| #[trigger]
                    roles@.contains_key(k) ==> self.nodes@.contains_key(k) && roles@[k]@
                        == self.nodes@[k].current_assigned_roles@,
            decreases ids@.len() - i,
        {
            let id = ids[i];
            assert(ids@.contains(id));
            assert(self.nodes@.contains_key(id));
            let ghost before = roles@;
            match self.nodes.get(&id) {
                Some(d) => {
                    roles.insert(id, clone_roles(&d.current_assigned_roles));
                },
                None => {},
            }
            proof {
                let front = ids@.take(i as int);
                let now = ids@.take(i + 1);
                assert forall|k: NodeId| #[trigger] roles@.contains_key(k) == now.contains(k) by {
                    assert(before.contains_key(k) == front.contains(k));
                    if front.contains(k) {
                        let j = choose|j: int| 0 <= j < front.len() && front[j] == k;
                        assert(now[j] == k);
                    }
                    assert(now[i as int] == id);
                    if now.contains(k) {
                        let j = choose|j: int| 0 <= j < now.len() && now[j] == k;
                        if j < i {
                            assert(front[j] == k);
                        }
                    }
                }
            }
            i += 1;
        }
        proof {
            assert(ids@.take(i as int) =~= ids@);
            assert forall|k: NodeId| #[trigger] roles@.contains_key(k) == self.nodes@.contains_key(
                k,
            ) by {
                assert(self.nodes@.contains_key(k) == ids@.contains(k));
            }
            assert(lists_view(roles@) =~= current_roles(self@.nodes));
        }
        let named = ClusterTopologySpec {
            version: spec.version.clone(),
            assignments: resolve(&spec.assignments, &self.nodes),
        };
        let proposals = diff_topology(&roles, &named);
        self.desired_topology = Some(spec);
        proposals
    }

    /// Remember a node.
    pub fn register_node(&mut self, desc: NodeDescriptor)
        ensures
            final(self)@ == (EngineView {
                nodes: old(self)@.nodes.insert(desc.node_id, desc@),
                ..old(self)@
            }),
    {
        self.nodes.insert(desc.node_id, desc);
        assert(self@ =~= (EngineView {
            nodes: old(self)@.nodes.insert(desc.node_id, desc@),
            ..old(self)@
        }));
    }

    /// Forget a failed node and hand its roles to nodes that can take them over:
    /// whether the node had roles, and what is to be proposed.
    pub fn handle_node_failure(&mut self, node_id: NodeId) -> (r: (bool, Vec<Proposal>))
        ensures
            final(self)@ == (EngineView { nodes: old(self)@.nodes.remove(node_id), ..old(self)@ }),
            if old(self)@.nodes.contains_key(node_id) {
                &&& r.0 == (old(self)@.nodes[node_id].current_assigned_roles.len() > 0)
                &&& failover(
                    old(self)@.nodes.remove(node_id),
                    old(self)@.nodes[node_id].current_assigned_roles,
                    old(self)@.nodes[node_id].capabilities,
                    proposals_view(r.1@),
                )
            } else {
                !r.0 && r.1@.len() == 0
            },
    {
        let ghost before = self@;
        let mut out: Vec<Proposal> = Vec::new();
        match self.nodes.remove(&node_id) {
            None => {
                assert(self@.nodes =~= before.nodes.remove(node_id));
                (false, out)
            },
            Some(desc) => {
                assert(self@.nodes =~= before.nodes.remove(node_id));
                let ghost left = self@.nodes;
                let ghost roles = desc.current_assigned_roles@;
                let mut i: usize = 0;
                assert(roles.take(0) =~= Seq::<Role>::empty());
                while i < desc.current_assigned_roles.len()
                    invariant
                        i <= roles.len(),
                        roles == desc.current_assigned_roles@,
                        left == self@.nodes,
                        self@ == (EngineView { nodes: before.nodes.remove(node_id), ..before }),
                        failover(
                            left,
                            roles.take(i as int),
                            desc.capabilities@,
                            proposals_view(out@),
                        ),
                    decreases roles.len() - i,
                {
                    assert(roles.take(i + 1).drop_last() =~= roles.take(i as int));
                    let role = desc.current_assigned_roles[i];
                    match self.find_alternative(role, &desc.capabilities) {
                        Some(alternative) => {
                            let ghost sofar = out@;
                            out.push(Proposal::AssignRole { node_id: alternative, role });
                            assert(proposals_view(out@).drop_last() =~= proposals_view(sofar));
                            assert(proposals_view(out@).last() == out@.last()@);
                            assert(left.contains_key(alternative));
                        },
                        None => {},
                    }
                    i += 1;
                }
                assert(roles.take(i as int) =~= roles);
                (desc.current_assigned_roles.len() > 0, out)
            },
        }
    }

    /// A node that can take a role over, if there is one.
    pub fn find_alternative(&self, role: Role, lost_caps: &Capabilities) -> (r: Option<NodeId>)
        ensures
            match r {
                Some(id) => self@.nodes.contains_key(id) && suits(
                    self@.nodes[id],
                    role,
                    lost_caps@,
                ),
                None => !any_suits(self@.nodes, role, lost_caps@),
            },
    {
        let ids = keys_of(&self.nodes);
        let mut i: usize = 0;
        while i < ids.len()
            invariant
                i <= ids@.len(),
                forall|k: NodeId| #[trigger] self.nodes@.contains_key(k) == ids@.contains(k),
                forall|j: int|
                    0 <= j < i ==> !suits(self@.nodes[#[trigger] ids@[j]], role, lost_caps@),
            decreases ids@.len() - i,
        {
            let id = ids[i];
            assert(ids@.contains(id));
            assert(self.nodes@.contains_key(id));
            match self.nodes.get(&id) {
                Some(d) => {
                    if can_take(d, role, lost_caps) {
                        return Some(id);
                    }
                },
                None => {},
            }
            i += 1;
        }
        proof {
            assert forall|k: NodeId| #[trigger] self@.nodes.contains_key(k) implies !suits(
                self@.nodes[k],
                role,
                lost_caps@,
            ) by {
                assert(self.nodes@.contains_key(k));
                let j = choose|j: int| 0 <= j < ids@.len() && ids@[j] == k;
                assert(!suits(self@.nodes[ids@[j]], role, lost_caps@));
            }
        }
        None
    }
}

/// Every proposal of a failover gives a lost role to a known node that can take it
/// over; the failed node, which is no longer known, gets none.
pub proof fn failover_goes_to_suitable_nodes(
    nodes: Map<NodeId, DescriptorView>,
    roles: Seq<Role>,
    lost: CapabilitiesView,
    r: Seq<ProposalView>,
    i: int,
)
    requires
        failover(nodes, roles, lost, r),
        0 <= i < r.len(),
    ensures
        r[i] is AssignRole,
        roles.contains(r[i]->AssignRole_role),
        nodes.contains_key(r[i]->AssignRole_node_id),
        suits(nodes[r[i]->AssignRole_node_id], r[i]->AssignRole_role, lost),
    decreases roles.len(),
{
    let front = roles.drop_last();
    if any_suits(nodes, roles.last(), lost) {
        if i == r.len() - 1 {
            assert(roles[roles.len() - 1] == roles.last());
        } else {
            failover_goes_to_suitable_nodes(nodes, front, lost, r.drop_last(), i);
            let role = r[i]->AssignRole_role;
            let k = choose|k: int| 0 <= k < front.len() && front[k] == role;
            assert(roles[k] == role);
        }
    } else {
        failover_goes_to_suitable_nodes(nodes, front, lost, r, i);
        let role = r[i]->AssignRole_role;
        let k = choose|k: int| 0 <= k < front.len() && front[k] == role;
        assert(roles[k] == role);
    }
}

/// Every lost role that some node can take over is handed on.
pub proof fn suitable_roles_are_handed_on(
    nodes: Map<NodeId, DescriptorView>,
    roles: Seq<Role>,
    lost: CapabilitiesView,
    r: Seq<ProposalView>,
    i: int,
)
    requires
        failover(nodes, roles, lost, r),
        0 <= i < roles.len(),
        any_suits(nodes, roles[i], lost),
    ensures
        exists|k: int|
            0 <= k < r.len() && (#[trigger] r[k]) is AssignRole && r[k]->AssignRole_role == roles[i],
    decreases roles.len(),
{
    let front = roles.drop_last();
    if i == roles.len() - 1 {
        assert(r[r.len() - 1] is AssignRole);
    } else {
        let s = if any_suits(nodes, roles.last(), lost) {
            r.drop_last()
        } else {
            r
        };
        suitable_roles_are_handed_on(nodes, front, lost, s, i);
        let k = choose|k: int|
            0 <= k < s.len() && (#[trigger] s[k]) is AssignRole && s[k]->AssignRole_role
                == front[i];
        assert(r[k] == s[k]);
    }
}

/// Whoever takes a role over has what the role needs: storage, a GPU, a runtime that
/// the failed node had too, or the strength to be a bootstrap node. Only remaining
/// nodes take roles over, and only roles that were lost.
pub proof fn taken_roles_have_what_they_need(
    known: Map<NodeId, DescriptorView>,
    failed: NodeId,
    r: Seq<ProposalView>,
    i: int,
)
    requires
        known.contains_key(failed),
        failover(
            known.remove(failed),
            known[failed].current_assigned_roles,
            known[failed].capabilities,
            r,
        ),
        0 <= i < r.len(),
    ensures
        r[i] matches ProposalView::AssignRole { node_id, role } && {
            &&& node_id != failed
            &&& known.contains_key(node_id)
            &&& known[failed].current_assigned_roles.contains(role)
            &&& role == Role::Storage ==> known[node_id].capabilities.storage
            &&& role == Role::Inference ==> known[node_id].capabilities.gpu_acceleration
            &&& role == Role::Execution ==> exists|runtime: Seq<char>|
                #[trigger] known[node_id].capabilities.runtimes.contains(runtime)
                    && known[failed].capabilities.runtimes.contains(runtime)
            &&& role == Role::Bootstrap ==> known[node_id].node_type == NodeType::Heavy
        },
{
    let left = known.remove(failed);
    let lost = known[failed].capabilities;
    failover_goes_to_suitable_nodes(left, known[failed].current_assigned_roles, lost, r, i);
    let node_id = r[i]->AssignRole_node_id;
    assert(left[node_id] == known[node_id]);
    if r[i]->AssignRole_role == Role::Execution {
        let runtimes = known[node_id].capabilities.runtimes;
        let k = choose|k: int| 0 <= k < runtimes.len() && lost.runtimes.contains(
            #[trigger] runtimes[k],
        );
        assert(runtimes.contains(runtimes[k]));
    }
}

/// A lost role is handed on wherever a remaining node has what it needs: storage, a
/// GPU, a runtime that the failed node had too, or the strength to be a bootstrap
/// node; and a coordinator is found wherever a node remains.
pub proof fn lost_roles_find_their_nodes(
    known: Map<NodeId, DescriptorView>,
    failed: NodeId,
    r: Seq<ProposalView>,
    role: Role,
    able: NodeId,
)
    requires
        known.contains_key(failed),
        failover(
            known.remove(failed),
            known[failed].current_assigned_roles,
            known[failed].capabilities,
            r,
        ),
        known[failed].current_assigned_roles.contains(role),
        known.contains_key(able),
        able != failed,
        role == Role::Storage ==> known[able].capabilities.storage,
        role == Role::Inference ==> known[able].capabilities.gpu_acceleration,
        role == Role::Execution ==> exists|runtime: Seq<char>|
            #[trigger] known[able].capabilities.runtimes.contains(runtime)
                && known[failed].capabilities.runtimes.contains(runtime),
        role == Role::Bootstrap ==> known[able].node_type == NodeType::Heavy,
    ensures
        exists|k: int|
            0 <= k < r.len() && (#[trigger] r[k]) is AssignRole && r[k]->AssignRole_role == role,
{
    let left = known.remove(failed);
    let lost = known[failed].capabilities;
    let roles = known[failed].current_assigned_roles;
    let i = choose|i: int| 0 <= i < roles.len() && roles[i] == role;
    if role == Role::Execution {
        let runtimes = known[able].capabilities.runtimes;
        let runtime = choose|runtime: Seq<char>| #[trigger]
            runtimes.contains(runtime) && lost.runtimes.contains(runtime);
        let k = choose|k: int| 0 <= k < runtimes.len() && runtimes[k] == runtime;
        assert(lost.runtimes.contains(runtimes[k]));
    }
    assert(left.contains_key(able) && suits(left[able], role, lost));
    assert(any_suits(left, roles[i], lost));
    suitable_roles_are_handed_on(left, roles, lost, r, i);
}

/// A failover proposes at most one new node for each lost role, in the order of the
/// roles.
pub proof fn each_lost_role_goes_to_one_node(
    nodes: Map<NodeId, DescriptorView>,
    roles: Seq<Role>,
    lost: CapabilitiesView,
    r: Seq<ProposalView>,
) -> (from: Seq<int>)
    requires
        failover(nodes, roles, lost, r),
    ensures
        r.len() <= roles.len(),
        from.len() == r.len(),
        forall|i: int|
            0 <= i < r.len() ==> 0 <= #[trigger] from[i] < roles.len() && r[i] is AssignRole
                && r[i]->AssignRole_role == roles[from[i]],
        forall|i: int, j: int| 0 <= i < j < r.len() ==> #[trigger] from[i] < #[trigger] from[j],
    decreases roles.len(),
{
    if roles.len() == 0 {
        Seq::empty()
    } else {
        let front = roles.drop_last();
        if any_suits(nodes, roles.last(), lost) {
            let before = each_lost_role_goes_to_one_node(nodes, front, lost, r.drop_last());
            let from = before.push(roles.len() - 1);
            assert forall|i: int| 0 <= i < r.len() implies 0 <= #[trigger] from[i] < roles.len()
                && r[i] is AssignRole && r[i]->AssignRole_role == roles[from[i]] by {
                if i < before.len() {
                    assert(from[i] == before[i]);
                    assert(r.drop_last()[i] == r[i]);
                    assert(front[before[i]] == roles[before[i]]);
                }
            }
            assert forall|i: int, j: int| 0 <= i < j < r.len() implies #[trigger] from[i]
                < #[trigger] from[j] by {
                assert(from[i] == before[i]);
                if j < before.len() {
                    assert(from[j] == before[j]);
                }
            }
            from
        } else {
            let from = each_lost_role_goes_to_one_node(nodes, front, lost, r);
            assert forall|i: int| 0 <= i < r.len() implies 0 <= #[trigger] from[i] < roles.len()
                && r[i] is AssignRole && r[i]->AssignRole_role == roles[from[i]] by {
                assert(front[from[i]] == roles[from[i]]);
            }
            from
        }
    }
}

} // verus!
