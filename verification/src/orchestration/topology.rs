//! Desired role assignments, and the proposals that lead there.
use std::collections::HashMap;
use vstd::prelude::*;
use vstd::string::*;
use crate::error::{CoreError, ErrorView, Result};
use crate::maps::keys_of;
use crate::raft::proposal::{proposals_view, Proposal, ProposalView};
use crate::raft::state_machine::{after_proposal, after_proposals, consistent, proposal_keeps_consistent, roles_of, ClusterView};
use crate::text::cat2;
use crate::types::{clone_roles, has_role, NodeId, Role};

verus! {

broadcast use vstd::std_specs::hash::group_hash_axioms;

/// Selects nodes in a topology: the node it names, or else every known node that
/// has all of the capabilities and runs the operating system.
#[derive(Debug, PartialEq, Eq)]
pub struct NodeSelector {
    /// The node with this id.
    pub node_id: Option<NodeId>,
    /// Nodes with all of these capabilities.
    pub has_capabilities: Vec<String>,
    /// Nodes running this operating system.
    pub os: Option<String>,
}

/// Desired roles of the selected nodes.
#[derive(Debug, PartialEq, Eq)]
pub struct NodeAssignment {
    /// How nodes are selected.
    pub node_selector: NodeSelector,
    /// The roles they should have.
    pub roles: Vec<Role>,
}

/// A desired cluster topology.
#[derive(Debug, PartialEq, Eq)]
pub struct ClusterTopologySpec {
    /// Version of the topology.
    pub version: String,
    /// Desired assignments.
    pub assignments: Vec<NodeAssignment>,
}

/// A topology that was parsed, or the error of one that could not be.
pub fn parse_topology_spec(parsed: std::result::Result<ClusterTopologySpec, String>) -> (r: Result<
    ClusterTopologySpec,
>)
    ensures
        match parsed {
            Ok(spec) => r == Ok::<ClusterTopologySpec, CoreError>(spec),
            Err(e) => r is Err && r->Err_0@ == ErrorView::Configuration(
                "invalid topology spec: "@ + e@,
            ),
        },
{
    match parsed {
        Ok(spec) => Ok(spec),
        Err(e) => Err(CoreError::Configuration(cat2("invalid topology spec: ", e.as_str()))),
    }
}

/// A list of roles with more of them, none twice.
pub open spec fn merged(have: Seq<Role>, more: Seq<Role>) -> Seq<Role>
    decreases more.len(),
{
    if more.len() == 0 {
        have
    } else {
        let before = merged(have, more.drop_last());
        if before.contains(more.last()) {
            before
        } else {
            before.push(more.last())
        }
    }
}

/// The roles that a map holds for a node.
pub open spec fn roles_in(m: Map<NodeId, Seq<Role>>, node_id: NodeId) -> Seq<Role> {
    if m.contains_key(node_id) {
        m[node_id]
    } else {
        Seq::empty()
    }
}

/// The desired roles of every node that assignments name.
pub open spec fn desired_roles(v: Seq<NodeAssignment>) -> Map<NodeId, Seq<Role>>
    decreases v.len(),
{
    if v.len() == 0 {
        Map::empty()
    } else {
        let before = desired_roles(v.drop_last());
        match v.last().node_selector.node_id {
            Some(id) => before.insert(id, merged(roles_in(before, id), v.last().roles@)),
            None => before,
        }
    }
}

/// The proposals that assign a node the roles it should have and lacks.
pub open spec fn assigns_for(node_id: NodeId, wanted: Seq<Role>, have: Seq<Role>) -> Seq<ProposalView>
    decreases wanted.len(),
{
    if wanted.len() == 0 {
        Seq::empty()
    } else {
        let before = assigns_for(node_id, wanted.drop_last(), have);
        if have.contains(wanted.last()) {
            before
        } else {
            before.push(ProposalView::AssignRole { node_id, role: wanted.last() })
        }
    }
}

/// The proposals that revoke the roles that a node has and should not have.
pub open spec fn revokes_for(node_id: NodeId, have: Seq<Role>, wanted: Seq<Role>) -> Seq<ProposalView>
    decreases have.len(),
{
    if have.len() == 0 {
        Seq::empty()
    } else {
        let before = revokes_for(node_id, have.drop_last(), wanted);
        if wanted.contains(have.last()) {
            before
        } else {
            before.push(ProposalView::RevokeRole { node_id, role: have.last() })
        }
    }
}

/// The assigning proposals for nodes in a row.
pub open spec fn assigns(
    ids: Seq<NodeId>,
    wanted: Map<NodeId, Seq<Role>>,
    have: Map<NodeId, Seq<Role>>,
) -> Seq<ProposalView>
    decreases ids.len(),
{
    if ids.len() == 0 {
        Seq::empty()
    } else {
        assigns(ids.drop_last(), wanted, have) + assigns_for(
            ids.last(),
            roles_in(wanted, ids.last()),
            roles_in(have, ids.last()),
        )
    }
}

/// The revoking proposals for nodes in a row.
pub open spec fn revokes(
    ids: Seq<NodeId>,
    wanted: Map<NodeId, Seq<Role>>,
    have: Map<NodeId, Seq<Role>>,
) -> Seq<ProposalView>
    decreases ids.len(),
{
    if ids.len() == 0 {
        Seq::empty()
    } else {
        revokes(ids.drop_last(), wanted, have) + revokes_for(
            ids.last(),
            roles_in(have, ids.last()),
            roles_in(wanted, ids.last()),
        )
    }
}

/// Whether a sequence lists the nodes of a map, each once.
pub open spec fn lists_nodes(ids: Seq<NodeId>, m: Map<NodeId, Seq<Role>>) -> bool {
    &&& ids.no_duplicates()
    &&& forall|id: NodeId| #[trigger] m.contains_key(id) == ids.contains(id)
}

/// Whether proposals are the difference between two assignments: first what is
/// missing, node by node, then what is too much, node by node, the nodes in any
/// order.
pub open spec fn is_difference(
    have: Map<NodeId, Seq<Role>>,
    wanted: Map<NodeId, Seq<Role>>,
    r: Seq<ProposalView>,
) -> bool {
    exists|a: Seq<NodeId>, b: Seq<NodeId>| #[trigger]
        lists_nodes(a, wanted) && #[trigger] lists_nodes(b, have) && r == assigns(a, wanted, have)
            + revokes(b, wanted, have)
}

/// What a map of lists says.
pub open spec fn lists_view(m: Map<NodeId, Vec<Role>>) -> Map<NodeId, Seq<Role>> {
    m.map_values(|v: Vec<Role>| v@)
}

fn merge(have: &Vec<Role>, more: &Vec<Role>) -> (r: Vec<Role>)
    ensures
        r@ == merged(have@, more@),
{
    let mut out = clone_roles(have);
    let mut i: usize = 0;
    assert(more@.take(0) =~= Seq::<Role>::empty());
    while i < more.len()
        invariant
            i <= more@.len(),
            out@ == merged(have@, more@.take(i as int)),
        decreases more@.len() - i,
    {
        assert(more@.take(i + 1).drop_last() =~= more@.take(i as int));
        if !has_role(&out, more[i]) {
            out.push(more[i]);
        }
        i += 1;
    }
    assert(more@.take(i as int) =~= more@);
    out
}

fn roles_at(m: &HashMap<NodeId, Vec<Role>>, id: NodeId) -> (r: Vec<Role>)
    ensures
        r@ == roles_in(lists_view(m@), id),
{
    match m.get(&id) {
        Some(v) => clone_roles(v),
        None => {
            let v: Vec<Role> = Vec::new();
            assert(v@ =~= Seq::<Role>::empty());
            v
        },
    }
}

fn desired_map(v: &Vec<NodeAssignment>) -> (r: HashMap<NodeId, Vec<Role>>)
    ensures
        lists_view(r@) == desired_roles(v@),
{
    let mut m: HashMap<NodeId, Vec<Role>> = HashMap::new();
    let mut i: usize = 0;
    assert(v@.take(0) =~= Seq::<NodeAssignment>::empty());
    assert(lists_view(m@) =~= Map::<NodeId, Seq<Role>>::empty());
    while i < v.len()
        invariant
            i <= v@.len(),
            lists_view(m@) == desired_roles(v@.take(i as int)),
        decreases v@.len() - i,
    {
        assert(v@.take(i + 1).drop_last() =~= v@.take(i as int));
        match v[i].node_selector.node_id {
            Some(id) => {
                let ghost before = m@;
                let have = roles_at(&m, id);
                let list = merge(&have, &v[i].roles);
                m.insert(id, list);
                assert(lists_view(m@) =~= lists_view(before).insert(id, list@));
            },
            None => {},
        }
        i += 1;
    }
    assert(v@.take(i as int) =~= v@);
    m
}

fn push_assigns(out: &mut Vec<Proposal>, node_id: NodeId, wanted: &Vec<Role>, have: &Vec<Role>)
    ensures
        proposals_view(final(out)@) == proposals_view(old(out)@) + assigns_for(
            node_id,
            wanted@,
            have@,
        ),
{
    let ghost start = proposals_view(out@);
    let mut i: usize = 0;
    assert(wanted@.take(0) =~= Seq::<Role>::empty());
    assert(start + assigns_for(node_id, wanted@.take(0), have@) =~= start);
    while i < wanted.len()
        invariant
            i <= wanted@.len(),
            start == proposals_view(old(out)@),
            proposals_view(out@) == start + assigns_for(node_id, wanted@.take(i as int), have@),
        decreases wanted@.len() - i,
    {
        assert(wanted@.take(i + 1).drop_last() =~= wanted@.take(i as int));
        if !has_role(have, wanted[i]) {
            let ghost before = out@;
            out.push(Proposal::AssignRole { node_id, role: wanted[i] });
            assert(proposals_view(out@) =~= proposals_view(before).push(out@.last()@));
        }
        assert(proposals_view(out@) =~= start + assigns_for(node_id, wanted@.take(i + 1), have@));
        i += 1;
    }
    assert(wanted@.take(i as int) =~= wanted@);
}

fn push_revokes(out: &mut Vec<Proposal>, node_id: NodeId, have: &Vec<Role>, wanted: &Vec<Role>)
    ensures
        proposals_view(final(out)@) == proposals_view(old(out)@) + revokes_for(
            node_id,
            have@,
            wanted@,
        ),
{
    let ghost start = proposals_view(out@);
    let mut i: usize = 0;
    assert(have@.take(0) =~= Seq::<Role>::empty());
    assert(start + revokes_for(node_id, have@.take(0), wanted@) =~= start);
    while i < have.len()
        invariant
            i <= have@.len(),
            start == proposals_view(old(out)@),
            proposals_view(out@) == start + revokes_for(node_id, have@.take(i as int), wanted@),
        decreases have@.len() - i,
    {
        assert(have@.take(i + 1).drop_last() =~= have@.take(i as int));
        if !has_role(wanted, have[i]) {
            let ghost before = out@;
            out.push(Proposal::RevokeRole { node_id, role: have[i] });
            assert(proposals_view(out@) =~= proposals_view(before).push(out@.last()@));
        }
        assert(proposals_view(out@) =~= start + revokes_for(node_id, have@.take(i + 1), wanted@));
        i += 1;
    }
    assert(have@.take(i as int) =~= have@);
}

/// The proposals that lead from the current role assignments to the desired ones.
/// Only assignments that name a node count.
pub fn diff_topology(current: &HashMap<NodeId, Vec<Role>>, desired: &ClusterTopologySpec) -> (r: Vec<
    Proposal,
>)
    ensures
        is_difference(
            lists_view(current@),
            desired_roles(desired.assignments@),
            proposals_view(r@),
        ),
        lists_distinct(lists_view(current@)) ==> proposals_view(r@).no_duplicates(),
{
    let wanted = desired_map(&desired.assignments);
    let ghost w = desired_roles(desired.assignments@);
    let ghost h = lists_view(current@);
    let a = keys_of(&wanted);
    let b = keys_of(current);
    let mut out: Vec<Proposal> = Vec::new();
    let mut i: usize = 0;
    assert(a@.take(0) =~= Seq::<NodeId>::empty());
    assert(proposals_view(out@) =~= Seq::<ProposalView>::empty());
    while i < a.len()
        invariant
            i <= a@.len(),
            w == lists_view(wanted@),
            h == lists_view(current@),
            proposals_view(out@) == assigns(a@.take(i as int), w, h),
        decreases a@.len() - i,
    {
        assert(a@.take(i + 1).drop_last() =~= a@.take(i as int));
        let want = roles_at(&wanted, a[i]);
        let have = roles_at(current, a[i]);
        push_assigns(&mut out, a[i], &want, &have);
        i += 1;
    }
    assert(a@.take(i as int) =~= a@);
    let mut j: usize = 0;
    assert(b@.take(0) =~= Seq::<NodeId>::empty());
    assert(assigns(a@, w, h) + revokes(b@.take(0), w, h) =~= assigns(a@, w, h));
    while j < b.len()
        invariant
            j <= b@.len(),
            w == lists_view(wanted@),
            h == lists_view(current@),
            proposals_view(out@) == assigns(a@, w, h) + revokes(b@.take(j as int), w, h),
        decreases b@.len() - j,
    {
        assert(b@.take(j + 1).drop_last() =~= b@.take(j as int));
        let want = roles_at(&wanted, b[j]);
        let have = roles_at(current, b[j]);
        push_revokes(&mut out, b[j], &have, &want);
        assert(proposals_view(out@) =~= assigns(a@, w, h) + revokes(b@.take(j + 1), w, h));
        j += 1;
    }
    assert(b@.take(j as int) =~= b@);
    proof {
        assert forall|id: NodeId| #[trigger] w.contains_key(id) == a@.contains(id) by {
            assert(wanted@.contains_key(id) == a@.contains(id));
        }
        assert forall|id: NodeId| #[trigger] h.contains_key(id) == b@.contains(id) by {
            assert(current@.contains_key(id) == b@.contains(id));
        }
        assert(lists_nodes(a@, w));
        assert(lists_nodes(b@, h));
        if lists_distinct(h) {
            no_proposal_occurs_twice(h, desired.assignments@, proposals_view(out@));
        }
    }
    out
}

proof fn contains_behind<A>(s: Seq<A>, x: A)
    requires
        s.len() > 0,
    ensures
        s.contains(x) == (s.drop_last().contains(x) || s.last() == x),
{
    if s.contains(x) {
        let i = choose|i: int| 0 <= i < s.len() && s[i] == x;
        if i < s.len() - 1 {
            assert(s.drop_last()[i] == x);
        }
    }
    if s.drop_last().contains(x) {
        let i = choose|i: int| 0 <= i < s.len() - 1 && s.drop_last()[i] == x;
        assert(s[i] == x);
    }
    assert(s[s.len() - 1] == s.last());
}

proof fn contains_in_either<A>(a: Seq<A>, b: Seq<A>, x: A)
    ensures
        (a + b).contains(x) == (a.contains(x) || b.contains(x)),
{
    let s = a + b;
    if s.contains(x) {
        let i = choose|i: int| 0 <= i < s.len() && s[i] == x;
        if i < a.len() {
            assert(a[i] == x);
        } else {
            assert(b[i - a.len()] == x);
        }
    }
    if a.contains(x) {
        let i = choose|i: int| 0 <= i < a.len() && a[i] == x;
        assert(s[i] == x);
    }
    if b.contains(x) {
        let i = choose|i: int| 0 <= i < b.len() && b[i] == x;
        assert(s[a.len() + i] == x);
    }
}

proof fn assigns_for_holds(node_id: NodeId, wanted: Seq<Role>, have: Seq<Role>, p: ProposalView)
    ensures
        assigns_for(node_id, wanted, have).contains(p) == (p is AssignRole
            && p->AssignRole_node_id == node_id && wanted.contains(p->AssignRole_role)
            && !have.contains(p->AssignRole_role)),
    decreases wanted.len(),
{
    if wanted.len() > 0 {
        assigns_for_holds(node_id, wanted.drop_last(), have, p);
        if p is AssignRole {
            contains_behind(wanted, p->AssignRole_role);
        }
        let all = assigns_for(node_id, wanted, have);
        if !have.contains(wanted.last()) {
            contains_behind(all, p);
            assert(all.drop_last() =~= assigns_for(node_id, wanted.drop_last(), have));
        }
    }
}

proof fn revokes_for_holds(node_id: NodeId, have: Seq<Role>, wanted: Seq<Role>, p: ProposalView)
    ensures
        revokes_for(node_id, have, wanted).contains(p) == (p is RevokeRole
            && p->RevokeRole_node_id == node_id && have.contains(p->RevokeRole_role)
            && !wanted.contains(p->RevokeRole_role)),
    decreases have.len(),
{
    if have.len() > 0 {
        revokes_for_holds(node_id, have.drop_last(), wanted, p);
        if p is RevokeRole {
            contains_behind(have, p->RevokeRole_role);
        }
        let all = revokes_for(node_id, have, wanted);
        if !wanted.contains(have.last()) {
            contains_behind(all, p);
            assert(all.drop_last() =~= revokes_for(node_id, have.drop_last(), wanted));
        }
    }
}

proof fn assigns_hold(
    ids: Seq<NodeId>,
    wanted: Map<NodeId, Seq<Role>>,
    have: Map<NodeId, Seq<Role>>,
    p: ProposalView,
)
    ensures
        assigns(ids, wanted, have).contains(p) == (p is AssignRole && ids.contains(
            p->AssignRole_node_id,
        ) && roles_in(wanted, p->AssignRole_node_id).contains(p->AssignRole_role) && !roles_in(
            have,
            p->AssignRole_node_id,
        ).contains(p->AssignRole_role)),
    decreases ids.len(),
{
    if ids.len() > 0 {
        let last = ids.last();
        assigns_hold(ids.drop_last(), wanted, have, p);
        assigns_for_holds(last, roles_in(wanted, last), roles_in(have, last), p);
        contains_in_either(
            assigns(ids.drop_last(), wanted, have),
            assigns_for(last, roles_in(wanted, last), roles_in(have, last)),
            p,
        );
        if p is AssignRole {
            contains_behind(ids, p->AssignRole_node_id);
        }
    }
}

proof fn revokes_hold(
    ids: Seq<NodeId>,
    wanted: Map<NodeId, Seq<Role>>,
    have: Map<NodeId, Seq<Role>>,
    p: ProposalView,
)
    ensures
        revokes(ids, wanted, have).contains(p) == (p is RevokeRole && ids.contains(
            p->RevokeRole_node_id,
        ) && roles_in(have, p->RevokeRole_node_id).contains(p->RevokeRole_role) && !roles_in(
            wanted,
            p->RevokeRole_node_id,
        ).contains(p->RevokeRole_role)),
    decreases ids.len(),
{
    if ids.len() > 0 {
        let last = ids.last();
        revokes_hold(ids.drop_last(), wanted, have, p);
        revokes_for_holds(last, roles_in(have, last), roles_in(wanted, last), p);
        contains_in_either(
            revokes(ids.drop_last(), wanted, have),
            revokes_for(last, roles_in(have, last), roles_in(wanted, last)),
            p,
        );
        if p is RevokeRole {
            contains_behind(ids, p->RevokeRole_node_id);
        }
    }
}

/// The difference holds exactly the assignments that are missing and the
/// revocations of what is too much.
pub proof fn difference_holds(
    have: Map<NodeId, Seq<Role>>,
    wanted: Map<NodeId, Seq<Role>>,
    r: Seq<ProposalView>,
    p: ProposalView,
)
    requires
        is_difference(have, wanted, r),
    ensures
        r.contains(p) == match p {
            ProposalView::AssignRole { node_id, role } => roles_in(wanted, node_id).contains(role)
                && !roles_in(have, node_id).contains(role),
            ProposalView::RevokeRole { node_id, role } => roles_in(have, node_id).contains(role)
                && !roles_in(wanted, node_id).contains(role),
            _ => false,
        },
{
    let (a, b) = choose|a: Seq<NodeId>, b: Seq<NodeId>| #[trigger]
        lists_nodes(a, wanted) && #[trigger] lists_nodes(b, have) && r == assigns(a, wanted, have)
            + revokes(b, wanted, have);
    assigns_hold(a, wanted, have, p);
    revokes_hold(b, wanted, have, p);
    contains_in_either(assigns(a, wanted, have), revokes(b, wanted, have), p);
    match p {
        ProposalView::AssignRole { node_id, role } => {
            assert(wanted.contains_key(node_id) == a.contains(node_id));
        },
        ProposalView::RevokeRole { node_id, role } => {
            assert(have.contains_key(node_id) == b.contains(node_id));
        },
        _ => {},
    }
}

proof fn role_after_proposal(s: ClusterView, p: ProposalView, node_id: NodeId, role: Role)
    requires
        consistent(s),
        p is AssignRole || p is RevokeRole,
        p is AssignRole ==> s.nodes.contains_key(p->AssignRole_node_id),
    ensures
        after_proposal(s, p).nodes == s.nodes,
        roles_of(after_proposal(s, p), node_id).contains(role) == (p == (ProposalView::AssignRole {
            node_id,
            role,
        }) || (roles_of(s, node_id).contains(role) && p != (ProposalView::RevokeRole {
            node_id,
            role,
        }))),
{
    match p {
        ProposalView::AssignRole { node_id: n, role: x } => {
            let before = roles_of(s, n);
            if !before.contains(x) && n == node_id {
                let after = before.push(x);
                contains_behind(after, role);
                assert(after.drop_last() =~= before);
            }
        },
        ProposalView::RevokeRole { node_id: n, role: x } => {
            let before = roles_of(s, n);
            if before.contains(x) && n == node_id {
                before.index_of_first_ensures(x);
                let at = before.index_of_first(x)->0;
                let after = before.remove(at);
                if role == x {
                    if after.contains(x) {
                        let i = choose|i: int| 0 <= i < after.len() && after[i] == x;
                        if i < at {
                            assert(before[i] == x);
                        } else {
                            assert(before[i + 1] == x);
                        }
                        assert(before.no_duplicates());
                    }
                } else {
                    if before.contains(role) {
                        let i = choose|i: int| 0 <= i < before.len() && before[i] == role;
                        if i < at {
                            assert(after[i] == role);
                        } else {
                            assert(after[i - 1] == role);
                        }
                    }
                    if after.contains(role) {
                        let i = choose|i: int| 0 <= i < after.len() && after[i] == role;
                        if i < at {
                            assert(before[i] == role);
                        } else {
                            assert(before[i + 1] == role);
                        }
                    }
                }
            }
        },
        _ => {},
    }
}

proof fn role_after_proposals(s: ClusterView, ps: Seq<ProposalView>, node_id: NodeId, role: Role)
    requires
        consistent(s),
        forall|i: int|
            0 <= i < ps.len() ==> ((#[trigger] ps[i]) is AssignRole || ps[i] is RevokeRole) && (
            ps[i] is AssignRole ==> s.nodes.contains_key(ps[i]->AssignRole_node_id)),
        !(ps.contains(ProposalView::AssignRole { node_id, role }) && ps.contains(
            ProposalView::RevokeRole { node_id, role },
        )),
    ensures
        consistent(after_proposals(s, ps)),
        after_proposals(s, ps).nodes == s.nodes,
        roles_of(after_proposals(s, ps), node_id).contains(role) == (ps.contains(
            ProposalView::AssignRole { node_id, role },
        ) || (roles_of(s, node_id).contains(role) && !ps.contains(
            ProposalView::RevokeRole { node_id, role },
        ))),
    decreases ps.len(),
{
    if ps.len() > 0 {
        let front = ps.drop_last();
        contains_behind(ps, ProposalView::AssignRole { node_id, role });
        contains_behind(ps, ProposalView::RevokeRole { node_id, role });
        assert forall|i: int| 0 <= i < front.len() implies ((#[trigger] front[i]) is AssignRole
            || front[i] is RevokeRole) && (front[i] is AssignRole ==> s.nodes.contains_key(
            front[i]->AssignRole_node_id,
        )) by {
            assert(front[i] == ps[i]);
        }
        role_after_proposals(s, front, node_id, role);
        let mid = after_proposals(s, front);
        assert(ps.last() == ps[ps.len() - 1]);
        role_after_proposal(mid, ps.last(), node_id, role);
        proposal_keeps_consistent(mid, ps.last());
    }
}

/// Applying the difference brings the cluster to the desired topology: afterwards
/// every node has exactly the roles that are desired for it. The cluster's roles
/// are the ones that the difference was computed from, and every node with a
/// desired role is registered.
pub proof fn difference_leads_to_topology(
    s: ClusterView,
    have: Map<NodeId, Seq<Role>>,
    wanted: Map<NodeId, Seq<Role>>,
    r: Seq<ProposalView>,
    node_id: NodeId,
    role: Role,
)
    requires
        consistent(s),
        is_difference(have, wanted, r),
        forall|id: NodeId| #[trigger] roles_in(have, id) == roles_of(s, id),
        forall|id: NodeId| #[trigger] wanted.contains_key(id) ==> s.nodes.contains_key(id),
    ensures
        roles_of(after_proposals(s, r), node_id).contains(role) == roles_in(
            wanted,
            node_id,
        ).contains(role),
        after_proposals(s, r).nodes == s.nodes,
{
    assert forall|i: int| 0 <= i < r.len() implies ((#[trigger] r[i]) is AssignRole
        || r[i] is RevokeRole) && (r[i] is AssignRole ==> s.nodes.contains_key(
        r[i]->AssignRole_node_id,
    )) by {
        assert(r.contains(r[i]));
        difference_holds(have, wanted, r, r[i]);
    }
    difference_holds(have, wanted, r, ProposalView::AssignRole { node_id, role });
    difference_holds(have, wanted, r, ProposalView::RevokeRole { node_id, role });
    assert(roles_in(have, node_id) == roles_of(s, node_id));
    role_after_proposals(s, r, node_id, role);
}

/// Nothing is proposed exactly where every node has its desired roles and no others.
pub proof fn nothing_to_propose(
    have: Map<NodeId, Seq<Role>>,
    wanted: Map<NodeId, Seq<Role>>,
    r: Seq<ProposalView>,
)
    requires
        is_difference(have, wanted, r),
    ensures
        r.len() == 0 <==> forall|id: NodeId, role: Role|
            #[trigger] roles_in(have, id).contains(role) == roles_in(wanted, id).contains(role),
{
    if r.len() > 0 {
        assert(r.contains(r[0]));
        difference_holds(have, wanted, r, r[0]);
        match r[0] {
            ProposalView::AssignRole { node_id, role } => {
                assert(roles_in(have, node_id).contains(role) != roles_in(wanted, node_id).contains(
                    role,
                ));
            },
            ProposalView::RevokeRole { node_id, role } => {
                assert(roles_in(have, node_id).contains(role) != roles_in(wanted, node_id).contains(
                    role,
                ));
            },
            _ => {},
        }
    } else {
        assert forall|id: NodeId, role: Role| #[trigger] roles_in(have, id).contains(role)
            == roles_in(wanted, id).contains(role) by {
            difference_holds(have, wanted, r, ProposalView::AssignRole { node_id: id, role });
            difference_holds(have, wanted, r, ProposalView::RevokeRole { node_id: id, role });
        }
    }
}

/// Whether no list of a map holds a role twice.
pub open spec fn lists_distinct(m: Map<NodeId, Seq<Role>>) -> bool {
    forall|id: NodeId| #[trigger] roles_in(m, id).no_duplicates()
}

proof fn merged_is_distinct(have: Seq<Role>, more: Seq<Role>)
    requires
        have.no_duplicates(),
    ensures
        merged(have, more).no_duplicates(),
    decreases more.len(),
{
    if more.len() > 0 {
        merged_is_distinct(have, more.drop_last());
        let before = merged(have, more.drop_last());
        if !before.contains(more.last()) {
            pushed_is_distinct(before, more.last());
        }
    }
}

proof fn pushed_is_distinct<A>(s: Seq<A>, x: A)
    requires
        s.no_duplicates(),
        !s.contains(x),
    ensures
        s.push(x).no_duplicates(),
{
    let t = s.push(x);
    assert forall|i: int, j: int| 0 <= i < t.len() && 0 <= j < t.len() && i != j implies t[i]
        != t[j] by {
        if i == s.len() {
            assert(s[j] == t[j]);
        } else if j == s.len() {
            assert(s[i] == t[i]);
        }
    }
}

proof fn joined_is_distinct<A>(a: Seq<A>, b: Seq<A>)
    requires
        a.no_duplicates(),
        b.no_duplicates(),
        forall|x: A| #[trigger] a.contains(x) ==> !b.contains(x),
    ensures
        (a + b).no_duplicates(),
{
    let t = a + b;
    assert forall|i: int, j: int| 0 <= i < j < t.len() implies t[i] != t[j] by {
        if j < a.len() {
            assert(a[i] != a[j]);
        } else if i >= a.len() {
            assert(b[i - a.len()] != b[j - a.len()]);
        } else {
            assert(a.contains(a[i]));
            assert(b.contains(b[j - a.len()]));
        }
    }
}

/// No role is desired twice of a node.
pub proof fn desired_roles_are_distinct(v: Seq<NodeAssignment>)
    ensures
        lists_distinct(desired_roles(v)),
    decreases v.len(),
{
    if v.len() > 0 {
        desired_roles_are_distinct(v.drop_last());
        let before = desired_roles(v.drop_last());
        if let Some(id) = v.last().node_selector.node_id {
            assert(roles_in(before, id).no_duplicates());
            merged_is_distinct(roles_in(before, id), v.last().roles@);
            assert forall|k: NodeId| #[trigger] roles_in(desired_roles(v), k).no_duplicates() by {
                assert(roles_in(before, k).no_duplicates());
            }
        }
    }
}

proof fn assigns_for_distinct(node_id: NodeId, wanted: Seq<Role>, have: Seq<Role>)
    requires
        wanted.no_duplicates(),
    ensures
        assigns_for(node_id, wanted, have).no_duplicates(),
    decreases wanted.len(),
{
    if wanted.len() > 0 {
        let front = wanted.drop_last();
        assigns_for_distinct(node_id, front, have);
        if !have.contains(wanted.last()) {
            let p = ProposalView::AssignRole { node_id, role: wanted.last() };
            assigns_for_holds(node_id, front, have, p);
            if front.contains(wanted.last()) {
                let i = choose|i: int| 0 <= i < front.len() && front[i] == wanted.last();
                assert(wanted[i] == wanted[wanted.len() - 1]);
            }
            pushed_is_distinct(assigns_for(node_id, front, have), p);
        }
    }
}

proof fn revokes_for_distinct(node_id: NodeId, have: Seq<Role>, wanted: Seq<Role>)
    requires
        have.no_duplicates(),
    ensures
        revokes_for(node_id, have, wanted).no_duplicates(),
    decreases have.len(),
{
    if have.len() > 0 {
        let front = have.drop_last();
        revokes_for_distinct(node_id, front, wanted);
        if !wanted.contains(have.last()) {
            let p = ProposalView::RevokeRole { node_id, role: have.last() };
            revokes_for_holds(node_id, front, wanted, p);
            if front.contains(have.last()) {
                let i = choose|i: int| 0 <= i < front.len() && front[i] == have.last();
                assert(have[i] == have[have.len() - 1]);
            }
            pushed_is_distinct(revokes_for(node_id, front, wanted), p);
        }
    }
}

proof fn assigns_distinct(
    ids: Seq<NodeId>,
    wanted: Map<NodeId, Seq<Role>>,
    have: Map<NodeId, Seq<Role>>,
)
    requires
        ids.no_duplicates(),
        lists_distinct(wanted),
    ensures
        assigns(ids, wanted, have).no_duplicates(),
    decreases ids.len(),
{
    if ids.len() > 0 {
        let front = ids.drop_last();
        let last = ids.last();
        assigns_distinct(front, wanted, have);
        assert(roles_in(wanted, last).no_duplicates());
        assigns_for_distinct(last, roles_in(wanted, last), roles_in(have, last));
        let a = assigns(front, wanted, have);
        let b = assigns_for(last, roles_in(wanted, last), roles_in(have, last));
        assert forall|p: ProposalView| #[trigger] a.contains(p) implies !b.contains(p) by {
            assigns_hold(front, wanted, have, p);
            assigns_for_holds(last, roles_in(wanted, last), roles_in(have, last), p);
            if front.contains(last) {
                let i = choose|i: int| 0 <= i < front.len() && front[i] == last;
                assert(ids[i] == ids[ids.len() - 1]);
            }
        }
        joined_is_distinct(a, b);
    }
}

proof fn revokes_distinct(
    ids: Seq<NodeId>,
    wanted: Map<NodeId, Seq<Role>>,
    have: Map<NodeId, Seq<Role>>,
)
    requires
        ids.no_duplicates(),
        lists_distinct(have),
    ensures
        revokes(ids, wanted, have).no_duplicates(),
    decreases ids.len(),
{
    if ids.len() > 0 {
        let front = ids.drop_last();
        let last = ids.last();
        revokes_distinct(front, wanted, have);
        assert(roles_in(have, last).no_duplicates());
        revokes_for_distinct(last, roles_in(have, last), roles_in(wanted, last));
        let a = revokes(front, wanted, have);
        let b = revokes_for(last, roles_in(have, last), roles_in(wanted, last));
        assert forall|p: ProposalView| #[trigger] a.contains(p) implies !b.contains(p) by {
            revokes_hold(front, wanted, have, p);
            revokes_for_holds(last, roles_in(have, last), roles_in(wanted, last), p);
            if front.contains(last) {
                let i = choose|i: int| 0 <= i < front.len() && front[i] == last;
                assert(ids[i] == ids[ids.len() - 1]);
            }
        }
        joined_is_distinct(a, b);
    }
}

/// No proposal of the difference to a topology occurs twice, where no node has a
/// role twice.
pub proof fn no_proposal_occurs_twice(
    have: Map<NodeId, Seq<Role>>,
    v: Seq<NodeAssignment>,
    r: Seq<ProposalView>,
)
    requires
        is_difference(have, desired_roles(v), r),
        lists_distinct(have),
    ensures
        r.no_duplicates(),
{
    let wanted = desired_roles(v);
    desired_roles_are_distinct(v);
    let (a, b) = choose|a: Seq<NodeId>, b: Seq<NodeId>| #[trigger]
        lists_nodes(a, wanted) && #[trigger] lists_nodes(b, have) && r == assigns(a, wanted, have)
            + revokes(b, wanted, have);
    assigns_distinct(a, wanted, have);
    revokes_distinct(b, wanted, have);
    assert forall|p: ProposalView| #[trigger] assigns(a, wanted, have).contains(p) implies !revokes(
        b,
        wanted,
        have,
    ).contains(p) by {
        assigns_hold(a, wanted, have, p);
        revokes_hold(b, wanted, have, p);
    }
    joined_is_distinct(assigns(a, wanted, have), revokes(b, wanted, have));
}

proof fn merged_contains(have: Seq<Role>, more: Seq<Role>, role: Role)
    ensures
        merged(have, more).contains(role) == (have.contains(role) || more.contains(role)),
    decreases more.len(),
{
    if more.len() > 0 {
        let front = more.drop_last();
        let before = merged(have, front);
        merged_contains(have, front, role);
        contains_behind(more, role);
        if !before.contains(more.last()) {
            contains_behind(before.push(more.last()), role);
            assert(before.push(more.last()).drop_last() =~= before);
        }
    }
}

/// A role is desired of a node exactly where an assignment names the node and lists
/// the role: of several assignments for one node all count.
pub proof fn desired_roles_are_those_assigned(v: Seq<NodeAssignment>, id: NodeId, role: Role)
    ensures
        roles_in(desired_roles(v), id).contains(role) <==> exists|i: int|
            0 <= i < v.len() && (#[trigger] v[i]).node_selector.node_id == Some(id)
                && v[i].roles@.contains(role),
    decreases v.len(),
{
    if v.len() > 0 {
        let front = v.drop_last();
        desired_roles_are_those_assigned(front, id, role);
        let before = desired_roles(front);
        merged_contains(roles_in(before, id), v.last().roles@, role);
        if roles_in(before, id).contains(role) {
            let i = choose|i: int|
                0 <= i < front.len() && (#[trigger] front[i]).node_selector.node_id == Some(id)
                    && front[i].roles@.contains(role);
            assert(v[i] == front[i]);
        }
        if exists|i: int|
            0 <= i < v.len() && (#[trigger] v[i]).node_selector.node_id == Some(id)
                && v[i].roles@.contains(role) {
            let i = choose|i: int|
                0 <= i < v.len() && (#[trigger] v[i]).node_selector.node_id == Some(id)
                    && v[i].roles@.contains(role);
            if i < front.len() {
                assert(front[i] == v[i]);
            }
        }
        assert(v[v.len() - 1] == v.last());
    }
}

/// What is proposed against a topology, in plain terms: a role is assigned where an
/// assignment lists it for the node and the node lacks it, and revoked where the
/// node has it and no assignment lists it for the node. Nothing else is proposed.
pub proof fn proposals_close_the_gap(
    have: Map<NodeId, Seq<Role>>,
    v: Seq<NodeAssignment>,
    r: Seq<ProposalView>,
    node_id: NodeId,
    role: Role,
)
    requires
        is_difference(have, desired_roles(v), r),
    ensures
        ({
            let assigned = exists|i: int|
                0 <= i < v.len() && (#[trigger] v[i]).node_selector.node_id == Some(node_id)
                    && v[i].roles@.contains(role);
            let held = have.contains_key(node_id) && have[node_id].contains(role);
            &&& r.contains(ProposalView::AssignRole { node_id, role }) <==> assigned && !held
            &&& r.contains(ProposalView::RevokeRole { node_id, role }) <==> held && !assigned
            &&& forall|p: ProposalView| #[trigger]
                r.contains(p) ==> p is AssignRole || p is RevokeRole
        }),
{
    desired_roles_are_those_assigned(v, node_id, role);
    difference_holds(have, desired_roles(v), r, ProposalView::AssignRole { node_id, role });
    difference_holds(have, desired_roles(v), r, ProposalView::RevokeRole { node_id, role });
    assert forall|p: ProposalView| #[trigger] r.contains(p) implies p is AssignRole
        || p is RevokeRole by {
        difference_holds(have, desired_roles(v), r, p);
    }
}

} // verus!
