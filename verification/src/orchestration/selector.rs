//! Which nodes a selector stands for.
use std::collections::HashMap;
use vstd::prelude::*;
use vstd::string::*;
use crate::maps::keys_of;
use crate::orchestration::topology::{desired_roles, merged, roles_in, NodeAssignment, NodeSelector};
use crate::text::str_eq;
use crate::types::{clone_roles, texts, Capabilities, CapabilitiesView, DescriptorView, NodeDescriptor, NodeId, OsType, Role};

verus! {

broadcast use vstd::std_specs::hash::group_hash_axioms;

/// Whether a node has the capability of a name: one of its own, or a runtime that
/// it lists.
pub open spec fn has_capability(c: CapabilitiesView, name: Seq<char>) -> bool {
    ||| name == "storage"@ && c.storage
    ||| name == "gpu_acceleration"@ && c.gpu_acceleration
    ||| name == "project_sandbox"@ && c.project_sandbox
    ||| c.runtimes.contains(name)
}

/// The name of an operating system.
pub open spec fn os_name(os: OsType) -> Seq<char> {
    match os {
        OsType::MacOS => "MacOS"@,
        OsType::Linux => "Linux"@,
        OsType::Windows => "Windows"@,
        OsType::Ios => "Ios"@,
        OsType::Android => "Android"@,
        OsType::Unknown => "Unknown"@,
    }
}

/// Whether a node has all the capabilities of a selector and runs its operating
/// system.
pub open spec fn fits(s: NodeSelector, d: DescriptorView) -> bool {
    &&& forall|i: int|
        0 <= i < s.has_capabilities@.len() ==> has_capability(
            d.capabilities,
            (#[trigger] s.has_capabilities@[i])@,
        )
    &&& match s.os {
        Some(os) => os_name(d.os) == os@,
        None => true,
    }
}

/// Whether a selector stands for a node: the one it names, known or not, or else a
/// known one that fits.
pub open spec fn selects(s: NodeSelector, nodes: Map<NodeId, DescriptorView>, id: NodeId) -> bool {
    match s.node_id {
        Some(named) => id == named,
        None => nodes.contains_key(id) && fits(s, nodes[id]),
    }
}

/// The roles that assignments desire of a node, in order and none twice.
pub open spec fn roles_desired(
    v: Seq<NodeAssignment>,
    nodes: Map<NodeId, DescriptorView>,
    id: NodeId,
) -> Seq<Role>
    decreases v.len(),
{
    if v.len() == 0 {
        Seq::empty()
    } else {
        let before = roles_desired(v.drop_last(), nodes, id);
        if selects(v.last().node_selector, nodes, id) {
            merged(before, v.last().roles@)
        } else {
            before
        }
    }
}

/// Whether an assignment stands for a node.
pub open spec fn is_selected(
    v: Seq<NodeAssignment>,
    nodes: Map<NodeId, DescriptorView>,
    id: NodeId,
) -> bool {
    exists|i: int| 0 <= i < v.len() && selects((#[trigger] v[i]).node_selector, nodes, id)
}

/// The desired roles of every node that an assignment stands for.
pub open spec fn desired_among(
    v: Seq<NodeAssignment>,
    nodes: Map<NodeId, DescriptorView>,
) -> Map<NodeId, Seq<Role>> {
    Map::new(|id: NodeId| is_selected(v, nodes, id), |id: NodeId| roles_desired(v, nodes, id))
}

fn node_has(c: &Capabilities, name: &str) -> (r: bool)
    ensures
        r == has_capability(c@, name@),
{
    if str_eq(name, "storage") && c.storage {
        return true;
    }
    if str_eq(name, "gpu_acceleration") && c.gpu_acceleration {
        return true;
    }
    if str_eq(name, "project_sandbox") && c.project_sandbox {
        return true;
    }
    let mut i: usize = 0;
    while i < c.runtimes.len()
        invariant
            i <= c.runtimes@.len(),
            forall|k: int| 0 <= k < i ==> (#[trigger] c.runtimes@[k])@ != name@,
        decreases c.runtimes@.len() - i,
    {
        if str_eq(c.runtimes[i].as_str(), name) {
            assert(texts(c.runtimes@)[i as int] == name@);
            return true;
        }
        i += 1;
    }
    proof {
        if texts(c.runtimes@).contains(name@) {
            let k = choose|k: int|
                0 <= k < texts(c.runtimes@).len() && texts(c.runtimes@)[k] == name@;
            assert(c.runtimes@[k]@ == name@);
        }
    }
    false
}

fn name_of_os(os: OsType) -> (r: &'static str)
    ensures
        r@ == os_name(os),
{
    match os {
        OsType::MacOS => "MacOS",
        OsType::Linux => "Linux",
        OsType::Windows => "Windows",
        OsType::Ios => "Ios",
        OsType::Android => "Android",
        OsType::Unknown => "Unknown",
    }
}

fn node_fits(s: &NodeSelector, d: &NodeDescriptor) -> (r: bool)
    ensures
        r == fits(*s, d@),
{
    let mut i: usize = 0;
    while i < s.has_capabilities.len()
        invariant
            i <= s.has_capabilities@.len(),
            forall|k: int|
                0 <= k < i ==> has_capability(
                    d@.capabilities,
                    (#[trigger] s.has_capabilities@[k])@,
                ),
        decreases s.has_capabilities@.len() - i,
    {
        if !node_has(&d.capabilities, s.has_capabilities[i].as_str()) {
            return false;
        }
        i += 1;
    }
    match &s.os {
        Some(os) => str_eq(name_of_os(d.os), os.as_str()),
        None => true,
    }
}

fn naming(id: NodeId, roles: &Vec<Role>) -> (r: NodeAssignment)
    ensures
        r.node_selector.node_id == Some(id),
        r.roles@ == roles@,
{
    NodeAssignment {
        node_selector: NodeSelector { node_id: Some(id), has_capabilities: Vec::new(), os: None },
        roles: clone_roles(roles),
    }
}

/// How far an assignment without a name has been resolved: the nodes among `done`
/// that it selects have its roles, all others what they had.
spec fn resolved_upto(
    before: Map<NodeId, Seq<Role>>,
    now: Map<NodeId, Seq<Role>>,
    s: NodeSelector,
    nodes: Map<NodeId, DescriptorView>,
    roles: Seq<Role>,
    done: Seq<NodeId>,
) -> bool {
    forall|id: NodeId|
        #![trigger now.contains_key(id)]
        #![trigger roles_in(now, id)]
        {
            let hit = done.contains(id) && selects(s, nodes, id);
            &&& now.contains_key(id) == (before.contains_key(id) || hit)
            &&& roles_in(now, id) == (if hit {
                merged(roles_in(before, id), roles)
            } else {
                roles_in(before, id)
            })
        }
}

/// The same assignments, each to a node that it names: an assignment that selects
/// nodes otherwise is spelled out for every known node that it selects.
pub fn resolve(v: &Vec<NodeAssignment>, nodes: &HashMap<NodeId, NodeDescriptor>) -> (r: Vec<
    NodeAssignment,
>)
    ensures
        desired_roles(r@) == desired_among(
            v@,
            nodes@.map_values(|d: NodeDescriptor| d@),
        ),
{
    let ghost known = nodes@.map_values(|d: NodeDescriptor| d@);
    let ids = keys_of(nodes);
    let mut out: Vec<NodeAssignment> = Vec::new();
    let mut i: usize = 0;
    assert(v@.take(0) =~= Seq::<NodeAssignment>::empty());
    assert(desired_roles(out@) =~= desired_among(v@.take(0), known));
    while i < v.len()
        invariant
            i <= v@.len(),
            known == nodes@.map_values(|d: NodeDescriptor| d@),
            ids@.no_duplicates(),
            forall|k: NodeId| #[trigger] nodes@.contains_key(k) == ids@.contains(k),
            desired_roles(out@) == desired_among(v@.take(i as int), known),
        decreases v@.len() - i,
    {
        let ghost upto = v@.take(i as int);
        let ghost more = v@.take(i + 1);
        let ghost before = desired_roles(out@);
        let ghost s = v@[i as int].node_selector;
        let ghost roles = v@[i as int].roles@;
        assert(more.drop_last() =~= upto);
        assert(more.last() == v@[i as int]);
        match v[i].node_selector.node_id {
            Some(id) => {
                let ghost prior = out@;
                let a = naming(id, &v[i].roles);
                out.push(a);
                proof {
                    assert(out@.drop_last() =~= prior);
                    selected_more(upto, more, known);
                    assert forall|k: NodeId| #[trigger] desired_roles(out@).contains_key(k)
                        == desired_among(more, known).contains_key(k) by {
                        assert(before.contains_key(k) == is_selected(upto, known, k));
                    }
                    assert forall|k: NodeId| desired_roles(out@).contains_key(k) implies #[trigger] desired_roles(
                        out@,
                    )[k] == desired_among(more, known)[k] by {
                        roles_before(upto, known, k);
                    }
                    assert(desired_roles(out@) =~= desired_among(more, known));
                }
            },
            None => {
                let mut j: usize = 0;
                assert(ids@.take(0) =~= Seq::<NodeId>::empty());
                while j < ids.len()
                    invariant
                        i < v@.len(),
                        j <= ids@.len(),
                        s == v@[i as int].node_selector,
                        s.node_id is None,
                        roles == v@[i as int].roles@,
                        known == nodes@.map_values(|d: NodeDescriptor| d@),
                        ids@.no_duplicates(),
                        forall|k: NodeId| #[trigger] nodes@.contains_key(k) == ids@.contains(k),
                        resolved_upto(
                            before,
                            desired_roles(out@),
                            s,
                            known,
                            roles,
                            ids@.take(j as int),
                        ),
                    decreases ids@.len() - j,
                {
                    let id = ids[j];
                    let ghost now = desired_roles(out@);
                    let ghost done = ids@.take(j as int);
                    let ghost next = ids@.take(j + 1);
                    assert(ids@.contains(id));
                    assert(nodes@.contains_key(id));
                    assert(!done.contains(id)) by {
                        if done.contains(id) {
                            let k = choose|k: int| 0 <= k < done.len() && done[k] == id;
                            assert(ids@[k] == ids@[j as int]);
                        }
                    }
                    assert forall|k: NodeId| #[trigger] next.contains(k) == (done.contains(k) || k
                        == id) by {
                        assert(next[j as int] == id);
                        if done.contains(k) {
                            let a = choose|a: int| 0 <= a < done.len() && done[a] == k;
                            assert(next[a] == k);
                        }
                        if next.contains(k) {
                            let a = choose|a: int| 0 <= a < next.len() && next[a] == k;
                            if a < j {
                                assert(done[a] == k);
                            }
                        }
                    }
                    match nodes.get(&id) {
                        Some(d) => {
                            assert(known[id] == d@);
                            if node_fits(&v[i].node_selector, d) {
                                let ghost prior = out@;
                                let a = naming(id, &v[i].roles);
                                out.push(a);
                                assert(out@.drop_last() =~= prior);
                                assert(desired_roles(out@) == now.insert(
                                    id,
                                    merged(roles_in(now, id), roles),
                                ));
                                assert(roles_in(now, id) == roles_in(before, id));
                            }
                        },
                        None => {},
                    }
                    proof {
                        let after = desired_roles(out@);
                        assert forall|k: NodeId|
                            #![trigger after.contains_key(k)]
                            #![trigger roles_in(after, k)]
                            {
                                let hit = next.contains(k) && selects(s, known, k);
                                &&& after.contains_key(k) == (before.contains_key(k) || hit)
                                &&& roles_in(after, k) == (if hit {
                                    merged(roles_in(before, k), roles)
                                } else {
                                    roles_in(before, k)
                                })
                            } by {
                            assert(now.contains_key(k) == (before.contains_key(k) || (
                            done.contains(k) && selects(s, known, k))));
                            assert(next.contains(k) == (done.contains(k) || k == id));
                        }
                    }
                    j += 1;
                }
                proof {
                    let after = desired_roles(out@);
                    assert(ids@.take(j as int) =~= ids@);
                    selected_more(upto, more, known);
                    assert forall|k: NodeId| #[trigger] after.contains_key(k) == desired_among(
                        more,
                        known,
                    ).contains_key(k) by {
                        assert(before.contains_key(k) == is_selected(upto, known, k));
                        assert(nodes@.contains_key(k) == ids@.contains(k));
                        assert(known.contains_key(k) == nodes@.contains_key(k));
                    }
                    assert forall|k: NodeId| after.contains_key(k) implies #[trigger] after[k]
                        == desired_among(more, known)[k] by {
                        roles_before(upto, known, k);
                        assert(roles_in(after, k) == after[k]);
                        assert(nodes@.contains_key(k) == ids@.contains(k));
                        assert(known.contains_key(k) == nodes@.contains_key(k));
                    }
                    assert(after =~= desired_among(more, known));
                }
            },
        }
        i += 1;
    }
    assert(v@.take(i as int) =~= v@);
    out
}

proof fn selected_more(
    v: Seq<NodeAssignment>,
    more: Seq<NodeAssignment>,
    nodes: Map<NodeId, DescriptorView>,
)
    requires
        more.len() == v.len() + 1,
        more.drop_last() == v,
    ensures
        forall|id: NodeId|
            #[trigger] is_selected(more, nodes, id) == (is_selected(v, nodes, id) || selects(
                more.last().node_selector,
                nodes,
                id,
            )),
{
    assert forall|id: NodeId|
        #[trigger] is_selected(more, nodes, id) == (is_selected(v, nodes, id) || selects(
            more.last().node_selector,
            nodes,
            id,
        )) by {
        if is_selected(v, nodes, id) {
            let i = choose|i: int|
                0 <= i < v.len() && selects((#[trigger] v[i]).node_selector, nodes, id);
            assert(more[i] == v[i]);
        }
        if is_selected(more, nodes, id) {
            let i = choose|i: int|
                0 <= i < more.len() && selects((#[trigger] more[i]).node_selector, nodes, id);
            if i < v.len() {
                assert(v[i] == more[i]);
            }
        }
        assert(more[more.len() - 1] == more.last());
    }
}

/// A node that no assignment stands for has no desired roles.
proof fn roles_before(v: Seq<NodeAssignment>, nodes: Map<NodeId, DescriptorView>, id: NodeId)
    ensures
        roles_in(desired_among(v, nodes), id) == roles_desired(v, nodes, id),
{
    if !is_selected(v, nodes, id) {
        nothing_desired(v, nodes, id);
    }
}

proof fn nothing_desired(v: Seq<NodeAssignment>, nodes: Map<NodeId, DescriptorView>, id: NodeId)
    requires
        !is_selected(v, nodes, id),
    ensures
        roles_desired(v, nodes, id) == Seq::<Role>::empty(),
    decreases v.len(),
{
    if v.len() > 0 {
        selected_more(v.drop_last(), v, nodes);
        nothing_desired(v.drop_last(), nodes, id);
    }
}

/// Every role of an assignment is desired of every node that it stands for.
pub proof fn selected_nodes_get_the_roles(
    v: Seq<NodeAssignment>,
    nodes: Map<NodeId, DescriptorView>,
    i: int,
    id: NodeId,
    role: Role,
)
    requires
        0 <= i < v.len(),
        selects(v[i].node_selector, nodes, id),
        v[i].roles@.contains(role),
    ensures
        desired_among(v, nodes).contains_key(id),
        desired_among(v, nodes)[id].contains(role),
{
    assert(is_selected(v, nodes, id));
    role_is_desired(v, nodes, i, id, role);
}

proof fn role_is_desired(
    v: Seq<NodeAssignment>,
    nodes: Map<NodeId, DescriptorView>,
    i: int,
    id: NodeId,
    role: Role,
)
    requires
        0 <= i < v.len(),
        selects(v[i].node_selector, nodes, id),
        v[i].roles@.contains(role),
    ensures
        roles_desired(v, nodes, id).contains(role),
    decreases v.len(),
{
    let before = roles_desired(v.drop_last(), nodes, id);
    if i < v.len() - 1 {
        role_is_desired(v.drop_last(), nodes, i, id, role);
    }
    if selects(v.last().node_selector, nodes, id) {
        merged_holds(before, v.last().roles@, role);
    }
}

proof fn merged_holds(have: Seq<Role>, more: Seq<Role>, role: Role)
    ensures
        have.contains(role) || more.contains(role) ==> merged(have, more).contains(role),
    decreases more.len(),
{
    if more.len() > 0 {
        let front = more.drop_last();
        merged_holds(have, front, role);
        let before = merged(have, front);
        let all = merged(have, more);
        if before.contains(role) && !before.contains(more.last()) {
            let i = choose|i: int| 0 <= i < before.len() && before[i] == role;
            assert(all[i] == role);
        }
        if more.contains(role) && !front.contains(role) {
            let i = choose|i: int| 0 <= i < more.len() && more[i] == role;
            if i < front.len() {
                assert(front[i] == role);
            }
            assert(more.last() == role);
            if !before.contains(role) {
                assert(all[before.len() as int] == role);
            }
        }
    }
}

/// A selector that names a node stands for that node and no other.
pub proof fn named_node_is_selected(
    s: NodeSelector,
    nodes: Map<NodeId, DescriptorView>,
    named: NodeId,
    id: NodeId,
)
    requires
        s.node_id == Some(named),
    ensures
        selects(s, nodes, id) == (id == named),
{
}

/// A selector that names no node stands for known nodes only. Each of them has what
/// the selector asks for: storage, a GPU, a project sandbox or a runtime by its
/// name, and the operating system.
pub proof fn selected_node_has_what_is_asked_for(
    s: NodeSelector,
    nodes: Map<NodeId, DescriptorView>,
    id: NodeId,
    asked: Seq<char>,
)
    requires
        s.node_id is None,
        selects(s, nodes, id),
        exists|i: int| 0 <= i < s.has_capabilities@.len() && (#[trigger] s.has_capabilities@[i])@
            == asked,
    ensures
        nodes.contains_key(id),
        nodes[id].capabilities.runtimes.contains(asked) || (asked == "storage"@
            && nodes[id].capabilities.storage) || (asked == "gpu_acceleration"@
            && nodes[id].capabilities.gpu_acceleration) || (asked == "project_sandbox"@
            && nodes[id].capabilities.project_sandbox),
{
    let i = choose|i: int|
        0 <= i < s.has_capabilities@.len() && (#[trigger] s.has_capabilities@[i])@ == asked;
    assert(has_capability(nodes[id].capabilities, s.has_capabilities@[i]@));
}

/// An operating system is selected by its name.
pub proof fn selected_node_runs_the_system(
    s: NodeSelector,
    nodes: Map<NodeId, DescriptorView>,
    id: NodeId,
)
    requires
        s.node_id is None,
        selects(s, nodes, id),
        s.os is Some,
    ensures
        s.os->Some_0@ == "Linux"@ ==> nodes[id].os == OsType::Linux,
        s.os->Some_0@ == "MacOS"@ ==> nodes[id].os == OsType::MacOS,
        s.os->Some_0@ == "Windows"@ ==> nodes[id].os == OsType::Windows,
        s.os->Some_0@ == "Ios"@ ==> nodes[id].os == OsType::Ios,
        s.os->Some_0@ == "Android"@ ==> nodes[id].os == OsType::Android,
        s.os->Some_0@ == "Unknown"@ ==> nodes[id].os == OsType::Unknown,
{
    reveal_strlit("Linux");
    reveal_strlit("MacOS");
    reveal_strlit("Windows");
    reveal_strlit("Ios");
    reveal_strlit("Android");
    reveal_strlit("Unknown");
    let name = os_name(nodes[id].os);
    assert("Linux"@[0] == 'L' && "MacOS"@[0] == 'M' && "Windows"@[0] == 'W' && "Ios"@[0] == 'I'
        && "Android"@[0] == 'A' && "Unknown"@[0] == 'U');
    assert(name[0] == s.os->Some_0@[0]);
}

/// A known node is selected where it has everything that is asked for: an empty
/// selector stands for every known node.
pub proof fn fitting_node_is_selected(
    s: NodeSelector,
    nodes: Map<NodeId, DescriptorView>,
    id: NodeId,
)
    requires
        s.node_id is None,
        nodes.contains_key(id),
        forall|i: int|
            0 <= i < s.has_capabilities@.len() ==> {
                let asked = (#[trigger] s.has_capabilities@[i])@;
                ||| nodes[id].capabilities.runtimes.contains(asked)
                ||| asked == "storage"@ && nodes[id].capabilities.storage
                ||| asked == "gpu_acceleration"@ && nodes[id].capabilities.gpu_acceleration
                ||| asked == "project_sandbox"@ && nodes[id].capabilities.project_sandbox
            },
        s.os matches Some(os) ==> (os@ == "Linux"@ && nodes[id].os == OsType::Linux) || (os@
            == "MacOS"@ && nodes[id].os == OsType::MacOS) || (os@ == "Windows"@ && nodes[id].os
            == OsType::Windows),
    ensures
        selects(s, nodes, id),
{
}

/// A role is desired of a node exactly where an assignment that stands for the node
/// lists it.
pub proof fn roles_desired_are_those_assigned(
    v: Seq<NodeAssignment>,
    nodes: Map<NodeId, DescriptorView>,
    id: NodeId,
    role: Role,
)
    ensures
        roles_in(desired_among(v, nodes), id).contains(role) <==> exists|i: int|
            0 <= i < v.len() && selects((#[trigger] v[i]).node_selector, nodes, id)
                && v[i].roles@.contains(role),
{
    roles_before(v, nodes, id);
    roles_listed(v, nodes, id, role);
}

proof fn roles_listed(
    v: Seq<NodeAssignment>,
    nodes: Map<NodeId, DescriptorView>,
    id: NodeId,
    role: Role,
)
    ensures
        roles_desired(v, nodes, id).contains(role) <==> exists|i: int|
            0 <= i < v.len() && selects((#[trigger] v[i]).node_selector, nodes, id)
                && v[i].roles@.contains(role),
    decreases v.len(),
{
    if v.len() > 0 {
        let front = v.drop_last();
        roles_listed(front, nodes, id, role);
        let before = roles_desired(front, nodes, id);
        merged_holds(before, v.last().roles@, role);
        merged_holds_no_more(before, v.last().roles@, role);
        if before.contains(role) {
            let i = choose|i: int|
                0 <= i < front.len() && selects((#[trigger] front[i]).node_selector, nodes, id)
                    && front[i].roles@.contains(role);
            assert(v[i] == front[i]);
        }
        if exists|i: int|
            0 <= i < v.len() && selects((#[trigger] v[i]).node_selector, nodes, id)
                && v[i].roles@.contains(role) {
            let i = choose|i: int|
                0 <= i < v.len() && selects((#[trigger] v[i]).node_selector, nodes, id)
                    && v[i].roles@.contains(role);
            if i < front.len() {
                assert(front[i] == v[i]);
            }
        }
        assert(v[v.len() - 1] == v.last());
    }
}

proof fn merged_holds_no_more(have: Seq<Role>, more: Seq<Role>, role: Role)
    ensures
        merged(have, more).contains(role) ==> have.contains(role) || more.contains(role),
    decreases more.len(),
{
    if more.len() > 0 {
        let front = more.drop_last();
        merged_holds_no_more(have, front, role);
        let before = merged(have, front);
        let all = merged(have, more);
        if front.contains(role) {
            let i = choose|i: int| 0 <= i < front.len() && front[i] == role;
            assert(more[i] == role);
        }
        assert(more[more.len() - 1] == more.last());
        if all.contains(role) && !before.contains(more.last()) {
            let i = choose|i: int| 0 <= i < all.len() && all[i] == role;
            if i < before.len() {
                assert(before[i] == role);
            }
        }
    }
}

} // verus!
