//! Project submission: which executor gets a task, and what is known of tasks
//! and their results.
use std::collections::HashMap;
use vstd::prelude::*;
use vstd::string::*;
use crate::error::{CoreError, ErrorView, Result};
use crate::outside::uuid_text::{uuid_notation, uuid_to_text};
use crate::p2p::command::SwarmCommand;
use crate::raft::network::RaftIdRegistry;
use crate::raft::state_machine::ClusterState;
use crate::table::TextTable;
use crate::text::{cat2, cat5, decimal, decimal_text};
use crate::types::{default_limits, DescriptorView, NodeDescriptor, NodeId, ProjectResult};
use crate::types::{ProjectResultView, ProjectSnapshot, ProjectTask, ResourceLimits, TaskId};

verus! {

broadcast use vstd::std_specs::hash::group_hash_axioms;

/// How long a task may stay dispatched before it counts as failed, in nanoseconds.
pub const RESULT_GRACE: u128 = 1_920_000_000_000;

/// Lifecycle of a submitted task.
#[derive(Debug, PartialEq, Eq)]
pub enum TaskState {
    /// Handed to the swarm; no result yet.
    Dispatched,
    /// Failed, for this reason.
    Failed(String),
    /// The executor reported a result.
    Done,
}

/// What a [`TaskState`] says.
pub enum TaskView {
    Dispatched,
    Failed(Seq<char>),
    Done,
}

impl View for TaskState {
    type V = TaskView;

    open spec fn view(&self) -> TaskView {
        match self {
            TaskState::Dispatched => TaskView::Dispatched,
            TaskState::Failed(s) => TaskView::Failed(s@),
            TaskState::Done => TaskView::Done,
        }
    }
}

impl Clone for TaskState {
    fn clone(&self) -> (r: Self)
        ensures
            r@ == self@,
    {
        match self {
            TaskState::Dispatched => TaskState::Dispatched,
            TaskState::Failed(s) => TaskState::Failed(s.clone()),
            TaskState::Done => TaskState::Done,
        }
    }
}

/// Where executors are looked up.
pub enum Catalog<'a> {
    /// In the replicated state, for a member of the cluster.
    Raft { state: &'a ClusterState, registry: &'a RaftIdRegistry },
    /// Among the descriptors that peers sent, for a light client.
    Peers(&'a TextTable<NodeDescriptor>),
}

/// Submits projects and keeps track of them.
#[derive(Debug)]
pub struct ProjectClient {
    results: HashMap<TaskId, ProjectResult>,
    tasks: HashMap<TaskId, (TaskState, u128)>,
    self_node_id: NodeId,
}

/// What a [`ProjectClient`] knows.
#[verifier::ext_equal]
pub struct ClientView {
    pub results: Map<TaskId, ProjectResultView>,
    pub tasks: Map<TaskId, (TaskView, u128)>,
    pub self_node_id: NodeId,
}

impl View for ProjectClient {
    type V = ClientView;

    closed spec fn view(&self) -> ClientView {
        ClientView {
            results: self.results@.map_values(|r: ProjectResult| r@),
            tasks: self.tasks@.map_values(|t: (TaskState, u128)| (t.0@, t.1)),
            self_node_id: self.self_node_id,
        }
    }
}

/// A remote node that can run projects.
pub open spec fn capable(d: DescriptorView, me: NodeId) -> bool {
    d.capabilities.project_sandbox && d.node_id != me
}

/// The order of participant ids: none comes first.
pub open spec fn id_le(a: Option<u64>, b: Option<u64>) -> bool {
    match (a, b) {
        (None, _) => true,
        (Some(_), None) => false,
        (Some(x), Some(y)) => x <= y,
    }
}

fn is_id_le(a: Option<u64>, b: Option<u64>) -> (r: bool)
    ensures
        r == id_le(a, b),
{
    match (a, b) {
        (None, _) => true,
        (Some(_), None) => false,
        (Some(x), Some(y)) => x <= y,
    }
}

/// A capable node with the lowest participant id.
pub open spec fn is_choice(nodes: Map<NodeId, DescriptorView>, me: NodeId, key: NodeId) -> bool {
    &&& nodes.contains_key(key)
    &&& capable(nodes[key], me)
    &&& forall|k: NodeId|
        #[trigger] nodes.contains_key(k) && capable(nodes[k], me) ==> id_le(
            nodes[key].raft_id,
            nodes[k].raft_id,
        )
}

/// Whether any node is capable.
pub open spec fn any_capable(nodes: Map<NodeId, DescriptorView>, me: NodeId) -> bool {
    exists|k: NodeId| #[trigger] nodes.contains_key(k) && capable(nodes[k], me)
}

/// What resolving a chosen node gives.
pub open spec fn peer_of(
    d: DescriptorView,
    registry: Map<u64, Seq<char>>,
    r: Result<String>,
) -> bool {
    match d.raft_id {
        None => r is Err && r->Err_0@ == ErrorView::InvalidState("target node has no raft_id"@),
        Some(id) => if registry.contains_key(id) {
            r is Ok && r->Ok_0@ == registry[id]
        } else {
            r is Err && r->Err_0@ == ErrorView::Network(
                "no PeerId for raft id "@ + decimal(id as nat) + " (node "@ + uuid_notation(
                    d.node_id,
                ) + ")"@,
            )
        },
    }
}

/// What resolving a target in the replicated state gives: the target itself, or a
/// capable node with the lowest participant id.
pub open spec fn resolved_in_cluster(
    nodes: Map<NodeId, DescriptorView>,
    registry: Map<u64, Seq<char>>,
    me: NodeId,
    target: Option<NodeId>,
    r: Result<String>,
) -> bool {
    match target {
        Some(id) => if nodes.contains_key(id) {
            peer_of(nodes[id], registry, r)
        } else {
            r is Err && r->Err_0@ == ErrorView::InvalidState(
                "unknown target node "@ + uuid_notation(id),
            )
        },
        None => if any_capable(nodes, me) {
            exists|key: NodeId|
                #[trigger] is_choice(nodes, me, key) && peer_of(nodes[key], registry, r)
        } else {
            r is Err && r->Err_0@ == ErrorView::InvalidState(
                "no remote node with project_sandbox capability"@,
            )
        },
    }
}

/// Where the first row with a node id stands.
pub open spec fn row_with_node(rows: Seq<(Seq<char>, NodeDescriptor)>, id: NodeId) -> Option<int>
    decreases rows.len(),
{
    if rows.len() == 0 {
        None
    } else {
        match row_with_node(rows.drop_last(), id) {
            Some(i) => Some(i),
            None => if rows.last().1.node_id == id {
                Some(rows.len() - 1)
            } else {
                None
            },
        }
    }
}

/// Where the first capable row with the lowest participant id stands.
pub open spec fn best_row(rows: Seq<(Seq<char>, NodeDescriptor)>, me: NodeId) -> Option<int>
    decreases rows.len(),
{
    if rows.len() == 0 {
        None
    } else {
        let last = rows.last().1@;
        match best_row(rows.drop_last(), me) {
            Some(i) => if capable(last, me) && !id_le(rows[i].1.raft_id, last.raft_id) {
                Some(rows.len() - 1)
            } else {
                Some(i)
            },
            None => if capable(last, me) {
                Some(rows.len() - 1)
            } else {
                None
            },
        }
    }
}

/// What resolving a target among peers gives.
pub open spec fn resolved_among_peers(
    rows: Seq<(Seq<char>, NodeDescriptor)>,
    me: NodeId,
    target: Option<NodeId>,
    r: Result<String>,
) -> bool {
    let at = match target {
        Some(id) => row_with_node(rows, id),
        None => best_row(rows, me),
    };
    match at {
        Some(i) => r is Ok && r->Ok_0@ == rows[i].0,
        None => r is Err && r->Err_0@ == ErrorView::InvalidState(
            "no reachable node with project_sandbox capability"@,
        ),
    }
}

/// What resolving a target in a catalog gives.
pub open spec fn resolved(
    catalog: Catalog<'_>,
    me: NodeId,
    target: Option<NodeId>,
    r: Result<String>,
) -> bool {
    match catalog {
        Catalog::Raft { state, registry } => resolved_in_cluster(
            state@.nodes,
            registry@,
            me,
            target,
            r,
        ),
        Catalog::Peers(peers) => resolved_among_peers(peers@, me, target, r),
    }
}

fn choose_node<'a>(state: &'a ClusterState, me: NodeId) -> (r: Option<&'a NodeDescriptor>)
    ensures
        match r {
            Some(d) => exists|key: NodeId|
                #[trigger] is_choice(state@.nodes, me, key) && state@.nodes[key] == d@,
            None => !any_capable(state@.nodes, me),
        },
{
    let nodes = &state.nodes;
    let ghost view = state@.nodes;
    let ghost all = vstd::std_specs::iter::IteratorSpec::remaining(
        &vstd::std_specs::hash::spec_hash_map_iter(nodes),
    );
    let mut best: Option<&NodeDescriptor> = None;
    let ghost mut at: int = 0;
    for (id, d) in iter: nodes.iter()
        invariant
            iter.seq() == all,
            match best {
                Some(b) => {
                    &&& 0 <= at < iter.index()
                    &&& *b == *all[at].1
                    &&& capable(b@, me)
                    &&& forall|k: int|
                        0 <= k < iter.index() && capable((#[trigger] all[k]).1@, me) ==> id_le(
                            b.raft_id,
                            all[k].1.raft_id,
                        )
                },
                None => forall|k: int|
                    0 <= k < iter.index() ==> !capable((#[trigger] all[k]).1@, me),
            },
    {
        if d.capabilities.project_sandbox && d.node_id != me {
            let better = match best {
                Some(b) => !is_id_le(b.raft_id, d.raft_id),
                None => true,
            };
            if better {
                best = Some(d);
                proof {
                    at = iter.index() as int;
                }
            }
        }
    }
    proof {
        match best {
            Some(b) => {
                let key = *all[at].0;
                assert(nodes@.contains_key(key) && nodes@[key] == *all[at].1);
                assert forall|k: NodeId|
                    #[trigger] view.contains_key(k) && capable(view[k], me) implies id_le(
                    view[key].raft_id,
                    view[k].raft_id,
                ) by {
                    assert(nodes@.contains_key(k));
                    assert(all.contains((&k, &nodes@[k])));
                    let i = choose|i: int| 0 <= i < all.len() && all[i] == (&k, &nodes@[k]);
                    assert(capable(all[i].1@, me));
                }
                assert(is_choice(view, me, key));
            },
            None => {
                assert forall|k: NodeId| #[trigger] view.contains_key(k) implies !capable(
                    view[k],
                    me,
                ) by {
                    assert(nodes@.contains_key(k));
                    assert(all.contains((&k, &nodes@[k])));
                    let i = choose|i: int| 0 <= i < all.len() && all[i] == (&k, &nodes@[k]);
                    assert(!capable(all[i].1@, me));
                }
            },
        }
    }
    best
}

fn peer_of_node(d: &NodeDescriptor, registry: &RaftIdRegistry) -> (r: Result<String>)
    ensures
        peer_of(d@, registry@, r),
{
    match d.raft_id {
        None => Err(CoreError::InvalidState(String::from_str("target node has no raft_id"))),
        Some(id) => match registry.get(id) {
            Some(peer) => Ok(peer),
            None => Err(
                CoreError::Network(
                    cat5(
                        "no PeerId for raft id ",
                        decimal_text(id).as_str(),
                        " (node ",
                        uuid_to_text(d.node_id).as_str(),
                        ")",
                    ),
                ),
            ),
        },
    }
}

fn find_node(peers: &TextTable<NodeDescriptor>, id: NodeId) -> (r: Option<usize>)
    ensures
        match r {
            Some(i) => row_with_node(peers@, id) == Some(i as int) && i < peers@.len(),
            None => row_with_node(peers@, id) is None,
        },
{
    let n: usize = peers.len();
    let mut i: usize = 0;
    let mut found: Option<usize> = None;
    assert(peers@.take(0) =~= Seq::<(Seq<char>, NodeDescriptor)>::empty());
    while i < n
        invariant
            i <= n == peers@.len(),
            match found {
                Some(f) => f < i && row_with_node(peers@.take(i as int), id) == Some(f as int),
                None => row_with_node(peers@.take(i as int), id) is None,
            },
        decreases n - i,
    {
        assert(peers@.take(i + 1).drop_last() =~= peers@.take(i as int));
        if found.is_none() && peers.value_at(i).node_id == id {
            found = Some(i);
        }
        i += 1;
    }
    assert(peers@.take(i as int) =~= peers@);
    found
}

fn find_best(peers: &TextTable<NodeDescriptor>, me: NodeId) -> (r: Option<usize>)
    ensures
        match r {
            Some(i) => best_row(peers@, me) == Some(i as int) && i < peers@.len(),
            None => best_row(peers@, me) is None,
        },
{
    let n: usize = peers.len();
    let mut i: usize = 0;
    let mut best: Option<usize> = None;
    assert(peers@.take(0) =~= Seq::<(Seq<char>, NodeDescriptor)>::empty());
    while i < n
        invariant
            i <= n == peers@.len(),
            match best {
                Some(b) => b < i && best_row(peers@.take(i as int), me) == Some(b as int),
                None => best_row(peers@.take(i as int), me) is None,
            },
        decreases n - i,
    {
        assert(peers@.take(i + 1).drop_last() =~= peers@.take(i as int));
        assert(peers@.take(i + 1).last() == peers@[i as int]);
        let d = peers.value_at(i);
        if d.capabilities.project_sandbox && d.node_id != me {
            let better = match best {
                Some(b) => !is_id_le(peers.value_at(b).raft_id, d.raft_id),
                None => true,
            };
            if better {
                best = Some(i);
            }
        }
        i += 1;
    }
    assert(peers@.take(i as int) =~= peers@);
    best
}

/// Every capable row loses against the best one.
pub proof fn best_row_is_lowest(rows: Seq<(Seq<char>, NodeDescriptor)>, me: NodeId)
    ensures
        match best_row(rows, me) {
            Some(i) => 0 <= i < rows.len() && capable(rows[i].1@, me) && forall|k: int|
                0 <= k < rows.len() && capable((#[trigger] rows[k]).1@, me) ==> id_le(
                    rows[i].1.raft_id,
                    rows[k].1.raft_id,
                ),
            None => forall|k: int| 0 <= k < rows.len() ==> !capable((#[trigger] rows[k]).1@, me),
        },
    decreases rows.len(),
{
    if rows.len() > 0 {
        best_row_is_lowest(rows.drop_last(), me);
        assert(forall|k: int| 0 <= k < rows.len() - 1 ==> (#[trigger] rows[k]) == rows.drop_last()[k]);
    }
}

/// Where no two capable nodes have the same participant id, there is one choice
/// only, whatever order the nodes are looked at in.
pub proof fn choice_is_deterministic(
    nodes: Map<NodeId, DescriptorView>,
    me: NodeId,
    a: NodeId,
    b: NodeId,
)
    requires
        is_choice(nodes, me, a),
        is_choice(nodes, me, b),
        forall|x: NodeId, y: NodeId|
            #[trigger] nodes.contains_key(x) && #[trigger] nodes.contains_key(y) && x != y
                && capable(nodes[x], me) && capable(nodes[y], me) ==> nodes[x].raft_id
                != nodes[y].raft_id,
    ensures
        a == b,
{
}

/// The error for state that a crashed thread left behind.
pub fn poisoned() -> (r: CoreError)
    ensures
        r@ == ErrorView::Internal("project client state poisoned"@),
{
    CoreError::Internal(String::from_str("project client state poisoned"))
}

/// What is said of a task at a given time.
pub open spec fn status_at(c: ClientView, task_id: TaskId, now: u128) -> TaskView {
    if !c.tasks.contains_key(task_id) {
        TaskView::Failed("unknown task_id "@ + uuid_notation(task_id))
    } else {
        let (state, since) = c.tasks[task_id];
        if state == TaskView::Dispatched && now > since && now - since > RESULT_GRACE {
            TaskView::Failed(
                "no result within "@ + decimal((RESULT_GRACE / 1_000_000_000) as nat)
                    + "s (executor did not answer: check the execution node's logs and whether its project executor is reachable)"@,
            )
        } else {
            state
        }
    }
}

/// What is known after a result came in.
pub open spec fn with_result(c: ClientView, result: ProjectResultView, now: u128) -> ClientView {
    ClientView {
        results: c.results.insert(result.task_id, result),
        tasks: c.tasks.insert(result.task_id, (TaskView::Done, now)),
        ..c
    }
}

/// What is known after a task was handed to the swarm.
pub open spec fn with_task(c: ClientView, task_id: TaskId, now: u128) -> ClientView {
    ClientView { tasks: c.tasks.insert(task_id, (TaskView::Dispatched, now)), ..c }
}

impl ProjectClient {
    /// A client of the given node that knows no task.
    pub fn new(self_node_id: NodeId) -> (r: Self)
        ensures
            r@ == (ClientView { results: Map::empty(), tasks: Map::empty(), self_node_id }),
    {
        let r = ProjectClient { results: HashMap::new(), tasks: HashMap::new(), self_node_id };
        assert(r@ =~= (ClientView { results: Map::empty(), tasks: Map::empty(), self_node_id }));
        r
    }

    /// The peer that a task for `target` goes to; without a target, a remote node
    /// that can run projects, the one with the lowest participant id.
    pub fn resolve_peer(&self, catalog: &Catalog<'_>, target: Option<NodeId>) -> (r: Result<String>)
        ensures
            resolved(*catalog, self@.self_node_id, target, r),
    {
        match catalog {
            Catalog::Raft { state, registry } => match target {
                Some(id) => match state.nodes.get(&id) {
                    Some(d) => peer_of_node(d, registry),
                    None => Err(
                        CoreError::InvalidState(
                            cat2("unknown target node ", uuid_to_text(id).as_str()),
                        ),
                    ),
                },
                None => match choose_node(state, self.self_node_id) {
                    Some(d) => {
                        let r = peer_of_node(d, registry);
                        proof {
                            let key = choose|key: NodeId|
                                #[trigger] is_choice(state@.nodes, self.self_node_id, key)
                                    && state@.nodes[key] == d@;
                            assert(is_choice(state@.nodes, self.self_node_id, key));
                            assert(peer_of(state@.nodes[key], registry@, r));
                            assert(state@.nodes.contains_key(key));
                        }
                        r
                    },
                    None => Err(
                        CoreError::InvalidState(
                            String::from_str("no remote node with project_sandbox capability"),
                        ),
                    ),
                },
            },
            Catalog::Peers(peers) => {
                let at = match target {
                    Some(id) => find_node(peers, id),
                    None => find_best(peers, self.self_node_id),
                };
                match at {
                    Some(i) => Ok(String::from_str(peers.key_at(i))),
                    None => Err(
                        CoreError::InvalidState(
                            String::from_str("no reachable node with project_sandbox capability"),
                        ),
                    ),
                }
            },
        }
    }

    /// The command that sends a packed project to its executor, under a fresh task
    /// id. A project that could not be packed, or has no executor, is an error.
    pub fn submit_local_project(
        &self,
        catalog: &Catalog<'_>,
        snapshot: Result<ProjectSnapshot>,
        work_dir: &str,
        build_cmd: Vec<String>,
        run_cmd: Vec<String>,
        timeout_ms: u64,
        target: Option<NodeId>,
        fresh: TaskId,
    ) -> (r: Result<SwarmCommand>)
        ensures
            match snapshot {
                Err(e) => r == Err::<SwarmCommand, CoreError>(e),
                Ok(s) => match r {
                    Ok(command) => {
                        &&& command is SendProjectTask
                        &&& resolved(
                            *catalog,
                            self@.self_node_id,
                            target,
                            Ok(command->SendProjectTask_peer_id),
                        )
                        &&& command->SendProjectTask_task.task_id == fresh
                        &&& command->SendProjectTask_task.snapshot == s
                        &&& command->SendProjectTask_task.work_dir@ == work_dir@
                        &&& command->SendProjectTask_task.build_cmd == build_cmd
                        &&& command->SendProjectTask_task.run_cmd == run_cmd
                        &&& command->SendProjectTask_task.timeout_ms == timeout_ms
                        &&& command->SendProjectTask_task.resource_limits == default_limits()
                        &&& command->SendProjectTask_task.pinned_node == target
                    },
                    Err(e) => resolved(*catalog, self@.self_node_id, target, Err(e)),
                },
            },
    {
        let snapshot = match snapshot {
            Ok(s) => s,
            Err(e) => {
                return Err(e);
            },
        };
        match self.resolve_peer(catalog, target) {
            Err(e) => Err(e),
            Ok(peer_id) => {
                let task = ProjectTask {
                    task_id: fresh,
                    snapshot,
                    work_dir: String::from_str(work_dir),
                    build_cmd,
                    run_cmd,
                    timeout_ms,
                    resource_limits: ResourceLimits::default(),
                    pinned_node: target,
                };
                Ok(SwarmCommand::SendProjectTask { peer_id, task })
            },
        }
    }

    /// Record that a task was handed to the swarm, unless that failed.
    pub fn task_sent(
        &mut self,
        task_id: TaskId,
        sent: std::result::Result<(), String>,
        now: u128,
    ) -> (r: Result<TaskId>)
        ensures
            match sent {
                Ok(_) => r == Ok::<TaskId, CoreError>(task_id) && final(self)@ == with_task(
                    old(self)@,
                    task_id,
                    now,
                ),
                Err(e) => r is Err && r->Err_0@ == ErrorView::Network(
                    "send project task: "@ + e@,
                ) && final(self)@ == old(self)@,
            },
    {
        match sent {
            Ok(_) => {
                self.tasks.insert(task_id, (TaskState::Dispatched, now));
                assert(self@ =~= with_task(old(self)@, task_id, now));
                Ok(task_id)
            },
            Err(e) => Err(CoreError::Network(cat2("send project task: ", e.as_str()))),
        }
    }

    /// Record a result that an executor sent back.
    pub fn record_result(&mut self, result: ProjectResult, now: u128)
        ensures
            final(self)@ == with_result(old(self)@, result@, now),
    {
        self.tasks.insert(result.task_id, (TaskState::Done, now));
        self.results.insert(result.task_id, result);
        assert(self@ =~= with_result(old(self)@, result@, now));
    }

    /// The recorded result of a task.
    pub fn get_result(&self, task_id: &TaskId) -> (r: Option<ProjectResult>)
        ensures
            match r {
                Some(result) => self@.results.contains_key(*task_id) && result@
                    == self@.results[*task_id],
                None => !self@.results.contains_key(*task_id),
            },
    {
        match self.results.get(task_id) {
            Some(result) => Some(result.clone()),
            None => None,
        }
    }

    /// What is known of a task at time `now`. A task that stays without a result
    /// for too long is failed, not pending for ever.
    pub fn task_status(&self, task_id: &TaskId, now: u128) -> (r: TaskState)
        ensures
            r@ == status_at(self@, *task_id, now),
    {
        match self.tasks.get(task_id) {
            None => TaskState::Failed(cat2("unknown task_id ", uuid_to_text(*task_id).as_str())),
            Some(entry) => match &entry.0 {
                TaskState::Dispatched => if now > entry.1 && now - entry.1 > RESULT_GRACE {
                    let mut text = cat2(
                        "no result within ",
                        decimal_text((RESULT_GRACE / 1_000_000_000) as u64).as_str(),
                    );
                    text.append(
                        "s (executor did not answer: check the execution node's logs and whether its project executor is reachable)",
                    );
                    TaskState::Failed(text)
                } else {
                    TaskState::Dispatched
                },
                other => other.clone(),
            },
        }
    }

    /// How many tasks are tracked.
    pub fn tracked_tasks(&self) -> (r: usize)
        ensures
            r == self@.tasks.len(),
    {
        assert(self@.tasks.dom() =~= self.tasks@.dom());
        self.tasks.len()
    }
}

/// A recorded result is what is read back, and its task is done from then on.
pub proof fn recorded_result_is_read_back(
    c: ClientView,
    result: ProjectResultView,
    now: u128,
    later: u128,
)
    ensures
        with_result(c, result, now).results.contains_key(result.task_id),
        with_result(c, result, now).results[result.task_id] == result,
        status_at(with_result(c, result, now), result.task_id, later) == TaskView::Done,
{
}

/// No task is pending for ever: once the grace period is over, a task without a
/// result is failed.
pub proof fn no_task_is_pending_for_ever(c: ClientView, task_id: TaskId, since: u128, now: u128)
    requires
        now > since + RESULT_GRACE,
    ensures
        status_at(with_task(c, task_id, since), task_id, now) is Failed,
{
}

/// Without a target a task goes to a remote node that says it can run projects, and
/// among those to one with the lowest participant id; the peer is the one known for
/// that id.
pub proof fn untargeted_task_goes_to_a_capable_node(
    nodes: Map<NodeId, DescriptorView>,
    registry: Map<u64, Seq<char>>,
    me: NodeId,
    r: Result<String>,
)
    requires
        resolved_in_cluster(nodes, registry, me, None, r),
        r is Ok,
    ensures
        exists|key: NodeId, id: u64|
            {
                &&& #[trigger] nodes.contains_key(key)
                &&& nodes[key].capabilities.project_sandbox
                &&& nodes[key].node_id != me
                &&& nodes[key].raft_id == Some(id)
                &&& #[trigger] registry.contains_key(id)
                &&& registry[id] == r->Ok_0@
                &&& forall|other: NodeId|
                    #[trigger] nodes.contains_key(other) && nodes[other].capabilities.project_sandbox
                        && nodes[other].node_id != me ==> nodes[other].raft_id is Some && id
                        <= nodes[other].raft_id->Some_0
            },
{
    let key = choose|key: NodeId|
        #[trigger] is_choice(nodes, me, key) && peer_of(nodes[key], registry, r);
    let id = nodes[key].raft_id->Some_0;
    assert(nodes.contains_key(key));
    assert(registry.contains_key(id));
}

/// A task with a target goes to that node's peer or nowhere.
pub proof fn targeted_task_goes_to_its_node(
    nodes: Map<NodeId, DescriptorView>,
    registry: Map<u64, Seq<char>>,
    me: NodeId,
    target: NodeId,
    r: Result<String>,
)
    requires
        resolved_in_cluster(nodes, registry, me, Some(target), r),
    ensures
        r is Ok <==> nodes.contains_key(target) && nodes[target].raft_id is Some
            && registry.contains_key(nodes[target].raft_id->Some_0),
        r is Ok ==> r->Ok_0@ == registry[nodes[target].raft_id->Some_0],
{
}

/// Where no remote node can run projects, an untargeted task goes nowhere.
pub proof fn incapable_cluster_takes_no_task(
    nodes: Map<NodeId, DescriptorView>,
    registry: Map<u64, Seq<char>>,
    me: NodeId,
    r: Result<String>,
)
    requires
        resolved_in_cluster(nodes, registry, me, None, r),
        forall|k: NodeId| #[trigger]
            nodes.contains_key(k) ==> !nodes[k].capabilities.project_sandbox || nodes[k].node_id
                == me,
    ensures
        r is Err,
{
}

proof fn row_with_node_is_first(rows: Seq<(Seq<char>, NodeDescriptor)>, id: NodeId)
    ensures
        match row_with_node(rows, id) {
            Some(i) => 0 <= i < rows.len() && rows[i].1.node_id == id && forall|k: int|
                0 <= k < i ==> (#[trigger] rows[k]).1.node_id != id,
            None => forall|k: int| 0 <= k < rows.len() ==> (#[trigger] rows[k]).1.node_id != id,
        },
    decreases rows.len(),
{
    if rows.len() > 0 {
        row_with_node_is_first(rows.drop_last(), id);
        assert(forall|k: int|
            0 <= k < rows.len() - 1 ==> (#[trigger] rows[k]) == rows.drop_last()[k]);
    }
}

/// A light client sends a task to the peer that is its target, or, without a target,
/// to a peer that says it can run projects and is not the client itself; it fails
/// only where there is none.
pub proof fn light_client_picks_a_fitting_peer(
    rows: Seq<(Seq<char>, NodeDescriptor)>,
    me: NodeId,
    target: Option<NodeId>,
    r: Result<String>,
)
    requires
        resolved_among_peers(rows, me, target, r),
    ensures
        r is Ok ==> exists|i: int|
            {
                &&& 0 <= i < rows.len()
                &&& (#[trigger] rows[i]).0 == r->Ok_0@
                &&& match target {
                    Some(id) => rows[i].1.node_id == id,
                    None => rows[i].1.capabilities.project_sandbox && rows[i].1.node_id != me,
                }
            },
        r is Err ==> forall|i: int|
            0 <= i < rows.len() ==> match target {
                Some(id) => (#[trigger] rows[i]).1.node_id != id,
                None => !rows[i].1.capabilities.project_sandbox || rows[i].1.node_id == me,
            },
{
    match target {
        Some(id) => {
            row_with_node_is_first(rows, id);
        },
        None => {
            best_row_is_lowest(rows, me);
            if r is Err {
                assert forall|i: int| 0 <= i < rows.len() implies !(
                #[trigger] rows[i]).1.capabilities.project_sandbox || rows[i].1.node_id == me by {
                    assert(!capable(rows[i].1@, me));
                }
            }
        },
    }
}

/// A task that was sent is pending until its time is up, and a task that nobody sent
/// is unknown. What is recorded of one task changes nothing about another.
pub proof fn task_status_follows_the_task(
    c: ClientView,
    task_id: TaskId,
    other: TaskId,
    since: u128,
    now: u128,
    result: ProjectResultView,
)
    requires
        other != task_id,
        result.task_id == task_id,
    ensures
        since <= now <= since + RESULT_GRACE ==> status_at(
            with_task(c, task_id, since),
            task_id,
            now,
        ) == TaskView::Dispatched,
        !c.tasks.contains_key(task_id) ==> status_at(c, task_id, now) is Failed,
        status_at(with_task(c, task_id, since), other, now) == status_at(c, other, now),
        status_at(with_result(c, result, since), other, now) == status_at(c, other, now),
        with_result(c, result, since).results.contains_key(other) == c.results.contains_key(other),
        c.results.contains_key(other) ==> with_result(c, result, since).results[other]
            == c.results[other],
        with_task(c, task_id, since).results == c.results,
{
}

} // verus!
