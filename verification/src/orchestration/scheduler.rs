//! Routing of tasks to executors.
use std::collections::{HashMap, VecDeque};
use vstd::prelude::*;
use vstd::string::*;
use crate::text::str_eq;
use crate::types::{texts, NodeId, Role, RoutingStrategy, ScheduledTask, TaskId};

verus! {

broadcast use vstd::std_specs::hash::group_hash_axioms;

/// Routes pending tasks to executors.
#[derive(Debug)]
pub struct TaskScheduler {
    /// Tasks that wait, the oldest first.
    pub pending: VecDeque<ScheduledTask>,
    /// Nodes that execute, in the order in which they registered.
    pub executors: Vec<NodeId>,
    /// Capabilities of nodes.
    pub node_caps: HashMap<NodeId, Vec<String>>,
}

/// Whether a node has a capability.
pub open spec fn has_cap(caps: Map<NodeId, Vec<String>>, id: NodeId, cap: Seq<char>) -> bool {
    caps.contains_key(id) && texts(caps[id]@).contains(cap)
}

/// Whether a node has what a strategy prefers.
pub open spec fn preferred(
    caps: Map<NodeId, Vec<String>>,
    id: NodeId,
    strategy: RoutingStrategy,
) -> bool {
    match strategy {
        RoutingStrategy::PreferWasm => has_cap(caps, id, "wasm"@),
        RoutingStrategy::PreferNative => has_cap(caps, id, "native"@) || has_cap(
            caps,
            id,
            "container"@,
        ),
        _ => false,
    }
}

/// The first executor with what a strategy prefers.
pub open spec fn first_preferred(
    executors: Seq<NodeId>,
    caps: Map<NodeId, Vec<String>>,
    strategy: RoutingStrategy,
) -> Option<NodeId>
    decreases executors.len(),
{
    if executors.len() == 0 {
        None
    } else {
        match first_preferred(executors.drop_last(), caps, strategy) {
            Some(id) => Some(id),
            None => if preferred(caps, executors.last(), strategy) {
                Some(executors.last())
            } else {
                None
            },
        }
    }
}

/// Where a task goes, and how many tasks have then been dealt out in turn.
pub open spec fn route(
    executors: Seq<NodeId>,
    caps: Map<NodeId, Vec<String>>,
    strategy: RoutingStrategy,
    turn: nat,
) -> (NodeId, nat) {
    let in_turn = (executors[turn as int % executors.len() as int], turn + 1);
    match strategy {
        RoutingStrategy::Pinned(id) => (id, turn),
        RoutingStrategy::AnyExecutor => in_turn,
        _ => match first_preferred(executors, caps, strategy) {
            Some(id) => (id, turn),
            None => in_turn,
        },
    }
}

/// Tasks dealt out in order: where each goes, and how many were dealt out in turn.
pub open spec fn routes(
    executors: Seq<NodeId>,
    caps: Map<NodeId, Vec<String>>,
    tasks: Seq<ScheduledTask>,
) -> (Seq<(TaskId, NodeId)>, nat)
    decreases tasks.len(),
{
    if tasks.len() == 0 {
        (Seq::empty(), 0)
    } else {
        let (before, turn) = routes(executors, caps, tasks.drop_last());
        let (id, next) = route(executors, caps, tasks.last().routing, turn);
        (before.push((tasks.last().task_id, id)), next)
    }
}

impl TaskScheduler {
    /// A scheduler without tasks and executors.
    pub fn new() -> (r: Self)
        ensures
            r.pending@.len() == 0,
            r.executors@.len() == 0,
            r.node_caps@ == Map::<NodeId, Vec<String>>::empty(),
    {
        TaskScheduler { pending: VecDeque::new(), executors: Vec::new(), node_caps: HashMap::new() }
    }

    /// Add a task behind the others.
    pub fn submit(&mut self, task: ScheduledTask)
        ensures
            final(self).pending@ == old(self).pending@.push(task),
            final(self).executors@ == old(self).executors@,
            final(self).node_caps@ == old(self).node_caps@,
    {
        self.pending.push_back(task);
    }

    /// Add an executor, unless it is known.
    pub fn register_executor(&mut self, node_id: NodeId, roles: Vec<Role>)
        ensures
            final(self).executors@ == (if old(self).executors@.contains(node_id) {
                old(self).executors@
            } else {
                old(self).executors@.push(node_id)
            }),
            final(self).pending@ == old(self).pending@,
            final(self).node_caps@ == old(self).node_caps@,
    {
        let mut i: usize = 0;
        while i < self.executors.len()
            invariant
                i <= self.executors@.len(),
                *self == *old(self),
                forall|k: int| 0 <= k < i ==> self.executors@[k] != node_id,
            decreases self.executors@.len() - i,
        {
            if self.executors[i] == node_id {
                return;
            }
            i += 1;
        }
        self.executors.push(node_id);
    }

    /// Remove an executor.
    pub fn remove_executor(&mut self, node_id: &NodeId)
        ensures
            final(self).executors@ == old(self).executors@.filter(|id: NodeId| id != *node_id),
            final(self).pending@ == old(self).pending@,
            final(self).node_caps@ == old(self).node_caps@,
    {
        let ghost keep = |id: NodeId| id != *node_id;
        let mut out: Vec<NodeId> = Vec::new();
        let mut i: usize = 0;
        assert(self.executors@.take(0).filter(keep) =~= Seq::<NodeId>::empty()) by {
            reveal(Seq::filter);
        }
        while i < self.executors.len()
            invariant
                i <= self.executors@.len(),
                *self == *old(self),
                keep == (|id: NodeId| id != *node_id),
                out@ == self.executors@.take(i as int).filter(keep),
            decreases self.executors@.len() - i,
        {
            proof {
                reveal(Seq::filter);
                assert(self.executors@.take(i + 1).drop_last() =~= self.executors@.take(i as int));
            }
            if self.executors[i] != *node_id {
                out.push(self.executors[i]);
            }
            i += 1;
        }
        assert(self.executors@.take(i as int) =~= self.executors@);
        self.executors = out;
    }

    fn node_has(&self, id: NodeId, cap: &str) -> (r: bool)
        ensures
            r == has_cap(self.node_caps@, id, cap@),
    {
        match self.node_caps.get(&id) {
            None => false,
            Some(list) => {
                let mut i: usize = 0;
                while i < list.len()
                    invariant
                        i <= list@.len(),
                        self.node_caps@.contains_key(id),
                        *list == self.node_caps@[id],
                        forall|k: int| 0 <= k < i ==> texts(list@)[k] != cap@,
                    decreases list@.len() - i,
                {
                    if str_eq(list[i].as_str(), cap) {
                        assert(texts(list@)[i as int] == cap@);
                        return true;
                    }
                    i += 1;
                }
                false
            },
        }
    }

    fn node_preferred(&self, id: NodeId, strategy: RoutingStrategy) -> (r: bool)
        ensures
            r == preferred(self.node_caps@, id, strategy),
    {
        match strategy {
            RoutingStrategy::PreferWasm => self.node_has(id, "wasm"),
            RoutingStrategy::PreferNative => self.node_has(id, "native") || self.node_has(
                id,
                "container",
            ),
            _ => false,
        }
    }

    fn find_preferred(&self, strategy: RoutingStrategy) -> (r: Option<NodeId>)
        ensures
            r == first_preferred(self.executors@, self.node_caps@, strategy),
    {
        let mut found: Option<NodeId> = None;
        let mut i: usize = 0;
        assert(self.executors@.take(0) =~= Seq::<NodeId>::empty());
        while i < self.executors.len()
            invariant
                i <= self.executors@.len(),
                found == first_preferred(
                    self.executors@.take(i as int),
                    self.node_caps@,
                    strategy,
                ),
            decreases self.executors@.len() - i,
        {
            assert(self.executors@.take(i + 1).drop_last() =~= self.executors@.take(i as int));
            if found.is_none() && self.node_preferred(self.executors[i], strategy) {
                found = Some(self.executors[i]);
            }
            i += 1;
        }
        assert(self.executors@.take(i as int) =~= self.executors@);
        found
    }

    /// Where a task goes, given how many were dealt out in turn.
    fn route_task(&self, strategy: RoutingStrategy, turn: usize) -> (r: (NodeId, usize))
        requires
            self.executors@.len() > 0,
            turn < usize::MAX,
        ensures
            r.0 == route(self.executors@, self.node_caps@, strategy, turn as nat).0,
            r.1 as nat == route(self.executors@, self.node_caps@, strategy, turn as nat).1,
            r.1 <= turn + 1,
    {
        match strategy {
            RoutingStrategy::Pinned(id) => (id, turn),
            RoutingStrategy::AnyExecutor => (
                self.executors[turn % self.executors.len()],
                turn + 1,
            ),
            _ => match self.find_preferred(strategy) {
                Some(id) => (id, turn),
                None => (self.executors[turn % self.executors.len()], turn + 1),
            },
        }
    }

    /// Give every pending task to an executor, in order. Without executors the
    /// tasks go on waiting.
    pub fn route_pending(&mut self) -> (r: Vec<(TaskId, NodeId)>)
        ensures
            final(self).executors@ == old(self).executors@,
            final(self).node_caps@ == old(self).node_caps@,
            if old(self).executors@.len() == 0 {
                r@.len() == 0 && final(self).pending@ == old(self).pending@
            } else {
                r@ == routes(old(self).executors@, old(self).node_caps@, old(self).pending@).0
                    && final(self).pending@.len() == 0
            },
    {
        let mut out: Vec<(TaskId, NodeId)> = Vec::new();
        if self.executors.len() == 0 {
            return out;
        }
        let ghost caps = self.node_caps@;
        let ghost executors = self.executors@;
        let ghost tasks = self.pending@;
        let n: usize = self.pending.len();
        let mut turn: usize = 0;
        let mut i: usize = 0;
        assert(tasks.take(0) =~= Seq::<ScheduledTask>::empty());
        assert(tasks.skip(0) =~= tasks);
        while i < n
            invariant
                i <= n == tasks.len(),
                turn <= i,
                tasks.skip(i as int) == self.pending@,
                caps == self.node_caps@,
                executors == self.executors@,
                executors.len() > 0,
                out@ == routes(executors, caps, tasks.take(i as int)).0,
                turn as nat == routes(executors, caps, tasks.take(i as int)).1,
            decreases n - i,
        {
            assert(tasks.take(i + 1).drop_last() =~= tasks.take(i as int));
            match self.pending.pop_front() {
                Some(task) => {
                    assert(task == tasks[i as int]);
                    let (id, next) = self.route_task(task.routing, turn);
                    out.push((task.task_id, id));
                    turn = next;
                },
                None => {},
            }
            assert(self.pending@ =~= tasks.skip(i + 1));
            i += 1;
        }
        assert(tasks.take(i as int) =~= tasks);
        out
    }
}

/// Every pending task gets exactly one executor, in order; a pinned task gets the
/// node it is pinned to, and any other one of the executors.
pub proof fn every_task_is_routed(
    executors: Seq<NodeId>,
    caps: Map<NodeId, Vec<String>>,
    tasks: Seq<ScheduledTask>,
    i: int,
)
    requires
        executors.len() > 0,
        0 <= i < tasks.len(),
    ensures
        routes(executors, caps, tasks).0.len() == tasks.len(),
        routes(executors, caps, tasks).0[i].0 == tasks[i].task_id,
        match tasks[i].routing {
            RoutingStrategy::Pinned(id) => routes(executors, caps, tasks).0[i].1 == id,
            _ => executors.contains(routes(executors, caps, tasks).0[i].1),
        },
    decreases tasks.len(),
{
    let front = tasks.drop_last();
    let turn = routes(executors, caps, front).1;
    if front.len() > 0 {
        every_task_is_routed(
            executors,
            caps,
            front,
            if i < front.len() {
                i
            } else {
                0
            },
        );
    }
    if i == tasks.len() - 1 {
        preferred_is_an_executor(executors, caps, tasks[i].routing);
        let at = turn as int % executors.len() as int;
        assert(0 <= at < executors.len());
        assert(executors.contains(executors[at]));
    }
}

proof fn preferred_is_an_executor(
    executors: Seq<NodeId>,
    caps: Map<NodeId, Vec<String>>,
    strategy: RoutingStrategy,
)
    ensures
        first_preferred(executors, caps, strategy) matches Some(id) ==> executors.contains(id),
    decreases executors.len(),
{
    if executors.len() > 0 {
        let front = executors.drop_last();
        preferred_is_an_executor(front, caps, strategy);
        match first_preferred(front, caps, strategy) {
            Some(id) => {
                let i = choose|i: int| 0 <= i < front.len() && front[i] == id;
                assert(executors[i] == id);
            },
            None => {
                assert(executors[executors.len() - 1] == executors.last());
            },
        }
    }
}

/// Tasks for any executor are dealt out in turn: the executors get them one after
/// the other, and the first one again after the last.
pub proof fn tasks_are_dealt_out_in_turn(
    executors: Seq<NodeId>,
    caps: Map<NodeId, Vec<String>>,
    tasks: Seq<ScheduledTask>,
    i: int,
)
    requires
        executors.len() > 0,
        0 <= i < tasks.len(),
        forall|k: int|
            0 <= k < tasks.len() ==> (#[trigger] tasks[k]).routing == RoutingStrategy::AnyExecutor,
    ensures
        routes(executors, caps, tasks).0.len() == tasks.len(),
        routes(executors, caps, tasks).0[i] == (
            tasks[i].task_id,
            executors[i % executors.len() as int],
        ),
        routes(executors, caps, tasks).1 == tasks.len(),
    decreases tasks.len(),
{
    let front = tasks.drop_last();
    assert forall|k: int| 0 <= k < front.len() implies (#[trigger] front[k]).routing
        == RoutingStrategy::AnyExecutor by {
        assert(front[k] == tasks[k]);
    }
    assert(tasks[tasks.len() - 1] == tasks.last());
    assert(front.len() == 0 ==> routes(executors, caps, front) == (
        Seq::<(TaskId, NodeId)>::empty(),
        0nat,
    ));
    if front.len() > 0 {
        tasks_are_dealt_out_in_turn(
            executors,
            caps,
            front,
            if i < front.len() {
                i
            } else {
                0
            },
        );
    }
}

proof fn first_preferred_by_place(
    executors: Seq<NodeId>,
    caps: Map<NodeId, Vec<String>>,
    strategy: RoutingStrategy,
    at: int,
)
    requires
        0 <= at < executors.len(),
        preferred(caps, executors[at], strategy),
        forall|k: int| 0 <= k < at ==> !preferred(caps, #[trigger] executors[k], strategy),
    ensures
        first_preferred(executors, caps, strategy) == Some(executors[at]),
    decreases executors.len(),
{
    let front = executors.drop_last();
    if at < front.len() {
        assert(front[at] == executors[at]);
        assert forall|k: int| 0 <= k < at implies !preferred(
            caps,
            #[trigger] front[k],
            strategy,
        ) by {
            assert(front[k] == executors[k]);
        }
        first_preferred_by_place(front, caps, strategy, at);
    } else {
        assert forall|k: int| 0 <= k < front.len() implies !preferred(
            caps,
            #[trigger] front[k],
            strategy,
        ) by {
            assert(front[k] == executors[k]);
        }
        none_preferred(front, caps, strategy);
    }
}

proof fn none_preferred(
    executors: Seq<NodeId>,
    caps: Map<NodeId, Vec<String>>,
    strategy: RoutingStrategy,
)
    requires
        forall|k: int| 0 <= k < executors.len() ==> !preferred(caps, #[trigger] executors[k], strategy),
    ensures
        first_preferred(executors, caps, strategy) is None,
    decreases executors.len(),
{
    if executors.len() > 0 {
        let front = executors.drop_last();
        assert forall|k: int| 0 <= k < front.len() implies !preferred(
            caps,
            #[trigger] front[k],
            strategy,
        ) by {
            assert(front[k] == executors[k]);
        }
        none_preferred(front, caps, strategy);
        assert(executors[executors.len() - 1] == executors.last());
    }
}

/// Whether a node lists a capability.
pub open spec fn lists_cap(caps: Map<NodeId, Vec<String>>, id: NodeId, cap: Seq<char>) -> bool {
    caps.contains_key(id) && exists|i: int|
        0 <= i < caps[id]@.len() && (#[trigger] caps[id]@[i])@ == cap
}

proof fn caps_are_listed(caps: Map<NodeId, Vec<String>>, id: NodeId, cap: Seq<char>)
    ensures
        has_cap(caps, id, cap) == lists_cap(caps, id, cap),
{
    if has_cap(caps, id, cap) {
        let list = texts(caps[id]@);
        let i = choose|i: int| 0 <= i < list.len() && list[i] == cap;
        assert(caps[id]@[i]@ == cap);
    }
    if lists_cap(caps, id, cap) {
        let i = choose|i: int| 0 <= i < caps[id]@.len() && (#[trigger] caps[id]@[i])@ == cap;
        assert(texts(caps[id]@)[i] == cap);
    }
}

/// A task that prefers WebAssembly goes to the first executor that lists it, and a
/// task that prefers native code to the first that lists native code or containers;
/// neither takes a turn from the others. A pinned task goes to its node.
pub proof fn preferences_are_met(
    executors: Seq<NodeId>,
    caps: Map<NodeId, Vec<String>>,
    turn: nat,
    at: int,
)
    requires
        0 <= at < executors.len(),
    ensures
        lists_cap(caps, executors[at], "wasm"@) && (forall|k: int|
            0 <= k < at ==> !lists_cap(caps, #[trigger] executors[k], "wasm"@)) ==> route(
            executors,
            caps,
            RoutingStrategy::PreferWasm,
            turn,
        ) == (executors[at], turn),
        (lists_cap(caps, executors[at], "native"@) || lists_cap(
            caps,
            executors[at],
            "container"@,
        )) && (forall|k: int|
            0 <= k < at ==> !lists_cap(caps, #[trigger] executors[k], "native"@) && !lists_cap(
                caps,
                executors[k],
                "container"@,
            )) ==> route(executors, caps, RoutingStrategy::PreferNative, turn) == (
            executors[at],
            turn,
        ),
        forall|id: NodeId| #[trigger]
            route(executors, caps, RoutingStrategy::Pinned(id), turn) == (id, turn),
{
    assert forall|k: int| 0 <= k < executors.len() implies has_cap(
        caps,
        #[trigger] executors[k],
        "wasm"@,
    ) == lists_cap(caps, executors[k], "wasm"@) && has_cap(caps, executors[k], "native"@)
        == lists_cap(caps, executors[k], "native"@) && has_cap(
        caps,
        executors[k],
        "container"@,
    ) == lists_cap(caps, executors[k], "container"@) by {
        caps_are_listed(caps, executors[k], "wasm"@);
        caps_are_listed(caps, executors[k], "native"@);
        caps_are_listed(caps, executors[k], "container"@);
    }
    if lists_cap(caps, executors[at], "wasm"@) && (forall|k: int|
        0 <= k < at ==> !lists_cap(caps, #[trigger] executors[k], "wasm"@)) {
        assert forall|k: int| 0 <= k < at implies !preferred(
            caps,
            #[trigger] executors[k],
            RoutingStrategy::PreferWasm,
        ) by {
            assert(!lists_cap(caps, executors[k], "wasm"@));
        }
        first_preferred_by_place(executors, caps, RoutingStrategy::PreferWasm, at);
    }
    if (lists_cap(caps, executors[at], "native"@) || lists_cap(
        caps,
        executors[at],
        "container"@,
    )) && (forall|k: int|
        0 <= k < at ==> !lists_cap(caps, #[trigger] executors[k], "native"@) && !lists_cap(
            caps,
            executors[k],
            "container"@,
        )) {
        assert forall|k: int| 0 <= k < at implies !preferred(
            caps,
            #[trigger] executors[k],
            RoutingStrategy::PreferNative,
        ) by {
            assert(!lists_cap(caps, executors[k], "native"@));
        }
        first_preferred_by_place(executors, caps, RoutingStrategy::PreferNative, at);
    }
}

/// A preference that no executor meets is no obstacle: the task is dealt out in
/// turn.
pub proof fn unmet_preferences_fall_back(
    executors: Seq<NodeId>,
    caps: Map<NodeId, Vec<String>>,
    turn: nat,
)
    requires
        executors.len() > 0,
    ensures
        (forall|k: int|
            0 <= k < executors.len() ==> !lists_cap(caps, #[trigger] executors[k], "wasm"@)) ==> route(
            executors,
            caps,
            RoutingStrategy::PreferWasm,
            turn,
        ) == (executors[turn as int % executors.len() as int], turn + 1),
        (forall|k: int|
            0 <= k < executors.len() ==> !lists_cap(caps, #[trigger] executors[k], "native"@)
                && !lists_cap(caps, executors[k], "container"@)) ==> route(
            executors,
            caps,
            RoutingStrategy::PreferNative,
            turn,
        ) == (executors[turn as int % executors.len() as int], turn + 1),
{
    if forall|k: int|
        0 <= k < executors.len() ==> !lists_cap(caps, #[trigger] executors[k], "wasm"@) {
        assert forall|k: int| 0 <= k < executors.len() implies !preferred(
            caps,
            #[trigger] executors[k],
            RoutingStrategy::PreferWasm,
        ) by {
            caps_are_listed(caps, executors[k], "wasm"@);
        }
        none_preferred(executors, caps, RoutingStrategy::PreferWasm);
    }
    if forall|k: int|
        0 <= k < executors.len() ==> !lists_cap(caps, #[trigger] executors[k], "native"@)
            && !lists_cap(caps, executors[k], "container"@) {
        assert forall|k: int| 0 <= k < executors.len() implies !preferred(
            caps,
            #[trigger] executors[k],
            RoutingStrategy::PreferNative,
        ) by {
            caps_are_listed(caps, executors[k], "native"@);
            caps_are_listed(caps, executors[k], "container"@);
        }
        none_preferred(executors, caps, RoutingStrategy::PreferNative);
    }
}

} // verus!
