//! Health reports of nodes.
use std::collections::HashMap;
use vstd::prelude::*;
use crate::maps::{keys_of, sum_of, sum_without};
use crate::types::NodeId;

verus! {

broadcast use vstd::std_specs::hash::group_hash_axioms;

/// Health of a node.
#[derive(Debug, Clone, Copy, PartialEq, Eq, Structural)]
pub enum HealthStatus {
    /// Healthy and responsive.
    Healthy,
    /// Possibly in trouble.
    Degraded,
    /// Unreachable.
    Unhealthy,
    /// Not known.
    Unknown,
}

/// A node's health and work.
#[derive(Debug, Clone, Copy, PartialEq, Eq, Structural)]
pub struct NodeReport {
    /// The node.
    pub node_id: NodeId,
    /// Its health.
    pub health: HealthStatus,
    /// Tasks it completed.
    pub tasks_completed: u64,
    /// Tasks it works on.
    pub tasks_in_flight: u64,
    /// Average execution time in milliseconds.
    pub avg_execution_time_ms: u64,
    /// Peers it sees.
    pub peer_count: u32,
}

/// Summary of the cluster's health.
#[derive(Debug, Clone, Copy, PartialEq, Eq, Structural)]
pub struct ClusterSummary {
    /// Nodes with a report.
    pub total_nodes: u64,
    /// Healthy nodes.
    pub healthy_nodes: u64,
    /// Tasks completed by all nodes.
    pub total_tasks_completed: u64,
    /// Tasks that all nodes work on.
    pub total_tasks_in_flight: u64,
}

/// The latest report of each node.
#[derive(Debug)]
pub struct Reporter {
    reports: HashMap<NodeId, NodeReport>,
}

impl View for Reporter {
    type V = Map<NodeId, NodeReport>;

    closed spec fn view(&self) -> Map<NodeId, NodeReport> {
        self.reports@
    }
}

/// One for each healthy node.
pub open spec fn healthy_ones(m: Map<NodeId, NodeReport>) -> Map<NodeId, u64> {
    m.map_values(|r: NodeReport| if r.health == HealthStatus::Healthy { 1u64 } else { 0u64 })
}

/// Completed tasks by node.
pub open spec fn completed(m: Map<NodeId, NodeReport>) -> Map<NodeId, u64> {
    m.map_values(|r: NodeReport| r.tasks_completed)
}

/// Tasks in flight by node.
pub open spec fn in_flight(m: Map<NodeId, NodeReport>) -> Map<NodeId, u64> {
    m.map_values(|r: NodeReport| r.tasks_in_flight)
}

impl Default for Reporter {
    fn default() -> (r: Self)
        ensures
            r@ == Map::<NodeId, NodeReport>::empty(),
    {
        Reporter { reports: HashMap::new() }
    }
}

impl Reporter {
    /// A reporter without reports.
    pub fn new() -> (r: Self)
        ensures
            r@ == Map::<NodeId, NodeReport>::empty(),
    {
        Self::default()
    }

    /// Record a node's report in place of its last one.
    pub fn report(&mut self, report: NodeReport)
        ensures
            final(self)@ == old(self)@.insert(report.node_id, report),
    {
        self.reports.insert(report.node_id, report);
    }

    /// Forget a node that went offline.
    pub fn remove(&mut self, node_id: &NodeId)
        ensures
            final(self)@ == old(self)@.remove(*node_id),
    {
        self.reports.remove(node_id);
        assert(self.reports@ =~= old(self).reports@.remove(*node_id));
    }

    /// The unhealthy nodes, each once, in no particular order.
    pub fn unhealthy_nodes(&self) -> (r: Vec<NodeId>)
        ensures
            r@.no_duplicates(),
            forall|id: NodeId| #[trigger]
                r@.contains(id) == (self@.contains_key(id) && self@[id].health
                    == HealthStatus::Unhealthy),
    {
        let ids = keys_of(&self.reports);
        let mut out: Vec<NodeId> = Vec::new();
        let mut i: usize = 0;
        while i < ids.len()
            invariant
                i <= ids@.len(),
                ids@.no_duplicates(),
                forall|k: NodeId| #[trigger] self.reports@.contains_key(k) == ids@.contains(k),
                out@.no_duplicates(),
                forall|id: NodeId| #[trigger]
                    out@.contains(id) == (ids@.take(i as int).contains(id)
                        && self.reports@[id].health == HealthStatus::Unhealthy),
            decreases ids@.len() - i,
        {
            let id = ids[i];
            let ghost before = out@;
            assert(ids@.contains(id));
            assert(self.reports@.contains_key(id));
            let unhealthy = match self.reports.get(&id) {
                Some(r) => r.health == HealthStatus::Unhealthy,
                None => false,
            };
            if unhealthy {
                out.push(id);
            }
            proof {
                let now = ids@.take(i + 1);
                let front = ids@.take(i as int);
                assert(now =~= front.push(id));
                assert(!front.contains(id)) by {
                    if front.contains(id) {
                        let j = choose|j: int| 0 <= j < i && front[j] == id;
                        assert(ids@[j] == ids@[i as int]);
                    }
                }
                assert forall|x: NodeId| #[trigger]
                    out@.contains(x) == (now.contains(x) && self.reports@[x].health
                        == HealthStatus::Unhealthy) by {
                    assert(now.contains(x) == (front.contains(x) || x == id)) by {
                        if front.contains(x) {
                            let j = choose|j: int| 0 <= j < front.len() && front[j] == x;
                            assert(now[j] == x);
                        }
                        assert(now[i as int] == id);
                        if now.contains(x) {
                            let j = choose|j: int| 0 <= j < now.len() && now[j] == x;
                            if j < i {
                                assert(front[j] == x);
                            }
                        }
                    }
                    assert(before.contains(x) == (front.contains(x) && self.reports@[x].health
                        == HealthStatus::Unhealthy));
                    if unhealthy {
                        assert(out@ =~= before.push(id));
                        if before.contains(x) {
                            let j = choose|j: int| 0 <= j < before.len() && before[j] == x;
                            assert(out@[j] == x);
                        }
                        assert(out@[before.len() as int] == id);
                    }
                }
                if unhealthy {
                    assert(!before.contains(id));
                }
            }
            i += 1;
        }
        assert(ids@.take(i as int) =~= ids@);
        out
    }

    /// The health of the cluster in numbers.
    pub fn cluster_summary(&self) -> (r: ClusterSummary)
        requires
            sum_of(completed(self@)) <= u64::MAX,
            sum_of(in_flight(self@)) <= u64::MAX,
            self@.len() <= u64::MAX,
        ensures
            r.total_nodes == self@.len(),
            r.healthy_nodes == sum_of(healthy_ones(self@)),
            r.total_tasks_completed == sum_of(completed(self@)),
            r.total_tasks_in_flight == sum_of(in_flight(self@)),
    {
        let ids = keys_of(&self.reports);
        let ghost m = self@;
        let ghost mut rest = m;
        let mut healthy: u64 = 0;
        let mut done: u64 = 0;
        let mut flying: u64 = 0;
        let mut i: usize = 0;
        while i < ids.len()
            invariant
                i <= ids@.len(),
                m == self@,
                self@ == self.reports@,
                m.dom().finite(),
                rest.dom().finite(),
                ids@.len() == m.len(),
                ids@.no_duplicates(),
                forall|k: NodeId| #[trigger] m.contains_key(k) == ids@.contains(k),
                forall|k: NodeId| #[trigger]
                    rest.contains_key(k) == (m.contains_key(k) && !ids@.take(i as int).contains(k)),
                forall|k: NodeId| #[trigger] rest.contains_key(k) ==> rest[k] == m[k],
                healthy <= i,
                healthy + sum_of(healthy_ones(rest)) == sum_of(healthy_ones(m)),
                done + sum_of(completed(rest)) == sum_of(completed(m)),
                flying + sum_of(in_flight(rest)) == sum_of(in_flight(m)),
                sum_of(completed(m)) <= u64::MAX,
                sum_of(in_flight(m)) <= u64::MAX,
            decreases ids@.len() - i,
        {
            let id = ids[i];
            assert(ids@.contains(id));
            assert(m.contains_key(id));
            proof {
                assert(!ids@.take(i as int).contains(id)) by {
                    if ids@.take(i as int).contains(id) {
                        let j = choose|j: int| 0 <= j < i && ids@.take(i as int)[j] == id;
                        assert(ids@[j] == ids@[i as int]);
                    }
                }
                assert(rest.contains_key(id));
                assert(healthy_ones(rest).dom() =~= rest.dom());
                assert(completed(rest).dom() =~= rest.dom());
                assert(in_flight(rest).dom() =~= rest.dom());
                sum_without(healthy_ones(rest), id);
                sum_without(completed(rest), id);
                sum_without(in_flight(rest), id);
                assert(healthy_ones(rest).remove(id) =~= healthy_ones(rest.remove(id)));
                assert(completed(rest).remove(id) =~= completed(rest.remove(id)));
                assert(in_flight(rest).remove(id) =~= in_flight(rest.remove(id)));
            }
            match self.reports.get(&id) {
                Some(r) => {
                    if r.health == HealthStatus::Healthy {
                        healthy += 1;
                    }
                    done += r.tasks_completed;
                    flying += r.tasks_in_flight;
                },
                None => {},
            }
            proof {
                let before = rest;
                rest = rest.remove(id);
                let front = ids@.take(i as int);
                let now = ids@.take(i + 1);
                assert(now =~= front.push(id));
                assert forall|k: NodeId| #[trigger]
                    rest.contains_key(k) == (m.contains_key(k) && !now.contains(k)) by {
                    assert(before.contains_key(k) == (m.contains_key(k) && !front.contains(k)));
                    assert(now.contains(k) == (front.contains(k) || k == id)) by {
                        if front.contains(k) {
                            let j = choose|j: int| 0 <= j < front.len() && front[j] == k;
                            assert(now[j] == k);
                        }
                        assert(now[i as int] == id);
                        if now.contains(k) {
                            let j = choose|j: int| 0 <= j < now.len() && now[j] == k;
                            if j < i {
                                assert(front[j] == k);
                            }
                        }
                    }
                }
            }
            i += 1;
        }
        proof {
            assert(ids@.take(i as int) =~= ids@);
            assert(rest =~= Map::<NodeId, NodeReport>::empty()) by {
                assert forall|k: NodeId| !rest.contains_key(k) by {
                    assert(m.contains_key(k) == ids@.contains(k));
                }
            }
            assert(healthy_ones(rest).dom() =~= Set::<NodeId>::empty());
            assert(completed(rest).dom() =~= Set::<NodeId>::empty());
            assert(in_flight(rest).dom() =~= Set::<NodeId>::empty());
        }
        ClusterSummary {
            total_nodes: self.reports.len() as u64,
            healthy_nodes: healthy,
            total_tasks_completed: done,
            total_tasks_in_flight: flying,
        }
    }
}

/// The healthy nodes are counted one by one: the summary's number of them is the
/// number of nodes whose last report says so.
pub proof fn healthy_nodes_are_counted(m: Map<NodeId, NodeReport>)
    requires
        m.dom().finite(),
    ensures
        sum_of(healthy_ones(m)) == m.dom().filter(
            |id: NodeId| m[id].health == HealthStatus::Healthy,
        ).len(),
    decreases m.dom().len(),
{
    let healthy = |id: NodeId| m[id].health == HealthStatus::Healthy;
    if m.dom().len() == 0 {
        assert(m.dom() =~= Set::empty());
        assert(m.dom().filter(healthy) =~= Set::empty());
        assert(healthy_ones(m).dom() =~= Set::empty());
    } else {
        let id = m.dom().choose();
        let rest = m.remove(id);
        healthy_nodes_are_counted(rest);
        assert(healthy_ones(m).dom() =~= m.dom());
        sum_without(healthy_ones(m), id);
        assert(healthy_ones(rest) =~= healthy_ones(m).remove(id));
        let rest_healthy = |k: NodeId| rest[k].health == HealthStatus::Healthy;
        assert(rest.dom().filter(rest_healthy) =~= m.dom().filter(healthy).remove(id));
        m.dom().lemma_len_filter(healthy);
    }
}

/// A first report of a node adds what it says to the summary: one node, its tasks,
/// and one healthy node where it is healthy.
pub proof fn report_adds_to_the_summary(m: Map<NodeId, NodeReport>, report: NodeReport)
    requires
        m.dom().finite(),
        !m.contains_key(report.node_id),
    ensures
        ({
            let after = m.insert(report.node_id, report);
            &&& after.len() == m.len() + 1
            &&& sum_of(completed(after)) == sum_of(completed(m)) + report.tasks_completed
            &&& sum_of(in_flight(after)) == sum_of(in_flight(m)) + report.tasks_in_flight
            &&& sum_of(healthy_ones(after)) == sum_of(healthy_ones(m)) + (if report.health
                == HealthStatus::Healthy {
                1int
            } else {
                0
            })
        }),
{
    let id = report.node_id;
    let after = m.insert(id, report);
    assert(completed(after).dom() =~= after.dom());
    assert(in_flight(after).dom() =~= after.dom());
    assert(healthy_ones(after).dom() =~= after.dom());
    sum_without(completed(after), id);
    sum_without(in_flight(after), id);
    sum_without(healthy_ones(after), id);
    assert(completed(after).remove(id) =~= completed(m));
    assert(in_flight(after).remove(id) =~= in_flight(m));
    assert(healthy_ones(after).remove(id) =~= healthy_ones(m));
}

} // verus!
