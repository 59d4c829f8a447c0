//! The running node: what it does about network events and at every tick.
use vstd::prelude::*;
use vstd::string::*;
use crate::node::bootstrap::{advertised, advertised_view, BootPlan};
use crate::p2p::command::{commands_view, CommandView, SwarmCommand};
use crate::p2p::discovery::Event;
use crate::raft::network::{envelope_from_data, RaftEnvelope, RaftIdRegistry};
use crate::table::{row_of, row_of_is_first, value_of, with_row, with_row_values, TextTable};
use crate::types::{clone_texts, texts, DescriptorView, NodeDescriptor, OsType, ProjectResult};

verus! {

/// A running node: its descriptor and what it knows of its peers.
#[derive(Debug)]
pub struct Node {
    /// The descriptor it advertises.
    pub descriptor: NodeDescriptor,
    /// Participants and their peers.
    pub raft_registry: RaftIdRegistry,
    /// Descriptors that peers sent.
    pub known_peers: TextTable<NodeDescriptor>,
    /// Configured addresses to dial.
    pub bootstrap_addrs: Vec<String>,
    /// The last known address of each peer.
    pub peer_addrs: TextTable<String>,
    /// Whether blobs are fetched from peers.
    pub pulls_blobs: bool,
}

/// What a [`Node`] knows.
pub struct NodeView {
    /// The descriptor it advertises.
    pub descriptor: DescriptorView,
    /// Participants and their peers.
    pub registry: Map<u64, Seq<char>>,
    /// Descriptors that peers sent.
    pub known: Seq<(Seq<char>, NodeDescriptor)>,
    /// Configured addresses to dial.
    pub bootstrap: Seq<Seq<char>>,
    /// The last known address of each peer.
    pub addresses: Seq<(Seq<char>, String)>,
    /// Whether blobs are fetched from peers.
    pub pulls_blobs: bool,
}

impl View for Node {
    type V = NodeView;

    open spec fn view(&self) -> NodeView {
        NodeView {
            descriptor: self.descriptor@,
            registry: self.raft_registry@,
            known: self.known_peers@,
            bootstrap: texts(self.bootstrap_addrs@),
            addresses: self.peer_addrs@,
            pulls_blobs: self.pulls_blobs,
        }
    }
}

/// What the node does.
#[derive(Debug, PartialEq, Eq)]
pub enum NodeAction {
    /// Give the swarm a command.
    Command(SwarmCommand),
    /// Hand an answered blob to the fetcher.
    DeliverBlob { hash: String, found: bool, data: Vec<u8> },
    /// Record the result of a project.
    RecordResult(ProjectResult),
    /// Hand a consensus message to the participant.
    DeliverRaft(RaftEnvelope),
    /// End the monitor.
    Stop,
}

/// The addresses of peers, in the order of the table.
pub open spec fn addresses_of(rows: Seq<(Seq<char>, String)>) -> Seq<Seq<char>> {
    Seq::new(rows.len(), |i: int| rows[i].1@)
}

/// Commands that dial addresses in order.
pub open spec fn dials(v: Seq<Seq<char>>) -> Seq<CommandView> {
    Seq::new(v.len(), |i: int| CommandView::Dial { addr: v[i] })
}

/// What an event changes.
pub open spec fn after_event(n: NodeView, event: Option<Event>) -> NodeView {
    match event {
        Some(Event::PeerDiscovered { peer_id, address }) => NodeView {
            addresses: with_row(n.addresses, peer_id@, address),
            ..n
        },
        Some(Event::DescriptorReceived { peer_id, descriptor }) => NodeView {
            registry: match descriptor.raft_id {
                Some(id) => n.registry.insert(id, peer_id@),
                None => n.registry,
            },
            known: with_row(n.known, peer_id@, descriptor),
            ..n
        },
        _ => n,
    }
}

/// What an event makes the node do.
pub open spec fn event_actions(n: NodeView, event: Option<Event>, r: Seq<NodeAction>) -> bool {
    match event {
        Some(Event::PeerDiscovered { address, .. }) => r.len() == 1 && r[0] is Command
            && r[0]->Command_0@ == (CommandView::Dial { addr: address@ }),
        Some(Event::PeerConnected { peer_id }) => r.len() == 1 && r[0] is Command
            && r[0]->Command_0@ == (CommandView::RequestDescriptor { peer_id: peer_id@ }),
        Some(Event::ConnectionClosed { peer_id }) => match row_of(n.addresses, peer_id@) {
            Some(i) => r.len() == 1 && r[0] is Command && r[0]->Command_0@ == (CommandView::Dial {
                addr: n.addresses[i].1@,
            }),
            None => r.len() == 0,
        },
        Some(Event::BlobResponseReceived { hash, found, data, .. }) => if n.pulls_blobs {
            r == seq![NodeAction::DeliverBlob { hash, found, data }]
        } else {
            r.len() == 0
        },
        Some(Event::ProjectResultReceived { result, .. }) => r == seq![
            NodeAction::RecordResult(result),
        ],
        Some(Event::RaftMessageReceived { data, .. }) => r.len() == 1 && r[0] is DeliverRaft
            && r[0]->DeliverRaft_0.data@ == data@,
        None => r == seq![NodeAction::Stop],
        _ => r.len() == 0,
    }
}

fn only(action: NodeAction) -> (r: Vec<NodeAction>)
    ensures
        r@ == seq![action],
{
    let mut out: Vec<NodeAction> = Vec::new();
    out.push(action);
    assert(out@ =~= seq![action]);
    out
}

impl Node {
    /// No peer stands twice in a table.
    pub open spec fn wf(self) -> bool {
        self.peer_addrs.wf() && self.known_peers.wf()
    }

    /// The node that a plan leads to, once it is known whether it can execute
    /// projects.
    pub fn bootstrap(plan: &BootPlan, has_executor: bool, os: OsType) -> (r: Self)
        ensures
            r.wf(),
            r@ == (NodeView {
                descriptor: advertised_view(plan.descriptor@, has_executor),
                registry: Map::empty(),
                known: Seq::empty(),
                bootstrap: texts(plan.network.bootstrap_peers@),
                addresses: Seq::empty(),
                pulls_blobs: os == OsType::Linux,
            }),
    {
        Node {
            descriptor: advertised(plan.descriptor.clone(), has_executor),
            raft_registry: RaftIdRegistry::new(),
            known_peers: TextTable::new(),
            bootstrap_addrs: clone_texts(&plan.network.bootstrap_peers),
            peer_addrs: TextTable::new(),
            pulls_blobs: os == OsType::Linux,
        }
    }

    /// What to do at every tick: dial the configured peers, then every peer whose
    /// address is known. Dialing a connected peer costs nothing and repairs lost
    /// connections.
    pub fn on_tick(&self) -> (r: Vec<SwarmCommand>)
        ensures
            commands_view(r@) == dials(self@.bootstrap + addresses_of(self@.addresses)),
    {
        let ghost wanted = self@.bootstrap + addresses_of(self@.addresses);
        let mut out: Vec<SwarmCommand> = Vec::new();
        let mut i: usize = 0;
        while i < self.bootstrap_addrs.len()
            invariant
                i <= self.bootstrap_addrs@.len(),
                wanted == self@.bootstrap + addresses_of(self@.addresses),
                out@.len() == i,
                forall|k: int|
                    0 <= k < i ==> (#[trigger] out@[k])@ == (CommandView::Dial { addr: wanted[k] }),
            decreases self.bootstrap_addrs@.len() - i,
        {
            out.push(SwarmCommand::Dial { addr: self.bootstrap_addrs[i].clone() });
            i += 1;
        }
        let n: usize = self.peer_addrs.len();
        let mut j: usize = 0;
        while j < n
            invariant
                j <= n == self.peer_addrs@.len(),
                wanted == self@.bootstrap + addresses_of(self@.addresses),
                out@.len() == self.bootstrap_addrs@.len() + j,
                forall|k: int|
                    0 <= k < out@.len() ==> (#[trigger] out@[k])@ == (CommandView::Dial {
                        addr: wanted[k],
                    }),
            decreases n - j,
        {
            assert(wanted[out@.len() as int] == self.peer_addrs@[j as int].1@);
            out.push(SwarmCommand::Dial { addr: self.peer_addrs.value_at(j).clone() });
            j += 1;
        }
        assert(commands_view(out@) =~= dials(wanted));
        out
    }

    /// What to do about an event; none means that the event stream ended.
    pub fn on_event(&mut self, event: Option<Event>) -> (r: Vec<NodeAction>)
        requires
            old(self).wf(),
        ensures
            final(self).wf(),
            final(self)@ == after_event(old(self)@, event),
            event_actions(old(self)@, event, r@),
    {
        match event {
            Some(Event::PeerDiscovered { peer_id, address }) => {
                let addr = address.clone();
                self.peer_addrs.insert(peer_id, address);
                only(NodeAction::Command(SwarmCommand::Dial { addr }))
            },
            Some(Event::PeerConnected { peer_id }) => only(
                NodeAction::Command(SwarmCommand::RequestDescriptor { peer_id }),
            ),
            Some(Event::DescriptorReceived { peer_id, descriptor }) => {
                match descriptor.raft_id {
                    Some(id) => self.raft_registry.insert(id, peer_id.clone()),
                    None => {},
                }
                self.known_peers.insert(peer_id, descriptor);
                Vec::new()
            },
            Some(Event::BlobResponseReceived { hash, found, data, .. }) => if self.pulls_blobs {
                only(NodeAction::DeliverBlob { hash, found, data })
            } else {
                Vec::new()
            },
            Some(Event::ProjectResultReceived { result, .. }) => only(
                NodeAction::RecordResult(result),
            ),
            Some(Event::RaftMessageReceived { data, .. }) => only(
                NodeAction::DeliverRaft(envelope_from_data(data)),
            ),
            Some(Event::ConnectionClosed { peer_id }) => match self.peer_addrs.get(
                peer_id.as_str(),
            ) {
                Some(addr) => only(
                    NodeAction::Command(SwarmCommand::Dial { addr: addr.clone() }),
                ),
                None => Vec::new(),
            },
            None => only(NodeAction::Stop),
            _ => Vec::new(),
        }
    }
}

/// What events change, one after the other.
pub open spec fn after_events(n: NodeView, events: Seq<Option<Event>>) -> NodeView
    decreases events.len(),
{
    if events.len() == 0 {
        n
    } else {
        after_event(after_events(n, events.drop_last()), events.last())
    }
}

/// Whether an event tells of an address of a peer.
pub open spec fn discovers(event: Option<Event>, peer: Seq<char>) -> bool {
    match event {
        Some(Event::PeerDiscovered { peer_id, .. }) => peer_id@ == peer,
        _ => false,
    }
}

proof fn address_is_kept(n: NodeView, events: Seq<Option<Event>>, peer: Seq<char>)
    requires
        forall|i: int| 0 <= i < events.len() ==> !discovers(#[trigger] events[i], peer),
    ensures
        value_of(after_events(n, events).addresses, peer) == value_of(n.addresses, peer),
    decreases events.len(),
{
    if events.len() > 0 {
        let front = events.drop_last();
        assert forall|i: int| 0 <= i < front.len() implies !discovers(#[trigger] front[i], peer) by {
            assert(front[i] == events[i]);
        }
        address_is_kept(n, front, peer);
        assert(!discovers(events[events.len() - 1], peer));
        match events.last() {
            Some(Event::PeerDiscovered { peer_id, address }) => {
                with_row_values(after_events(n, front).addresses, peer_id@, address, peer);
            },
            _ => {},
        }
    }
}

/// A discovered peer is dialed again at every later tick, and whenever its
/// connection closes, at the address it was last discovered at, whatever else
/// happened meanwhile.
pub proof fn lost_peers_are_dialed_again(
    n: NodeView,
    peer_id: String,
    address: String,
    meanwhile: Seq<Option<Event>>,
    r: Seq<NodeAction>,
)
    requires
        forall|i: int|
            0 <= i < meanwhile.len() ==> !discovers(#[trigger] meanwhile[i], peer_id@),
        event_actions(
            after_events(
                after_event(n, Some(Event::PeerDiscovered { peer_id, address })),
                meanwhile,
            ),
            Some(Event::ConnectionClosed { peer_id }),
            r,
        ),
    ensures
        addresses_of(
            after_events(
                after_event(n, Some(Event::PeerDiscovered { peer_id, address })),
                meanwhile,
            ).addresses,
        ).contains(address@),
        r.len() == 1,
        r[0] is Command,
        r[0]->Command_0@ == (CommandView::Dial { addr: address@ }),
{
    let known = after_event(n, Some(Event::PeerDiscovered { peer_id, address }));
    let m = after_events(known, meanwhile);
    with_row_values(n.addresses, peer_id@, address, peer_id@);
    address_is_kept(known, meanwhile, peer_id@);
    row_of_is_first(m.addresses, peer_id@);
    let i = row_of(m.addresses, peer_id@)->Some_0;
    assert(addresses_of(m.addresses)[i] == address@);
}

/// A peer's descriptor is kept under the peer, and its participant id leads to the
/// peer from then on; what is known of other peers stays.
pub proof fn received_descriptor_is_known(
    n: NodeView,
    peer_id: String,
    descriptor: NodeDescriptor,
    other: Seq<char>,
)
    requires
        other != peer_id@,
    ensures
        ({
            let m = after_event(n, Some(Event::DescriptorReceived { peer_id, descriptor }));
            &&& value_of(m.known, peer_id@) == Some(descriptor)
            &&& value_of(m.known, other) == value_of(n.known, other)
            &&& descriptor.raft_id matches Some(id) ==> m.registry.contains_key(id)
                && m.registry[id] == peer_id@
            &&& forall|id: u64|
                descriptor.raft_id != Some(id) ==> (#[trigger] m.registry.contains_key(id)
                    == n.registry.contains_key(id)) && (n.registry.contains_key(id)
                    ==> m.registry[id] == n.registry[id])
            &&& m.addresses == n.addresses
            &&& m.descriptor == n.descriptor
        }),
{
    with_row_values(n.known, peer_id@, descriptor, peer_id@);
    with_row_values(n.known, peer_id@, descriptor, other);
}

/// Every event of the network is answered by what it calls for: a discovered peer is
/// dialed, a connected one asked for its descriptor, a result recorded, a consensus
/// message delivered as it came, and a blob handed on where blobs are fetched. The
/// end of the events ends the monitor, and nothing else does.
pub proof fn events_are_acted_on(n: NodeView, event: Option<Event>, r: Seq<NodeAction>)
    requires
        event_actions(n, event, r),
    ensures
        event matches Some(Event::PeerDiscovered { address, .. }) ==> r.len() == 1
            && r[0] is Command && r[0]->Command_0@ == (CommandView::Dial { addr: address@ }),
        event matches Some(Event::PeerConnected { peer_id }) ==> r.len() == 1 && r[0] is Command
            && r[0]->Command_0@ == (CommandView::RequestDescriptor { peer_id: peer_id@ }),
        event matches Some(Event::ProjectResultReceived { result, .. }) ==> r == seq![
            NodeAction::RecordResult(result),
        ],
        event matches Some(Event::RaftMessageReceived { data, .. }) ==> r.len() == 1
            && r[0] is DeliverRaft && r[0]->DeliverRaft_0.data@ == data@,
        event matches Some(Event::BlobResponseReceived { hash, found, data, .. }) ==> (
        if n.pulls_blobs {
            r == seq![NodeAction::DeliverBlob { hash, found, data }]
        } else {
            r.len() == 0
        }),
        event is None <==> r.contains(NodeAction::Stop),
{
    if event is None {
        assert(r[0] == NodeAction::Stop);
    }
}

} // verus!
