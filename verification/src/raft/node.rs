//! A participant's event loop: what each event and each batch of consensus
//! output leads to.
use vstd::prelude::*;
use vstd::string::*;
use crate::error::{CoreError, ErrorView, Result};
use crate::raft::network::RaftEnvelope;
use crate::raft::proposal::{Proposal, ProposalView};
use crate::raft::state_machine::{after_proposal, ClusterState, ClusterView};
use crate::raft::storage::{entry_views, HardState, RaftEntry, RaftEntryView};
use crate::text::cat2;
use crate::types::clone_bytes;

verus! {

/// Parameters of a participant.
#[derive(Debug, Clone, Copy, PartialEq, Eq, Structural)]
pub struct RaftSettings {
    /// The participant's id.
    pub id: u64,
    /// Ticks without a leader before an election.
    pub election_tick: usize,
    /// Ticks between heartbeats.
    pub heartbeat_tick: usize,
    /// Whether a candidate asks before it raises its term.
    pub pre_vote: bool,
    /// Whether a leader steps down without a quorum.
    pub check_quorum: bool,
}

impl RaftSettings {
    /// The settings every participant runs with.
    pub fn new(id: u64) -> (r: Self)
        ensures
            r == (RaftSettings {
                id,
                election_tick: 10,
                heartbeat_tick: 3,
                pre_vote: false,
                check_quorum: true,
            }),
    {
        RaftSettings {
            id,
            election_tick: 10,
            heartbeat_tick: 3,
            pre_vote: false,
            check_quorum: true,
        }
    }
}

/// What wakes a participant.
#[derive(Debug, PartialEq, Eq)]
pub enum RaftEvent {
    /// The clock ticked.
    Tick,
    /// A message arrived, or the transport closed.
    Envelope(Option<RaftEnvelope>),
    /// A proposal arrived, or the last sender is gone.
    Submitted(Option<Proposal>),
}

/// What a participant does about an event.
#[derive(Debug, PartialEq, Eq)]
pub enum RaftAction {
    /// Advance the consensus clock, then handle its output.
    Tick,
    /// Feed these bytes to consensus, then handle its output.
    Step(Vec<u8>),
    /// Propose this, then handle the output.
    Propose(Proposal),
    /// Leave the loop.
    Stop,
}

/// What to do about an event. A closed channel ends the loop.
pub fn react(event: RaftEvent) -> (r: RaftAction)
    ensures
        match event {
            RaftEvent::Tick => r is Tick,
            RaftEvent::Envelope(Some(e)) => r matches RaftAction::Step(d) && d@ == e.data@,
            RaftEvent::Submitted(Some(p)) => r matches RaftAction::Propose(q) && q@ == p@,
            RaftEvent::Envelope(None) => r is Stop,
            RaftEvent::Submitted(None) => r is Stop,
        },
{
    match event {
        RaftEvent::Tick => RaftAction::Tick,
        RaftEvent::Envelope(Some(e)) => RaftAction::Step(e.data),
        RaftEvent::Submitted(Some(p)) => RaftAction::Propose(p),
        RaftEvent::Envelope(None) => RaftAction::Stop,
        RaftEvent::Submitted(None) => RaftAction::Stop,
    }
}

/// Why a proposal did not get into the log.
#[derive(Debug, PartialEq, Eq)]
pub enum ProposeFailure {
    /// It could not be encoded.
    Encode(String),
    /// Consensus refused it.
    Refused(String),
}

/// What came of proposing.
pub fn proposed(outcome: std::result::Result<(), ProposeFailure>) -> (r: Result<()>)
    ensures
        match outcome {
            Ok(_) => r is Ok,
            Err(ProposeFailure::Encode(e)) => r is Err && r->Err_0@ == ErrorView::Serialization(
                "encode proposal: "@ + e@,
            ),
            Err(ProposeFailure::Refused(e)) => r is Err && r->Err_0@ == ErrorView::Raft(
                "propose failed: "@ + e@,
            ),
        },
{
    match outcome {
        Ok(_) => Ok(()),
        Err(ProposeFailure::Encode(e)) => Err(
            CoreError::Serialization(cat2("encode proposal: ", e.as_str())),
        ),
        Err(ProposeFailure::Refused(e)) => Err(
            CoreError::Raft(cat2("propose failed: ", e.as_str())),
        ),
    }
}

/// A message consensus wants sent.
#[derive(Debug, PartialEq, Eq)]
pub struct OutgoingMessage {
    /// The recipient's participant id.
    pub to: u64,
    /// The message's bytes.
    pub data: Vec<u8>,
}

/// One batch of consensus output.
#[derive(Debug, PartialEq, Eq)]
pub struct ReadyBatch {
    /// Messages to send right away.
    pub messages: Vec<OutgoingMessage>,
    /// Hard state to persist.
    pub hard_state: Option<HardState>,
    /// Entries to persist.
    pub entries: Vec<RaftEntry>,
    /// Messages to send once the above is persisted.
    pub persisted_messages: Vec<OutgoingMessage>,
    /// Entries that are committed.
    pub committed: Vec<RaftEntry>,
}

/// A step in handling a batch.
#[derive(Debug, PartialEq, Eq)]
pub enum ReadyAction {
    /// Send a message.
    Send(OutgoingMessage),
    /// Persist the hard state.
    PersistHardState(HardState),
    /// Persist an entry.
    Persist(RaftEntry),
    /// Decode a committed entry and apply it.
    Apply(RaftEntry),
    /// Tell consensus that the batch is done.
    Advance,
}

/// What a [`ReadyAction`] says.
pub enum ReadyView {
    Send { to: u64, data: Seq<u8> },
    PersistHardState(HardState),
    Persist(RaftEntryView),
    Apply(RaftEntryView),
    Advance,
}

impl View for ReadyAction {
    type V = ReadyView;

    open spec fn view(&self) -> ReadyView {
        match self {
            ReadyAction::Send(m) => ReadyView::Send { to: m.to, data: m.data@ },
            ReadyAction::PersistHardState(hs) => ReadyView::PersistHardState(*hs),
            ReadyAction::Persist(e) => ReadyView::Persist(e@),
            ReadyAction::Apply(e) => ReadyView::Apply(e@),
            ReadyAction::Advance => ReadyView::Advance,
        }
    }
}

/// What actions say.
pub open spec fn actions_view(v: Seq<ReadyAction>) -> Seq<ReadyView> {
    Seq::new(v.len(), |i: int| v[i]@)
}

/// Sending messages, in order.
pub open spec fn sends(v: Seq<OutgoingMessage>) -> Seq<ReadyView> {
    Seq::new(v.len(), |i: int| ReadyView::Send { to: v[i].to, data: v[i].data@ })
}

/// Persisting entries, in order.
pub open spec fn persists(v: Seq<RaftEntryView>) -> Seq<ReadyView> {
    Seq::new(v.len(), |i: int| ReadyView::Persist(v[i]))
}

/// Applying the entries that carry data, in order.
pub open spec fn applies(v: Seq<RaftEntryView>) -> Seq<ReadyView>
    decreases v.len(),
{
    if v.len() == 0 {
        Seq::empty()
    } else if v.last().data.len() == 0 {
        applies(v.drop_last())
    } else {
        applies(v.drop_last()).push(ReadyView::Apply(v.last()))
    }
}

/// The steps of a batch: messages that need not wait, then everything to be
/// persisted, then the messages that had to wait for that, then the committed
/// entries, then the end of the batch.
pub open spec fn batch_steps(b: ReadyBatch) -> Seq<ReadyView> {
    sends(b.messages@) + (match b.hard_state {
        Some(hs) => seq![ReadyView::PersistHardState(hs)],
        None => Seq::empty(),
    }) + persists(entry_views(b.entries@)) + sends(b.persisted_messages@) + applies(
        entry_views(b.committed@),
    ) + seq![ReadyView::Advance]
}

fn push_sends(out: &mut Vec<ReadyAction>, messages: &Vec<OutgoingMessage>)
    ensures
        actions_view(final(out)@) == actions_view(old(out)@) + sends(messages@),
{
    let ghost before = actions_view(out@);
    let mut i: usize = 0;
    assert(before =~= before + sends(messages@.take(0)));
    while i < messages.len()
        invariant
            i <= messages@.len(),
            actions_view(out@) == before + sends(messages@.take(i as int)),
        decreases messages@.len() - i,
    {
        let ghost prior = actions_view(out@);
        let m = OutgoingMessage {
            to: messages[i].to,
            data: clone_bytes(messages[i].data.as_slice()),
        };
        let ghost send = ReadyView::Send { to: m.to, data: m.data@ };
        out.push(ReadyAction::Send(m));
        assert(actions_view(out@) =~= prior.push(send));
        assert(before + sends(messages@.take(i + 1)) =~= prior.push(send));
        i += 1;
    }
    assert(messages@.take(i as int) =~= messages@);
}

/// The steps of a batch of consensus output, in the order they have to happen.
pub fn process_ready(batch: ReadyBatch) -> (r: Vec<ReadyAction>)
    ensures
        actions_view(r@) == batch_steps(batch),
{
    let mut out: Vec<ReadyAction> = Vec::new();
    assert(actions_view(out@) =~= Seq::<ReadyView>::empty());
    push_sends(&mut out, &batch.messages);
    let ghost p1 = actions_view(out@);
    assert(p1 =~= sends(batch.messages@));
    if let Some(hs) = batch.hard_state {
        out.push(ReadyAction::PersistHardState(hs));
    }
    let ghost p2 = actions_view(out@);
    assert(p2 =~= p1 + (match batch.hard_state {
        Some(hs) => seq![ReadyView::PersistHardState(hs)],
        None => Seq::empty(),
    }));
    let ghost entries = entry_views(batch.entries@);
    let mut i: usize = 0;
    assert(p2 =~= p2 + persists(entries.take(0)));
    while i < batch.entries.len()
        invariant
            i <= batch.entries@.len(),
            entries == entry_views(batch.entries@),
            actions_view(out@) == p2 + persists(entries.take(i as int)),
        decreases batch.entries@.len() - i,
    {
        let ghost prior = actions_view(out@);
        out.push(ReadyAction::Persist(batch.entries[i].clone()));
        assert(actions_view(out@) =~= prior.push(ReadyView::Persist(entries[i as int])));
        assert(p2 + persists(entries.take(i + 1)) =~= prior.push(
            ReadyView::Persist(entries[i as int]),
        ));
        i += 1;
    }
    assert(entries.take(i as int) =~= entries);
    push_sends(&mut out, &batch.persisted_messages);
    let ghost p3 = actions_view(out@);
    let ghost committed = entry_views(batch.committed@);
    let mut j: usize = 0;
    assert(p3 =~= p3 + applies(committed.take(0)));
    while j < batch.committed.len()
        invariant
            j <= batch.committed@.len(),
            committed == entry_views(batch.committed@),
            actions_view(out@) == p3 + applies(committed.take(j as int)),
        decreases batch.committed@.len() - j,
    {
        let ghost prior = actions_view(out@);
        assert(committed.take(j + 1).drop_last() =~= committed.take(j as int));
        assert(committed.take(j + 1).last() == committed[j as int]);
        if batch.committed[j].data.len() > 0 {
            out.push(ReadyAction::Apply(batch.committed[j].clone()));
            assert(actions_view(out@) =~= prior.push(ReadyView::Apply(committed[j as int])));
            assert(p3 + applies(committed.take(j + 1)) =~= prior.push(
                ReadyView::Apply(committed[j as int]),
            ));
        }
        j += 1;
    }
    assert(committed.take(j as int) =~= committed);
    let ghost p4 = actions_view(out@);
    out.push(ReadyAction::Advance);
    assert(actions_view(out@) =~= p4 + seq![ReadyView::Advance]);
    out
}

/// No message that had to wait is sent before everything is persisted: in the
/// steps of a batch, whatever persists comes before the messages that wait.
pub proof fn waiting_messages_follow_persistence(b: ReadyBatch, i: int)
    requires
        0 <= i < batch_steps(b).len(),
        batch_steps(b)[i] is Persist || batch_steps(b)[i] is PersistHardState,
    ensures
        b.messages@.len() <= i < batch_steps(b).len() - 1 - applies(
            entry_views(b.committed@),
        ).len() - b.persisted_messages@.len(),
{
    applies_only(entry_views(b.committed@));
}

proof fn applies_only(v: Seq<RaftEntryView>)
    ensures
        forall|i: int| 0 <= i < applies(v).len() ==> #[trigger] applies(v)[i] is Apply,
    decreases v.len(),
{
    if v.len() > 0 {
        applies_only(v.drop_last());
    }
}

/// The cluster state after a committed entry, given what it decodes to: an entry
/// that cannot be decoded changes nothing, any other is applied and its index
/// recorded.
pub open spec fn after_entry(
    s: ClusterView,
    index: u64,
    decoded: std::result::Result<ProposalView, Seq<char>>,
) -> ClusterView {
    match decoded {
        Ok(p) => ClusterView { last_applied_index: index, ..after_proposal(s, p) },
        Err(_) => s,
    }
}

/// Applies a committed entry to the cluster state, given what it decodes to.
pub fn apply_entry(
    state: &mut ClusterState,
    index: u64,
    decoded: std::result::Result<Proposal, String>,
)
    ensures
        final(state)@ == after_entry(
            old(state)@,
            index,
            match decoded {
                Ok(p) => Ok(p@),
                Err(e) => Err(e@),
            },
        ),
{
    match decoded {
        Ok(p) => {
            state.apply(p);
            state.last_applied_index = index;
        },
        Err(_) => {},
    }
}

proof fn applies_hold(v: Seq<RaftEntryView>, i: int)
    requires
        0 <= i < v.len(),
        v[i].data.len() > 0,
    ensures
        applies(v).contains(ReadyView::Apply(v[i])),
    decreases v.len(),
{
    let before = applies(v.drop_last());
    if i == v.len() - 1 {
        assert(applies(v)[before.len() as int] == ReadyView::Apply(v[i]));
    } else {
        applies_hold(v.drop_last(), i);
        let k = choose|k: int| 0 <= k < before.len() && before[k] == ReadyView::Apply(v[i]);
        assert(applies(v)[k] == ReadyView::Apply(v[i]));
    }
}

/// Nothing of a batch is left out: every message is sent, hard state and entries are
/// persisted, every committed entry with data is applied, and the batch ends with its
/// end.
pub proof fn batch_is_handled_whole(b: ReadyBatch, i: int)
    ensures
        0 <= i < b.messages@.len() ==> batch_steps(b)[i] == (ReadyView::Send {
            to: b.messages@[i].to,
            data: b.messages@[i].data@,
        }),
        b.hard_state matches Some(hs) ==> batch_steps(b)[b.messages@.len() as int]
            == ReadyView::PersistHardState(hs),
        0 <= i < b.entries@.len() ==> batch_steps(b).contains(
            ReadyView::Persist(b.entries@[i]@),
        ),
        0 <= i < b.persisted_messages@.len() ==> batch_steps(b).contains(
            ReadyView::Send {
                to: b.persisted_messages@[i].to,
                data: b.persisted_messages@[i].data@,
            },
        ),
        0 <= i < b.committed@.len() && b.committed@[i]@.data.len() > 0 ==> batch_steps(b).contains(
            ReadyView::Apply(b.committed@[i]@),
        ),
        batch_steps(b).last() is Advance,
{
    let all = batch_steps(b);
    let m = b.messages@.len() as int;
    let h: int = if b.hard_state is Some {
        1
    } else {
        0
    };
    let e = b.entries@.len() as int;
    let p = b.persisted_messages@.len() as int;
    if 0 <= i < e {
        assert(all[m + h + i] == ReadyView::Persist(b.entries@[i]@));
    }
    if 0 <= i < p {
        assert(all[m + h + e + i] is Send);
    }
    if 0 <= i < b.committed@.len() && b.committed@[i]@.data.len() > 0 {
        let committed = entry_views(b.committed@);
        applies_hold(committed, i);
        let k = choose|k: int|
            0 <= k < applies(committed).len() && applies(committed)[k] == ReadyView::Apply(
                committed[i],
            );
        assert(all[m + h + e + p + k] == ReadyView::Apply(committed[i]));
    }
}

/// A committed entry is applied only behind everything that the batch persists and
/// sends.
pub proof fn committed_entries_come_last(b: ReadyBatch, i: int, j: int)
    requires
        0 <= i < batch_steps(b).len(),
        0 <= j < batch_steps(b).len(),
        batch_steps(b)[i] is Apply,
        !(batch_steps(b)[j] is Apply),
        !(batch_steps(b)[j] is Advance),
    ensures
        j < i,
{
    applies_only(entry_views(b.committed@));
}

/// A committed entry moves the applied index to its own, exactly where it can be
/// decoded; one that cannot be changes nothing.
pub proof fn applied_index_follows_the_log(
    s: ClusterView,
    index: u64,
    decoded: std::result::Result<ProposalView, Seq<char>>,
)
    ensures
        decoded is Ok ==> after_entry(s, index, decoded).last_applied_index == index,
        decoded is Err ==> after_entry(s, index, decoded) == s,
        decoded matches Ok(p) ==> after_entry(s, index, decoded).nodes == after_proposal(s, p).nodes,
{
}

} // verus!
