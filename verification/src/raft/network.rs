//! Consensus messages addressed by peer id.
use std::collections::HashMap;
use vstd::prelude::*;
use vstd::string::*;
use crate::error::{CoreError, ErrorView, Result};
use crate::p2p::command::{CommandView, SwarmCommand};
use crate::text::{cat3, cat4, decimal, decimal_text};

verus! {

broadcast use vstd::std_specs::hash::group_hash_axioms;

/// Peer ids by participant id, learned from descriptors.
#[derive(Debug)]
pub struct RaftIdRegistry {
    inner: HashMap<u64, String>,
}

impl View for RaftIdRegistry {
    type V = Map<u64, Seq<char>>;

    closed spec fn view(&self) -> Map<u64, Seq<char>> {
        self.inner@.map_values(|s: String| s@)
    }
}

impl RaftIdRegistry {
    /// An empty registry.
    pub fn new() -> (r: Self)
        ensures
            r@ == Map::<u64, Seq<char>>::empty(),
    {
        let r = RaftIdRegistry { inner: HashMap::new() };
        assert(r@ =~= Map::<u64, Seq<char>>::empty());
        r
    }

    /// Records the peer of a participant.
    pub fn insert(&mut self, raft_id: u64, peer_id: String)
        ensures
            final(self)@ == old(self)@.insert(raft_id, peer_id@),
    {
        self.inner.insert(raft_id, peer_id);
        assert(self@ =~= old(self)@.insert(raft_id, peer_id@));
    }

    /// The peer of a participant.
    pub fn get(&self, raft_id: u64) -> (r: Option<String>)
        ensures
            match r {
                Some(p) => self@.contains_key(raft_id) && self@[raft_id] == p@,
                None => !self@.contains_key(raft_id),
            },
    {
        match self.inner.get(&raft_id) {
            Some(p) => Some(p.clone()),
            None => None,
        }
    }

    /// Forgets the peer of a participant.
    pub fn remove(&mut self, raft_id: u64)
        ensures
            final(self)@ == old(self)@.remove(raft_id),
    {
        self.inner.remove(&raft_id);
        assert(self@ =~= old(self)@.remove(raft_id));
    }

    /// Whether every one of these participants has a known peer.
    pub fn knows_all(&self, ids: &[u64]) -> (r: bool)
        ensures
            r == forall|i: int| 0 <= i < ids@.len() ==> self@.contains_key(#[trigger] ids@[i]),
    {
        let mut i: usize = 0;
        while i < ids.len()
            invariant
                i <= ids@.len(),
                forall|k: int| 0 <= k < i ==> self@.contains_key(#[trigger] ids@[k]),
            decreases ids@.len() - i,
        {
            if !self.inner.contains_key(&ids[i]) {
                assert(!self@.contains_key(ids@[i as int]));
                return false;
            }
            i += 1;
        }
        true
    }

    /// Every participant and its peer, in no particular order.
    pub fn snapshot(&self) -> (r: Vec<(u64, String)>)
        ensures
            r@.len() == self@.len(),
            forall|i: int|
                0 <= i < r@.len() ==> self@.contains_key((#[trigger] r@[i]).0) && self@[r@[i].0]
                    == r@[i].1@,
            forall|k: u64|
                #[trigger] self@.contains_key(k) ==> exists|i: int|
                    0 <= i < r@.len() && (#[trigger] r@[i]).0 == k,
    {
        let mut out: Vec<(u64, String)> = Vec::new();
        let ghost all = vstd::std_specs::iter::IteratorSpec::remaining(
            &vstd::std_specs::hash::spec_hash_map_iter(&self.inner),
        );
        for (id, peer) in iter: self.inner.iter()
            invariant
                iter.seq() == all,
                out@.len() == iter.index(),
                forall|i: int|
                    0 <= i < out@.len() ==> (#[trigger] out@[i]).0 == *all[i].0 && out@[i].1@
                        == all[i].1@,
        {
            out.push((*id, peer.clone()));
        }
        proof {
            assert(self@.dom() =~= self.inner@.dom());
            assert forall|i: int| 0 <= i < out@.len() implies self@.contains_key(
                (#[trigger] out@[i]).0,
            ) && self@[out@[i].0] == out@[i].1@ by {
                assert(self.inner@.contains_key(*all[i].0));
            }
            assert forall|k: u64| #[trigger] self@.contains_key(k) implies exists|i: int|
                0 <= i < out@.len() && (#[trigger] out@[i]).0 == k by {
                assert(self.inner@.contains_key(k));
                assert(all.contains((&k, &self.inner@[k])));
                let i = choose|i: int| 0 <= i < all.len() && all[i] == (&k, &self.inner@[k]);
                assert(out@[i].0 == k);
            }
        }
        out
    }
}

/// The bytes of a consensus message.
#[derive(Debug, PartialEq, Eq)]
pub struct RaftEnvelope {
    /// The message's bytes.
    pub data: Vec<u8>,
}

/// An envelope around received bytes.
pub fn envelope_from_data(data: Vec<u8>) -> (r: RaftEnvelope)
    ensures
        r.data@ == data@,
{
    RaftEnvelope { data }
}

/// The command that sends an encoded message to a participant. It takes a known
/// peer.
pub fn route_message(registry: &RaftIdRegistry, to: u64, message: RaftEnvelope) -> (r: Result<
    SwarmCommand,
>)
    ensures
        if registry@.contains_key(to) {
            r is Ok && r->Ok_0@ == (CommandView::SendRaftMessage {
                peer_id: registry@[to],
                data: message.data@,
            })
        } else {
            r is Err && r->Err_0@ == ErrorView::Network(
                "no libp2p PeerId for raft id "@ + decimal(to as nat)
                    + " (descriptor not received yet)"@,
            )
        },
{
    match registry.get(to) {
        Some(peer_id) => Ok(SwarmCommand::SendRaftMessage { peer_id, data: message.data }),
        None => Err(
            CoreError::Network(
                cat3(
                    "no libp2p PeerId for raft id ",
                    decimal_text(to).as_str(),
                    " (descriptor not received yet)",
                ),
            ),
        ),
    }
}

/// What came of queueing the command of [`route_message`].
pub fn message_queued(to: u64, queued: std::result::Result<(), String>) -> (r: Result<()>)
    ensures
        match queued {
            Ok(_) => r is Ok,
            Err(e) => r is Err && r->Err_0@ == ErrorView::Network(
                "failed to queue raft message for "@ + decimal(to as nat) + ": "@ + e@,
            ),
        },
{
    match queued {
        Ok(_) => Ok(()),
        Err(e) => Err(
            CoreError::Network(
                cat4(
                    "failed to queue raft message for ",
                    decimal_text(to).as_str(),
                    ": ",
                    e.as_str(),
                ),
            ),
        ),
    }
}

} // verus!
