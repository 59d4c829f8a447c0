//! Fetching blobs that are not in the local store from peers.
//!
//! A peer answers a request for a blob but never sends one unasked, so whoever
//! needs a blob asks every known peer and waits. Waiters are named by numbers.
use vstd::prelude::*;
use vstd::string::*;
use crate::error::{CoreError, ErrorView, Result};
use crate::p2p::command::{commands_view, CommandView, SwarmCommand};
use crate::raft::network::RaftIdRegistry;
use crate::storage::objects::{blob_hash, hash_blob, Object, ObjectView};
use crate::storage::store::{blob_in, mismatched, LocalObjectStore, PendingWrite};
use crate::table::{row_of, row_of_is_first, removed_row_values, value_of, with_row_values, TextTable};
use crate::text::{cat2, cat3, cat5, decimal, decimal_text, str_eq};

verus! {

/// How long a project waits for its snapshot, in nanoseconds.
pub const DEFAULT_FETCH_TIMEOUT: u128 = 300_000_000_000;

/// The local store and the waiters for blobs that are on their way.
#[derive(Debug)]
pub struct BlobFetcher {
    store: LocalObjectStore,
    waiters: TextTable<Vec<u64>>,
}

/// The waiters for a blob.
pub open spec fn waiters_for(rows: Seq<(Seq<char>, Vec<u64>)>, hash: Seq<char>) -> Seq<u64> {
    match value_of(rows, hash) {
        Some(v) => v@,
        None => Seq::empty(),
    }
}

/// From `before` to `after` somebody began to wait for a blob, behind those who
/// wait for it already.
pub open spec fn one_more_waits(
    before: Seq<(Seq<char>, Vec<u64>)>,
    after: Seq<(Seq<char>, Vec<u64>)>,
    hash: Seq<char>,
    waiter: u64,
) -> bool {
    &&& waiters_for(after, hash) == waiters_for(before, hash).push(waiter)
    &&& forall|h: Seq<char>|
        #![trigger value_of(after, h)]
        h != hash ==> value_of(after, h) == value_of(before, h)
}

/// From `before` to `after` the wait for a blob ended.
pub open spec fn nobody_waits(
    before: Seq<(Seq<char>, Vec<u64>)>,
    after: Seq<(Seq<char>, Vec<u64>)>,
    hash: Seq<char>,
) -> bool {
    forall|h: Seq<char>|
        #![trigger value_of(after, h)]
        value_of(after, h) == (if h == hash {
            None
        } else {
            value_of(before, h)
        })
}

/// What is written of a peer's answer to a request for `hash`: the bytes, if they
/// are there and have that hash.
pub open spec fn arrives(
    hash: Seq<char>,
    found: bool,
    data: Seq<u8>,
    r: Option<PendingWrite>,
) -> bool {
    match r {
        Some(w) => {
            &&& found
            &&& data.len() > 0
            &&& blob_hash(data) == hash
            &&& w.stores(ObjectView::Blob { hash, data })
        },
        None => !found || data.len() == 0 || blob_hash(data) != hash,
    }
}

/// What to do for somebody who needs a blob.
#[derive(Debug, PartialEq, Eq)]
pub enum Fetch {
    /// It is here.
    Here(Vec<u8>),
    /// It cannot be had.
    Failed(CoreError),
    /// Ask for it with these commands, and wait.
    Ask(Vec<SwarmCommand>),
}

/// How waiting for a blob ended.
#[derive(Debug, PartialEq, Eq)]
pub enum FetchEnd {
    /// The blob arrived.
    Arrived(Vec<u8>),
    /// The waiter was dropped.
    Dropped,
    /// The time was up.
    TimedOut,
}

/// One request for the blob to each known peer.
pub open spec fn asks_every_peer(
    registry: Map<u64, Seq<char>>,
    hash: Seq<char>,
    commands: Seq<CommandView>,
) -> bool {
    &&& commands.len() == registry.len()
    &&& forall|i: int|
        0 <= i < commands.len() ==> (#[trigger] commands[i]) is RequestBlob
            && commands[i]->RequestBlob_hash == hash
    &&& forall|id: u64| #[trigger]
        registry.contains_key(id) ==> exists|i: int|
            0 <= i < commands.len() && (#[trigger] commands[i])->RequestBlob_peer_id
                == registry[id]
    &&& forall|i: int|
        0 <= i < commands.len() ==> is_known(
            registry,
            (#[trigger] commands[i])->RequestBlob_peer_id,
        )
}

/// Whether a peer is among the known ones.
pub open spec fn is_known(registry: Map<u64, Seq<char>>, peer: Seq<char>) -> bool {
    exists|id: u64| #[trigger] registry.contains_key(id) && registry[id] == peer
}

/// The message where no peer is known.
pub open spec fn nobody_to_ask(hash: Seq<char>) -> Seq<char> {
    "blob "@ + hash
        + " is not in the local CAS and no peer is known to ask (no descriptor exchange completed yet)"@
}

/// The message for a waiter that was dropped.
pub open spec fn fetch_dropped(hash: Seq<char>) -> Seq<char> {
    "blob "@ + hash + " request was dropped before any peer answered"@
}

/// The message for a wait that took too long.
pub open spec fn fetch_late(seconds: u64, hash: Seq<char>, peers: u64) -> Seq<char> {
    "timed out after "@ + decimal(seconds as nat) + "s waiting for blob "@ + hash + " from "@ + (
    decimal(peers as nat)
        + " peer(s); is the node that submitted the project still up?"@)
}

impl BlobFetcher {
    /// The waiters, by the hash of the blob they wait for.
    pub closed spec fn waiting(self) -> Seq<(Seq<char>, Vec<u64>)> {
        self.waiters@
    }

    /// One entry at most for each hash.
    pub closed spec fn wf(self) -> bool {
        self.waiters.wf()
    }

    /// A fetcher nobody waits on.
    pub fn new(store: LocalObjectStore) -> (r: Self)
        ensures
            r.wf(),
            r.waiting().len() == 0,
    {
        BlobFetcher { store, waiters: TextTable::new() }
    }

    /// The bytes of a blob, if they could be read from the local store and have the
    /// hash that was asked for.
    pub fn get_local(&self, hash: &str, read: Result<Object>) -> (r: Option<Vec<u8>>)
        ensures
            match blob_in(hash@, read) {
                Ok(data) => r is Some && r->Some_0@ == data,
                Err(_) => r is None,
            },
    {
        match self.store.get_blob(hash, read) {
            Ok(bytes) => Some(bytes),
            Err(_) => None,
        }
    }

    /// What is to be written to keep a blob in the local store.
    pub fn put(&self, data: &[u8]) -> (r: PendingWrite)
        ensures
            r.stores(ObjectView::Blob { hash: blob_hash(data@), data: data@ }),
    {
        self.store.put_blob(data)
    }

    /// What is to be written when a peer answers a request for `hash`; nothing, where
    /// the peer has no such blob, sent no bytes, or sent bytes of another hash.
    pub fn arriving_blob(&self, hash: &str, found: bool, data: &Vec<u8>) -> (r: Option<PendingWrite>)
        ensures
            arrives(hash@, found, data@, r),
    {
        if !found || data.len() == 0 {
            return None;
        }
        let write = self.store.put_blob(data.as_slice());
        if str_eq(write.hash.as_str(), hash) {
            Some(write)
        } else {
            None
        }
    }

    /// The waiters to wake once a blob that a peer sent was written: those who wait
    /// for its hash. Nobody waits for that blob any longer. A blob that could not be
    /// written wakes nobody, and everybody goes on waiting.
    pub fn on_blob_received(&mut self, write: &PendingWrite, written: Result<()>) -> (r: Option<Vec<u64>>)
        requires
            old(self).wf(),
        ensures
            final(self).wf(),
            match written {
                Ok(_) => {
                    &&& r is Some
                    &&& r->Some_0@ == waiters_for(old(self).waiting(), write.hash@)
                    &&& nobody_waits(old(self).waiting(), final(self).waiting(), write.hash@)
                },
                Err(_) => r is None && final(self).waiting() == old(self).waiting(),
            },
    {
        match written {
            Err(_) => None,
            Ok(_) => {
                let woken = match self.drop_waiter(write.hash.as_str()) {
                    Some(v) => v,
                    None => Vec::new(),
                };
                assert(value_of(old(self).waiting(), write.hash@) is None ==> woken@ =~= Seq::<
                    u64,
                >::empty());
                Some(woken)
            },
        }
    }

    /// Make sure that a blob is here: read from the local store, or asked of every
    /// known peer. `read` is what the local store holds. A blob that nobody can be
    /// asked for fails at once.
    pub fn ensure_blob(
        &mut self,
        hash: &str,
        read: Result<Object>,
        registry: &RaftIdRegistry,
        waiter: u64,
    ) -> (r: Fetch)
        requires
            old(self).wf(),
        ensures
            final(self).wf(),
            if blob_in(hash@, read) is Ok {
                &&& r is Here
                &&& r->Here_0@ == blob_in(hash@, read)->Ok_0
                &&& final(self).waiting() == old(self).waiting()
            } else if registry@.len() == 0 {
                &&& r is Failed
                &&& r->Failed_0@ == ErrorView::Network(nobody_to_ask(hash@))
                &&& nobody_waits(old(self).waiting(), final(self).waiting(), hash@)
            } else {
                &&& r is Ask
                &&& asks_every_peer(registry@, hash@, commands_view(r->Ask_0@))
                &&& one_more_waits(old(self).waiting(), final(self).waiting(), hash@, waiter)
            },
    {
        match self.get_local(hash, read) {
            Some(bytes) => {
                return Fetch::Here(bytes);
            },
            None => {},
        }
        let ghost before = self.waiters@;
        let mut list = match self.waiters.remove(hash) {
            Some(v) => v,
            None => Vec::new(),
        };
        assert(value_of(before, hash@) is None ==> list@ =~= Seq::<u64>::empty());
        let ghost without = self.waiters@;
        list.push(waiter);
        self.waiters.insert(String::from_str(hash), list);
        proof {
            assert forall|h: Seq<char>|
                #![trigger value_of(self.waiters@, h)]
                value_of(self.waiters@, h) == (if h == hash@ {
                    Some(list)
                } else {
                    value_of(before, h)
                }) by {
                with_row_values(without, hash@, list, h);
                if row_of(before, hash@) is Some {
                    removed_row_values(before, hash@, h);
                }
            }
        }
        let peers = registry.snapshot();
        if peers.len() == 0 {
            self.drop_waiter(hash);
            return Fetch::Failed(
                CoreError::Network(
                    cat3(
                        "blob ",
                        hash,
                        " is not in the local CAS and no peer is known to ask (no descriptor exchange completed yet)",
                    ),
                ),
            );
        }
        let mut commands: Vec<SwarmCommand> = Vec::new();
        let mut i: usize = 0;
        while i < peers.len()
            invariant
                i <= peers@.len(),
                commands@.len() == i,
                forall|k: int|
                    0 <= k < i ==> (#[trigger] commands@[k])@ == (CommandView::RequestBlob {
                        peer_id: peers@[k].1@,
                        hash: hash@,
                    }),
            decreases peers@.len() - i,
        {
            commands.push(
                SwarmCommand::RequestBlob {
                    peer_id: peers[i].1.clone(),
                    hash: String::from_str(hash),
                },
            );
            i += 1;
        }
        proof {
            let cs = commands_view(commands@);
            assert forall|id: u64| #[trigger] registry@.contains_key(id) implies exists|i: int|
                0 <= i < cs.len() && (#[trigger] cs[i])->RequestBlob_peer_id == registry@[id] by {
                let i = choose|i: int| 0 <= i < peers@.len() && (#[trigger] peers@[i]).0 == id;
                assert(cs[i]->RequestBlob_peer_id == registry@[id]);
            }
            assert forall|i: int| 0 <= i < cs.len() implies is_known(
                registry@,
                (#[trigger] cs[i])->RequestBlob_peer_id,
            ) by {
                assert(registry@.contains_key(peers@[i].0));
            }
        }
        Fetch::Ask(commands)
    }

    /// What somebody who waited for a blob gets: its bytes, which have the hash that
    /// was asked for, or an error. After a wait that failed nobody waits for that
    /// blob any longer.
    pub fn fetch_ended(&mut self, hash: &str, end: FetchEnd, seconds: u64, peers: u64) -> (r: Result<
        Vec<u8>,
    >)
        requires
            old(self).wf(),
        ensures
            final(self).wf(),
            match end {
                FetchEnd::Arrived(bytes) if blob_hash(bytes@) == hash@ => r == Ok::<
                    Vec<u8>,
                    CoreError,
                >(bytes) && final(self).waiting() == old(self).waiting(),
                _ => {
                    &&& r is Err
                    &&& r->Err_0@ == (match end {
                        FetchEnd::Arrived(bytes) => mismatched(hash@, blob_hash(bytes@)),
                        FetchEnd::Dropped => ErrorView::Network(fetch_dropped(hash@)),
                        FetchEnd::TimedOut => ErrorView::Network(
                            fetch_late(seconds, hash@, peers),
                        ),
                    })
                    &&& nobody_waits(old(self).waiting(), final(self).waiting(), hash@)
                },
            },
    {
        match end {
            FetchEnd::Arrived(bytes) => {
                let computed = hash_blob(bytes.as_slice());
                if str_eq(computed.as_str(), hash) {
                    Ok(bytes)
                } else {
                    self.drop_waiter(hash);
                    Err(CoreError::HashMismatch { expected: String::from_str(hash), computed })
                }
            },
            FetchEnd::Dropped => {
                self.drop_waiter(hash);
                Err(
                    CoreError::Network(
                        cat3("blob ", hash, " request was dropped before any peer answered"),
                    ),
                )
            },
            FetchEnd::TimedOut => {
                self.drop_waiter(hash);
                let count = cat2(
                    decimal_text(peers).as_str(),
                    " peer(s); is the node that submitted the project still up?",
                );
                let mut text = cat5(
                    "timed out after ",
                    decimal_text(seconds).as_str(),
                    "s waiting for blob ",
                    hash,
                    " from ",
                );
                text.append(count.as_str());
                Err(CoreError::Network(text))
            },
        }
    }

    fn drop_waiter(&mut self, hash: &str) -> (r: Option<Vec<u64>>)
        requires
            old(self).wf(),
        ensures
            final(self).wf(),
            r == value_of(old(self).waiting(), hash@),
            nobody_waits(old(self).waiting(), final(self).waiting(), hash@),
    {
        let ghost before = self.waiters@;
        let r = self.waiters.remove(hash);
        proof {
            assert forall|h: Seq<char>|
                #![trigger value_of(self.waiters@, h)]
                value_of(self.waiters@, h) == (if h == hash@ {
                    None
                } else {
                    value_of(before, h)
                }) by {
                if row_of(before, hash@) is Some {
                    removed_row_values(before, hash@, h);
                }
            }
        }
        r
    }

    /// For how many blobs somebody waits.
    pub fn pending_fetches(&self) -> (r: usize)
        ensures
            r == self.waiting().len(),
    {
        self.waiters.len()
    }
}

/// From `before` to `after` something happened that did not end the wait for a
/// blob: nothing to any waiter, one more waiter, or the end of another wait.
pub open spec fn wait_goes_on(
    before: Seq<(Seq<char>, Vec<u64>)>,
    after: Seq<(Seq<char>, Vec<u64>)>,
    hash: Seq<char>,
) -> bool {
    ||| after == before
    ||| exists|h: Seq<char>, waiter: u64| #[trigger] one_more_waits(before, after, h, waiter)
    ||| exists|h: Seq<char>| h != hash && #[trigger] nobody_waits(before, after, h)
}

/// Whoever waits for a blob is woken when it arrives, whatever else was asked for
/// and arrived meanwhile. The states lead from the one before the blob was asked
/// for to the one it arrives in, and `woken` are those that its arrival wakes.
pub proof fn waiter_is_woken(
    states: Seq<Seq<(Seq<char>, Vec<u64>)>>,
    hash: Seq<char>,
    waiter: u64,
    woken: Seq<u64>,
)
    requires
        states.len() >= 2,
        one_more_waits(states[0], states[1], hash, waiter),
        forall|i: int|
            1 <= i < states.len() - 1 ==> wait_goes_on(#[trigger] states[i], states[i + 1], hash),
        woken == waiters_for(states.last(), hash),
    ensures
        woken.contains(waiter),
    decreases states.len(),
{
    if states.len() == 2 {
        let i = waiters_for(states[0], hash).len() as int;
        assert(woken[i] == waiter);
    } else {
        let front = states.drop_last();
        assert forall|i: int| 1 <= i < front.len() - 1 implies wait_goes_on(
            #[trigger] front[i],
            front[i + 1],
            hash,
        ) by {
            assert(front[i] == states[i]);
        }
        let last = states.len() - 2;
        waiter_is_woken(front, hash, waiter, waiters_for(front.last(), hash));
        let before = states[last];
        let after = states[last + 1];
        assert(wait_goes_on(before, after, hash));
        let i = choose|i: int|
            0 <= i < waiters_for(before, hash).len() && waiters_for(before, hash)[i] == waiter;
        if after != before {
            if exists|h: Seq<char>, w: u64| #[trigger] one_more_waits(before, after, h, w) {
                let (h, w) = choose|h: Seq<char>, w: u64|
                    #[trigger] one_more_waits(before, after, h, w);
                if h != hash {
                    assert(value_of(after, hash) == value_of(before, hash));
                }
            } else {
                let h = choose|h: Seq<char>|
                    h != hash && #[trigger] nobody_waits(before, after, h);
                assert(value_of(after, hash) == value_of(before, hash));
            }
        }
        assert(woken[i] == waiter);
    }
}

/// What a peer sent for a hash and was written is what the local store then holds
/// under that hash; bytes of another hash are never written.
pub proof fn fetched_blob_is_the_one_asked_for(
    hash: Seq<char>,
    data: Seq<u8>,
    write: PendingWrite,
    held: Object,
)
    requires
        arrives(hash, true, data, Some(write)),
        held@ == write.object@,
    ensures
        write.hash@ == hash,
        blob_in(hash, Ok(held)) == Ok::<Seq<u8>, ErrorView>(data),
{
}

/// Where no hash has waiters, no fetch is pending.
pub proof fn no_waiters_no_fetches(rows: Seq<(Seq<char>, Vec<u64>)>)
    requires
        forall|h: Seq<char>| #[trigger] value_of(rows, h) is None,
    ensures
        rows.len() == 0,
{
    if rows.len() > 0 {
        row_of_is_first(rows, rows[0].0);
        assert(value_of(rows, rows[0].0) is Some);
    }
}

/// A blob that is here is handed out as it is, and one that is not is asked of every
/// known peer, each by its hash; it fails at once only where no peer is known.
pub proof fn missing_blob_is_asked_for(
    registry: Map<u64, Seq<char>>,
    hash: Seq<char>,
    commands: Seq<CommandView>,
    id: u64,
)
    requires
        asks_every_peer(registry, hash, commands),
        registry.contains_key(id),
    ensures
        commands.contains(CommandView::RequestBlob { peer_id: registry[id], hash }),
        commands.len() == registry.len(),
{
    let i = choose|i: int|
        0 <= i < commands.len() && (#[trigger] commands[i])->RequestBlob_peer_id == registry[id];
    assert(commands[i] is RequestBlob);
    assert(commands[i] == CommandView::RequestBlob { peer_id: registry[id], hash });
}

/// What a peer sends is kept only where it is the blob that was asked for: bytes, and
/// the right ones.
pub proof fn only_the_right_bytes_are_kept(
    hash: Seq<char>,
    found: bool,
    data: Seq<u8>,
    r: Option<PendingWrite>,
)
    requires
        arrives(hash, found, data, r),
    ensures
        r is Some <==> found && data.len() > 0 && blob_hash(data) == hash,
        r matches Some(w) ==> w.hash@ == hash && (w.object matches Object::Blob(b) && b.data@ == data
            && b.hash@ == hash),
{
}

} // verus!
