//! The log of the consensus group, kept in the object store.
//!
//! Every entry is stored whole, as a blob; the log remembers the blobs' hashes, and
//! a bounded cache keeps recent entries. The log decides which blobs are needed; the
//! caller reads them.
use lru::LruCache;
use vstd::bytes::*;
use vstd::prelude::*;
use vstd::string::*;
use vstd::slice::slice_subrange;
use vstd::utf8::encode_utf8;
use crate::error::{CoreError, ErrorView, Result};
use crate::outside::json::{json_field, json_items, json_text, render_json, Json, JsonView};
use crate::outside::lru_cache::{
    cache_capacity, cache_find, cache_position, cache_put, cache_touched, cache_without, cached, lru_get, lru_new,
    lru_pop, lru_put, Cached,
};
use crate::raft::entry_form::{entry_form, entry_read, read_entry, stored_entry_reads_back};
use crate::text::{cat4, decimal, decimal_text};
use crate::types::clone_bytes;

verus! {

/// Number of log entries kept in memory.
pub const ENTRY_CACHE_SIZE: usize = 1024;

/// An entry of the log.
#[derive(Debug, PartialEq, Eq)]
pub struct RaftEntry {
    /// Kind of entry: zero for ordinary data.
    pub entry_type: i32,
    /// Term the entry was proposed in.
    pub term: u64,
    /// Position in the log.
    pub index: u64,
    /// The proposal's bytes.
    pub data: Vec<u8>,
    /// Opaque context.
    pub context: Vec<u8>,
    /// Whether the entry asks for a synchronous write.
    pub sync_log: bool,
}

/// What a [`RaftEntry`] says.
pub struct RaftEntryView {
    pub entry_type: i32,
    pub term: u64,
    pub index: u64,
    pub data: Seq<u8>,
    pub context: Seq<u8>,
    pub sync_log: bool,
}

impl View for RaftEntry {
    type V = RaftEntryView;

    open spec fn view(&self) -> RaftEntryView {
        RaftEntryView {
            entry_type: self.entry_type,
            term: self.term,
            index: self.index,
            data: self.data@,
            context: self.context@,
            sync_log: self.sync_log,
        }
    }
}

impl Clone for RaftEntry {
    fn clone(&self) -> (r: Self)
        ensures
            r@ == self@,
    {
        RaftEntry {
            entry_type: self.entry_type,
            term: self.term,
            index: self.index,
            data: clone_bytes(self.data.as_slice()),
            context: clone_bytes(self.context.as_slice()),
            sync_log: self.sync_log,
        }
    }
}

/// What entries say.
pub open spec fn entry_views(v: Seq<RaftEntry>) -> Seq<RaftEntryView> {
    Seq::new(v.len(), |i: int| v[i]@)
}

/// Term, vote and commit index of a node.
#[derive(Debug, Clone, Copy, PartialEq, Eq, Structural)]
pub struct HardState {
    /// Current term.
    pub term: u64,
    /// Node voted for in this term, zero for none.
    pub vote: u64,
    /// Highest committed index.
    pub commit: u64,
}

/// Membership of the group.
#[derive(Debug, PartialEq, Eq)]
pub struct ConfState {
    /// Voting members.
    pub voters: Vec<u64>,
    /// Members that only follow.
    pub learners: Vec<u64>,
    /// Whether a joint configuration leaves by itself.
    pub auto_leave: bool,
}

/// What a [`ConfState`] says.
pub struct ConfView {
    pub voters: Seq<u64>,
    pub learners: Seq<u64>,
    pub auto_leave: bool,
}

impl View for ConfState {
    type V = ConfView;

    open spec fn view(&self) -> ConfView {
        ConfView {
            voters: self.voters@,
            learners: self.learners@,
            auto_leave: self.auto_leave,
        }
    }
}

fn clone_ids(v: &Vec<u64>) -> (r: Vec<u64>)
    ensures
        r@ == v@,
{
    let mut out: Vec<u64> = Vec::new();
    out.extend_from_slice(v.as_slice());
    assert(out@ =~= v@);
    out
}

impl Clone for ConfState {
    fn clone(&self) -> (r: Self)
        ensures
            r@ == self@,
    {
        ConfState {
            voters: clone_ids(&self.voters),
            learners: clone_ids(&self.learners),
            auto_leave: self.auto_leave,
        }
    }
}

/// Membership of a group nobody has joined.
pub open spec fn no_members() -> ConfView {
    ConfView { voters: Seq::empty(), learners: Seq::empty(), auto_leave: false }
}

/// Why the log cannot answer.
#[derive(Debug, Clone, Copy, PartialEq, Eq, Structural)]
pub enum LogError {
    /// The entry is not in the log.
    Unavailable,
    /// The log does not reach far enough for the snapshot.
    SnapshotTemporarilyUnavailable,
}

/// A snapshot of the log.
#[derive(Debug, PartialEq, Eq)]
pub struct LogSnapshot {
    /// The data of the entries, each with a line feed behind it.
    pub data: Vec<u8>,
    /// Last index covered.
    pub index: u64,
    /// Term recorded for the snapshot.
    pub term: u64,
    /// Membership at the snapshot.
    pub conf_state: ConfState,
}

/// The log of the consensus group.
pub struct CasRaftStorage {
    cache: LruCache<u64, RaftEntry>,
    hard_state: Option<HardState>,
    conf_state: Option<ConfState>,
    first_index: u64,
    last_index: u64,
    entry_hashes: Vec<Option<String>>,
}

/// What a [`CasRaftStorage`] says.
pub struct LogView {
    /// Cached entries, the most recently used first.
    pub cache: Seq<Cached>,
    /// Room in the cache.
    pub capacity: nat,
    pub hard_state: Option<HardState>,
    pub conf_state: Option<ConfView>,
    pub first_index: u64,
    pub last_index: u64,
    /// Hash of each stored entry by index.
    pub hashes: Seq<Option<Seq<char>>>,
}

/// The hash recorded for an index.
pub open spec fn hash_at(hashes: Seq<Option<Seq<char>>>, index: u64) -> Option<Seq<char>> {
    if index < hashes.len() {
        hashes[index as int]
    } else {
        None
    }
}

/// What recorded hashes say.
pub open spec fn hash_views(v: Seq<Option<String>>) -> Seq<Option<Seq<char>>> {
    Seq::new(
        v.len(),
        |i: int|
            match v[i] {
                Some(h) => Some(h@),
                None => None,
            },
    )
}

impl View for CasRaftStorage {
    type V = LogView;

    closed spec fn view(&self) -> LogView {
        LogView {
            cache: cached(self.cache),
            capacity: cache_capacity(self.cache),
            hard_state: self.hard_state,
            conf_state: match self.conf_state {
                Some(c) => Some(c@),
                None => None,
            },
            first_index: self.first_index,
            last_index: self.last_index,
            hashes: hash_views(self.entry_hashes@),
        }
    }
}

/// A log without entries.
pub open spec fn empty_log() -> LogView {
    LogView {
        cache: Seq::empty(),
        capacity: ENTRY_CACHE_SIZE as nat,
        hard_state: None,
        conf_state: None,
        first_index: 1,
        last_index: 0,
        hashes: seq![None],
    }
}

/// The log after an entry was appended that is stored under `hash`.
pub open spec fn appended(log: LogView, entry: RaftEntryView, hash: Seq<char>) -> LogView {
    let padded = Seq::new(
        if log.hashes.len() <= entry.index {
            (entry.index + 1) as nat
        } else {
            log.hashes.len()
        },
        |i: int|
            if i < log.hashes.len() {
                log.hashes[i]
            } else {
                None
            },
    );
    LogView {
        cache: cache_put(log.cache, log.capacity, entry.index, entry),
        last_index: if entry.index > log.last_index {
            entry.index
        } else {
            log.last_index
        },
        hashes: padded.update(entry.index as int, Some(hash)),
        ..log
    }
}

/// The cache without the entries up to an index.
pub open spec fn cache_compacted(s: Seq<Cached>, upto: u64) -> Seq<Cached>
    decreases upto,
{
    if upto == 0 {
        s
    } else {
        cache_without(cache_compacted(s, (upto - 1) as u64), upto)
    }
}

/// The log without the entries up to an index.
pub open spec fn compacted(log: LogView, upto: u64) -> LogView {
    LogView {
        first_index: (upto + 1) as u64,
        cache: cache_compacted(log.cache, upto),
        ..log
    }
}

/// The persisted form of a hard state.
pub open spec fn hard_state_json(hs: HardState) -> JsonView {
    JsonView::Fields(
        map!["term"@ => JsonView::Unsigned(hs.term)].insert(
            "vote"@,
            JsonView::Unsigned(hs.vote),
        ).insert("commit"@, JsonView::Unsigned(hs.commit)),
    )
}

/// A list of ids as JSON.
pub open spec fn ids_json(v: Seq<u64>) -> JsonView {
    JsonView::List(v.map_values(|n: u64| JsonView::Unsigned(n)))
}

/// The persisted form of a membership.
pub open spec fn conf_state_json(cs: ConfView) -> JsonView {
    JsonView::Fields(
        map!["voters"@ => ids_json(cs.voters)].insert("learners"@, ids_json(cs.learners)).insert(
            "auto_leave"@,
            JsonView::Bool(cs.auto_leave),
        ),
    )
}

fn json_of_ids(v: &Vec<u64>) -> (r: Json)
    ensures
        r@ == ids_json(v@),
{
    let mut out: Vec<Json> = Vec::new();
    let mut i: usize = 0;
    while i < v.len()
        invariant
            i <= v@.len(),
            out@.len() == i,
            forall|k: int| 0 <= k < i ==> (#[trigger] out@[k])@ == JsonView::Unsigned(v@[k]),
        decreases v@.len() - i,
    {
        out.push(Json::Unsigned(v[i]));
        i += 1;
    }
    proof {
        crate::outside::json::list_view_items(out@);
    }
    assert(crate::outside::json::list_view(out@) =~= v@.map_values(|n: u64| JsonView::Unsigned(n)));
    Json::List(out)
}

/// The bytes to store for a hard state.
pub fn hard_state_bytes(hs: &HardState) -> (r: Vec<u8>)
    ensures
        r@ == encode_utf8(json_text(hard_state_json(*hs))),
{
    let j = Json::object1("term", Json::Unsigned(hs.term)).with(
        "vote",
        Json::Unsigned(hs.vote),
    ).with("commit", Json::Unsigned(hs.commit));
    clone_bytes(render_json(&j).as_str().as_bytes())
}

/// The bytes to store for a membership.
pub fn conf_state_bytes(cs: &ConfState) -> (r: Vec<u8>)
    ensures
        r@ == encode_utf8(json_text(conf_state_json(cs@))),
{
    let j = Json::object1("voters", json_of_ids(&cs.voters)).with(
        "learners",
        json_of_ids(&cs.learners),
    ).with("auto_leave", Json::Bool(cs.auto_leave));
    clone_bytes(render_json(&j).as_str().as_bytes())
}

/// The entry of an index in stored bytes: bytes that are no entry, or one of
/// another index, hold none.
pub open spec fn entry_in(index: u64, bytes: Seq<u8>) -> Option<RaftEntryView> {
    match entry_read(bytes) {
        Some(e) => if e.index == index {
            Some(e)
        } else {
            None
        },
        None => None,
    }
}

/// The entry of an index in the object store.
pub open spec fn entry_stored(
    index: u64,
    hashes: Seq<Option<Seq<char>>>,
    blobs: Map<Seq<char>, Seq<u8>>,
) -> Option<RaftEntryView> {
    match hash_at(hashes, index) {
        Some(hash) => if blobs.contains_key(hash) {
            entry_in(index, blobs[hash])
        } else {
            None
        },
        None => None,
    }
}

/// Whether one more entry of `size` bytes would exceed the limit. The first
/// entry never does.
pub open spec fn over_limit(limit: Option<u64>, count: nat, total: nat, size: nat) -> bool {
    match limit {
        Some(max) => count > 0 && total + size > max,
        None => false,
    }
}

/// How far a read of entries has come.
pub struct ScanView {
    pub cache: Seq<Cached>,
    pub next: u64,
    pub entries: Seq<RaftEntryView>,
    pub total: nat,
}

/// The end of a read of entries below `high`, when the object store holds
/// `blobs`. An entry comes from the cache, else from its blob; an index with
/// neither is left out. The read ends before the entry that exceeds the limit.
pub open spec fn scanned(
    s: ScanView,
    hashes: Seq<Option<Seq<char>>>,
    capacity: nat,
    high: u64,
    limit: Option<u64>,
    blobs: Map<Seq<char>, Seq<u8>>,
) -> ScanView
    decreases high - s.next,
{
    if s.next >= high {
        s
    } else {
        match cache_find(s.cache, s.next) {
            Some(e) => {
                let touched = cache_touched(s.cache, s.next);
                if over_limit(limit, s.entries.len(), s.total, e.data.len()) {
                    ScanView { cache: touched, ..s }
                } else {
                    scanned(
                        ScanView {
                            cache: touched,
                            next: (s.next + 1) as u64,
                            entries: s.entries.push(e),
                            total: s.total + e.data.len(),
                        },
                        hashes,
                        capacity,
                        high,
                        limit,
                        blobs,
                    )
                }
            },
            None => match entry_stored(s.next, hashes, blobs) {
                Some(e) => if over_limit(limit, s.entries.len(), s.total, e.data.len()) {
                    s
                } else {
                    scanned(
                        ScanView {
                            cache: cache_put(s.cache, capacity, s.next, e),
                            next: (s.next + 1) as u64,
                            entries: s.entries.push(e),
                            total: s.total + e.data.len(),
                        },
                        hashes,
                        capacity,
                        high,
                        limit,
                        blobs,
                    )
                },
                None => scanned(
                    ScanView { next: (s.next + 1) as u64, ..s },
                    hashes,
                    capacity,
                    high,
                    limit,
                    blobs,
                ),
            },
        }
    }
}

/// How far a read of entries comes with the blob of the index it stands at, and
/// whether it ends there: an entry that exceeds the limit ends the read, any other
/// is taken and cached, and an index without a stored entry is left out.
pub open spec fn supplied(
    s: ScanView,
    capacity: nat,
    limit: Option<u64>,
    blob: Option<Seq<u8>>,
) -> (ScanView, bool) {
    let next = (s.next + 1) as u64;
    let found = match blob {
        Some(bytes) => entry_in(s.next, bytes),
        None => None,
    };
    match found {
        Some(e) => if over_limit(limit, s.entries.len(), s.total, e.data.len()) {
            (s, true)
        } else {
            (
                ScanView {
                    cache: cache_put(s.cache, capacity, s.next, e),
                    next,
                    entries: s.entries.push(e),
                    total: s.total + e.data.len(),
                },
                false,
            )
        },
        None => (ScanView { next, ..s }, false),
    }
}

/// A read of entries in progress.
#[derive(Debug)]
pub struct EntriesCursor {
    next: u64,
    high: u64,
    limit: Option<u64>,
    total: u128,
    entries: Vec<RaftEntry>,
    ended: bool,
}

/// What a read of entries needs next.
#[derive(Debug, PartialEq, Eq)]
pub enum EntriesStep {
    /// The blob with this hash.
    Load(String),
    /// Nothing: the read has ended.
    Done,
}

impl EntriesCursor {
    /// How far the read has come, with the cache as it stands.
    pub closed spec fn scan(self, log: LogView) -> ScanView {
        ScanView {
            cache: log.cache,
            next: self.next,
            entries: entry_views(self.entries@),
            total: self.total as nat,
        }
    }

    /// The index the read stops before.
    pub closed spec fn upper(self) -> u64 {
        self.high
    }

    /// The size limit.
    pub closed spec fn size_limit(self) -> Option<u64> {
        self.limit
    }

    /// Whether the read has ended.
    pub closed spec fn done(self) -> bool {
        self.ended
    }

    /// The index whose blob is needed.
    pub closed spec fn at(self) -> u64 {
        self.next
    }

    /// The sum of sizes stays within the number of entries.
    pub closed spec fn wf(self) -> bool {
        self.total <= self.entries@.len() * u64::MAX
    }

    /// The end of this read when the object store holds `blobs`.
    pub open spec fn outcome(self, log: LogView, blobs: Map<Seq<char>, Seq<u8>>) -> ScanView {
        if self.done() {
            self.scan(log)
        } else {
            scanned(
                self.scan(log),
                log.hashes,
                log.capacity,
                self.upper(),
                self.size_limit(),
                blobs,
            )
        }
    }

    /// The entries read.
    pub fn into_entries(self) -> (r: Vec<RaftEntry>)
        ensures
            forall|log: LogView| entry_views(r@) == (#[trigger] self.scan(log)).entries,
    {
        self.entries
    }

    fn exceeds(&self, size: usize) -> (r: bool)
        ensures
            r == over_limit(
                self.limit,
                self.entries@.len(),
                self.total as nat,
                size as nat,
            ),
    {
        match self.limit {
            Some(max) => {
                let limit: u128 = max as u128;
                self.entries.len() > 0 && (self.total > limit || size as u128 > limit - self.total)
            },
            None => false,
        }
    }

    fn take(&mut self, entry: RaftEntry)
        requires
            old(self).wf(),
            old(self).next < u64::MAX,
        ensures
            final(self).wf(),
            final(self).next == old(self).next + 1,
            final(self).high == old(self).high,
            final(self).limit == old(self).limit,
            final(self).ended == old(self).ended,
            entry_views(final(self).entries@) == entry_views(old(self).entries@).push(entry@),
            final(self).total == old(self).total + entry@.data.len(),
    {
        let ghost count = self.entries@.len();
        let ghost before = entry_views(self.entries@);
        let size: u128 = entry.data.len() as u128;
        let held: usize = self.entries.len();
        proof {
            assert(count == held);
            assert(self.total + size <= (count + 1) * u64::MAX) by (nonlinear_arith)
                requires
                    self.total <= count * u64::MAX,
                    size <= u64::MAX,
            ;
            assert((count + 1) * u64::MAX <= u128::MAX) by (nonlinear_arith)
                requires
                    count <= u64::MAX,
            ;
        }
        self.total = self.total + size;
        self.next = self.next + 1;
        self.entries.push(entry);
        assert(entry_views(self.entries@) =~= before.push(entry@));
    }
}

impl CasRaftStorage {
    /// A log without entries: nothing is restored from the object store.
    pub fn new() -> (r: Self)
        ensures
            r@ == empty_log(),
    {
        CasRaftStorage::new_empty()
    }

    /// A log without entries.
    pub fn new_empty() -> (r: Self)
        ensures
            r@ == empty_log(),
    {
        let mut entry_hashes: Vec<Option<String>> = Vec::new();
        entry_hashes.push(None);
        assert(hash_views(entry_hashes@) =~= seq![None]);
        CasRaftStorage {
            cache: lru_new(ENTRY_CACHE_SIZE),
            hard_state: None,
            conf_state: None,
            first_index: 1,
            last_index: 0,
            entry_hashes,
        }
    }

    /// Appends an entry, given what came of storing its bytes; see
    /// [`entry_bytes`](crate::raft::entry_form::entry_bytes).
    pub fn append_entry(&mut self, entry: &RaftEntry, stored: Result<String>) -> (r: Result<()>)
        requires
            entry.index < usize::MAX,
        ensures
            match stored {
                Ok(hash) => r is Ok && final(self)@ == appended(old(self)@, entry@, hash@),
                Err(e) => r is Err && r->Err_0@ == e@ && final(self)@ == old(self)@,
            },
    {
        let hash = match stored {
            Ok(hash) => hash,
            Err(e) => {
                return Err(e);
            },
        };
        let ghost before = self@;
        let index: usize = entry.index as usize;
        while self.entry_hashes.len() <= index
            invariant
                index == entry.index,
                index < usize::MAX,
                before.hashes.len() <= self.entry_hashes@.len(),
                self.entry_hashes@.len() <= index + 1 || self.entry_hashes@.len()
                    == before.hashes.len(),
                forall|i: int|
                    0 <= i < self.entry_hashes@.len() ==> #[trigger] hash_views(
                        self.entry_hashes@,
                    )[i] == (if i < before.hashes.len() {
                        before.hashes[i]
                    } else {
                        None
                    }),
                self.cache == old(self).cache,
                self.hard_state == old(self).hard_state,
                self.conf_state == old(self).conf_state,
                self.first_index == old(self).first_index,
                self.last_index == old(self).last_index,
                before == old(self)@,
            decreases index + 1 - self.entry_hashes@.len(),
        {
            let ghost prior = hash_views(self.entry_hashes@);
            self.entry_hashes.push(None);
            assert forall|i: int| 0 <= i < self.entry_hashes@.len() implies #[trigger] hash_views(
                self.entry_hashes@,
            )[i] == (if i < before.hashes.len() {
                before.hashes[i]
            } else {
                None
            }) by {
                if i < prior.len() {
                    assert(prior[i] == hash_views(self.entry_hashes@)[i]);
                }
            }
        }
        let ghost padded = hash_views(self.entry_hashes@);
        self.entry_hashes.set(index, Some(hash));
        assert(hash_views(self.entry_hashes@) =~= padded.update(index as int, Some(hash@)));
        lru_put(&mut self.cache, entry.index, entry.clone());
        if entry.index > self.last_index {
            self.last_index = entry.index;
        }
        proof {
            let want = appended(before, entry@, hash@).hashes;
            assert forall|i: int| 0 <= i < want.len() implies self@.hashes[i] == want[i] by {
                assert(padded[i] == hash_views(self.entry_hashes@)[i] || i == index);
            }
            assert(self@.hashes =~= want);
        }
        Ok(())
    }

    /// Keeps the hard state, given what came of storing it.
    pub fn set_hard_state(&mut self, hs: HardState, stored: Result<String>) -> (r: Result<()>)
        ensures
            match stored {
                Ok(_) => r is Ok && final(self)@ == (LogView {
                    hard_state: Some(hs),
                    ..old(self)@
                }),
                Err(e) => r is Err && r->Err_0@ == e@ && final(self)@ == old(self)@,
            },
    {
        match stored {
            Ok(_) => {
                self.hard_state = Some(hs);
                Ok(())
            },
            Err(e) => Err(e),
        }
    }

    /// Keeps the membership, given what came of storing it.
    pub fn set_conf_state(&mut self, cs: ConfState, stored: Result<String>) -> (r: Result<()>)
        ensures
            match stored {
                Ok(_) => r is Ok && final(self)@ == (LogView {
                    conf_state: Some(cs@),
                    ..old(self)@
                }),
                Err(e) => r is Err && r->Err_0@ == e@ && final(self)@ == old(self)@,
            },
    {
        match stored {
            Ok(_) => {
                self.conf_state = Some(cs);
                Ok(())
            },
            Err(e) => Err(e),
        }
    }

    /// Forgets the entries up to an index, which a snapshot covers.
    pub fn compact(&mut self, compact_index: u64) -> (r: Result<()>)
        requires
            compact_index < u64::MAX,
        ensures
            if compact_index > old(self)@.last_index {
                r is Err && r->Err_0@ == ErrorView::InvalidState(
                    "compact_index "@ + decimal(compact_index as nat) + " > last_index "@
                        + decimal(old(self)@.last_index as nat),
                ) && final(self)@ == old(self)@
            } else {
                r is Ok && final(self)@ == (LogView {
                    first_index: (compact_index + 1) as u64,
                    cache: cache_compacted(old(self)@.cache, compact_index),
                    ..old(self)@
                })
            },
            compact_index <= old(self)@.last_index ==> final(self)@ == compacted(
                old(self)@,
                compact_index,
            ),
    {
        if compact_index > self.last_index {
            return Err(
                CoreError::InvalidState(
                    cat4(
                        "compact_index ",
                        decimal_text(compact_index).as_str(),
                        " > last_index ",
                        decimal_text(self.last_index).as_str(),
                    ),
                ),
            );
        }
        self.first_index = compact_index + 1;
        let mut i: u64 = 0;
        while i < compact_index
            invariant
                i <= compact_index,
                compact_index < u64::MAX,
                cached(self.cache) == cache_compacted(old(self)@.cache, i),
                cache_capacity(self.cache) == old(self)@.capacity,
                self.hard_state == old(self).hard_state,
                self.conf_state == old(self).conf_state,
                self.first_index == compact_index + 1,
                self.last_index == old(self).last_index,
                self.entry_hashes == old(self).entry_hashes,
            decreases compact_index - i,
        {
            i += 1;
            lru_pop(&mut self.cache, i);
        }
        Ok(())
    }

    /// Hard state and membership, empty where none was kept.
    pub fn initial_state(&self) -> (r: (HardState, ConfState))
        ensures
            r.0 == (match self@.hard_state {
                Some(hs) => hs,
                None => HardState { term: 0, vote: 0, commit: 0 },
            }),
            r.1@ == (match self@.conf_state {
                Some(cs) => cs,
                None => no_members(),
            }),
    {
        let hs = match self.hard_state {
            Some(hs) => hs,
            None => HardState { term: 0, vote: 0, commit: 0 },
        };
        (hs, self.membership())
    }

    fn membership(&self) -> (r: ConfState)
        ensures
            r@ == (match self@.conf_state {
                Some(cs) => cs,
                None => no_members(),
            }),
    {
        match &self.conf_state {
            Some(cs) => cs.clone(),
            None => ConfState { voters: Vec::new(), learners: Vec::new(), auto_leave: false },
        }
    }

    /// Begins a read of the entries from `low` up to `high`.
    pub fn entries(&self, low: u64, high: u64, max_size: Option<u64>) -> (r: EntriesCursor)
        requires
            high <= self@.last_index + 1,
        ensures
            r.wf(),
            !r.done(),
            r.upper() == high,
            r.size_limit() == max_size,
            r.scan(self@) == (ScanView {
                cache: self@.cache,
                next: low,
                entries: Seq::empty(),
                total: 0,
            }),
    {
        let r = EntriesCursor {
            next: low,
            high,
            limit: max_size,
            total: 0,
            entries: Vec::new(),
            ended: false,
        };
        assert(entry_views(r.entries@) =~= Seq::<RaftEntryView>::empty());
        r
    }

    /// Goes on with a read of entries as far as no blob is needed. A read that has
    /// ended stays as it is.
    pub fn advance_entries(&mut self, cursor: &mut EntriesCursor) -> (r: EntriesStep)
        requires
            old(cursor).wf(),
        ensures
            old(cursor).done() ==> *final(cursor) == *old(cursor) && final(self)@ == old(self)@,
            final(cursor).wf(),
            final(cursor).upper() == old(cursor).upper(),
            final(cursor).size_limit() == old(cursor).size_limit(),
            final(self)@ == (LogView { cache: final(self)@.cache, ..old(self)@ }),
            forall|blobs: Map<Seq<char>, Seq<u8>>|
                #[trigger] final(cursor).outcome(final(self)@, blobs) == old(cursor).outcome(
                    old(self)@,
                    blobs,
                ),
            match r {
                EntriesStep::Done => final(cursor).done(),
                EntriesStep::Load(hash) => !final(cursor).done() && final(cursor).at()
                    < final(cursor).upper() && cache_find(final(self)@.cache, final(cursor).at())
                    is None && hash_at(final(self)@.hashes, final(cursor).at()) == Some(hash@),
            },
    {
        if cursor.ended {
            return EntriesStep::Done;
        }
        let ghost start_log = self@;
        let ghost start = *cursor;
        while cursor.next < cursor.high
            invariant
                cursor.wf(),
                !cursor.ended,
                cursor.high == start.high,
                cursor.limit == start.limit,
                !start.ended,
                start == *old(cursor),
                start_log == old(self)@,
                self@ == (LogView { cache: self@.cache, ..start_log }),
                forall|blobs: Map<Seq<char>, Seq<u8>>|
                    #[trigger] cursor.outcome(self@, blobs) == start.outcome(start_log, blobs),
            decreases cursor.high - cursor.next,
        {
            let ghost log = self@;
            let ghost here = *cursor;
            let found = match lru_get(&mut self.cache, cursor.next) {
                Some(e) => Some(e.clone()),
                None => None,
            };
            match found {
                Some(entry) => {
                    let ghost ev = entry@;
                    if cursor.exceeds(entry.data.len()) {
                        cursor.ended = true;
                        proof {
                            assert forall|blobs: Map<Seq<char>, Seq<u8>>| #[trigger] cursor.outcome(
                                self@,
                                blobs,
                            ) == start.outcome(start_log, blobs) by {
                                assert(here.outcome(log, blobs) == start.outcome(start_log, blobs));
                            }
                        }
                        return EntriesStep::Done;
                    }
                    cursor.take(entry);
                    proof {
                        assert forall|blobs: Map<Seq<char>, Seq<u8>>| #[trigger] cursor.outcome(
                            self@,
                            blobs,
                        ) == start.outcome(start_log, blobs) by {
                            assert(here.outcome(log, blobs) == start.outcome(start_log, blobs));
                        }
                    }
                },
                None => {
                    if cursor.next < self.entry_hashes.len() as u64 {
                        let at: usize = cursor.next as usize;
                        if let Some(hash) = &self.entry_hashes[at] {
                            return EntriesStep::Load(hash.clone());
                        }
                    }
                    cursor.next = cursor.next + 1;
                    proof {
                        assert forall|blobs: Map<Seq<char>, Seq<u8>>| #[trigger] cursor.outcome(
                            self@,
                            blobs,
                        ) == start.outcome(start_log, blobs) by {
                            assert(here.outcome(log, blobs) == start.outcome(start_log, blobs));
                        }
                    }
                },
            }
        }
        let ghost here = *cursor;
        cursor.ended = true;
        proof {
            assert forall|blobs: Map<Seq<char>, Seq<u8>>| #[trigger] cursor.outcome(self@, blobs)
                == start.outcome(start_log, blobs) by {
                assert(here.outcome(self@, blobs) == start.outcome(start_log, blobs));
            }
        }
        EntriesStep::Done
    }

    /// Goes on with a read of entries once the blob it needs was looked up:
    /// `blob` holds its bytes, or nothing where the object store lacks it.
    pub fn supply_entry(&mut self, cursor: &mut EntriesCursor, blob: Option<Vec<u8>>)
        requires
            old(cursor).wf(),
            !old(cursor).done(),
            old(cursor).at() < old(cursor).upper(),
            cache_find(old(self)@.cache, old(cursor).at()) is None,
            hash_at(old(self)@.hashes, old(cursor).at()) is Some,
        ensures
            final(cursor).wf(),
            final(cursor).upper() == old(cursor).upper(),
            final(cursor).size_limit() == old(cursor).size_limit(),
            final(self)@ == (LogView { cache: final(self)@.cache, ..old(self)@ }),
            ({
                let (scan, ended) = supplied(
                    old(cursor).scan(old(self)@),
                    old(self)@.capacity,
                    old(cursor).size_limit(),
                    match blob {
                        Some(bytes) => Some(bytes@),
                        None => None,
                    },
                );
                &&& final(cursor).scan(final(self)@) == scan
                &&& final(cursor).at() == scan.next
                &&& final(cursor).done() == ended
            }),
            forall|blobs: Map<Seq<char>, Seq<u8>>|
                ({
                    let hash = hash_at(old(self)@.hashes, old(cursor).at())->0;
                    match blob {
                        Some(bytes) => blobs.contains_key(hash) && blobs[hash] == bytes@,
                        None => !blobs.contains_key(hash),
                    }
                }) ==> #[trigger] final(cursor).outcome(final(self)@, blobs) == old(
                    cursor,
                ).outcome(old(self)@, blobs),
    {
        let found: Option<RaftEntry> = match blob {
            Some(bytes) => match read_entry(bytes.as_slice()) {
                Some(entry) => if entry.index == cursor.next {
                    Some(entry)
                } else {
                    None
                },
                None => None,
            },
            None => None,
        };
        match found {
            Some(entry) => {
                if cursor.exceeds(entry.data.len()) {
                    cursor.ended = true;
                } else {
                    let copy = entry.clone();
                    lru_put(&mut self.cache, cursor.next, copy);
                    cursor.take(entry);
                }
            },
            None => {
                cursor.next = cursor.next + 1;
            },
        }
    }

    /// The first index still in the log.
    pub fn first_index(&self) -> (r: u64)
        ensures
            r == self@.first_index,
    {
        self.first_index
    }

    /// The last index written.
    pub fn last_index(&self) -> (r: u64)
        ensures
            r == self@.last_index,
    {
        self.last_index
    }

    /// The term of an entry, as far as it is known without its blob.
    pub fn term(&mut self, index: u64) -> (r: TermStep)
        requires
            old(self)@.first_index >= 1,
        ensures
            term_step(old(self)@, index, r),
            final(self)@ == (LogView {
                cache: if index >= old(self)@.first_index {
                    cache_touched(old(self)@.cache, index)
                } else {
                    old(self)@.cache
                },
                ..old(self)@
            }),
    {
        if index < self.first_index - 1 {
            return TermStep::Known(Err(LogError::Unavailable));
        }
        if index == self.first_index - 1 {
            return TermStep::Known(Ok(0));
        }
        if let Some(entry) = lru_get(&mut self.cache, index) {
            return TermStep::Known(Ok(entry.term));
        }
        if index < self.entry_hashes.len() as u64 {
            let at: usize = index as usize;
            if let Some(hash) = &self.entry_hashes[at] {
                return TermStep::Load(hash.clone());
            }
        }
        TermStep::Known(Err(LogError::Unavailable))
    }

    /// Whether a snapshot can be made that covers an index, and if so the hashes
    /// of the blobs that go into it, in order.
    pub fn snapshot_blobs(&self, request_index: u64) -> (r: std::result::Result<
        Vec<String>,
        LogError,
    >)
        ensures
            if request_index > self@.last_index {
                r == Err::<Vec<String>, LogError>(LogError::SnapshotTemporarilyUnavailable)
            } else {
                r is Ok && crate::types::texts(r->Ok_0@) == recorded(
                    self@.hashes,
                    self@.last_index,
                )
            },
    {
        if request_index > self.last_index {
            return Err(LogError::SnapshotTemporarilyUnavailable);
        }
        let mut out: Vec<String> = Vec::new();
        let mut i: u64 = 0;
        assert(crate::types::texts(out@) =~= recorded(self@.hashes, 0));
        while i < self.last_index
            invariant
                i <= self.last_index,
                crate::types::texts(out@) == recorded(self@.hashes, i),
            decreases self.last_index - i,
        {
            i += 1;
            let ghost before = crate::types::texts(out@);
            if i < self.entry_hashes.len() as u64 {
                let at: usize = i as usize;
                if let Some(hash) = &self.entry_hashes[at] {
                    out.push(hash.clone());
                    assert(crate::types::texts(out@) =~= before.push(hash@));
                }
            }
        }
        Ok(out)
    }

    /// The snapshot made of the blobs of [`CasRaftStorage::snapshot_blobs`];
    /// entries the object store lacks are left out.
    pub fn snapshot(&self, blobs: &Vec<Option<Vec<u8>>>) -> (r: LogSnapshot)
        ensures
            r.data@ == snapshot_data(blobs@),
            r.index == self@.last_index,
            r.term == snapshot_term(self@.last_index, blobs@),
            r.conf_state@ == (match self@.conf_state {
                Some(cs) => cs,
                None => no_members(),
            }),
    {
        let mut data: Vec<u8> = Vec::new();
        let mut i: usize = 0;
        assert(blobs@.take(0) =~= Seq::<Option<Vec<u8>>>::empty());
        while i < blobs.len()
            invariant
                i <= blobs@.len(),
                data@ == snapshot_data(blobs@.take(i as int)),
            decreases blobs@.len() - i,
        {
            let ghost before = data@;
            assert(blobs@.take(i + 1).drop_last() =~= blobs@.take(i as int));
            assert(blobs@.take(i + 1).last() == blobs@[i as int]);
            if let Some(blob) = &blobs[i] {
                if let Some(entry) = read_entry(blob.as_slice()) {
                    data.extend_from_slice(entry.data.as_slice());
                    assert(data@ =~= before + entry.data@);
                    data.push(10u8);
                    assert(data@ =~= before + entry.data@ + seq![10u8]);
                }
            }
            i += 1;
        }
        assert(blobs@.take(i as int) =~= blobs@);
        let mut term: u64 = 1;
        if blobs.len() > 0 {
            if let Some(blob) = &blobs[blobs.len() - 1] {
                if let Some(entry) = read_entry(blob.as_slice()) {
                    if entry.index == self.last_index {
                        term = entry.term;
                    }
                }
            }
        }
        LogSnapshot { data, index: self.last_index, term, conf_state: self.membership() }
    }
}

/// What a lookup of a term gives.
#[derive(Debug, PartialEq, Eq)]
pub enum TermStep {
    /// The answer.
    Known(std::result::Result<u64, LogError>),
    /// The blob with this hash is needed; see [`term_of_blob`].
    Load(String),
}

/// The answer to a lookup of a term: entries before the first are gone, the one
/// right before it counts as term zero, cached ones are known, and stored ones
/// need their blob.
pub open spec fn term_step(log: LogView, index: u64, r: TermStep) -> bool {
    if index < log.first_index - 1 {
        r == TermStep::Known(Err(LogError::Unavailable))
    } else if index == log.first_index - 1 {
        r == TermStep::Known(Ok(0))
    } else {
        match cache_find(log.cache, index) {
            Some(e) => r == TermStep::Known(Ok(e.term)),
            None => match hash_at(log.hashes, index) {
                Some(hash) => r matches TermStep::Load(h) && h@ == hash,
                None => r == TermStep::Known(Err(LogError::Unavailable)),
            },
        }
    }
}

/// The term of an index in stored bytes: that of the entry they are a form of. Bytes
/// that are no entry of this index carry the term in front, in eight bytes, the
/// lowest first.
pub open spec fn term_in(index: u64, bytes: Seq<u8>) -> Option<u64> {
    match entry_in(index, bytes) {
        Some(e) => Some(e.term),
        None => if bytes.len() >= 8 {
            Some(spec_u64_from_le_bytes(bytes.subrange(0, 8)))
        } else {
            None
        },
    }
}

/// The term of an index, from the blob stored for it.
pub fn term_of_blob(index: u64, blob: Option<Vec<u8>>) -> (r: std::result::Result<u64, LogError>)
    ensures
        match blob {
            Some(data) => match term_in(index, data@) {
                Some(term) => r == Ok::<u64, LogError>(term),
                None => r == Err::<u64, LogError>(LogError::Unavailable),
            },
            None => r == Err::<u64, LogError>(LogError::Unavailable),
        },
{
    match blob {
        Some(data) => {
            if let Some(entry) = read_entry(data.as_slice()) {
                if entry.index == index {
                    return Ok(entry.term);
                }
            }
            if data.len() >= 8 {
                Ok(u64_from_le_bytes(slice_subrange(data.as_slice(), 0, 8)))
            } else {
                Err(LogError::Unavailable)
            }
        },
        None => Err(LogError::Unavailable),
    }
}

/// The hashes recorded for the indices from one to `upto`, in order.
pub open spec fn recorded(hashes: Seq<Option<Seq<char>>>, upto: u64) -> Seq<Seq<char>>
    decreases upto,
{
    if upto == 0 {
        Seq::empty()
    } else {
        let before = recorded(hashes, (upto - 1) as u64);
        match hash_at(hashes, upto) {
            Some(hash) => before.push(hash),
            None => before,
        }
    }
}

/// The data of a snapshot: that of every stored entry that is there, with a line
/// feed behind it.
pub open spec fn snapshot_data(blobs: Seq<Option<Vec<u8>>>) -> Seq<u8>
    decreases blobs.len(),
{
    if blobs.len() == 0 {
        Seq::empty()
    } else {
        let before = snapshot_data(blobs.drop_last());
        match blobs.last() {
            Some(blob) => match entry_read(blob@) {
                Some(e) => before + e.data + seq![10u8],
                None => before,
            },
            None => before,
        }
    }
}

/// The term of a snapshot: that of the entry at the last index, where its blob is
/// the last one and is there, and else one.
pub open spec fn snapshot_term(last_index: u64, blobs: Seq<Option<Vec<u8>>>) -> u64 {
    if blobs.len() > 0 && blobs.last() is Some {
        match entry_in(last_index, blobs.last()->Some_0@) {
            Some(e) => e.term,
            None => 1,
        }
    } else {
        1
    }
}

proof fn put_is_found(s: Seq<Cached>, capacity: nat, key: u64, entry: RaftEntryView)
    ensures
        cache_find(cache_put(s, capacity, key, entry), key) == Some(entry),
{
    assert(cache_put(s, capacity, key, entry)[0] == (Cached { key, entry }));
}

/// A read of one index right after it was appended gives the appended entry,
/// whatever the size limit and whatever the object store holds; and the entry's
/// term is its own.
pub proof fn appended_entry_is_read_back(
    log: LogView,
    entry: RaftEntryView,
    hash: Seq<char>,
    limit: Option<u64>,
    blobs: Map<Seq<char>, Seq<u8>>,
)
    requires
        entry.index < u64::MAX,
    ensures
        ({
            let after = appended(log, entry, hash);
            let start = ScanView {
                cache: after.cache,
                next: entry.index,
                entries: Seq::empty(),
                total: 0,
            };
            scanned(
                start,
                after.hashes,
                after.capacity,
                (entry.index + 1) as u64,
                limit,
                blobs,
            ).entries == seq![entry]
        }),
        entry.index >= log.first_index && log.first_index >= 1 ==> forall|r: TermStep|
            #[trigger] term_step(appended(log, entry, hash), entry.index, r) ==> r
                == TermStep::Known(Ok(entry.term)),
        hash_at(appended(log, entry, hash).hashes, entry.index) == Some(hash),
{
    let after = appended(log, entry, hash);
    put_is_found(log.cache, log.capacity, entry.index, entry);
    reveal_with_fuel(scanned, 3);
    assert(Seq::<RaftEntryView>::empty().push(entry) =~= seq![entry]);
}

/// Every cached entry is cached under its own index.
pub open spec fn cached_by_index(s: Seq<Cached>) -> bool {
    forall|i: int| 0 <= i < s.len() ==> (#[trigger] s[i]).entry.index == s[i].key
}

/// Entries whose indices ascend, all of them at least `low` and below `high`.
pub open spec fn in_order(s: Seq<RaftEntryView>, low: u64, high: u64) -> bool {
    &&& forall|i: int| 0 <= i < s.len() ==> low <= (#[trigger] s[i]).index < high
    &&& forall|i: int, j: int| 0 <= i < j < s.len() ==> (#[trigger] s[i]).index < (#[trigger] s[j]).index
}

/// The bytes of entries.
pub open spec fn data_size(s: Seq<RaftEntryView>) -> nat
    decreases s.len(),
{
    if s.len() == 0 {
        0
    } else {
        data_size(s.drop_last()) + s.last().data.len()
    }
}

proof fn found_under_its_index(s: Seq<Cached>, key: u64)
    requires
        cached_by_index(s),
    ensures
        match cache_position(s, key) {
            Some(i) => 0 <= i < s.len() && s[i].key == key && s[i].entry.index == key,
            None => true,
        },
    decreases s.len(),
{
    if s.len() > 0 && s[0].key != key {
        let rest = s.drop_first();
        assert forall|i: int| 0 <= i < rest.len() implies (#[trigger] rest[i]).entry.index
            == rest[i].key by {
            assert(rest[i] == s[i + 1]);
        }
        found_under_its_index(rest, key);
        if let Some(i) = cache_position(rest, key) {
            assert(rest[i] == s[i + 1]);
        }
    }
}

proof fn rest_by_index(s: Seq<Cached>, key: u64)
    requires
        cached_by_index(s),
    ensures
        cached_by_index(cache_without(s, key)),
{
    let rest = cache_without(s, key);
    assert forall|i: int| 0 <= i < rest.len() implies (#[trigger] rest[i]).entry.index
        == rest[i].key by {
        assert(rest.contains(rest[i]));
        s.lemma_filter_contains_rev(|c: Cached| c.key != key, rest[i]);
        let j = choose|j: int| 0 <= j < s.len() && s[j] == rest[i];
        assert(s[j].entry.index == s[j].key);
    }
}

proof fn front_by_index(rest: Seq<Cached>, key: u64, entry: RaftEntryView)
    requires
        cached_by_index(rest),
        entry.index == key,
    ensures
        cached_by_index(seq![Cached { key, entry }] + rest),
{
    let all = seq![Cached { key, entry }] + rest;
    assert forall|i: int| 0 <= i < all.len() implies (#[trigger] all[i]).entry.index
        == all[i].key by {
        if i > 0 {
            assert(all[i] == rest[i - 1]);
        }
    }
}

proof fn touched_by_index(s: Seq<Cached>, key: u64)
    requires
        cached_by_index(s),
    ensures
        cached_by_index(cache_touched(s, key)),
{
    found_under_its_index(s, key);
    rest_by_index(s, key);
    if let Some(entry) = cache_find(s, key) {
        front_by_index(cache_without(s, key), key, entry);
    }
}

proof fn put_by_index(s: Seq<Cached>, capacity: nat, key: u64, entry: RaftEntryView)
    requires
        cached_by_index(s),
        entry.index == key,
        capacity > 0,
    ensures
        cached_by_index(cache_put(s, capacity, key, entry)),
{
    rest_by_index(s, key);
    let rest = if cache_find(s, key) is Some {
        cache_without(s, key)
    } else if s.len() == capacity {
        s.drop_last()
    } else {
        s
    };
    front_by_index(rest, key, entry);
}

/// Appending keeps every cached entry under its own index.
pub proof fn append_caches_by_index(log: LogView, entry: RaftEntryView, hash: Seq<char>)
    requires
        cached_by_index(log.cache),
        log.capacity > 0,
    ensures
        cached_by_index(appended(log, entry, hash).cache),
{
    put_by_index(log.cache, log.capacity, entry.index, entry);
}

/// A read of entries gives them in ascending order, none from outside the range
/// that was asked for and none twice; and together they stay within the size
/// limit, unless a single entry exceeds it alone.
pub proof fn entries_are_read_in_order(
    s: ScanView,
    hashes: Seq<Option<Seq<char>>>,
    capacity: nat,
    low: u64,
    high: u64,
    limit: Option<u64>,
    blobs: Map<Seq<char>, Seq<u8>>,
)
    requires
        cached_by_index(s.cache),
        capacity > 0,
        low <= s.next,
        in_order(s.entries, low, s.next),
        s.total == data_size(s.entries),
        limit is Some ==> s.entries.len() <= 1 || s.total <= limit->Some_0,
    ensures
        ({
            let end = scanned(s, hashes, capacity, high, limit, blobs);
            &&& cached_by_index(end.cache)
            &&& in_order(end.entries, low, if s.next < high { high } else { s.next })
            &&& end.total == data_size(end.entries)
            &&& limit is Some ==> end.entries.len() <= 1 || data_size(end.entries) <= limit->Some_0
        }),
    decreases high - s.next,
{
    if s.next < high {
        let found = cache_find(s.cache, s.next);
        found_under_its_index(s.cache, s.next);
        touched_by_index(s.cache, s.next);
        let loaded = entry_stored(s.next, hashes, blobs);
        let next = (s.next + 1) as u64;
        match found {
            Some(e) => {
                if !over_limit(limit, s.entries.len(), s.total, e.data.len()) {
                    let more = ScanView {
                        cache: cache_touched(s.cache, s.next),
                        next,
                        entries: s.entries.push(e),
                        total: s.total + e.data.len(),
                    };
                    assert(more.entries.drop_last() =~= s.entries);
                    entries_are_read_in_order(more, hashes, capacity, low, high, limit, blobs);
                }
            },
            None => match loaded {
                Some(e) => {
                    if !over_limit(limit, s.entries.len(), s.total, e.data.len()) {
                        put_by_index(s.cache, capacity, s.next, e);
                        let more = ScanView {
                            cache: cache_put(s.cache, capacity, s.next, e),
                            next,
                            entries: s.entries.push(e),
                            total: s.total + e.data.len(),
                        };
                        assert(more.entries.drop_last() =~= s.entries);
                        entries_are_read_in_order(more, hashes, capacity, low, high, limit, blobs);
                    }
                },
                None => {
                    entries_are_read_in_order(
                        ScanView { next, ..s },
                        hashes,
                        capacity,
                        low,
                        high,
                        limit,
                        blobs,
                    );
                },
            },
        }
    }
}

/// Every cached entry is the one of its index among `all`, the first of which has
/// index one.
pub open spec fn cache_agrees(s: Seq<Cached>, all: Seq<RaftEntryView>) -> bool {
    forall|j: int|
        0 <= j < s.len() ==> 1 <= (#[trigger] s[j]).key <= all.len() && s[j].entry == all[s[j].key
            - 1]
}

/// Whether a log and the object store hold `all` the entries from index one on:
/// each is stored in its form under the recorded hash, and cached as it is, if at
/// all.
pub open spec fn log_holds(
    log: LogView,
    blobs: Map<Seq<char>, Seq<u8>>,
    all: Seq<RaftEntryView>,
) -> bool {
    &&& log.capacity > 0
    &&& log.last_index == all.len()
    &&& cache_agrees(log.cache, all)
    &&& forall|i: int|
        0 <= i < all.len() ==> (#[trigger] all[i]).index == i + 1 && storable(all[i])
            && stored_at(log.hashes, blobs, all[i])
}

/// Whether the lengths in an entry can be counted.
pub open spec fn storable(e: RaftEntryView) -> bool {
    e.data.len() <= u64::MAX && e.context.len() <= u64::MAX
}

/// Whether an entry is stored in its form under the hash recorded for its index.
pub open spec fn stored_at(
    hashes: Seq<Option<Seq<char>>>,
    blobs: Map<Seq<char>, Seq<u8>>,
    e: RaftEntryView,
) -> bool {
    match hash_at(hashes, e.index) {
        Some(hash) => blobs.contains_key(hash) && blobs[hash] == entry_form(e),
        None => false,
    }
}

proof fn found_agrees(s: Seq<Cached>, all: Seq<RaftEntryView>, key: u64)
    requires
        cache_agrees(s, all),
    ensures
        match cache_position(s, key) {
            Some(i) => 0 <= i < s.len() && s[i].key == key && 1 <= key <= all.len() && s[i].entry
                == all[key - 1],
            None => true,
        },
    decreases s.len(),
{
    if s.len() > 0 && s[0].key != key {
        let rest = s.drop_first();
        assert forall|j: int| 0 <= j < rest.len() implies 1 <= (#[trigger] rest[j]).key <= all.len()
            && rest[j].entry == all[rest[j].key - 1] by {
            assert(rest[j] == s[j + 1]);
        }
        found_agrees(rest, all, key);
        if let Some(i) = cache_position(rest, key) {
            assert(rest[i] == s[i + 1]);
        }
    }
}

proof fn rest_agrees(s: Seq<Cached>, all: Seq<RaftEntryView>, key: u64)
    requires
        cache_agrees(s, all),
    ensures
        cache_agrees(cache_without(s, key), all),
{
    let rest = cache_without(s, key);
    assert forall|j: int| 0 <= j < rest.len() implies 1 <= (#[trigger] rest[j]).key <= all.len()
        && rest[j].entry == all[rest[j].key - 1] by {
        assert(rest.contains(rest[j]));
        s.lemma_filter_contains_rev(|c: Cached| c.key != key, rest[j]);
        let i = choose|i: int| 0 <= i < s.len() && s[i] == rest[j];
        assert(1 <= s[i].key <= all.len());
    }
}

proof fn front_agrees(rest: Seq<Cached>, all: Seq<RaftEntryView>, key: u64)
    requires
        cache_agrees(rest, all),
        1 <= key <= all.len(),
    ensures
        cache_agrees(seq![Cached { key, entry: all[key - 1] }] + rest, all),
{
    let s = seq![Cached { key, entry: all[key - 1] }] + rest;
    assert forall|j: int| 0 <= j < s.len() implies 1 <= (#[trigger] s[j]).key <= all.len()
        && s[j].entry == all[s[j].key - 1] by {
        if j > 0 {
            assert(s[j] == rest[j - 1]);
        }
    }
}

proof fn touched_agrees(s: Seq<Cached>, all: Seq<RaftEntryView>, key: u64)
    requires
        cache_agrees(s, all),
    ensures
        cache_agrees(cache_touched(s, key), all),
{
    found_agrees(s, all, key);
    rest_agrees(s, all, key);
    if cache_find(s, key) is Some {
        front_agrees(cache_without(s, key), all, key);
    }
}

proof fn put_agrees(s: Seq<Cached>, capacity: nat, all: Seq<RaftEntryView>, key: u64)
    requires
        cache_agrees(s, all),
        capacity > 0,
        1 <= key <= all.len(),
    ensures
        cache_agrees(cache_put(s, capacity, key, all[key - 1]), all),
{
    rest_agrees(s, all, key);
    let rest = if cache_find(s, key) is Some {
        cache_without(s, key)
    } else if s.len() == capacity {
        s.drop_last()
    } else {
        s
    };
    front_agrees(rest, all, key);
}

/// An empty log holds no entries.
pub proof fn empty_log_holds_nothing(blobs: Map<Seq<char>, Seq<u8>>)
    ensures
        log_holds(empty_log(), blobs, Seq::empty()),
{
}

/// A log goes on holding its entries when the next one is appended and stored in
/// its form.
pub proof fn appending_keeps_entries(
    log: LogView,
    blobs: Map<Seq<char>, Seq<u8>>,
    all: Seq<RaftEntryView>,
    e: RaftEntryView,
    hash: Seq<char>,
)
    requires
        log_holds(log, blobs, all),
        e.index == all.len() + 1,
        storable(e),
        blobs.contains_key(hash) ==> blobs[hash] == entry_form(e),
    ensures
        log_holds(
            appended(log, e, hash),
            blobs.insert(hash, entry_form(e)),
            all.push(e),
        ),
{
    let after = appended(log, e, hash);
    let stored = blobs.insert(hash, entry_form(e));
    let more = all.push(e);
    assert forall|i: int| 0 <= i < more.len() implies (#[trigger] more[i]).index == i + 1
        && storable(more[i]) && stored_at(after.hashes, stored, more[i]) by {
        if i < all.len() {
            assert(more[i] == all[i]);
            assert(stored_at(log.hashes, blobs, all[i]));
        }
    }
    assert forall|j: int| 0 <= j < log.cache.len() implies 1 <= (#[trigger] log.cache[j]).key
        <= more.len() && log.cache[j].entry == more[log.cache[j].key - 1] by {}
    assert(cache_agrees(log.cache, more));
    put_agrees(log.cache, log.capacity, more, e.index);
}

/// What is read of a log is what was appended, whole and in order, whether it comes
/// from the cache or from the object store: every entry of the range, or with a
/// size limit as many of the first as stay within it, but one at least.
pub proof fn entries_read_are_those_appended(
    s: ScanView,
    log: LogView,
    blobs: Map<Seq<char>, Seq<u8>>,
    all: Seq<RaftEntryView>,
    low: u64,
    high: u64,
    limit: Option<u64>,
)
    requires
        log_holds(log, blobs, all),
        1 <= low <= s.next,
        s.next <= high || s.next == low,
        high <= all.len() + 1,
        low <= high,
        cache_agrees(s.cache, all),
        s.entries == all.subrange(low - 1, s.next - 1),
        s.total == data_size(s.entries),
        limit is Some ==> s.entries.len() <= 1 || s.total <= limit->Some_0,
    ensures
        ({
            let end = scanned(s, log.hashes, log.capacity, high, limit, blobs);
            let wanted = all.subrange(low - 1, high - 1);
            let n = end.entries.len() as int;
            &&& n <= wanted.len()
            &&& end.entries == wanted.take(n)
            &&& limit is None ==> n == wanted.len()
            &&& wanted.len() > 0 ==> n > 0
            &&& limit is Some ==> n <= 1 || data_size(wanted.take(n)) <= limit->Some_0
            &&& limit is Some && n < wanted.len() ==> data_size(wanted.take(n + 1))
                > limit->Some_0
        }),
    decreases high - s.next,
{
    let wanted = all.subrange(low - 1, high - 1);
    let here = s.entries.len() as int;
    assert(wanted.take(here) =~= s.entries);
    if s.next < high {
        let e = all[s.next - 1];
        assert(e.index == s.next && stored_at(log.hashes, blobs, e));
        stored_entry_reads_back(e);
        assert(entry_stored(s.next, log.hashes, blobs) == Some(e));
        found_agrees(s.cache, all, s.next);
        assert(wanted.take(here + 1).drop_last() =~= s.entries);
        assert(wanted.take(here + 1).last() == e);
        if !over_limit(limit, s.entries.len(), s.total, e.data.len()) {
            let cache = if cache_find(s.cache, s.next) is Some {
                touched_agrees(s.cache, all, s.next);
                cache_touched(s.cache, s.next)
            } else {
                put_agrees(s.cache, log.capacity, all, s.next);
                cache_put(s.cache, log.capacity, s.next, e)
            };
            let more = ScanView {
                cache,
                next: (s.next + 1) as u64,
                entries: s.entries.push(e),
                total: s.total + e.data.len(),
            };
            assert(more.entries =~= all.subrange(low - 1, s.next as int));
            assert(more.entries.drop_last() =~= s.entries);
            entries_read_are_those_appended(more, log, blobs, all, low, high, limit);
        }
    }
}

/// The term of an entry is the same wherever it is looked up: in the cache, or in
/// its stored form.
pub proof fn stored_term_is_the_entrys(
    log: LogView,
    blobs: Map<Seq<char>, Seq<u8>>,
    all: Seq<RaftEntryView>,
    index: u64,
    r: TermStep,
)
    requires
        log_holds(log, blobs, all),
        1 <= log.first_index <= index <= all.len(),
        term_step(log, index, r),
    ensures
        match r {
            TermStep::Known(known) => known == Ok::<u64, LogError>(all[index - 1].term),
            TermStep::Load(hash) => blobs.contains_key(hash@) && term_in(index, blobs[hash@])
                == Some(all[index - 1].term),
        },
{
    let e = all[index - 1];
    assert(stored_at(log.hashes, blobs, e));
    found_agrees(log.cache, all, index);
    stored_entry_reads_back(e);
}

/// A snapshot of a log carries the term of the last entry, where the blobs that go
/// into it are all there.
pub proof fn snapshot_has_the_last_term(
    log: LogView,
    stored: Map<Seq<char>, Seq<u8>>,
    all: Seq<RaftEntryView>,
    hashes: Seq<Seq<char>>,
    blobs: Seq<Option<Vec<u8>>>,
)
    requires
        log_holds(log, stored, all),
        all.len() > 0,
        hashes == recorded(log.hashes, log.last_index),
        blobs.len() == hashes.len(),
        forall|i: int|
            0 <= i < blobs.len() ==> (#[trigger] blobs[i]) is Some && stored.contains_key(
                hashes[i],
            ) && blobs[i]->Some_0@ == stored[hashes[i]],
    ensures
        snapshot_term(log.last_index, blobs) == all.last().term,
{
    let e = all.last();
    assert(all[all.len() - 1] == e);
    assert(stored_at(log.hashes, stored, e));
    stored_entry_reads_back(e);
    assert(hashes.last() == hash_at(log.hashes, log.last_index)->Some_0);
    assert(blobs[blobs.len() - 1] is Some);
}

/// Compaction takes exactly the entries up to the index out of the cache.
pub proof fn compaction_drops_only_old_entries(s: Seq<Cached>, upto: u64, c: Cached)
    ensures
        cache_compacted(s, upto).contains(c) <==> s.contains(c) && !(1 <= c.key <= upto),
    decreases upto,
{
    if upto > 0 {
        let before = cache_compacted(s, (upto - 1) as u64);
        compaction_drops_only_old_entries(s, (upto - 1) as u64, c);
        let other = |d: Cached| d.key != upto;
        assert(cache_without(before, upto) =~= before.filter(other)) by {
            assert((|d: Cached| d.key != upto) =~= other);
        }
        if before.contains(c) && other(c) {
            let i = choose|i: int| 0 <= i < before.len() && before[i] == c;
            before.lemma_filter_contains(other, i);
        }
        if before.filter(other).contains(c) {
            before.lemma_filter_contains_rev(other, c);
            let i = choose|i: int|
                0 <= i < before.filter(other).len() && before.filter(other)[i] == c;
            before.lemma_filter_pred(other, i);
        }
    }
}

/// The persisted hard state holds term, vote and commit, each under its name.
pub proof fn hard_state_is_persisted(hs: HardState)
    ensures
        json_field(hard_state_json(hs), "term"@) == JsonView::Unsigned(hs.term),
        json_field(hard_state_json(hs), "vote"@) == JsonView::Unsigned(hs.vote),
        json_field(hard_state_json(hs), "commit"@) == JsonView::Unsigned(hs.commit),
{
    reveal_strlit("term");
    reveal_strlit("vote");
    reveal_strlit("commit");
    assert("term"@[0] == 't' && "vote"@[0] == 'v' && "commit"@[0] == 'c');
}

/// The persisted membership holds every voter and every learner, in order.
pub proof fn membership_is_persisted(cs: ConfView, i: int)
    ensures
        json_items(json_field(conf_state_json(cs), "voters"@)).len() == cs.voters.len(),
        json_items(json_field(conf_state_json(cs), "learners"@)).len() == cs.learners.len(),
        0 <= i < cs.voters.len() ==> json_items(json_field(conf_state_json(cs), "voters"@))[i]
            == JsonView::Unsigned(cs.voters[i]),
        0 <= i < cs.learners.len() ==> json_items(json_field(conf_state_json(cs), "learners"@))[i]
            == JsonView::Unsigned(cs.learners[i]),
        json_field(conf_state_json(cs), "auto_leave"@) == JsonView::Bool(cs.auto_leave),
{
    reveal_strlit("voters");
    reveal_strlit("learners");
    reveal_strlit("auto_leave");
    assert("voters"@[0] == 'v' && "learners"@[0] == 'l' && "auto_leave"@[0] == 'a');
}

proof fn recorded_in_order(
    log: LogView,
    blobs: Map<Seq<char>, Seq<u8>>,
    all: Seq<RaftEntryView>,
    upto: u64,
)
    requires
        log_holds(log, blobs, all),
        upto <= all.len(),
    ensures
        recorded(log.hashes, upto).len() == upto,
        forall|i: int|
            0 <= i < upto ==> Some(#[trigger] recorded(log.hashes, upto)[i]) == hash_at(
                log.hashes,
                (i + 1) as u64,
            ),
    decreases upto,
{
    if upto > 0 {
        recorded_in_order(log, blobs, all, (upto - 1) as u64);
        assert(all[upto - 1].index == upto);
        assert(stored_at(log.hashes, blobs, all[upto - 1]));
        let before = recorded(log.hashes, (upto - 1) as u64);
        let now = recorded(log.hashes, upto);
        assert forall|i: int| 0 <= i < upto implies Some(#[trigger] now[i]) == hash_at(
            log.hashes,
            (i + 1) as u64,
        ) by {
            if i < upto - 1 {
                assert(now[i] == before[i]);
            }
        }
    }
}

/// The data of all entries, in order, each with a line feed behind it.
pub open spec fn data_of(all: Seq<RaftEntryView>) -> Seq<u8> {
    all.map_values(|e: RaftEntryView| e.data.push(10u8)).flatten()
}

proof fn data_of_more(all: Seq<RaftEntryView>)
    requires
        all.len() > 0,
    ensures
        data_of(all) == data_of(all.drop_last()) + all.last().data.push(10u8),
{
    let lined = |e: RaftEntryView| e.data.push(10u8);
    let parts = all.map_values(lined);
    assert(parts.drop_last() =~= all.drop_last().map_values(lined));
    assert(parts =~= parts.drop_last().push(parts.last()));
    parts.drop_last().lemma_flatten_push(parts.last());
}

/// A snapshot holds the data of every entry of the log, in order, and has the term
/// of the last one, where its blobs are those recorded for the log.
pub proof fn snapshot_holds_the_log(
    log: LogView,
    blobs: Map<Seq<char>, Seq<u8>>,
    all: Seq<RaftEntryView>,
    hashes: Seq<Seq<char>>,
    read: Seq<Option<Vec<u8>>>,
)
    requires
        log_holds(log, blobs, all),
        all.len() <= u64::MAX,
        hashes == recorded(log.hashes, log.last_index),
        read.len() == hashes.len(),
        forall|i: int|
            0 <= i < read.len() ==> (#[trigger] read[i]) is Some && blobs.contains_key(hashes[i])
                && read[i]->Some_0@ == blobs[hashes[i]],
    ensures
        snapshot_data(read) == data_of(all),
        all.len() > 0 ==> snapshot_term(log.last_index, read) == all.last().term,
{
    recorded_in_order(log, blobs, all, log.last_index);
    assert forall|i: int| 0 <= i < read.len() implies (#[trigger] read[i]) is Some
        && read[i]->Some_0@ == entry_form(all[i]) && storable(all[i]) by {
        assert(all[i].index == i + 1);
        assert(stored_at(log.hashes, blobs, all[i]));
        assert(Some(hashes[i]) == hash_at(log.hashes, (i + 1) as u64));
    }
    snapshot_of_forms(read, all);
    if all.len() > 0 {
        let last = all.len() - 1;
        assert(read[last]->Some_0@ == entry_form(all[last]));
        assert(all[last].index == all.len());
        stored_entry_reads_back(all[last]);
    }
}

proof fn snapshot_of_forms(read: Seq<Option<Vec<u8>>>, all: Seq<RaftEntryView>)
    requires
        read.len() == all.len(),
        forall|i: int|
            0 <= i < read.len() ==> (#[trigger] read[i]) is Some && read[i]->Some_0@ == entry_form(
                all[i],
            ) && storable(all[i]),
    ensures
        snapshot_data(read) == data_of(all),
    decreases read.len(),
{
    if read.len() > 0 {
        snapshot_of_forms(read.drop_last(), all.drop_last());
        data_of_more(all);
        assert(read[read.len() - 1] == read.last());
        stored_entry_reads_back(all.last());
        assert(snapshot_data(read) =~= data_of(all));
    } else {
        assert(all.map_values(|e: RaftEntryView| e.data.push(10u8)) =~= Seq::empty());
        assert(data_of(all) =~= Seq::empty());
    }
}

/// The term right before the log is zero, a term before that is unavailable, and no
/// lookup finds a term where nothing is recorded.
pub proof fn terms_outside_the_log(log: LogView, index: u64, r: TermStep)
    requires
        log.first_index >= 1,
        term_step(log, index, r),
    ensures
        index + 1 == log.first_index ==> r == TermStep::Known(Ok(0)),
        index + 1 < log.first_index ==> r == TermStep::Known(Err(LogError::Unavailable)),
        index >= log.first_index && cache_find(log.cache, index) is None && index
            >= log.hashes.len() ==> r == TermStep::Known(Err(LogError::Unavailable)),
{
}

/// A log without entries begins with index one and holds nothing; appending moves its
/// end up to the entry and never back, and leaves its beginning where it was.
pub proof fn log_grows_at_its_end(
    log: LogView,
    entry: RaftEntryView,
    hash: Seq<char>,
    index: u64,
)
    ensures
        empty_log().first_index == 1,
        empty_log().last_index == 0,
        hash_at(empty_log().hashes, index) is None,
        empty_log().hard_state is None && empty_log().conf_state is None,
        no_members().voters.len() == 0 && no_members().learners.len() == 0,
        !no_members().auto_leave,
        appended(log, entry, hash).first_index == log.first_index,
        appended(log, entry, hash).last_index >= log.last_index,
        appended(log, entry, hash).last_index >= entry.index,
        appended(log, entry, hash).last_index == log.last_index || appended(
            log,
            entry,
            hash,
        ).last_index == entry.index,
        appended(log, entry, hash).hard_state == log.hard_state,
        appended(log, entry, hash).conf_state == log.conf_state,
        index != entry.index ==> hash_at(appended(log, entry, hash).hashes, index) == hash_at(
            log.hashes,
            index,
        ),
{
}

/// A compacted log begins right behind the index: no term up to it is known, but that of
/// the index itself, which is zero; and what follows is where it was.
pub proof fn compacted_log_begins_behind(log: LogView, upto: u64, index: u64, r: TermStep)
    requires
        upto < u64::MAX,
        upto <= log.last_index,
        term_step(compacted(log, upto), index, r),
    ensures
        compacted(log, upto).first_index == upto + 1,
        compacted(log, upto).last_index == log.last_index,
        compacted(log, upto).hashes == log.hashes,
        compacted(log, upto).hard_state == log.hard_state,
        compacted(log, upto).conf_state == log.conf_state,
        index < upto ==> r == TermStep::Known(Err(LogError::Unavailable)),
        index == upto ==> r == TermStep::Known(Ok(0)),
{
}

} // verus!
