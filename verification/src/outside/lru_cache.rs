//! The bounded cache of log entries.
use lru::LruCache;
use std::num::NonZeroUsize;
use vstd::prelude::*;
use crate::raft::storage::{RaftEntry, RaftEntryView};

verus! {

#[verifier::external_type_specification]
#[verifier::external_body]
#[verifier::reject_recursive_types(K)]
#[verifier::reject_recursive_types(V)]
#[verifier::reject_recursive_types(S)]
pub struct ExLruCache<K, V, S>(LruCache<K, V, S>);

#[verifier::external_type_specification]
#[verifier::external_body]
pub struct ExLruHasher(lru::DefaultHasher);

/// A cached entry under its index.
pub struct Cached {
    pub key: u64,
    pub entry: RaftEntryView,
}

/// What a cache holds, the most recently used first.
pub uninterp spec fn cached(c: LruCache<u64, RaftEntry>) -> Seq<Cached>;

/// How many entries a cache can hold.
pub uninterp spec fn cache_capacity(c: LruCache<u64, RaftEntry>) -> nat;

/// The place of a key.
pub open spec fn cache_position(s: Seq<Cached>, key: u64) -> Option<int>
    decreases s.len(),
{
    if s.len() == 0 {
        None
    } else if s[0].key == key {
        Some(0)
    } else {
        match cache_position(s.drop_first(), key) {
            Some(i) => Some(i + 1),
            None => None,
        }
    }
}

/// The entry of a key.
pub open spec fn cache_find(s: Seq<Cached>, key: u64) -> Option<RaftEntryView> {
    match cache_position(s, key) {
        Some(i) => Some(s[i].entry),
        None => None,
    }
}

/// What is left without a key.
pub open spec fn cache_without(s: Seq<Cached>, key: u64) -> Seq<Cached> {
    s.filter(|c: Cached| c.key != key)
}

/// After a key was looked up: a key that is held moves to the front.
pub open spec fn cache_touched(s: Seq<Cached>, key: u64) -> Seq<Cached> {
    match cache_find(s, key) {
        Some(entry) => seq![Cached { key, entry }] + cache_without(s, key),
        None => s,
    }
}

/// After an entry was put: it stands at the front, in place of an earlier one
/// with its key; a full cache drops its last entry for a new key.
pub open spec fn cache_put(s: Seq<Cached>, capacity: nat, key: u64, entry: RaftEntryView) -> Seq<
    Cached,
> {
    let rest = if cache_find(s, key) is Some {
        cache_without(s, key)
    } else if s.len() == capacity {
        s.drop_last()
    } else {
        s
    };
    seq![Cached { key, entry }] + rest
}

/// Calls `lru::LruCache::new`: an empty cache with room for `capacity` entries.
#[verifier::external_body]
pub(crate) fn lru_new(capacity: usize) -> (r: LruCache<u64, RaftEntry>)
    requires
        0 < capacity <= 65536,
    ensures
        cached(r) == Seq::<Cached>::empty(),
        cache_capacity(r) == capacity,
{
    LruCache::new(NonZeroUsize::new(capacity).unwrap_or(NonZeroUsize::MIN))
}

/// Calls `lru::LruCache::put`: see [`cache_put`].
#[verifier::external_body]
pub(crate) fn lru_put(c: &mut LruCache<u64, RaftEntry>, key: u64, entry: RaftEntry)
    ensures
        cached(*final(c)) == cache_put(cached(*old(c)), cache_capacity(*old(c)), key, entry@),
        cache_capacity(*final(c)) == cache_capacity(*old(c)),
{
    c.put(key, entry);
}

/// Calls `lru::LruCache::get`: the entry of the key, if it is held; the key then
/// counts as the most recently used.
#[verifier::external_body]
pub(crate) fn lru_get(c: &mut LruCache<u64, RaftEntry>, key: u64) -> (r: Option<&RaftEntry>)
    ensures
        match r {
            Some(e) => cache_find(cached(*old(c)), key) == Some(e@),
            None => cache_find(cached(*old(c)), key) is None,
        },
        cached(*final(c)) == cache_touched(cached(*old(c)), key),
        cache_capacity(*final(c)) == cache_capacity(*old(c)),
{
    c.get(&key)
}

/// Calls `lru::LruCache::pop`: the key is held no more.
#[verifier::external_body]
pub(crate) fn lru_pop(c: &mut LruCache<u64, RaftEntry>, key: u64)
    ensures
        cached(*final(c)) == cache_without(cached(*old(c)), key),
        cache_capacity(*final(c)) == cache_capacity(*old(c)),
{
    c.pop(&key);
}

} // verus!
