//! Which stored objects can be reached from which.
use vstd::prelude::*;
use vstd::string::*;
use crate::storage::objects::{Object, ObjectView};
use crate::text::str_eq;
use crate::types::texts;

verus! {

/// An object and the hash it is stored under.
#[derive(Debug, PartialEq, Eq)]
pub struct StoredObject {
    /// The hash.
    pub hash: String,
    /// The object.
    pub object: Object,
}

/// The hashes that an object refers to: a commit to its tree and its parents, a
/// tree to its entries, and a tag to its commit.
pub open spec fn refers(o: ObjectView) -> Seq<Seq<char>> {
    match o {
        ObjectView::Blob { .. } => Seq::empty(),
        ObjectView::Tree { entries, .. } => Seq::new(entries.len(), |i: int| entries[i].hash),
        ObjectView::Commit { tree_hash, parent_hashes, .. } => seq![tree_hash] + parent_hashes,
        ObjectView::Tag { commit_hash, .. } => seq![commit_hash],
    }
}

/// Whether an object that is stored under `from` refers to `to`.
pub open spec fn linked(stored: Seq<StoredObject>, from: Seq<char>, to: Seq<char>) -> bool {
    exists|i: int|
        0 <= i < stored.len() && (#[trigger] stored[i]).hash@ == from && refers(
            stored[i].object@,
        ).contains(to)
}

/// A way from a root to a hash, from each object to one it refers to.
pub open spec fn is_way(
    stored: Seq<StoredObject>,
    roots: Seq<Seq<char>>,
    way: Seq<Seq<char>>,
    to: Seq<char>,
) -> bool {
    &&& way.len() > 0
    &&& roots.contains(way[0])
    &&& way.last() == to
    &&& forall|i: int| 0 <= i < way.len() - 1 ==> linked(stored, #[trigger] way[i], way[i + 1])
}

/// Whether a root reaches a hash.
pub open spec fn reachable(
    stored: Seq<StoredObject>,
    roots: Seq<Seq<char>>,
    hash: Seq<char>,
) -> bool {
    exists|way: Seq<Seq<char>>| #[trigger] is_way(stored, roots, way, hash)
}

/// Whether `list` holds the hashes of exactly the stored objects that no root
/// reaches, in the order in which they are stored.
pub open spec fn unreferenced(
    stored: Seq<StoredObject>,
    roots: Seq<Seq<char>>,
    list: Seq<Seq<char>>,
) -> bool {
    list == unreferenced_upto(stored, roots, stored.len() as int)
}

/// The hashes of those of the first `n` stored objects that no root reaches.
pub open spec fn unreferenced_upto(
    stored: Seq<StoredObject>,
    roots: Seq<Seq<char>>,
    n: int,
) -> Seq<Seq<char>>
    decreases n,
{
    if n <= 0 {
        Seq::empty()
    } else if reachable(stored, roots, stored[n - 1].hash@) {
        unreferenced_upto(stored, roots, n - 1)
    } else {
        unreferenced_upto(stored, roots, n - 1).push(stored[n - 1].hash@)
    }
}

proof fn root_is_reachable(stored: Seq<StoredObject>, roots: Seq<Seq<char>>, hash: Seq<char>)
    requires
        roots.contains(hash),
    ensures
        reachable(stored, roots, hash),
{
    assert(is_way(stored, roots, seq![hash], hash));
}

proof fn link_is_reachable(
    stored: Seq<StoredObject>,
    roots: Seq<Seq<char>>,
    from: Seq<char>,
    to: Seq<char>,
)
    requires
        reachable(stored, roots, from),
        linked(stored, from, to),
    ensures
        reachable(stored, roots, to),
{
    let way = choose|way: Seq<Seq<char>>| #[trigger] is_way(stored, roots, way, from);
    let longer = way.push(to);
    assert forall|i: int| 0 <= i < longer.len() - 1 implies linked(
        stored,
        #[trigger] longer[i],
        longer[i + 1],
    ) by {
        if i < way.len() - 1 {
            assert(linked(stored, way[i], way[i + 1]));
        }
    }
    assert(is_way(stored, roots, longer, to));
}

/// The hashes that an object refers to.
fn references(object: &Object) -> (r: Vec<String>)
    ensures
        texts(r@) == refers(object@),
{
    let mut out: Vec<String> = Vec::new();
    match object {
        Object::Blob(_) => {},
        Object::Tree(tree) => {
            let mut i: usize = 0;
            while i < tree.entries.len()
                invariant
                    i <= tree.entries@.len(),
                    out@.len() == i,
                    forall|k: int| 0 <= k < i ==> (#[trigger] out@[k])@ == tree.entries@[k].hash@,
                decreases tree.entries@.len() - i,
            {
                out.push(tree.entries[i].hash.clone());
                i += 1;
            }
        },
        Object::Commit(commit) => {
            out.push(commit.tree_hash.clone());
            let mut i: usize = 0;
            while i < commit.parent_hashes.len()
                invariant
                    i <= commit.parent_hashes@.len(),
                    out@.len() == i + 1,
                    out@[0]@ == commit.tree_hash@,
                    forall|k: int|
                        0 <= k < i ==> (#[trigger] out@[k + 1])@ == commit.parent_hashes@[k]@,
                decreases commit.parent_hashes@.len() - i,
            {
                out.push(commit.parent_hashes[i].clone());
                i += 1;
            }
            assert forall|k: int| 0 <= k < out@.len() implies (#[trigger] out@[k])@ == refers(
                object@,
            )[k] by {
                if k > 0 {
                    assert(out@[k - 1 + 1]@ == commit.parent_hashes@[k - 1]@);
                }
            }
        },
        Object::Tag(tag) => {
            out.push(tag.commit_hash.clone());
        },
    }
    assert(texts(out@) =~= refers(object@));
    out
}

/// What is known while stored objects are marked: the queue holds each marked
/// object once, and every marked object is reachable.
spec fn marks_ok(
    stored: Seq<StoredObject>,
    roots: Seq<Seq<char>>,
    marked: Seq<bool>,
    queue: Seq<usize>,
) -> bool {
    &&& marked.len() == stored.len()
    &&& queue.no_duplicates()
    &&& forall|i: int| 0 <= i < queue.len() ==> (#[trigger] queue[i]) < stored.len() && marked[queue[i] as int]
    &&& forall|j: int| 0 <= j < marked.len() && #[trigger] marked[j] ==> queue.contains(j as usize)
    &&& forall|j: int|
        0 <= j < marked.len() && #[trigger] marked[j] ==> reachable(stored, roots, stored[j].hash@)
}

/// Whether every object stored under a hash is marked.
spec fn all_marked(stored: Seq<StoredObject>, marked: Seq<bool>, hash: Seq<char>) -> bool {
    forall|j: int| 0 <= j < stored.len() && (#[trigger] stored[j]).hash@ == hash ==> marked[j]
}

/// Mark every object stored under a hash, and queue those that were not marked.
fn mark(
    stored: &Vec<StoredObject>,
    Ghost(roots): Ghost<Seq<Seq<char>>>,
    hash: &str,
    marked: &mut Vec<bool>,
    queue: &mut Vec<usize>,
)
    requires
        marks_ok(stored@, roots, old(marked)@, old(queue)@),
        reachable(stored@, roots, hash@),
    ensures
        marks_ok(stored@, roots, final(marked)@, final(queue)@),
        all_marked(stored@, final(marked)@, hash@),
        old(queue)@.is_prefix_of(final(queue)@),
        forall|j: int| 0 <= j < stored@.len() && old(marked)@[j] ==> #[trigger] final(marked)@[j],
{
    let mut j: usize = 0;
    while j < stored.len()
        invariant
            j <= stored@.len(),
            marks_ok(stored@, roots, marked@, queue@),
            reachable(stored@, roots, hash@),
            forall|k: int| 0 <= k < j && (#[trigger] stored@[k]).hash@ == hash@ ==> marked@[k],
            old(queue)@.is_prefix_of(queue@),
            forall|k: int| 0 <= k < stored@.len() && old(marked)@[k] ==> #[trigger] marked@[k],
        decreases stored@.len() - j,
    {
        if str_eq(stored[j].hash.as_str(), hash) && !marked[j] {
            let ghost m = marked@;
            let ghost q = queue@;
            marked.set(j, true);
            queue.push(j);
            proof {
                assert forall|a: int, b: int| 0 <= a < queue@.len() && 0 <= b < queue@.len() && a
                    != b implies queue@[a] != queue@[b] by {
                    if a == q.len() {
                        assert(m[q[b] as int]);
                    } else if b == q.len() {
                        assert(m[q[a] as int]);
                    }
                }
                assert forall|k: int| 0 <= k < marked@.len() && #[trigger] marked@[k] implies queue@.contains(
                    k as usize,
                ) by {
                    if k == j {
                        assert(queue@[q.len() as int] == j);
                    } else {
                        assert(m[k]);
                        let a = choose|a: int| 0 <= a < q.len() && q[a] == k as usize;
                        assert(queue@[a] == k as usize);
                    }
                }
                assert forall|i: int| 0 <= i < queue@.len() implies (#[trigger] queue@[i])
                    < stored@.len() && marked@[queue@[i] as int] by {
                    if i < q.len() {
                        assert(queue@[i] == q[i]);
                    }
                }
            }
        }
        j += 1;
    }
}

proof fn queue_is_short(queue: Seq<usize>, n: nat)
    requires
        queue.no_duplicates(),
        forall|i: int| 0 <= i < queue.len() ==> (#[trigger] queue[i]) < n,
    ensures
        queue.len() <= n,
    decreases n,
{
    if n == 0 {
        if queue.len() > 0 {
            assert(queue[0] < n);
        }
    } else if exists|i: int| 0 <= i < queue.len() && queue[i] == n - 1 {
        let at = choose|i: int| 0 <= i < queue.len() && queue[i] == n - 1;
        let rest = queue.remove(at);
        assert forall|a: int, b: int| 0 <= a < rest.len() && 0 <= b < rest.len() && a
            != b implies rest[a] != rest[b] by {
            let x = if a < at { a } else { a + 1 };
            let y = if b < at { b } else { b + 1 };
            assert(rest[a] == queue[x] && rest[b] == queue[y]);
        }
        assert forall|i: int| 0 <= i < rest.len() implies (#[trigger] rest[i]) < n - 1 by {
            let x = if i < at { i } else { i + 1 };
            assert(rest[i] == queue[x]);
            assert(queue[x] != queue[at]);
        }
        queue_is_short(rest, (n - 1) as nat);
    } else {
        queue_is_short(queue, (n - 1) as nat);
    }
}

proof fn reachable_is_marked(
    stored: Seq<StoredObject>,
    roots: Seq<Seq<char>>,
    marked: Seq<bool>,
    way: Seq<Seq<char>>,
    n: int,
)
    requires
        marked.len() == stored.len(),
        way.len() > 0,
        0 <= n < way.len(),
        roots.contains(way[0]),
        forall|i: int| 0 <= i < way.len() - 1 ==> linked(stored, #[trigger] way[i], way[i + 1]),
        forall|i: int| 0 <= i < roots.len() ==> all_marked(stored, marked, #[trigger] roots[i]),
        forall|j: int, to: Seq<char>|
            0 <= j < stored.len() && marked[j] && #[trigger] refers(stored[j].object@).contains(to)
                ==> all_marked(stored, marked, to),
    ensures
        all_marked(stored, marked, way[n]),
    decreases n,
{
    if n == 0 {
        let i = choose|i: int| 0 <= i < roots.len() && roots[i] == way[0];
        assert(all_marked(stored, marked, roots[i]));
    } else {
        reachable_is_marked(stored, roots, marked, way, n - 1);
        assert(linked(stored, way[n - 1], way[n - 1 + 1]));
        let i = choose|i: int|
            0 <= i < stored.len() && (#[trigger] stored[i]).hash@ == way[n - 1] && refers(
                stored[i].object@,
            ).contains(way[n]);
        assert(marked[i]);
        assert(refers(stored[i].object@).contains(way[n]));
    }
}

/// The hashes of the stored objects that no root reaches, in the order in which
/// they are stored.
pub fn unreferenced_hashes(stored: &Vec<StoredObject>, roots: &[String]) -> (r: Vec<String>)
    ensures
        unreferenced(stored@, texts(roots@), texts(r@)),
{
    let ghost wanted = texts(roots@);
    let mut marked: Vec<bool> = Vec::new();
    let mut filled: usize = 0;
    while filled < stored.len()
        invariant
            filled <= stored@.len(),
            marked@.len() == filled,
            forall|j: int| 0 <= j < filled ==> !(#[trigger] marked@[j]),
        decreases stored@.len() - filled,
    {
        marked.push(false);
        filled += 1;
    }
    let mut queue: Vec<usize> = Vec::new();
    let mut i: usize = 0;
    while i < roots.len()
        invariant
            i <= roots@.len(),
            wanted == texts(roots@),
            marks_ok(stored@, wanted, marked@, queue@),
            forall|k: int| 0 <= k < i ==> all_marked(stored@, marked@, #[trigger] wanted[k]),
        decreases roots@.len() - i,
    {
        proof {
            assert(wanted[i as int] == roots@[i as int]@);
            root_is_reachable(stored@, wanted, wanted[i as int]);
        }
        let ghost before = marked@;
        mark(stored, Ghost(wanted), roots[i].as_str(), &mut marked, &mut queue);
        proof {
            assert forall|k: int| 0 <= k < i + 1 implies all_marked(
                stored@,
                marked@,
                #[trigger] wanted[k],
            ) by {
                if k < i {
                    assert(all_marked(stored@, before, wanted[k]));
                }
            }
        }
        i += 1;
    }
    let mut next: usize = 0;
    while next < queue.len()
        invariant
            next <= queue@.len(),
            wanted == texts(roots@),
            marks_ok(stored@, wanted, marked@, queue@),
            forall|k: int|
                0 <= k < wanted.len() ==> all_marked(stored@, marked@, #[trigger] wanted[k]),
            forall|k: int, to: Seq<char>|
                0 <= k < next && #[trigger] refers(stored@[queue@[k] as int].object@).contains(to)
                    ==> all_marked(stored@, marked@, to),
        decreases stored@.len() - next,
    {
        proof {
            queue_is_short(queue@, stored@.len());
        }
        let at: usize = queue[next];
        assert(at < stored@.len());
        let ghost from = stored@[at as int].hash@;
        let ghost out = refers(stored@[at as int].object@);
        let refs = references(&stored[at].object);
        let mut j: usize = 0;
        while j < refs.len()
            invariant
                j <= refs@.len(),
                next < queue@.len(),
                queue@[next as int] == at,
                at < stored@.len(),
                from == stored@[at as int].hash@,
                out == refers(stored@[at as int].object@),
                texts(refs@) == out,
                reachable(stored@, wanted, from),
                marks_ok(stored@, wanted, marked@, queue@),
                forall|k: int|
                    0 <= k < wanted.len() ==> all_marked(stored@, marked@, #[trigger] wanted[k]),
                forall|k: int, to: Seq<char>|
                    0 <= k < next && #[trigger] refers(
                        stored@[queue@[k] as int].object@,
                    ).contains(to) ==> all_marked(stored@, marked@, to),
                forall|k: int| 0 <= k < j ==> all_marked(stored@, marked@, #[trigger] out[k]),
            decreases refs@.len() - j,
        {
            proof {
                assert(out[j as int] == refs@[j as int]@);
                assert(refers(stored@[at as int].object@).contains(out[j as int]));
                assert(linked(stored@, from, out[j as int]));
                link_is_reachable(stored@, wanted, from, out[j as int]);
            }
            let ghost before = marked@;
            let ghost queued = queue@;
            mark(stored, Ghost(wanted), refs[j].as_str(), &mut marked, &mut queue);
            proof {
                assert forall|hash: Seq<char>| #[trigger] all_marked(
                    stored@,
                    before,
                    hash,
                ) implies all_marked(stored@, marked@, hash) by {}
                assert forall|k: int| 0 <= k < queued.len() implies queue@[k] == queued[k] by {}
                assert forall|k: int, to: Seq<char>|
                    0 <= k < next && #[trigger] refers(
                        stored@[queue@[k] as int].object@,
                    ).contains(to) implies all_marked(stored@, marked@, to) by {
                    assert(queue@[k] == queued[k]);
                    assert(refers(stored@[queued[k] as int].object@).contains(to));
                    assert(all_marked(stored@, before, to));
                }
                assert forall|k: int| 0 <= k < j + 1 implies all_marked(
                    stored@,
                    marked@,
                    #[trigger] out[k],
                ) by {
                    if k < j {
                        assert(all_marked(stored@, before, out[k]));
                    }
                }
                assert forall|k: int| 0 <= k < wanted.len() implies all_marked(
                    stored@,
                    marked@,
                    #[trigger] wanted[k],
                ) by {
                    assert(all_marked(stored@, before, wanted[k]));
                }
            }
            j += 1;
        }
        proof {
            assert forall|k: int, to: Seq<char>|
                0 <= k < next + 1 && #[trigger] refers(
                    stored@[queue@[k] as int].object@,
                ).contains(to) implies all_marked(stored@, marked@, to) by {
                if k == next {
                    let a = choose|a: int| 0 <= a < out.len() && out[a] == to;
                    assert(all_marked(stored@, marked@, out[a]));
                }
            }
        }
        next += 1;
    }
    proof {
        assert forall|j: int, to: Seq<char>|
            0 <= j < stored@.len() && marked@[j] && #[trigger] refers(
                stored@[j].object@,
            ).contains(to) implies all_marked(stored@, marked@, to) by {
            assert(queue@.contains(j as usize));
            let k = choose|k: int| 0 <= k < queue@.len() && queue@[k] == j as usize;
            assert(refers(stored@[queue@[k] as int].object@).contains(to));
        }
        assert forall|j: int|
            0 <= j < stored@.len() && reachable(
                stored@,
                wanted,
                (#[trigger] stored@[j]).hash@,
            ) implies marked@[j] by {
            let hash = stored@[j].hash@;
            let way = choose|way: Seq<Seq<char>>| #[trigger] is_way(stored@, wanted, way, hash);
            reachable_is_marked(stored@, wanted, marked@, way, way.len() - 1);
        }
    }
    let mut out: Vec<String> = Vec::new();
    let mut k: usize = 0;
    assert(texts(out@) =~= unreferenced_upto(stored@, wanted, 0));
    while k < stored.len()
        invariant
            k <= stored@.len(),
            marks_ok(stored@, wanted, marked@, queue@),
            forall|j: int|
                0 <= j < stored@.len() && reachable(
                    stored@,
                    wanted,
                    (#[trigger] stored@[j]).hash@,
                ) ==> marked@[j],
            texts(out@) == unreferenced_upto(stored@, wanted, k as int),
        decreases stored@.len() - k,
    {
        if !marked[k] {
            let ghost before = texts(out@);
            out.push(stored[k].hash.clone());
            assert(texts(out@) =~= before.push(stored@[k as int].hash@));
        }
        k += 1;
    }
    out
}

/// Exactly the stored objects that no root reaches are named.
pub proof fn unreferenced_are_named(
    stored: Seq<StoredObject>,
    roots: Seq<Seq<char>>,
    list: Seq<Seq<char>>,
    hash: Seq<char>,
)
    requires
        unreferenced(stored, roots, list),
    ensures
        list.contains(hash) <==> !reachable(stored, roots, hash) && exists|i: int|
            0 <= i < stored.len() && (#[trigger] stored[i]).hash@ == hash,
{
    unreferenced_upto_names(stored, roots, stored.len() as int, hash);
}

proof fn unreferenced_upto_names(
    stored: Seq<StoredObject>,
    roots: Seq<Seq<char>>,
    n: int,
    hash: Seq<char>,
)
    requires
        0 <= n <= stored.len(),
    ensures
        unreferenced_upto(stored, roots, n).contains(hash) <==> !reachable(stored, roots, hash)
            && exists|i: int| 0 <= i < n && (#[trigger] stored[i]).hash@ == hash,
    decreases n,
{
    if n > 0 {
        unreferenced_upto_names(stored, roots, n - 1, hash);
        let before = unreferenced_upto(stored, roots, n - 1);
        let all = unreferenced_upto(stored, roots, n);
        if !reachable(stored, roots, stored[n - 1].hash@) {
            assert(all[before.len() as int] == stored[n - 1].hash@);
            if before.contains(hash) {
                let i = choose|i: int| 0 <= i < before.len() && before[i] == hash;
                assert(all[i] == hash);
            }
            if all.contains(hash) {
                let i = choose|i: int| 0 <= i < all.len() && all[i] == hash;
                if i < before.len() {
                    assert(before[i] == hash);
                } else {
                    assert(stored[n - 1].hash@ == hash);
                }
            }
        }
    }
}

/// What is kept keeps what it refers to: with a commit its tree and its parents stay,
/// with a tree its entries, with a tag its commit. And a root itself stays.
pub proof fn kept_objects_keep_what_they_refer_to(
    stored: Seq<StoredObject>,
    roots: Seq<Seq<char>>,
    list: Seq<Seq<char>>,
    i: int,
    k: int,
)
    requires
        unreferenced(stored, roots, list),
        0 <= i < stored.len(),
        !list.contains(stored[i].hash@),
    ensures
        stored[i].object@ matches ObjectView::Commit { tree_hash, parent_hashes, .. }
            ==> !list.contains(tree_hash) && (0 <= k < parent_hashes.len() ==> !list.contains(
            parent_hashes[k],
        )),
        stored[i].object@ matches ObjectView::Tree { entries, .. } ==> (0 <= k < entries.len()
            ==> !list.contains(entries[k].hash)),
        stored[i].object@ matches ObjectView::Tag { commit_hash, .. } ==> !list.contains(
            commit_hash,
        ),
{
    let from = stored[i].hash@;
    unreferenced_are_named(stored, roots, list, from);
    assert(stored[i].hash@ == from);
    let out = refers(stored[i].object@);
    match stored[i].object@ {
        ObjectView::Commit { tree_hash, parent_hashes, .. } => {
            assert(out[0] == tree_hash);
            link_is_reachable(stored, roots, from, tree_hash);
            unreferenced_are_named(stored, roots, list, tree_hash);
            if 0 <= k < parent_hashes.len() {
                assert(out[k + 1] == parent_hashes[k]);
                link_is_reachable(stored, roots, from, parent_hashes[k]);
                unreferenced_are_named(stored, roots, list, parent_hashes[k]);
            }
        },
        ObjectView::Tree { entries, .. } => {
            if 0 <= k < entries.len() {
                assert(out[k] == entries[k].hash);
                link_is_reachable(stored, roots, from, entries[k].hash);
                unreferenced_are_named(stored, roots, list, entries[k].hash);
            }
        },
        ObjectView::Tag { commit_hash, .. } => {
            assert(out[0] == commit_hash);
            link_is_reachable(stored, roots, from, commit_hash);
            unreferenced_are_named(stored, roots, list, commit_hash);
        },
        ObjectView::Blob { .. } => {},
    }
}

/// A root is never collected.
pub proof fn roots_are_kept(
    stored: Seq<StoredObject>,
    roots: Seq<Seq<char>>,
    list: Seq<Seq<char>>,
    hash: Seq<char>,
)
    requires
        unreferenced(stored, roots, list),
        roots.contains(hash),
    ensures
        !list.contains(hash),
{
    root_is_reachable(stored, roots, hash);
    unreferenced_are_named(stored, roots, list, hash);
}

/// Whether an object names a hash.
pub open spec fn names_hash(o: ObjectView, hash: Seq<char>) -> bool {
    match o {
        ObjectView::Blob { .. } => false,
        ObjectView::Tree { entries, .. } => exists|k: int|
            0 <= k < entries.len() && (#[trigger] entries[k]).hash == hash,
        ObjectView::Commit { tree_hash, parent_hashes, .. } => tree_hash == hash
            || parent_hashes.contains(hash),
        ObjectView::Tag { commit_hash, .. } => commit_hash == hash,
    }
}

/// A stored object that is no root and that no stored object names is collected.
pub proof fn unnamed_objects_are_collected(
    stored: Seq<StoredObject>,
    roots: Seq<Seq<char>>,
    list: Seq<Seq<char>>,
    i: int,
)
    requires
        unreferenced(stored, roots, list),
        0 <= i < stored.len(),
        !roots.contains(stored[i].hash@),
        forall|j: int|
            0 <= j < stored.len() ==> !names_hash(
                (#[trigger] stored[j]).object@,
                stored[i].hash@,
            ),
    ensures
        list.contains(stored[i].hash@),
{
    let hash = stored[i].hash@;
    unreferenced_are_named(stored, roots, list, hash);
    if reachable(stored, roots, hash) {
        let way = choose|way: Seq<Seq<char>>| #[trigger] is_way(stored, roots, way, hash);
        if way.len() > 1 {
            let last = way.len() - 2;
            assert(linked(stored, way[last], way[last + 1]));
            let j = choose|j: int|
                0 <= j < stored.len() && (#[trigger] stored[j]).hash@ == way[last] && refers(
                    stored[j].object@,
                ).contains(hash);
            let out = refers(stored[j].object@);
            let k = choose|k: int| 0 <= k < out.len() && out[k] == hash;
            match stored[j].object@ {
                ObjectView::Commit { tree_hash, parent_hashes, .. } => {
                    if k > 0 {
                        assert(parent_hashes[k - 1] == hash);
                    }
                },
                ObjectView::Tree { entries, .. } => {
                    assert(entries[k].hash == hash);
                },
                _ => {},
            }
            assert(names_hash(stored[j].object@, hash));
        }
    }
}

} // verus!
