//! Differences between two directory trees.
use vstd::prelude::*;
use vstd::string::*;
use crate::storage::objects::{names_ascend, names_distinct};
use crate::text::{is_text_le, str_eq, text_le, text_le_is_an_order};
use crate::traits::{entries_view, EntryView, TreeEntry};

verus! {

/// The result of comparing two trees.
#[derive(Debug, PartialEq, Eq)]
pub struct TreeDiff {
    /// Entries of the new tree that the old one lacks or holds with another
    /// hash or another mode.
    pub added_or_modified: Vec<TreeEntry>,
    /// Entries of the old tree whose name the new one lacks.
    pub removed: Vec<TreeEntry>,
    /// Entries that are identical in both trees.
    pub unchanged: Vec<TreeEntry>,
}

/// The entries of a tree by name; of several entries with one name the last
/// counts.
pub open spec fn by_name(s: Seq<EntryView>) -> Map<Seq<char>, EntryView>
    decreases s.len(),
{
    if s.len() == 0 {
        Map::empty()
    } else {
        by_name(s.drop_last()).insert(s.last().name, s.last())
    }
}

/// Whether a list holds exactly the entries of `m`, each once, in the order of
/// their names.
pub open spec fn lists(list: Seq<EntryView>, m: Map<Seq<char>, EntryView>) -> bool {
    &&& names_ascend(list)
    &&& names_distinct(list)
    &&& forall|i: int|
        0 <= i < list.len() ==> m.contains_key(#[trigger] list[i].name) && m[list[i].name]
            == list[i]
    &&& forall|k: Seq<char>| #[trigger] m.contains_key(k) ==> holds_name(list, k)
}

/// Whether a list holds an entry of that name.
pub open spec fn holds_name(list: Seq<EntryView>, name: Seq<char>) -> bool {
    exists|i: int| 0 <= i < list.len() && #[trigger] list[i].name == name
}

/// Whether both trees hold the same entry under `name`: the same hash and the same
/// mode.
pub open spec fn same_in_both(
    old: Map<Seq<char>, EntryView>,
    new: Map<Seq<char>, EntryView>,
    name: Seq<char>,
) -> bool {
    &&& new.contains_key(name)
    &&& old.contains_key(name)
    &&& old[name].hash == new[name].hash
    &&& old[name].mode == new[name].mode
}

/// The entries of the new tree that were added or modified.
pub open spec fn changed(
    old: Map<Seq<char>, EntryView>,
    new: Map<Seq<char>, EntryView>,
) -> Map<Seq<char>, EntryView> {
    Map::new(
        |k: Seq<char>| new.contains_key(k) && !same_in_both(old, new, k),
        |k: Seq<char>| new[k],
    )
}

/// The entries of the new tree that stayed.
pub open spec fn kept(
    old: Map<Seq<char>, EntryView>,
    new: Map<Seq<char>, EntryView>,
) -> Map<Seq<char>, EntryView> {
    Map::new(|k: Seq<char>| same_in_both(old, new, k), |k: Seq<char>| new[k])
}

/// The entries of the old tree that are gone.
pub open spec fn gone(
    old: Map<Seq<char>, EntryView>,
    new: Map<Seq<char>, EntryView>,
) -> Map<Seq<char>, EntryView> {
    Map::new(|k: Seq<char>| old.contains_key(k) && !new.contains_key(k), |k: Seq<char>| old[k])
}

/// Whether a difference is that of two trees.
pub open spec fn is_diff(old: Seq<EntryView>, new: Seq<EntryView>, d: TreeDiff) -> bool {
    &&& lists(entries_view(d.added_or_modified@), changed(by_name(old), by_name(new)))
    &&& lists(entries_view(d.removed@), gone(by_name(old), by_name(new)))
    &&& lists(entries_view(d.unchanged@), kept(by_name(old), by_name(new)))
}

/// The names that occur in a list of entries.
pub open spec fn names_of(list: Seq<EntryView>) -> Set<Seq<char>> {
    Set::new(|k: Seq<char>| holds_name(list, k))
}

proof fn lists_by_name(list: Seq<EntryView>, m: Map<Seq<char>, EntryView>)
    requires
        lists(list, m),
    ensures
        by_name(list) == m,
{
    by_name_of(list);
    assert(by_name(list) =~= m);
}

proof fn by_name_of(list: Seq<EntryView>)
    requires
        names_distinct(list),
    ensures
        forall|k: Seq<char>| #[trigger] by_name(list).contains_key(k) <==> holds_name(list, k),
        forall|i: int|
            0 <= i < list.len() ==> by_name(list).contains_key(#[trigger] list[i].name)
                && by_name(list)[list[i].name] == list[i],
    decreases list.len(),
{
    if list.len() > 0 {
        let d = list.drop_last();
        assert(forall|i: int| 0 <= i < d.len() ==> d[i] == list[i]);
        by_name_of(d);
        assert(by_name(list) == by_name(d).insert(list.last().name, list.last()));
        assert forall|k: Seq<char>| holds_name(list, k) implies #[trigger] by_name(
            list,
        ).contains_key(k) by {
            let i = choose|i: int| 0 <= i < list.len() && list[i].name == k;
            if i < d.len() {
                assert(d[i].name == k);
                assert(holds_name(d, k));
                assert(by_name(d).contains_key(k));
            }
        }
        assert forall|k: Seq<char>| #[trigger] by_name(list).contains_key(k) implies holds_name(
            list,
            k,
        ) by {
            if k == list.last().name {
                assert(list[list.len() - 1].name == k);
            } else {
                assert(by_name(d).contains_key(k));
                let i = choose|i: int| 0 <= i < d.len() && d[i].name == k;
                assert(list[i].name == k);
            }
        }
        assert forall|i: int| 0 <= i < list.len() implies by_name(list).contains_key(
            #[trigger] list[i].name,
        ) && by_name(list)[list[i].name] == list[i] by {
            if i < d.len() {
                assert(d[i] == list[i]);
                assert(list[i].name != list[list.len() - 1].name);
            }
        }
    }
}

/// A tree compared with itself shows no change: every entry is unchanged.
pub proof fn no_diff_to_itself(
    tree: Seq<EntryView>,
    added: Seq<EntryView>,
    removed: Seq<EntryView>,
    unchanged: Seq<EntryView>,
)
    requires
        lists(added, changed(by_name(tree), by_name(tree))),
        lists(removed, gone(by_name(tree), by_name(tree))),
        lists(unchanged, kept(by_name(tree), by_name(tree))),
    ensures
        added.len() == 0,
        removed.len() == 0,
        by_name(unchanged) == by_name(tree),
{
    if added.len() > 0 {
        assert(changed(by_name(tree), by_name(tree)).contains_key(added[0].name));
    }
    if removed.len() > 0 {
        assert(gone(by_name(tree), by_name(tree)).contains_key(removed[0].name));
    }
    lists_by_name(unchanged, kept(by_name(tree), by_name(tree)));
    assert(kept(by_name(tree), by_name(tree)) =~= by_name(tree));
}

/// An entry is listed as unchanged exactly where both trees hold it, name, hash and
/// mode alike.
pub proof fn unchanged_entries_are_identical(
    old: Seq<EntryView>,
    new: Seq<EntryView>,
    unchanged: Seq<EntryView>,
)
    requires
        names_distinct(old),
        names_distinct(new),
        lists(unchanged, kept(by_name(old), by_name(new))),
    ensures
        forall|e: EntryView|
            #[trigger] unchanged.contains(e) <==> old.contains(e) && new.contains(e),
{
    by_name_of(old);
    by_name_of(new);
    let m = kept(by_name(old), by_name(new));
    assert forall|e: EntryView| #[trigger] unchanged.contains(e) implies old.contains(e)
        && new.contains(e) by {
        let i = choose|i: int| 0 <= i < unchanged.len() && unchanged[i] == e;
        assert(m.contains_key(unchanged[i].name));
        by_name_holds(old, e.name);
        by_name_holds(new, e.name);
    }
    assert forall|e: EntryView| old.contains(e) && new.contains(e) implies #[trigger] unchanged.contains(
        e,
    ) by {
        let i = choose|i: int| 0 <= i < old.len() && old[i] == e;
        let j = choose|j: int| 0 <= j < new.len() && new[j] == e;
        assert(by_name(old)[old[i].name] == e);
        assert(by_name(new)[new[j].name] == e);
        assert(m.contains_key(e.name));
        let k = choose|k: int| 0 <= k < unchanged.len() && unchanged[k].name == e.name;
        assert(m[unchanged[k].name] == unchanged[k]);
    }
}

proof fn by_name_holds(list: Seq<EntryView>, name: Seq<char>)
    requires
        by_name(list).contains_key(name),
    ensures
        by_name(list)[name].name == name,
        list.contains(by_name(list)[name]),
    decreases list.len(),
{
    if list.last().name == name {
        assert(list[list.len() - 1] == list.last());
    } else {
        let d = list.drop_last();
        by_name_holds(d, name);
        let i = choose|i: int| 0 <= i < d.len() && d[i] == by_name(d)[name];
        assert(list[i] == d[i]);
    }
}

/// A difference leads from the old tree to the new one: without the removed
/// names, and with the unchanged and the added or modified entries laid over
/// it, the old tree is the new one.
pub proof fn diff_leads_to_new(
    old: Seq<EntryView>,
    new: Seq<EntryView>,
    added: Seq<EntryView>,
    removed: Seq<EntryView>,
    unchanged: Seq<EntryView>,
)
    requires
        lists(added, changed(by_name(old), by_name(new))),
        lists(removed, gone(by_name(old), by_name(new))),
        lists(unchanged, kept(by_name(old), by_name(new))),
    ensures
        by_name(old).remove_keys(by_name(removed).dom()).union_prefer_right(
            by_name(unchanged),
        ).union_prefer_right(by_name(added)) == by_name(new),
        by_name(added).dom().disjoint(by_name(unchanged).dom()),
        by_name(removed).dom().disjoint(by_name(new).dom()),
{
    lists_by_name(added, changed(by_name(old), by_name(new)));
    lists_by_name(removed, gone(by_name(old), by_name(new)));
    lists_by_name(unchanged, kept(by_name(old), by_name(new)));
    assert(by_name(old).remove_keys(by_name(removed).dom()).union_prefer_right(
        by_name(unchanged),
    ).union_prefer_right(by_name(added)) =~= by_name(new));
}

/// The place of a name in a list ordered by name, or where it belongs.
fn find_name(list: &Vec<TreeEntry>, name: &str) -> (r: (usize, bool))
    requires
        names_ascend(entries_view(list@)),
        names_distinct(entries_view(list@)),
    ensures
        r.0 <= list@.len(),
        r.1 ==> r.0 < list@.len() && list@[r.0 as int].name@ == name@,
        !r.1 ==> !holds_name(entries_view(list@), name@),
        forall|k: int| 0 <= k < r.0 ==> text_le(#[trigger] list@[k].name@, name@) && list@[k].name@ != name@,
        !r.1 ==> forall|k: int| r.0 <= k < list@.len() ==> text_le(name@, #[trigger] list@[k].name@),
{
    let ghost view = entries_view(list@);
    let mut i: usize = 0;
    while i < list.len()
        invariant
            i <= list@.len(),
            view == entries_view(list@),
            names_ascend(view),
            names_distinct(view),
            forall|k: int| 0 <= k < i ==> text_le(#[trigger] list@[k].name@, name@) && list@[k].name@ != name@,
        decreases list@.len() - i,
    {
        if str_eq(list[i].name.as_str(), name) {
            return (i, true);
        }
        if !is_text_le(list[i].name.as_str(), name) {
            proof {
                text_le_is_an_order(list@[i as int].name@, name@, name@);
                assert forall|k: int| i <= k < list@.len() implies text_le(
                    name@,
                    #[trigger] list@[k].name@,
                ) by {
                    assert(view[k] == list@[k]@ && view[i as int] == list@[i as int]@);
                    if k > i {
                        assert(text_le(view[i as int].name, view[k].name));
                        text_le_is_an_order(name@, view[i as int].name, view[k].name);
                    }
                }
                if holds_name(view, name@) {
                    let k = choose|k: int| 0 <= k < view.len() && view[k].name == name@;
                    assert(view[k] == list@[k]@);
                    if k > i {
                        assert(text_le(view[i as int].name, view[k].name));
                    } else if k < i {
                        assert(list@[k].name@ != name@);
                    }
                }
            }
            return (i, false);
        }
        i += 1;
    }
    proof {
        if holds_name(view, name@) {
            let k = choose|k: int| 0 <= k < view.len() && view[k].name == name@;
            assert(view[k] == list@[k]@);
        }
    }
    (i, false)
}

/// The entries of a tree in the order of their names, each name once.
fn index_by_name(entries: &[TreeEntry]) -> (r: Vec<TreeEntry>)
    ensures
        lists(entries_view(r@), by_name(entries_view(entries@))),
{
    let ghost whole = entries_view(entries@);
    let mut out: Vec<TreeEntry> = Vec::new();
    let mut i: usize = 0;
    while i < entries.len()
        invariant
            i <= entries@.len(),
            whole == entries_view(entries@),
            lists(entries_view(out@), by_name(whole.take(i as int))),
        decreases entries@.len() - i,
    {
        let ghost before = entries_view(out@);
        let ghost m = by_name(whole.take(i as int));
        let e = entries[i].clone();
        let ghost ev = e@;
        assert(whole.take(i + 1).drop_last() =~= whole.take(i as int));
        assert(whole.take(i + 1).last() == ev);
        let ghost m2 = by_name(whole.take(i + 1));
        assert(m2 == m.insert(ev.name, ev));
        let (at, found) = find_name(&out, e.name.as_str());
        if found {
            out.set(at, e);
            proof {
                let after = entries_view(out@);
                assert(after =~= before.update(at as int, ev));
                assert(before[at as int].name == ev.name);
                assert forall|k: int| 0 <= k < after.len() implies #[trigger] after[k].name
                    == before[k].name by {}
                assert forall|k: int| 0 <= k < after.len() implies m2.contains_key(
                    #[trigger] after[k].name,
                ) && m2[after[k].name] == after[k] by {
                    assert(after[k].name == before[k].name);
                    if k < at {
                        assert(before[k].name != before[at as int].name);
                    } else if k > at {
                        assert(before[at as int].name != before[k].name);
                    }
                }
                assert forall|k: Seq<char>| #[trigger] m2.contains_key(k) implies holds_name(
                    after,
                    k,
                ) by {
                    if k == ev.name {
                        assert(after[at as int].name == k);
                    } else {
                        assert(m.contains_key(k));
                        let j = choose|j: int| 0 <= j < before.len() && before[j].name == k;
                        assert(after[j].name == k);
                    }
                }
            }
        } else {
            out.insert(at, e);
            proof {
                let after = entries_view(out@);
                assert(after =~= before.insert(at as int, ev));
                assert(forall|k: int| 0 <= k < at ==> before[k] == after[k]);
                assert(forall|k: int| at < k < after.len() ==> before[k - 1] == after[k]);
                assert forall|k: int| 0 <= k < after.len() && k != at implies (#[trigger] after[k]).name
                    != ev.name && before.contains(after[k]) by {
                    if k < at {
                        assert(before[k] == after[k]);
                    } else {
                        assert(before[k - 1] == after[k]);
                    }
                }
                assert forall|a: int, b: int| 0 <= a < b < after.len() implies text_le(
                    #[trigger] after[a].name,
                    #[trigger] after[b].name,
                ) && after[a].name != after[b].name by {
                    let x = if a < at { a } else { a - 1 };
                    let y = if b < at { b } else { b - 1 };
                    if a != at && b != at {
                        assert(before[x] == after[a] && before[y] == after[b]);
                        assert(text_le(before[x].name, before[y].name));
                        assert(before[x].name != before[y].name);
                    } else if a == at {
                        assert(before[y] == after[b]);
                    } else {
                        assert(before[x] == after[a]);
                    }
                }
                assert forall|k: int| 0 <= k < after.len() implies m2.contains_key(
                    #[trigger] after[k].name,
                ) && m2[after[k].name] == after[k] by {
                    if k < at {
                        assert(before[k] == after[k]);
                    } else if k > at {
                        assert(before[k - 1] == after[k]);
                    }
                }
                assert forall|k: Seq<char>| #[trigger] m2.contains_key(k) implies holds_name(
                    after,
                    k,
                ) by {
                    if k == ev.name {
                        assert(after[at as int].name == k);
                    } else {
                        assert(m.contains_key(k));
                        let j = choose|j: int| 0 <= j < before.len() && before[j].name == k;
                        if j < at {
                            assert(after[j].name == k);
                        } else {
                            assert(after[j + 1].name == k);
                        }
                    }
                }
            }
        }
        i += 1;
    }
    assert(whole.take(i as int) =~= whole);
    out
}

/// How far a list is filled while the source list is walked: it holds exactly
/// the first `upto` entries of `source` whose name `m` holds.
spec fn filled(
    list: Seq<EntryView>,
    source: Seq<EntryView>,
    upto: int,
    m: Map<Seq<char>, EntryView>,
) -> bool {
    &&& names_ascend(list)
    &&& names_distinct(list)
    &&& forall|i: int|
        0 <= i < list.len() ==> m.contains_key(#[trigger] list[i].name) && m[list[i].name]
            == list[i]
    &&& forall|i: int|
        0 <= i < upto && m.contains_key(#[trigger] source[i].name) ==> holds_name(
            list,
            source[i].name,
        )
    &&& forall|i: int, j: int|
        0 <= i < list.len() && upto <= j < source.len() ==> text_le(
            #[trigger] list[i].name,
            #[trigger] source[j].name,
        ) && list[i].name != source[j].name
}

proof fn filled_step(
    list: Seq<EntryView>,
    source: Seq<EntryView>,
    upto: int,
    m: Map<Seq<char>, EntryView>,
    after: Seq<EntryView>,
)
    requires
        filled(list, source, upto, m),
        names_ascend(source),
        names_distinct(source),
        0 <= upto < source.len(),
        m.contains_key(source[upto].name) ==> m[source[upto].name] == source[upto] && after
            == list.push(source[upto]),
        !m.contains_key(source[upto].name) ==> after == list,
    ensures
        filled(after, source, upto + 1, m),
{
    if m.contains_key(source[upto].name) {
        assert(forall|i: int| 0 <= i < list.len() ==> after[i] == list[i]);
        assert forall|i: int| 0 <= i < upto + 1 && m.contains_key(
            #[trigger] source[i].name,
        ) implies holds_name(after, source[i].name) by {
            if i < upto {
                let k = choose|k: int| 0 <= k < list.len() && list[k].name == source[i].name;
                assert(after[k].name == source[i].name);
            } else {
                assert(after[list.len() as int].name == source[i].name);
            }
        }
        assert forall|a: int, b: int| 0 <= a < b < after.len() implies text_le(
            #[trigger] after[a].name,
            #[trigger] after[b].name,
        ) && after[a].name != after[b].name by {
            if b < list.len() {
                assert(list[a].name != list[b].name);
                assert(text_le(list[a].name, list[b].name));
            } else {
                assert(text_le(list[a].name, source[upto].name));
            }
        }
        assert forall|i: int, j: int| 0 <= i < after.len() && upto + 1 <= j
            < source.len() implies text_le(#[trigger] after[i].name, #[trigger] source[j].name)
            && after[i].name != source[j].name by {
            if i < list.len() {
                assert(text_le(list[i].name, source[j].name));
            } else {
                assert(text_le(source[upto].name, source[j].name));
                assert(source[upto].name != source[j].name);
            }
        }
    }
}

proof fn filled_lists(
    list: Seq<EntryView>,
    source: Seq<EntryView>,
    m: Map<Seq<char>, EntryView>,
    whole: Map<Seq<char>, EntryView>,
)
    requires
        filled(list, source, source.len() as int, m),
        lists(source, whole),
        m.dom().subset_of(whole.dom()),
    ensures
        lists(list, m),
{
    assert forall|k: Seq<char>| #[trigger] m.contains_key(k) implies holds_name(list, k) by {
        assert(whole.contains_key(k));
        let i = choose|i: int| 0 <= i < source.len() && source[i].name == k;
        assert(m.contains_key(source[i].name));
    }
}

/// Compares two trees.
pub fn diff_trees(old: &[TreeEntry], new: &[TreeEntry]) -> (r: TreeDiff)
    ensures
        is_diff(entries_view(old@), entries_view(new@), r),
{
    let ghost om = by_name(entries_view(old@));
    let ghost nm = by_name(entries_view(new@));
    let old_list = index_by_name(old);
    let new_list = index_by_name(new);
    let ghost ov = entries_view(old_list@);
    let ghost nv = entries_view(new_list@);
    let mut added_or_modified: Vec<TreeEntry> = Vec::new();
    let mut removed: Vec<TreeEntry> = Vec::new();
    let mut unchanged: Vec<TreeEntry> = Vec::new();
    let mut i: usize = 0;
    while i < new_list.len()
        invariant
            i <= new_list@.len(),
            ov == entries_view(old_list@),
            nv == entries_view(new_list@),
            lists(ov, om),
            lists(nv, nm),
            filled(entries_view(added_or_modified@), nv, i as int, changed(om, nm)),
            filled(entries_view(unchanged@), nv, i as int, kept(om, nm)),
        decreases new_list@.len() - i,
    {
        let ghost added_before = entries_view(added_or_modified@);
        let ghost unchanged_before = entries_view(unchanged@);
        let ghost name = nv[i as int].name;
        assert(nv[i as int] == new_list@[i as int]@);
        let (at, found) = find_name(&old_list, new_list[i].name.as_str());
        proof {
            assert(nm.contains_key(name) && nm[name] == nv[i as int]);
            if found {
                assert(ov[at as int] == old_list@[at as int]@);
                assert(ov[at as int].name == name);
                assert(om.contains_key(name) && om[name] == ov[at as int]);
            } else {
                assert(!om.contains_key(name));
            }
        }
        if found && str_eq(old_list[at].hash.as_str(), new_list[i].hash.as_str())
            && old_list[at].mode == new_list[i].mode {
            unchanged.push(new_list[i].clone());
            assert(entries_view(unchanged@) =~= unchanged_before.push(nv[i as int]));
            assert(same_in_both(om, nm, name));
        } else {
            added_or_modified.push(new_list[i].clone());
            assert(entries_view(added_or_modified@) =~= added_before.push(nv[i as int]));
            assert(!same_in_both(om, nm, name));
        }
        proof {
            filled_step(
                added_before,
                nv,
                i as int,
                changed(om, nm),
                entries_view(added_or_modified@),
            );
            filled_step(unchanged_before, nv, i as int, kept(om, nm), entries_view(unchanged@));
        }
        i += 1;
    }
    let mut j: usize = 0;
    while j < old_list.len()
        invariant
            j <= old_list@.len(),
            ov == entries_view(old_list@),
            nv == entries_view(new_list@),
            lists(ov, om),
            lists(nv, nm),
            filled(entries_view(removed@), ov, j as int, gone(om, nm)),
        decreases old_list@.len() - j,
    {
        let ghost removed_before = entries_view(removed@);
        let ghost name = ov[j as int].name;
        assert(ov[j as int] == old_list@[j as int]@);
        let (at, found) = find_name(&new_list, old_list[j].name.as_str());
        proof {
            assert(om.contains_key(name) && om[name] == ov[j as int]);
            if found {
                assert(nv[at as int] == new_list@[at as int]@);
                assert(nv[at as int].name == name);
                assert(nm.contains_key(name));
            } else {
                assert(!nm.contains_key(name));
            }
        }
        if !found {
            removed.push(old_list[j].clone());
            assert(entries_view(removed@) =~= removed_before.push(ov[j as int]));
        }
        proof {
            filled_step(removed_before, ov, j as int, gone(om, nm), entries_view(removed@));
        }
        j += 1;
    }
    proof {
        filled_lists(entries_view(added_or_modified@), nv, changed(om, nm), nm);
        filled_lists(entries_view(unchanged@), nv, kept(om, nm), nm);
        filled_lists(entries_view(removed@), ov, gone(om, nm), om);
    }
    TreeDiff { added_or_modified, removed, unchanged }
}

impl TreeDiff {
    /// Number of additions, modifications and removals.
    pub open spec fn changes(self) -> nat {
        self.added_or_modified@.len() + self.removed@.len()
    }

    /// Whether nothing was added, modified or removed.
    pub open spec fn no_changes(self) -> bool {
        self.added_or_modified@.len() == 0 && self.removed@.len() == 0
    }

    /// Whether nothing was added, modified or removed.
    pub fn is_empty(&self) -> (r: bool)
        ensures
            r == self.no_changes(),
    {
        self.added_or_modified.len() == 0 && self.removed.len() == 0
    }

    /// Number of additions, modifications and removals.
    pub fn change_count(&self) -> (r: usize)
        requires
            self.changes() <= usize::MAX,
        ensures
            r == self.changes(),
    {
        self.added_or_modified.len() + self.removed.len()
    }
}

proof fn named_by(list: Seq<EntryView>, name: Seq<char>)
    ensures
        by_name(list).contains_key(name) <==> holds_name(list, name),
    decreases list.len(),
{
    if list.len() > 0 {
        let d = list.drop_last();
        named_by(d, name);
        if holds_name(d, name) {
            let i = choose|i: int| 0 <= i < d.len() && d[i].name == name;
            assert(list[i].name == name);
        }
        if holds_name(list, name) {
            let i = choose|i: int| 0 <= i < list.len() && list[i].name == name;
            if i < d.len() {
                assert(d[i].name == name);
            }
        }
        assert(list[list.len() - 1] == list.last());
    }
}

/// A list has as many names as entries, where no name occurs twice.
proof fn names_counted(list: Seq<EntryView>)
    ensures
        names_of(list).finite(),
        names_distinct(list) ==> names_of(list).len() == list.len(),
    decreases list.len(),
{
    if list.len() == 0 {
        assert(names_of(list) =~= Set::empty());
    } else {
        let d = list.drop_last();
        let last = list.last().name;
        names_counted(d);
        assert forall|k: Seq<char>| #[trigger] names_of(list).contains(k) == names_of(d).insert(
            last,
        ).contains(k) by {
            if holds_name(d, k) {
                let i = choose|i: int| 0 <= i < d.len() && d[i].name == k;
                assert(list[i].name == k);
            }
            if holds_name(list, k) {
                let i = choose|i: int| 0 <= i < list.len() && list[i].name == k;
                if i < d.len() {
                    assert(d[i].name == k);
                }
            }
            assert(list[list.len() - 1].name == last);
        }
        assert(names_of(list) =~= names_of(d).insert(last));
        if names_distinct(list) {
            assert(forall|i: int| 0 <= i < d.len() ==> d[i] == list[i]);
            assert(names_distinct(d));
            if holds_name(d, last) {
                let i = choose|i: int| 0 <= i < d.len() && d[i].name == last;
                assert(list[i].name != list[list.len() - 1].name);
            }
        }
    }
}

proof fn listed_names(list: Seq<EntryView>, m: Map<Seq<char>, EntryView>)
    requires
        lists(list, m),
    ensures
        names_of(list) == m.dom(),
        m.dom().finite(),
        m.dom().len() == list.len(),
{
    names_counted(list);
    assert forall|k: Seq<char>| #[trigger] names_of(list).contains(k) implies m.contains_key(k) by {
        let i = choose|i: int| 0 <= i < list.len() && list[i].name == k;
        assert(m.contains_key(list[i].name));
    }
    assert(names_of(list) =~= m.dom());
}

proof fn tree_names(tree: Seq<EntryView>)
    ensures
        names_of(tree) == by_name(tree).dom(),
        names_of(tree).finite(),
{
    names_counted(tree);
    assert forall|k: Seq<char>| #[trigger] names_of(tree).contains(k) == by_name(
        tree,
    ).contains_key(k) by {
        named_by(tree, k);
    }
    assert(names_of(tree) =~= by_name(tree).dom());
}

/// Changes and unchanged entries together are as many as the names that occur in
/// the two trees: a modified name counts once. Nothing has changed exactly where
/// there are no changes.
pub proof fn every_name_is_counted_once(old: Seq<EntryView>, new: Seq<EntryView>, d: TreeDiff)
    requires
        is_diff(old, new, d),
    ensures
        names_of(old).union(names_of(new)).finite(),
        d.changes() + d.unchanged@.len() == names_of(old).union(names_of(new)).len(),
        d.changes() == 0 <==> d.no_changes(),
{
    let om = by_name(old);
    let nm = by_name(new);
    listed_names(entries_view(d.added_or_modified@), changed(om, nm));
    listed_names(entries_view(d.removed@), gone(om, nm));
    listed_names(entries_view(d.unchanged@), kept(om, nm));
    tree_names(old);
    tree_names(new);
    let a = changed(om, nm).dom();
    let b = gone(om, nm).dom();
    let c = kept(om, nm).dom();
    vstd::set_lib::lemma_set_disjoint_lens(a, b);
    vstd::set_lib::lemma_set_disjoint_lens(a + b, c);
    assert(a + b + c =~= names_of(old).union(names_of(new)));
}

/// The difference the other way round: what one way was added is removed, what was
/// removed is added, what stayed stays, and there are as many changes.
pub proof fn diff_is_symmetric(
    old: Seq<EntryView>,
    new: Seq<EntryView>,
    there: TreeDiff,
    back: TreeDiff,
)
    requires
        is_diff(old, new, there),
        is_diff(new, old, back),
    ensures
        names_of(entries_view(back.removed@)) == names_of(
            entries_view(there.added_or_modified@),
        ).difference(names_of(old)),
        names_of(entries_view(there.removed@)) == names_of(
            entries_view(back.added_or_modified@),
        ).difference(names_of(new)),
        names_of(entries_view(there.unchanged@)) == names_of(entries_view(back.unchanged@)),
        there.changes() == back.changes(),
{
    let om = by_name(old);
    let nm = by_name(new);
    listed_names(entries_view(there.added_or_modified@), changed(om, nm));
    listed_names(entries_view(there.removed@), gone(om, nm));
    listed_names(entries_view(there.unchanged@), kept(om, nm));
    listed_names(entries_view(back.added_or_modified@), changed(nm, om));
    listed_names(entries_view(back.removed@), gone(nm, om));
    listed_names(entries_view(back.unchanged@), kept(nm, om));
    tree_names(old);
    tree_names(new);
    assert(gone(nm, om).dom() =~= changed(om, nm).dom().difference(om.dom()));
    assert(gone(om, nm).dom() =~= changed(nm, om).dom().difference(nm.dom()));
    assert(kept(om, nm).dom() =~= kept(nm, om).dom());
    every_name_is_counted_once(old, new, there);
    every_name_is_counted_once(new, old, back);
    assert(names_of(old).union(names_of(new)) =~= names_of(new).union(names_of(old)));
}

} // verus!
