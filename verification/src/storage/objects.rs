//! Stored objects and their content hashes.
use vstd::prelude::*;
use vstd::string::*;
use vstd::multiset::*;
use vstd::utf8::*;
use crate::outside::clock::commit_time;
use crate::outside::digest::{hex_encode, hex_text, sha256, sha256_of};
use crate::text::{
    cat3, cat4, cat5, decimal, decimal_text, is_text_le, signed_decimal, text_le,
    text_le_is_an_order,
};
use crate::traits::{entries_view, EntryView, ObjectMode, TreeEntry};
use crate::types::{texts, Timestamp};

verus! {

/// Arbitrary bytes.
#[derive(Debug, PartialEq, Eq)]
pub struct Blob {
    /// The content hash.
    pub hash: String,
    /// The raw data.
    pub data: Vec<u8>,
}

/// A directory snapshot: its entries in the order of their names.
#[derive(Debug, PartialEq, Eq)]
pub struct Tree {
    /// The tree hash.
    pub hash: String,
    /// The entries of the directory, sorted by name.
    pub entries: Vec<TreeEntry>,
}

/// A pointer to a tree with metadata.
#[derive(Debug, PartialEq, Eq)]
pub struct Commit {
    /// The commit hash.
    pub hash: String,
    /// The tree this commit points to.
    pub tree_hash: String,
    /// Parent commits, empty for the first.
    pub parent_hashes: Vec<String>,
    /// Author identifier.
    pub author: String,
    /// When the commit was made.
    pub timestamp: Timestamp,
    /// Human-readable message.
    pub message: String,
}

/// A named reference to a commit.
#[derive(Debug, PartialEq, Eq)]
pub struct Tag {
    /// The tag hash.
    pub hash: String,
    /// The commit this tag points to.
    pub commit_hash: String,
    /// Tag name.
    pub name: String,
    /// Optional annotation.
    pub message: Option<String>,
}

/// Any stored object.
#[derive(Debug, PartialEq, Eq)]
pub enum Object {
    /// A blob.
    Blob(Blob),
    /// A tree.
    Tree(Tree),
    /// A commit.
    Commit(Commit),
    /// A tag.
    Tag(Tag),
}

/// What an [`Object`] says.
pub enum ObjectView {
    Blob { hash: Seq<char>, data: Seq<u8> },
    Tree { hash: Seq<char>, entries: Seq<EntryView> },
    Commit {
        hash: Seq<char>,
        tree_hash: Seq<char>,
        parent_hashes: Seq<Seq<char>>,
        author: Seq<char>,
        timestamp: Timestamp,
        message: Seq<char>,
    },
    Tag {
        hash: Seq<char>,
        commit_hash: Seq<char>,
        name: Seq<char>,
        annotation: Option<Seq<char>>,
    },
}

impl View for Commit {
    type V = ObjectView;

    open spec fn view(&self) -> ObjectView {
        ObjectView::Commit {
            hash: self.hash@,
            tree_hash: self.tree_hash@,
            parent_hashes: texts(self.parent_hashes@),
            author: self.author@,
            timestamp: self.timestamp,
            message: self.message@,
        }
    }
}

impl View for Tag {
    type V = ObjectView;

    open spec fn view(&self) -> ObjectView {
        ObjectView::Tag {
            hash: self.hash@,
            commit_hash: self.commit_hash@,
            name: self.name@,
            annotation: match self.message {
                Some(m) => Some(m@),
                None => None,
            },
        }
    }
}

impl View for Object {
    type V = ObjectView;

    open spec fn view(&self) -> ObjectView {
        match self {
            Object::Blob(b) => ObjectView::Blob { hash: b.hash@, data: b.data@ },
            Object::Tree(t) => ObjectView::Tree {
                hash: t.hash@,
                entries: entries_view(t.entries@),
            },
            Object::Commit(c) => c@,
            Object::Tag(t) => t@,
        }
    }
}

/// The hash that an object carries.
pub open spec fn object_hash(o: ObjectView) -> Seq<char> {
    match o {
        ObjectView::Blob { hash, .. } => hash,
        ObjectView::Tree { hash, .. } => hash,
        ObjectView::Commit { hash, .. } => hash,
        ObjectView::Tag { hash, .. } => hash,
    }
}

impl Object {
    /// The hash this object carries.
    pub fn hash(&self) -> (r: &String)
        ensures
            r@ == object_hash(self@),
    {
        match self {
            Object::Blob(b) => &b.hash,
            Object::Tree(t) => &t.hash,
            Object::Commit(c) => &c.hash,
            Object::Tag(t) => &t.hash,
        }
    }
}

/// The hash of a body of a kind: `"<kind> <length>\0<body>"` digested.
pub open spec fn content_hash(kind: Seq<char>, body: Seq<u8>) -> Seq<char> {
    hex_text(sha256(encode_utf8(kind + " "@ + decimal(body.len()) + "\0"@) + body))
}

fn hash_content(kind: &str, body: &[u8]) -> (r: String)
    ensures
        r@ == content_hash(kind@, body@),
        r@.len() == 64,
        is_ascii_chars(r@),
{
    let header = cat4(kind, " ", decimal_text(body.len() as u64).as_str(), "\0");
    let digest = sha256_of(header.as_str().as_bytes(), body);
    proof {
        content_hash_is_ascii(kind@, body@);
    }
    hex_encode(&digest)
}

/// A content hash is 64 lower-case hexadecimal digits.
pub proof fn content_hash_is_ascii(kind: Seq<char>, body: Seq<u8>)
    requires
        sha256(encode_utf8(kind + " "@ + decimal(body.len()) + "\0"@) + body).len() == 32,
    ensures
        content_hash(kind, body).len() == 64,
        is_ascii_chars(content_hash(kind, body)),
{
}

/// The content hash of a blob.
pub open spec fn blob_hash(data: Seq<u8>) -> Seq<char> {
    content_hash("blob"@, data)
}

/// The content hash of a blob: `"blob <len>\0<data>"` digested.
pub fn hash_blob(data: &[u8]) -> (r: String)
    ensures
        r@ == blob_hash(data@),
        r@.len() == 64,
        is_ascii_chars(r@),
{
    hash_content("blob", data)
}

/// The notation of an object mode.
pub open spec fn mode_text(mode: ObjectMode) -> Seq<char> {
    match mode {
        ObjectMode::Blob => "100644"@,
        ObjectMode::Executable => "100755"@,
        ObjectMode::Tree => "040000"@,
    }
}

/// The line of one tree entry.
pub open spec fn entry_line(e: EntryView) -> Seq<char> {
    mode_text(e.mode) + " "@ + e.hash + " "@ + e.name + "\n"@
}

/// The lines of tree entries, in order.
pub open spec fn entry_lines(s: Seq<EntryView>) -> Seq<char>
    decreases s.len(),
{
    if s.len() == 0 {
        Seq::empty()
    } else {
        entry_lines(s.drop_last()) + entry_line(s.last())
    }
}

/// `e` placed behind every leading entry, up to the last whose name does not
/// come after its own.
pub open spec fn place_entry(s: Seq<EntryView>, e: EntryView) -> Seq<EntryView>
    decreases s.len(),
{
    if s.len() == 0 || text_le(s.last().name, e.name) {
        s.push(e)
    } else {
        place_entry(s.drop_last(), e).push(s.last())
    }
}

/// The entries in the order of their names; entries of one name keep their
/// order.
pub open spec fn sort_entries(s: Seq<EntryView>) -> Seq<EntryView>
    decreases s.len(),
{
    if s.len() == 0 {
        Seq::empty()
    } else {
        place_entry(sort_entries(s.drop_last()), s.last())
    }
}

/// The content hash of a tree: its lines, sorted by name, digested as `tree`.
pub open spec fn tree_hash(entries: Seq<EntryView>) -> Seq<char> {
    content_hash("tree"@, encode_utf8(entry_lines(sort_entries(entries))))
}

/// Whether names do not descend along a list.
pub open spec fn names_ascend(s: Seq<EntryView>) -> bool {
    forall|i: int, j: int| 0 <= i < j < s.len() ==> text_le(#[trigger] s[i].name, #[trigger] s[j].name)
}

/// Whether no name occurs twice.
pub open spec fn names_distinct(s: Seq<EntryView>) -> bool {
    forall|i: int, j: int| 0 <= i < j < s.len() ==> #[trigger] s[i].name != #[trigger] s[j].name
}

proof fn place_entry_keeps(s: Seq<EntryView>, e: EntryView)
    ensures
        place_entry(s, e).to_multiset() == s.to_multiset().insert(e),
        place_entry(s, e).len() == s.len() + 1,
        names_ascend(s) ==> names_ascend(place_entry(s, e)),
        forall|i: int| 0 <= i < s.len() + 1 ==> #[trigger] place_entry(s, e)[i] == e || s.contains(place_entry(s, e)[i]),
    decreases s.len(),
{
    broadcast use vstd::seq_lib::group_to_multiset_ensures;

    if s.len() == 0 || text_le(s.last().name, e.name) {
        let t = s.push(e);
        if names_ascend(s) {
            assert forall|i: int, j: int| 0 <= i < j < t.len() implies text_le(
                #[trigger] t[i].name,
                #[trigger] t[j].name,
            ) by {
                if j == s.len() && i < s.len() - 1 {
                    assert(text_le(s[i].name, s.last().name));
                    text_le_is_an_order(s[i].name, s.last().name, e.name);
                }
            }
        }
        assert forall|i: int| 0 <= i < t.len() implies #[trigger] t[i] == e || s.contains(t[i]) by {
            if i < s.len() {
                assert(s[i] == t[i]);
            }
        }
    } else {
        let d = s.drop_last();
        let u = place_entry(d, e);
        let t = u.push(s.last());
        place_entry_keeps(d, e);
        assert(s =~= d.push(s.last()));
        assert(t.to_multiset() =~= s.to_multiset().insert(e));
        text_le_is_an_order(s.last().name, e.name, e.name);
        if names_ascend(s) {
            assert(names_ascend(d)) by {
                assert forall|i: int, j: int| 0 <= i < j < d.len() implies text_le(
                    #[trigger] d[i].name,
                    #[trigger] d[j].name,
                ) by {
                    assert(d[i] == s[i] && d[j] == s[j]);
                }
            }
            assert forall|i: int, j: int| 0 <= i < j < t.len() implies text_le(
                #[trigger] t[i].name,
                #[trigger] t[j].name,
            ) by {
                if j == u.len() {
                    assert(t[i] == u[i]);
                    if u[i] != e {
                        let k = choose|k: int| 0 <= k < d.len() && d[k] == u[i];
                        assert(text_le(s[k].name, s[s.len() - 1].name));
                    }
                } else {
                    assert(t[i] == u[i] && t[j] == u[j]);
                }
            }
        }
        assert forall|i: int| 0 <= i < t.len() implies #[trigger] t[i] == e || s.contains(t[i]) by {
            if i < u.len() {
                assert(t[i] == u[i]);
                if u[i] != e {
                    let k = choose|k: int| 0 <= k < d.len() && d[k] == u[i];
                    assert(s[k] == t[i]);
                }
            } else {
                assert(s[s.len() - 1] == t[i]);
            }
        }
    }
}

/// Sorting keeps the entries and puts their names in order.
pub proof fn sort_entries_sorts(s: Seq<EntryView>)
    ensures
        sort_entries(s).to_multiset() == s.to_multiset(),
        sort_entries(s).len() == s.len(),
        names_ascend(sort_entries(s)),
    decreases s.len(),
{
    broadcast use vstd::seq_lib::group_to_multiset_ensures;

    if s.len() > 0 {
        sort_entries_sorts(s.drop_last());
        place_entry_keeps(sort_entries(s.drop_last()), s.last());
        assert(s =~= s.drop_last().push(s.last()));
    } else {
        assert(s =~= Seq::<EntryView>::empty());
    }
}

/// Entries that are in order already stay as they are.
pub proof fn sorted_entries_stay(s: Seq<EntryView>)
    requires
        names_ascend(s),
    ensures
        sort_entries(s) == s,
    decreases s.len(),
{
    if s.len() > 0 {
        let d = s.drop_last();
        assert forall|i: int, j: int| 0 <= i < j < d.len() implies text_le(
            #[trigger] d[i].name,
            #[trigger] d[j].name,
        ) by {
            assert(d[i] == s[i] && d[j] == s[j]);
        }
        sorted_entries_stay(d);
        if d.len() > 0 {
            assert(text_le(s[s.len() - 2].name, s[s.len() - 1].name));
        }
        assert(d.push(s.last()) =~= s);
    } else {
        assert(sort_entries(s) =~= s);
    }
}

/// A tree's hash is that of its sorted entries.
pub proof fn tree_hash_of_sorted(s: Seq<EntryView>)
    ensures
        tree_hash(sort_entries(s)) == tree_hash(s),
{
    sort_entries_sorts(s);
    sorted_entries_stay(sort_entries(s));
}

proof fn distinct_from_multiset(s: Seq<EntryView>, t: Seq<EntryView>)
    requires
        s.to_multiset() == t.to_multiset(),
        names_distinct(s),
    ensures
        names_distinct(t),
{
    broadcast use vstd::seq_lib::group_to_multiset_ensures;

    assert(s.len() == t.len()) by {
        assert(s.to_multiset().len() == s.len());
        assert(t.to_multiset().len() == t.len());
    }
    assert forall|i: int, j: int| 0 <= i < j < t.len() implies #[trigger] t[i].name != #[trigger] t[j].name by {
        if t[i].name == t[j].name {
            assert(t.contains(t[i]) && t.contains(t[j]));
            assert(s.to_multiset().count(t[i]) > 0 && s.to_multiset().count(t[j]) > 0);
            let a = choose|a: int| 0 <= a < s.len() && s[a] == t[i];
            let b = choose|b: int| 0 <= b < s.len() && s[b] == t[j];
            assert(s[a].name == s[b].name);
            assert(a == b) by {
                if a < b {
                    assert(s[a].name != s[b].name);
                } else if b < a {
                    assert(s[b].name != s[a].name);
                }
            }
            assert(t[i] == t[j]);
            let u = t.remove(j);
            assert(u[i] == t[i]);
            assert(t =~= u.insert(j, t[j]));
            assert(t.to_multiset() == u.to_multiset().insert(t[j]));
            assert(u.contains(t[i]));
            assert(t.to_multiset().count(t[i]) >= 2);
            let v = s.remove(a);
            assert(s =~= v.insert(a, s[a]));
            assert(s.to_multiset() == v.to_multiset().insert(s[a]));
            assert(v.to_multiset().count(s[a]) > 0);
            assert(v.contains(s[a]));
            let c = choose|c: int| 0 <= c < v.len() && v[c] == s[a];
            if c < a {
                assert(s[c].name != s[a].name);
            } else {
                assert(s[a].name != s[c + 1].name);
            }
        }
    }
}

proof fn ascending_unique(s: Seq<EntryView>, t: Seq<EntryView>)
    requires
        s.to_multiset() == t.to_multiset(),
        names_ascend(s),
        names_ascend(t),
        names_distinct(s),
        names_distinct(t),
    ensures
        s == t,
    decreases s.len(),
{
    broadcast use vstd::seq_lib::group_to_multiset_ensures;

    assert(s.to_multiset().len() == s.len());
    assert(t.to_multiset().len() == t.len());
    if s.len() == 0 {
        assert(s =~= t);
    } else {
        let n = s.len() - 1;
        assert(s.contains(s[n]) && t.contains(t[n]));
        assert(t.to_multiset().count(s[n]) > 0);
        assert(s.to_multiset().count(t[n]) > 0);
        let a = choose|a: int| 0 <= a < t.len() && t[a] == s[n];
        let b = choose|b: int| 0 <= b < s.len() && s[b] == t[n];
        if a != n {
            assert(text_le(t[a].name, t[n].name));
            assert(b != n) by {
                if b == n {
                    assert(t[a].name != t[n].name);
                }
            }
            assert(text_le(s[b].name, s[n].name));
            text_le_is_an_order(t[a].name, t[n].name, t[n].name);
            assert(t[a].name != t[n].name);
        }
        assert(s[n] == t[n]);
        let (p, q) = (s.drop_last(), t.drop_last());
        assert(s =~= p.push(s[n]));
        assert(t =~= q.push(t[n]));
        assert(p.to_multiset() =~= q.to_multiset()) by {
            assert(p.to_multiset().insert(s[n]) == q.to_multiset().insert(s[n]));
            assert forall|x: EntryView| p.to_multiset().count(x) == q.to_multiset().count(x) by {
                assert(p.to_multiset().insert(s[n]).count(x) == q.to_multiset().insert(s[n]).count(
                    x,
                ));
            }
        }
        assert(names_ascend(p) && names_ascend(q) && names_distinct(p) && names_distinct(q)) by {
            assert(forall|i: int| 0 <= i < n ==> p[i] == s[i] && q[i] == t[i]);
        }
        ascending_unique(p, q);
        assert(s =~= t);
    }
}

/// Trees with the same entries have the same hash, in whatever order the
/// entries are given, as long as no name occurs twice.
pub proof fn tree_hash_ignores_order(s: Seq<EntryView>, t: Seq<EntryView>)
    requires
        s.to_multiset() == t.to_multiset(),
        names_distinct(s),
    ensures
        tree_hash(s) == tree_hash(t),
{
    sort_entries_sorts(s);
    sort_entries_sorts(t);
    distinct_from_multiset(s, sort_entries(s));
    distinct_from_multiset(s, sort_entries(t));
    ascending_unique(sort_entries(s), sort_entries(t));
}

fn place(list: &mut Vec<TreeEntry>, e: TreeEntry)
    ensures
        entries_view(final(list)@) == place_entry(entries_view(old(list)@), e@),
{
    let ghost whole = entries_view(list@);
    let mut i: usize = list.len();
    assert(whole.take(i as int) =~= whole);
    assert(whole.skip(i as int) =~= Seq::<EntryView>::empty());
    assert(place_entry(whole, e@) =~= place_entry(whole.take(i as int), e@) + whole.skip(i as int));
    while i > 0 && !is_text_le(list[i - 1].name.as_str(), e.name.as_str())
        invariant
            i <= list@.len(),
            whole == entries_view(list@),
            place_entry(whole, e@) == place_entry(whole.take(i as int), e@) + whole.skip(i as int),
        decreases i,
    {
        assert(whole.take(i as int).drop_last() =~= whole.take(i - 1));
        assert(whole.take(i as int).last() == whole[i - 1]);
        assert(place_entry(whole.take(i - 1), e@).push(whole[i - 1]) + whole.skip(i as int)
            =~= place_entry(whole.take(i - 1), e@) + whole.skip(i - 1));
        i -= 1;
    }
    proof {
        if i > 0 {
            assert(whole.take(i as int).last() == whole[i - 1]);
        }
    }
    assert(place_entry(whole.take(i as int), e@) == whole.take(i as int).push(e@));
    list.insert(i, e);
    assert(entries_view(list@) =~= whole.take(i as int).push(e@) + whole.skip(i as int));
}

/// A copy of the entries in the order of their names.
pub fn sorted_copy(entries: &[TreeEntry]) -> (r: Vec<TreeEntry>)
    ensures
        entries_view(r@) == sort_entries(entries_view(entries@)),
{
    let mut out: Vec<TreeEntry> = Vec::new();
    let ghost whole = entries_view(entries@);
    let mut i: usize = 0;
    assert(entries_view(out@) =~= sort_entries(whole.take(0)));
    while i < entries.len()
        invariant
            i <= entries@.len(),
            whole == entries_view(entries@),
            entries_view(out@) == sort_entries(whole.take(i as int)),
        decreases entries@.len() - i,
    {
        assert(whole.take(i + 1).drop_last() =~= whole.take(i as int));
        assert(whole.take(i + 1).last() == entries@[i as int]@);
        place(&mut out, entries[i].clone());
        i += 1;
    }
    assert(whole.take(i as int) =~= whole);
    out
}

/// The content hash of a tree: one line per entry, sorted by name.
pub fn hash_tree(entries: &[TreeEntry]) -> (r: String)
    ensures
        r@ == tree_hash(entries_view(entries@)),
        r@.len() == 64,
        is_ascii_chars(r@),
{
    let sorted = sorted_copy(entries);
    let ghost view = entries_view(sorted@);
    let mut content = String::new();
    let mut i: usize = 0;
    assert(content@ =~= entry_lines(view.take(0)));
    while i < sorted.len()
        invariant
            i <= sorted@.len(),
            view == entries_view(sorted@),
            content@ == entry_lines(view.take(i as int)),
        decreases sorted@.len() - i,
    {
        let mode = match sorted[i].mode {
            ObjectMode::Blob => "100644",
            ObjectMode::Executable => "100755",
            ObjectMode::Tree => "040000",
        };
        let mut line = cat5(mode, " ", sorted[i].hash.as_str(), " ", sorted[i].name.as_str());
        line.append("\n");
        assert(view.take(i + 1).drop_last() =~= view.take(i as int));
        assert(view.take(i + 1).last() == sorted@[i as int]@);
        content.append(line.as_str());
        i += 1;
    }
    assert(view.take(i as int) =~= view);
    hash_content("tree", content.as_str().as_bytes())
}

/// The parent lines of a commit.
pub open spec fn parent_lines(parents: Seq<Seq<char>>) -> Seq<char>
    decreases parents.len(),
{
    if parents.len() == 0 {
        Seq::empty()
    } else {
        parent_lines(parents.drop_last()) + "parent "@ + parents.last() + "\n"@
    }
}

/// The text of a commit.
pub open spec fn commit_text(
    tree: Seq<char>,
    parents: Seq<Seq<char>>,
    author: Seq<char>,
    at: Timestamp,
    message: Seq<char>,
) -> Seq<char> {
    let time = signed_decimal(at.secs as int) + " +0000"@;
    "tree "@ + tree + "\n"@ + parent_lines(parents) + "author "@ + author + " "@ + time + "\n"@
        + "committer "@ + author + " "@ + time + "\n"@ + "\n"@ + message + "\n"@
}

/// The content hash of a commit.
pub open spec fn commit_hash(
    tree: Seq<char>,
    parents: Seq<Seq<char>>,
    author: Seq<char>,
    at: Timestamp,
    message: Seq<char>,
) -> Seq<char> {
    content_hash("commit"@, encode_utf8(commit_text(tree, parents, author, at, message)))
}

/// The content hash of a commit.
pub fn hash_commit(
    tree_hash: &str,
    parent_hashes: &[String],
    author: &str,
    timestamp: &Timestamp,
    message: &str,
) -> (r: String)
    requires
        timestamp.valid(),
    ensures
        r@ == commit_hash(tree_hash@, texts(parent_hashes@), author@, *timestamp, message@),
        r@.len() == 64,
        is_ascii_chars(r@),
{
    let mut content = cat3("tree ", tree_hash, "\n");
    let ghost start = content@;
    let ghost parents = texts(parent_hashes@);
    let mut i: usize = 0;
    assert(content@ =~= start + parent_lines(parents.take(0)));
    while i < parent_hashes.len()
        invariant
            i <= parent_hashes@.len(),
            parents == texts(parent_hashes@),
            content@ == start + parent_lines(parents.take(i as int)),
        decreases parent_hashes@.len() - i,
    {
        assert(parents.take(i + 1).drop_last() =~= parents.take(i as int));
        content.append("parent ");
        content.append(parent_hashes[i].as_str());
        content.append("\n");
        assert(content@ =~= start + parent_lines(parents.take(i + 1)));
        i += 1;
    }
    assert(parents.take(i as int) =~= parents);
    let time = commit_time(*timestamp);
    content.append("author ");
    content.append(author);
    content.append(" ");
    content.append(time.as_str());
    content.append("\n");
    content.append("committer ");
    content.append(author);
    content.append(" ");
    content.append(time.as_str());
    content.append("\n");
    content.append("\n");
    content.append(message);
    content.append("\n");
    assert(content@ =~= commit_text(tree_hash@, parents, author@, *timestamp, message@));
    hash_content("commit", content.as_str().as_bytes())
}

/// The hash of what an object holds. A tag's is that of its serialized form with
/// an empty hash, which is `form`; the other objects' do not depend on `form`.
pub open spec fn computed_hash(o: ObjectView, form: Seq<u8>) -> Seq<char> {
    match o {
        ObjectView::Blob { data, .. } => blob_hash(data),
        ObjectView::Tree { entries, .. } => tree_hash(entries),
        ObjectView::Commit { tree_hash, parent_hashes, author, timestamp, message, .. } =>
        commit_hash(tree_hash, parent_hashes, author, timestamp, message),
        ObjectView::Tag { .. } => blob_hash(form),
    }
}

/// Whether the calendar holds the time of a commit.
pub open spec fn object_valid(o: ObjectView) -> bool {
    match o {
        ObjectView::Commit { timestamp, .. } => timestamp.valid(),
        _ => true,
    }
}

impl Commit {
    /// The hash of what this commit holds.
    pub fn computed_hash(&self) -> (r: String)
        requires
            self.timestamp.valid(),
        ensures
            r@ == computed_hash(self@, Seq::empty()),
    {
        hash_commit(
            self.tree_hash.as_str(),
            self.parent_hashes.as_slice(),
            self.author.as_str(),
            &self.timestamp,
            self.message.as_str(),
        )
    }
}

} // verus!
