//! The files of a workspace.
use vstd::prelude::*;
use vstd::string::*;
use crate::text::{cat3, is_text_le, str_eq, text_le, text_le_is_an_order};
use crate::types::texts;

verus! {

broadcast use vstd::seq_lib::group_to_multiset_ensures;

/// No directory is read once this many files were found.
pub const MAX_FILES: usize = 200;

/// How many directories deep the workspace is read.
pub const MAX_DEPTH: usize = 3;

/// A workspace: its root and the files in it.
#[derive(Debug, PartialEq, Eq)]
pub struct WorkspaceInfo {
    /// The root directory.
    pub root: String,
    /// The files, relative to the root, in order.
    pub files: Vec<String>,
}

/// What a directory holds.
#[derive(Debug, PartialEq, Eq)]
pub enum DirEntry {
    /// A file of this name.
    File(String),
    /// A directory of this name.
    Dir(String),
}

/// What a [`DirEntry`] says.
pub enum DirEntryView {
    File(Seq<char>),
    Dir(Seq<char>),
}

impl View for DirEntry {
    type V = DirEntryView;

    open spec fn view(&self) -> DirEntryView {
        match self {
            DirEntry::File(n) => DirEntryView::File(n@),
            DirEntry::Dir(n) => DirEntryView::Dir(n@),
        }
    }
}

/// What entries say.
pub open spec fn dir_view(v: Seq<DirEntry>) -> Seq<DirEntryView> {
    Seq::new(v.len(), |i: int| v[i]@)
}

/// The entries of every directory, by its path relative to the root.
pub type Tree = Map<Seq<char>, Seq<DirEntryView>>;

/// Whether an entry is left out by its name.
pub open spec fn left_out(name: Seq<char>) -> bool {
    name == ".git"@ || name == "target"@ || name == "node_modules"@
}

/// The path of an entry of a directory.
pub open spec fn within(dir: Seq<char>, name: Seq<char>) -> Seq<char> {
    if dir.len() == 0 {
        name
    } else {
        dir + "/"@ + name
    }
}

/// The files found once a directory was read, after those in `out`.
pub open spec fn walked(tree: Tree, dir: Seq<char>, depth: nat, out: Seq<Seq<char>>) -> Seq<Seq<char>>
    decreases MAX_DEPTH + 2 - depth, 1int, 0nat,
{
    if depth > MAX_DEPTH || out.len() >= MAX_FILES {
        out
    } else {
        walked_entries(tree, dir, depth, tree[dir], out)
    }
}

/// The files found once entries of a directory were read, after those in `out`.
pub open spec fn walked_entries(
    tree: Tree,
    dir: Seq<char>,
    depth: nat,
    entries: Seq<DirEntryView>,
    out: Seq<Seq<char>>,
) -> Seq<Seq<char>>
    decreases MAX_DEPTH + 2 - depth, 0int, entries.len(),
{
    if depth > MAX_DEPTH || entries.len() == 0 {
        out
    } else {
        let next = match entries[0] {
            DirEntryView::File(n) => if left_out(n) {
                out
            } else {
                out.push(within(dir, n))
            },
            DirEntryView::Dir(n) => if left_out(n) {
                out
            } else {
                walked(tree, within(dir, n), depth + 1, out)
            },
        };
        walked_entries(tree, dir, depth, entries.drop_first(), next)
    }
}

/// A directory whose entries are being gone through.
#[derive(Debug, PartialEq, Eq)]
struct Frame {
    dir: String,
    depth: usize,
    entries: Vec<DirEntry>,
    next: usize,
}

impl Frame {
    spec fn wf(self) -> bool {
        self.next <= self.entries@.len() && self.depth <= MAX_DEPTH
    }

    spec fn rest(self) -> Seq<DirEntryView> {
        dir_view(self.entries@).skip(self.next as int)
    }
}

/// A walk through a workspace.
#[derive(Debug, PartialEq, Eq)]
pub struct Walk {
    files: Vec<String>,
    frames: Vec<Frame>,
    pending: Option<(String, usize)>,
}

/// What a walk needs next.
#[derive(Debug, PartialEq, Eq)]
pub enum WalkStep {
    /// The entries of this directory, relative to the root.
    Read(String),
    /// Nothing: every file was found.
    Done,
}

spec fn frames_walked(tree: Tree, frames: Seq<Frame>, out: Seq<Seq<char>>) -> Seq<Seq<char>>
    decreases frames.len(),
{
    if frames.len() == 0 {
        out
    } else {
        let f = frames.last();
        frames_walked(
            tree,
            frames.drop_last(),
            walked_entries(tree, f.dir@, f.depth as nat, f.rest(), out),
        )
    }
}

fn child_path(dir: &str, name: &str) -> (r: String)
    ensures
        r@ == within(dir@, name@),
{
    if str_eq(dir, "") {
        assert(dir@.len() == 0) by {
            reveal_strlit("");
        }
        String::from_str(name)
    } else {
        assert(dir@.len() > 0) by {
            reveal_strlit("");
            if dir@.len() == 0 {
                assert(dir@ =~= ""@);
            }
        }
        cat3(dir, "/", name)
    }
}

fn is_left_out(name: &str) -> (r: bool)
    ensures
        r == left_out(name@),
{
    str_eq(name, ".git") || str_eq(name, "target") || str_eq(name, "node_modules")
}

impl Walk {
    /// What the walk will find in a tree.
    pub closed spec fn finds(self, tree: Tree) -> Seq<Seq<char>> {
        let out = texts(self.files@);
        frames_walked(
            tree,
            self.frames@,
            match self.pending {
                Some((dir, depth)) => walked_entries(tree, dir@, depth as nat, tree[dir@], out),
                None => out,
            },
        )
    }

    /// The directory that the walk waits for.
    pub closed spec fn awaits(self) -> Option<Seq<char>> {
        match self.pending {
            Some((dir, _)) => Some(dir@),
            None => None,
        }
    }

    /// The files found so far.
    pub closed spec fn found(self) -> Seq<Seq<char>> {
        texts(self.files@)
    }

    /// Directories are not deeper than allowed.
    pub closed spec fn wf(self) -> bool {
        &&& forall|i: int| 0 <= i < self.frames@.len() ==> (#[trigger] self.frames@[i]).wf()
        &&& self.pending is Some ==> self.pending->Some_0.1 <= MAX_DEPTH
    }

    /// A walk at the root, which waits for the entries of the root.
    pub fn begin() -> (r: Self)
        ensures
            r.wf(),
            r.awaits() == Some(""@),
            forall|tree: Tree| #[trigger] r.finds(tree) == walked(tree, ""@, 0, Seq::empty()),
    {
        let files: Vec<String> = Vec::new();
        assert(texts(files@) =~= Seq::<Seq<char>>::empty());
        Walk { files, frames: Vec::new(), pending: Some((String::from_str(""), 0)) }
    }

    /// Give the walk the entries of the directory that it waits for.
    pub fn supply(&mut self, entries: Vec<DirEntry>)
        requires
            old(self).wf(),
            old(self).awaits() is Some,
        ensures
            final(self).wf(),
            final(self).awaits() is None,
            forall|tree: Tree|
                #![trigger final(self).finds(tree)]
                tree[old(self).awaits()->Some_0] == dir_view(entries@) ==> final(self).finds(tree)
                    == old(self).finds(tree),
    {
        let ghost before = *self;
        let mut pending: Option<(String, usize)> = None;
        std::mem::swap(&mut pending, &mut self.pending);
        match pending {
            Some((dir, depth)) => {
                let ghost rest = dir_view(entries@);
                let frame = Frame { dir, depth, entries, next: 0 };
                assert(frame.rest() =~= rest);
                self.frames.push(frame);
                assert(self.frames@.drop_last() =~= before.frames@);
            },
            None => {},
        }
    }

    /// Go on until the entries of another directory are needed, or every file was
    /// found.
    pub fn advance(&mut self) -> (r: WalkStep)
        requires
            old(self).wf(),
            old(self).awaits() is None,
        ensures
            final(self).wf(),
            forall|tree: Tree| #[trigger] final(self).finds(tree) == old(self).finds(tree),
            match r {
                WalkStep::Read(dir) => final(self).awaits() == Some(dir@),
                WalkStep::Done => final(self).awaits() is None && forall|tree: Tree| #[trigger]
                    final(self).finds(tree) == final(self).found(),
            },
    {
        let ghost start = *self;
        while self.frames.len() > 0
            invariant
                self.wf(),
                self.pending is None,
                start == *old(self),
                forall|tree: Tree| #[trigger] self.finds(tree) == start.finds(tree),
            decreases
                    self.frames@.len() + frame_sum(self.frames@),
        {
            let ghost before = *self;
            let n: usize = self.frames.len();
            let frame = self.frames.pop();
            match frame {
                Some(f) => {
                    assert(self.frames@ =~= before.frames@.drop_last());
                    assert(before.frames@[n - 1].wf());
                    let mut f = f;
                    if f.next >= f.entries.len() {
                        assert(f.rest().len() == 0);
                        proof {
                            assert(frame_sum(before.frames@) == frame_sum(self.frames@)
                                + f.rest().len());
                            assert forall|tree: Tree| #[trigger]
                                self.finds(tree) == start.finds(tree) by {
                                assert(self.finds(tree) == before.finds(tree));
                            }
                        }
                    } else {
                        let ghost rest = f.rest();
                        assert(rest[0] == f.entries@[f.next as int]@);
                        let path: Option<(String, bool)> = match &f.entries[f.next] {
                            DirEntry::File(name) => if is_left_out(name.as_str()) {
                                None
                            } else {
                                Some((child_path(f.dir.as_str(), name.as_str()), false))
                            },
                            DirEntry::Dir(name) => if is_left_out(name.as_str()) {
                                None
                            } else {
                                Some((child_path(f.dir.as_str(), name.as_str()), true))
                            },
                        };
                        let depth = f.depth;
                        let ghost dir = f.dir@;
                        f.next += 1;
                        assert(f.rest() =~= rest.drop_first());
                        self.frames.push(f);
                        let ghost out = texts(self.files@);
                        proof {
                            assert(self.frames@.drop_last() =~= before.frames@.drop_last());
                            assert(frame_sum(before.frames@) == frame_sum(
                                before.frames@.drop_last(),
                            ) + rest.len());
                            assert(frame_sum(self.frames@) == frame_sum(
                                before.frames@.drop_last(),
                            ) + rest.len() - 1);
                        }
                        match path {
                            None => {
                                proof {
                                    assert forall|tree: Tree| #[trigger]
                                        self.finds(tree) == start.finds(tree) by {
                                        assert(self.finds(tree) == before.finds(tree));
                                    }
                                }
                            },
                            Some((path, is_dir)) => {
                                if !is_dir {
                                    let ghost files = self.files@;
                                    self.files.push(path);
                                    proof {
                                        assert(texts(self.files@) =~= out.push(path@));
                                        assert forall|tree: Tree| #[trigger]
                                            self.finds(tree) == start.finds(tree) by {
                                            assert(self.finds(tree) == before.finds(tree));
                                        }
                                    }
                                } else if depth < MAX_DEPTH && self.files.len() < MAX_FILES {
                                    let asked = path.clone();
                                    self.pending = Some((path, depth + 1));
                                    proof {
                                        assert forall|tree: Tree| #[trigger]
                                            self.finds(tree) == start.finds(tree) by {
                                            directory_first(tree, dir, depth as nat, rest, out);
                                            assert(self.finds(tree) == before.finds(tree));
                                        }
                                    }
                                    return WalkStep::Read(asked);
                                } else {
                                    proof {
                                        assert forall|tree: Tree| #[trigger]
                                            self.finds(tree) == start.finds(tree) by {
                                            directory_first(tree, dir, depth as nat, rest, out);
                                            assert(self.finds(tree) == before.finds(tree));
                                        }
                                    }
                                }
                            },
                        }
                    }
                },
                None => {},
            }
        }
        WalkStep::Done
    }

    /// The workspace, with its files in order.
    pub fn finish(self, root: String) -> (r: WorkspaceInfo)
        ensures
            r.root == root,
            texts(r.files@) == sorted_texts(self.found()),
    {
        WorkspaceInfo { root, files: sort_texts(&self.files) }
    }
}

proof fn directory_first(
    tree: Tree,
    dir: Seq<char>,
    depth: nat,
    entries: Seq<DirEntryView>,
    out: Seq<Seq<char>>,
)
    requires
        depth <= MAX_DEPTH,
        entries.len() > 0,
        entries[0] is Dir,
        !left_out(entries[0]->Dir_0),
    ensures
        ({
            let path = within(dir, entries[0]->Dir_0);
            let next = if depth + 1 > MAX_DEPTH || out.len() >= MAX_FILES {
                out
            } else {
                walked_entries(tree, path, depth + 1, tree[path], out)
            };
            walked_entries(tree, dir, depth, entries, out) == walked_entries(
                tree,
                dir,
                depth,
                entries.drop_first(),
                next,
            )
        }),
{
    let path = within(dir, entries[0]->Dir_0);
    let next = walked(tree, path, depth + 1, out);
    assert(walked_entries(tree, dir, depth, entries, out) == walked_entries(
        tree,
        dir,
        depth,
        entries.drop_first(),
        next,
    ));
}

spec fn frame_sum(frames: Seq<Frame>) -> nat
    decreases frames.len(),
{
    if frames.len() == 0 {
        0
    } else {
        frame_sum(frames.drop_last()) + frames.last().rest().len()
    }
}

/// An ordered list with one more text: behind the texts that are not greater.
pub open spec fn placed(s: Seq<Seq<char>>, t: Seq<char>) -> Seq<Seq<char>>
    decreases s.len(),
{
    if s.len() == 0 {
        seq![t]
    } else if text_le(s.last(), t) {
        s.push(t)
    } else {
        placed(s.drop_last(), t).push(s.last())
    }
}

/// Texts in order.
pub open spec fn sorted_texts(s: Seq<Seq<char>>) -> Seq<Seq<char>>
    decreases s.len(),
{
    if s.len() == 0 {
        Seq::empty()
    } else {
        placed(sorted_texts(s.drop_last()), s.last())
    }
}

/// Whether texts ascend.
pub open spec fn ascending(s: Seq<Seq<char>>) -> bool {
    forall|i: int, j: int| 0 <= i < j < s.len() ==> text_le(#[trigger] s[i], #[trigger] s[j])
}

proof fn placed_ascends(s: Seq<Seq<char>>, t: Seq<char>)
    requires
        ascending(s),
    ensures
        ascending(placed(s, t)),
        placed(s, t).len() == s.len() + 1,
        placed(s, t).to_multiset() == s.to_multiset().insert(t),
        forall|i: int|
            0 <= i < placed(s, t).len() ==> (#[trigger] placed(s, t)[i]) == t || s.contains(
                placed(s, t)[i],
            ),
    decreases s.len(),
{
    let p = placed(s, t);
    if s.len() == 0 {
        assert(s =~= Seq::<Seq<char>>::empty());
        assert(seq![t] =~= s.push(t));
    } else if text_le(s.last(), t) {
        assert forall|i: int, j: int| 0 <= i < j < p.len() implies text_le(
            #[trigger] p[i],
            #[trigger] p[j],
        ) by {
            if j == s.len() {
                if i < s.len() - 1 {
                    text_le_is_an_order(s[i], s[s.len() - 1], t);
                }
            }
        }
        assert forall|i: int| 0 <= i < p.len() implies (#[trigger] p[i]) == t || s.contains(
            p[i],
        ) by {
            if i < s.len() {
                assert(p[i] == s[i]);
            }
        }
    } else {
        let front = s.drop_last();
        assert(ascending(front));
        placed_ascends(front, t);
        let q = placed(front, t);
        text_le_is_an_order(t, s.last(), t);
        assert(text_le(t, s.last()));
        assert forall|i: int, j: int| 0 <= i < j < p.len() implies text_le(
            #[trigger] p[i],
            #[trigger] p[j],
        ) by {
            if j == p.len() - 1 {
                assert(p[i] == q[i]);
                if q[i] != t {
                    let k = choose|k: int| 0 <= k < front.len() && front[k] == q[i];
                    assert(s[k] == q[i]);
                    assert(text_le(s[k], s[s.len() - 1]));
                }
            } else {
                assert(p[i] == q[i] && p[j] == q[j]);
            }
        }
        assert(s =~= front.push(s.last()));
        assert(p.to_multiset() =~= s.to_multiset().insert(t));
        assert forall|i: int| 0 <= i < p.len() implies (#[trigger] p[i]) == t || s.contains(
            p[i],
        ) by {
            if i < q.len() {
                assert(p[i] == q[i]);
                if q[i] != t {
                    let k = choose|k: int| 0 <= k < front.len() && front[k] == q[i];
                    assert(s[k] == q[i]);
                }
            } else {
                assert(s[s.len() - 1] == p[i]);
            }
        }
    }
}

/// Texts in order ascend and are the same texts, each as often as before.
pub proof fn sorted_texts_ascend(s: Seq<Seq<char>>)
    ensures
        ascending(sorted_texts(s)),
        sorted_texts(s).to_multiset() == s.to_multiset(),
    decreases s.len(),
{
    if s.len() == 0 {
        assert(s =~= Seq::<Seq<char>>::empty());
    } else {
        sorted_texts_ascend(s.drop_last());
        placed_ascends(sorted_texts(s.drop_last()), s.last());
        assert(s =~= s.drop_last().push(s.last()));
    }
}

fn place(sorted: &mut Vec<String>, t: String)
    ensures
        texts(final(sorted)@) == placed(texts(old(sorted)@), t@),
{
    let ghost before = texts(sorted@);
    let mut at: usize = sorted.len();
    assert(before.take(at as int) =~= before);
    assert(placed(before, t@) =~= placed(before.take(at as int), t@) + before.skip(at as int));
    while at > 0 && !is_text_le(sorted[at - 1].as_str(), t.as_str())
        invariant
            at <= sorted@.len(),
            *sorted == *old(sorted),
            before == texts(sorted@),
            placed(before, t@) == placed(before.take(at as int), t@) + before.skip(at as int),
        decreases at,
    {
        assert(before.take(at as int).drop_last() =~= before.take(at - 1));
        assert(before.take(at as int).last() == sorted@[at - 1]@);
        assert(placed(before.take(at as int), t@) + before.skip(at as int) =~= placed(
            before.take(at - 1),
            t@,
        ) + before.skip(at - 1));
        at -= 1;
    }
    proof {
        let front = before.take(at as int);
        if at > 0 {
            assert(front.last() == sorted@[at - 1]@);
        } else {
            assert(front =~= Seq::<Seq<char>>::empty());
        }
        assert(placed(front, t@) =~= front.push(t@));
    }
    sorted.insert(at, t);
    assert(texts(sorted@) =~= placed(before, t@));
}

fn sort_texts(v: &Vec<String>) -> (r: Vec<String>)
    ensures
        texts(r@) == sorted_texts(texts(v@)),
{
    let mut out: Vec<String> = Vec::new();
    let mut i: usize = 0;
    assert(texts(v@).take(0) =~= Seq::<Seq<char>>::empty());
    assert(texts(out@) =~= Seq::<Seq<char>>::empty());
    while i < v.len()
        invariant
            i <= v@.len(),
            texts(out@) == sorted_texts(texts(v@).take(i as int)),
        decreases v@.len() - i,
    {
        assert(texts(v@).take(i + 1).drop_last() =~= texts(v@).take(i as int));
        assert(texts(v@).take(i + 1).last() == v@[i as int]@);
        place(&mut out, v[i].clone());
        i += 1;
    }
    assert(texts(v@).take(i as int) =~= texts(v@));
    out
}

/// Whether a path is that of a file in a tree, which is not left out.
pub open spec fn is_file_of(tree: Tree, path: Seq<char>) -> bool {
    exists|dir: Seq<char>, name: Seq<char>|
        tree[dir].contains(DirEntryView::File(name)) && !left_out(name) && path
            == #[trigger] within(dir, name)
}

proof fn walked_finds(tree: Tree, dir: Seq<char>, depth: nat, out: Seq<Seq<char>>)
    requires
        forall|k: int| 0 <= k < out.len() ==> is_file_of(tree, #[trigger] out[k]),
    ensures
        out.is_prefix_of(walked(tree, dir, depth, out)),
        forall|k: int|
            0 <= k < walked(tree, dir, depth, out).len() ==> is_file_of(
                tree,
                #[trigger] walked(tree, dir, depth, out)[k],
            ),
    decreases MAX_DEPTH + 2 - depth, 1int, 0nat,
{
    if depth > MAX_DEPTH || out.len() >= MAX_FILES {
    } else {
        walked_entries_find(tree, dir, depth, 0, out);
        assert(tree[dir].skip(0) =~= tree[dir]);
    }
}

proof fn walked_entries_find(
    tree: Tree,
    dir: Seq<char>,
    depth: nat,
    at: int,
    out: Seq<Seq<char>>,
)
    requires
        0 <= at <= tree[dir].len(),
        forall|k: int| 0 <= k < out.len() ==> is_file_of(tree, #[trigger] out[k]),
    ensures
        out.is_prefix_of(walked_entries(tree, dir, depth, tree[dir].skip(at), out)),
        forall|k: int|
            0 <= k < walked_entries(tree, dir, depth, tree[dir].skip(at), out).len()
                ==> is_file_of(
                tree,
                #[trigger] walked_entries(tree, dir, depth, tree[dir].skip(at), out)[k],
            ),
        depth <= MAX_DEPTH ==> forall|k: int|
            at <= k < tree[dir].len() && #[trigger] tree[dir][k] is File && !left_out(
                tree[dir][k]->File_0,
            ) ==> walked_entries(tree, dir, depth, tree[dir].skip(at), out).contains(
                within(dir, tree[dir][k]->File_0),
            ),
    decreases MAX_DEPTH + 2 - depth, 0int, tree[dir].len() - at,
{
    let entries = tree[dir].skip(at);
    if depth > MAX_DEPTH || entries.len() == 0 {
    } else {
        let next = match entries[0] {
            DirEntryView::File(n) => if left_out(n) {
                out
            } else {
                out.push(within(dir, n))
            },
            DirEntryView::Dir(n) => if left_out(n) {
                out
            } else {
                walked(tree, within(dir, n), depth + 1, out)
            },
        };
        assert(entries[0] == tree[dir][at]);
        match entries[0] {
            DirEntryView::File(n) => {
                if !left_out(n) {
                    assert(tree[dir].contains(tree[dir][at]));
                    assert(is_file_of(tree, within(dir, n)));
                    assert(next.last() == within(dir, n));
                }
            },
            DirEntryView::Dir(n) => {
                if !left_out(n) {
                    walked_finds(tree, within(dir, n), depth + 1, out);
                }
            },
        }
        assert(out.is_prefix_of(next));
        assert(entries.drop_first() =~= tree[dir].skip(at + 1));
        walked_entries_find(tree, dir, depth, at + 1, next);
        let all = walked_entries(tree, dir, depth, entries, out);
        assert(all == walked_entries(tree, dir, depth, tree[dir].skip(at + 1), next));
        assert(next.is_prefix_of(all));
        assert forall|k: int|
            at <= k < tree[dir].len() && #[trigger] tree[dir][k] is File && !left_out(
                tree[dir][k]->File_0,
            ) implies all.contains(within(dir, tree[dir][k]->File_0)) by {
            if k == at {
                let last = next.len() - 1;
                assert(all[last] == all.take(next.len() as int)[last]);
                assert(all[last] == within(dir, tree[dir][k]->File_0));
            }
        }
    }
}

/// A walk finds only files that the tree holds, never one that is left out by its
/// name, and misses none at the root.
pub proof fn walk_finds_the_files(tree: Tree, path: Seq<char>)
    ensures
        walked(tree, Seq::empty(), 0, Seq::empty()).contains(path) ==> is_file_of(tree, path),
        tree[Seq::empty()].contains(DirEntryView::File(path)) && !left_out(path) ==> walked(
            tree,
            Seq::empty(),
            0,
            Seq::empty(),
        ).contains(path),
{
    let root: Seq<char> = Seq::empty();
    let none: Seq<Seq<char>> = Seq::empty();
    walked_finds(tree, root, 0, none);
    walked_entries_find(tree, root, 0, 0, none);
    assert(tree[root].skip(0) =~= tree[root]);
    if tree[root].contains(DirEntryView::File(path)) && !left_out(path) {
        let k = choose|k: int|
            0 <= k < tree[root].len() && tree[root][k] == DirEntryView::File(path);
        assert(tree[root][k] is File);
        assert(within(root, path) == path);
    }
}

/// What is left out: the directories of versions, builds and packages, and nothing
/// else.
pub proof fn only_by_products_are_left_out(name: Seq<char>)
    ensures
        left_out(name) <==> name == ".git"@ || name == "target"@ || name == "node_modules"@,
{
}

/// A file is found under its directory: its path is that of the directory, a slash and
/// the file's name, and at the root the name alone.
pub proof fn files_lie_below_their_directory(dir: Seq<char>, name: Seq<char>)
    ensures
        dir.len() == 0 ==> within(dir, name) == name,
        dir.len() > 0 ==> within(dir, name) == dir + seq!['/'] + name,
{
    reveal_strlit("/");
    assert("/"@ =~= seq!['/']);
}

} // verus!
