//! What content hashes tell apart. Two things with one hash are the same thing, or
//! else two different byte strings with one SHA-256 digest are at hand.
use vstd::prelude::*;
use vstd::utf8::*;
use crate::outside::digest::{hex_char, hex_text, sha256};
use crate::storage::objects::{
    blob_hash, commit_hash, commit_text, content_hash, entry_line, entry_lines, mode_text,
    parent_lines, sort_entries, sort_entries_sorts, tree_hash,
};
use crate::text::{
    decimal, decimal_is_digits, signed_decimal, signed_decimal_tells_numbers_apart, split_at_first,
    split_at_last, utf8_injective,
};
use crate::traits::EntryView;
use crate::types::Timestamp;

verus! {

/// Whether two different byte strings have one SHA-256 digest.
pub open spec fn digests_collide() -> bool {
    exists|x: Seq<u8>, y: Seq<u8>| x != y && #[trigger] sha256(x) == #[trigger] sha256(y)
}

proof fn hex_char_tells_apart(a: int, b: int)
    requires
        0 <= a < 16,
        0 <= b < 16,
        hex_char(a) == hex_char(b),
    ensures
        a == b,
{
    assert(hex_char(a) as int == if a < 10 {
        48 + a
    } else {
        87 + a
    });
    assert(hex_char(b) as int == if b < 10 {
        48 + b
    } else {
        87 + b
    });
}

proof fn spelled_byte(data: Seq<u8>, i: int)
    requires
        0 <= i < data.len(),
    ensures
        hex_text(data)[2 * i] == hex_char(data[i] as int / 16),
        hex_text(data)[2 * i + 1] == hex_char(data[i] as int % 16),
{
    let (even, odd) = (2 * i, 2 * i + 1);
    assert(even / 2 == i && even % 2 == 0);
    assert(odd / 2 == i && odd % 2 == 1);
    assert(0 <= even < odd < 2 * data.len());
    assert(hex_text(data)[even] == hex_char(data[i] as int / 16));
    assert(hex_text(data)[odd] == hex_char(data[i] as int % 16));
}

/// Different bytes are spelled differently.
pub proof fn hex_text_tells_bytes_apart(a: Seq<u8>, b: Seq<u8>)
    requires
        hex_text(a) == hex_text(b),
    ensures
        a == b,
{
    assert(hex_text(a).len() == 2 * a.len());
    assert(hex_text(b).len() == 2 * b.len());
    assert forall|i: int| 0 <= i < a.len() implies a[i] == b[i] by {
        spelled_byte(a, i);
        spelled_byte(b, i);
        hex_char_tells_apart(a[i] as int / 16, b[i] as int / 16);
        hex_char_tells_apart(a[i] as int % 16, b[i] as int % 16);
    }
    assert(a =~= b);
}

/// The name of a kind of object: plain letters.
pub open spec fn plain_kind(kind: Seq<char>) -> bool {
    forall|i: int| 0 <= i < kind.len() ==> 'a' <= #[trigger] kind[i] <= 'z'
}

proof fn header_bytes(kind: Seq<char>, n: nat)
    requires
        plain_kind(kind),
    ensures
        ({
            let text = kind + " "@ + decimal(n);
            &&& encode_utf8(kind + " "@ + decimal(n) + "\0"@) == encode_utf8(text) + seq![0u8]
            &&& !encode_utf8(text).contains(0u8)
        }),
{
    reveal_strlit(" ");
    reveal_strlit("\0");
    decimal_is_digits(n);
    let text = kind + " "@ + decimal(n);
    let whole = text + "\0"@;
    assert(is_ascii_chars(text));
    assert(is_ascii_chars(whole));
    is_ascii_chars_encode_utf8(text);
    is_ascii_chars_encode_utf8(whole);
    assert(encode_utf8(whole) =~= encode_utf8(text) + seq![0u8]) by {
        assert forall|i: int| 0 <= i < whole.len() implies encode_utf8(whole)[i] == (encode_utf8(
            text,
        ) + seq![0u8])[i] by {
            assert(whole[i] as u8 == encode_utf8(whole)[i]);
            if i < text.len() {
                assert(text[i] == whole[i]);
                assert(text[i] as u8 == encode_utf8(text)[i]);
            }
        }
    }
    assert forall|i: int| 0 <= i < text.len() implies encode_utf8(text)[i] != 0u8 by {
        assert(text[i] as u8 == encode_utf8(text)[i]);
        assert(' ' <= text[i] <= 'z');
    }
}

/// A content hash tells kinds and bodies apart.
pub proof fn content_hash_tells_apart(
    kind: Seq<char>,
    body: Seq<u8>,
    other_kind: Seq<char>,
    other: Seq<u8>,
)
    requires
        plain_kind(kind),
        plain_kind(other_kind),
        content_hash(kind, body) == content_hash(other_kind, other),
    ensures
        kind == other_kind && body == other || digests_collide(),
{
    let x = encode_utf8(kind + " "@ + decimal(body.len()) + "\0"@) + body;
    let y = encode_utf8(other_kind + " "@ + decimal(other.len()) + "\0"@) + other;
    hex_text_tells_bytes_apart(sha256(x), sha256(y));
    if x == y {
        header_bytes(kind, body.len());
        header_bytes(other_kind, other.len());
        let a = kind + " "@ + decimal(body.len());
        let b = other_kind + " "@ + decimal(other.len());
        split_at_first(encode_utf8(a), body, encode_utf8(b), other, 0u8);
        utf8_injective(a, b);
        reveal_strlit(" ");
        assert(" "@ =~= seq![' ']);
        split_at_first(kind, decimal(body.len()), other_kind, decimal(other.len()), ' ');
    }
}

/// Blobs with one hash hold the same bytes.
pub proof fn blob_hash_tells_data_apart(a: Seq<u8>, b: Seq<u8>)
    requires
        blob_hash(a) == blob_hash(b),
    ensures
        a == b || digests_collide(),
{
    reveal_strlit("blob");
    content_hash_tells_apart("blob"@, a, "blob"@, b);
}

/// What is written of an entry can be read: no hash holds a space and no name a line
/// feed.
pub open spec fn writable(s: Seq<EntryView>) -> bool {
    forall|i: int|
        0 <= i < s.len() ==> !(#[trigger] s[i]).hash.contains(' ') && !s[i].name.contains('\n')
}

proof fn first_line(s: Seq<EntryView>)
    requires
        s.len() > 0,
    ensures
        entry_lines(s) == entry_line(s[0]) + entry_lines(s.drop_first()),
    decreases s.len(),
{
    if s.len() == 1 {
        assert(s.drop_last() =~= Seq::<EntryView>::empty());
        assert(s.drop_first() =~= Seq::<EntryView>::empty());
        assert(entry_lines(s) =~= entry_line(s[0]) + entry_lines(s.drop_first()));
    } else {
        first_line(s.drop_last());
        assert(s.drop_last().drop_first() =~= s.drop_first().drop_last());
        assert(entry_lines(s) =~= entry_line(s[0]) + entry_lines(s.drop_first()));
    }
}

proof fn line_is_read(e: EntryView, rest: Seq<char>, f: EntryView, other: Seq<char>)
    requires
        !e.hash.contains(' '),
        !f.hash.contains(' '),
        !e.name.contains('\n'),
        !f.name.contains('\n'),
        entry_line(e) + rest == entry_line(f) + other,
    ensures
        e == f,
        rest == other,
{
    reveal_strlit("100644");
    reveal_strlit("100755");
    reveal_strlit("040000");
    reveal_strlit(" ");
    reveal_strlit("\n");
    let s = entry_line(e) + rest;
    let t = entry_line(f) + other;
    assert(" "@ =~= seq![' ']);
    assert("\n"@ =~= seq!['\n']);
    assert(s.take(6) =~= mode_text(e.mode));
    assert(t.take(6) =~= mode_text(f.mode));
    assert(mode_text(e.mode)[0] == mode_text(f.mode)[0]);
    assert(mode_text(e.mode)[4] == mode_text(f.mode)[4]);
    assert(e.mode == f.mode);
    let x = e.name + seq!['\n'] + rest;
    let y = f.name + seq!['\n'] + other;
    assert(s.skip(7) =~= e.hash + seq![' '] + x);
    assert(t.skip(7) =~= f.hash + seq![' '] + y);
    split_at_first(e.hash, x, f.hash, y, ' ');
    split_at_first(e.name, rest, f.name, other, '\n');
}

/// The digested text of a tree determines its entries, in order: name, hash and
/// mode.
pub proof fn tree_text_determines_entries(a: Seq<EntryView>, b: Seq<EntryView>)
    requires
        writable(a),
        writable(b),
        encode_utf8(entry_lines(a)) == encode_utf8(entry_lines(b)),
    ensures
        a == b,
    decreases a.len(),
{
    utf8_injective(entry_lines(a), entry_lines(b));
    if a.len() > 0 {
        first_line(a);
        line_is_long(a[0]);
    }
    if b.len() > 0 {
        first_line(b);
        line_is_long(b[0]);
    }
    if a.len() > 0 && b.len() > 0 {
        line_is_read(a[0], entry_lines(a.drop_first()), b[0], entry_lines(b.drop_first()));
        let (c, d) = (a.drop_first(), b.drop_first());
        assert forall|i: int| 0 <= i < c.len() implies !(#[trigger] c[i]).hash.contains(' ')
            && !c[i].name.contains('\n') by {
            assert(c[i] == a[i + 1]);
        }
        assert forall|i: int| 0 <= i < d.len() implies !(#[trigger] d[i]).hash.contains(' ')
            && !d[i].name.contains('\n') by {
            assert(d[i] == b[i + 1]);
        }
        tree_text_determines_entries(c, d);
        assert(a =~= seq![a[0]] + c);
        assert(b =~= seq![b[0]] + d);
    }
    assert(a =~= b);
}

proof fn line_is_long(e: EntryView)
    ensures
        entry_line(e).len() > 0,
{
    reveal_strlit("\n");
}

proof fn sorted_stays_writable(s: Seq<EntryView>)
    requires
        writable(s),
    ensures
        writable(sort_entries(s)),
{
    broadcast use vstd::seq_lib::group_to_multiset_ensures;

    sort_entries_sorts(s);
    let t = sort_entries(s);
    assert forall|i: int| 0 <= i < t.len() implies !(#[trigger] t[i]).hash.contains(' ')
        && !t[i].name.contains('\n') by {
        assert(t.contains(t[i]));
        assert(s.to_multiset().count(t[i]) > 0);
        let j = choose|j: int| 0 <= j < s.len() && s[j] == t[i];
        assert(!s[j].hash.contains(' '));
    }
}

/// Trees with one hash hold the same entries: name, hash and mode of each.
pub proof fn tree_hash_tells_entries_apart(a: Seq<EntryView>, b: Seq<EntryView>)
    requires
        writable(a),
        writable(b),
        tree_hash(a) == tree_hash(b),
    ensures
        a.to_multiset() == b.to_multiset() || digests_collide(),
{
    reveal_strlit("tree");
    sorted_stays_writable(a);
    sorted_stays_writable(b);
    sort_entries_sorts(a);
    sort_entries_sorts(b);
    let x = encode_utf8(entry_lines(sort_entries(a)));
    let y = encode_utf8(entry_lines(sort_entries(b)));
    content_hash_tells_apart("tree"@, x, "tree"@, y);
    if x == y {
        tree_text_determines_entries(sort_entries(a), sort_entries(b));
    }
}

proof fn first_parent(parents: Seq<Seq<char>>)
    requires
        parents.len() > 0,
    ensures
        parent_lines(parents) == "parent "@ + parents[0] + "\n"@ + parent_lines(
            parents.drop_first(),
        ),
    decreases parents.len(),
{
    if parents.len() == 1 {
        assert(parents.drop_last() =~= Seq::<Seq<char>>::empty());
        assert(parents.drop_first() =~= Seq::<Seq<char>>::empty());
        assert(parent_lines(parents) =~= "parent "@ + parents[0] + "\n"@ + parent_lines(
            parents.drop_first(),
        ));
    } else {
        first_parent(parents.drop_last());
        assert(parents.drop_last().drop_first() =~= parents.drop_first().drop_last());
        assert(parent_lines(parents) =~= "parent "@ + parents[0] + "\n"@ + parent_lines(
            parents.drop_first(),
        ));
    }
}

/// Whether no text holds a line feed.
pub open spec fn single_lines(v: Seq<Seq<char>>) -> bool {
    forall|i: int| 0 <= i < v.len() ==> !(#[trigger] v[i]).contains('\n')
}

proof fn parents_are_read(p: Seq<Seq<char>>, x: Seq<char>, q: Seq<Seq<char>>, y: Seq<char>)
    requires
        single_lines(p),
        single_lines(q),
        x.len() > 0,
        y.len() > 0,
        x[0] == 'a',
        y[0] == 'a',
        parent_lines(p) + x == parent_lines(q) + y,
    ensures
        p == q,
        x == y,
    decreases p.len(),
{
    reveal_strlit("parent ");
    reveal_strlit("\n");
    assert("\n"@ =~= seq!['\n']);
    let s = parent_lines(p) + x;
    let t = parent_lines(q) + y;
    if p.len() > 0 {
        first_parent(p);
        assert(s[0] == 'p');
    } else {
        assert(s =~= x);
    }
    if q.len() > 0 {
        first_parent(q);
        assert(t[0] == 'p');
    } else {
        assert(t =~= y);
    }
    if p.len() > 0 && q.len() > 0 {
        let (c, d) = (p.drop_first(), q.drop_first());
        assert(s.skip(7) =~= p[0] + seq!['\n'] + (parent_lines(c) + x));
        assert(t.skip(7) =~= q[0] + seq!['\n'] + (parent_lines(d) + y));
        split_at_first(p[0], parent_lines(c) + x, q[0], parent_lines(d) + y, '\n');
        assert forall|i: int| 0 <= i < c.len() implies !(#[trigger] c[i]).contains('\n') by {
            assert(c[i] == p[i + 1]);
        }
        assert forall|i: int| 0 <= i < d.len() implies !(#[trigger] d[i]).contains('\n') by {
            assert(d[i] == q[i + 1]);
        }
        parents_are_read(c, x, d, y);
        assert(p =~= seq![p[0]] + c);
        assert(q =~= seq![q[0]] + d);
    }
    assert(p =~= q);
}

proof fn signature_is_plain(secs: int)
    ensures
        !signed_decimal(secs).contains(' '),
        !signed_decimal(secs).contains('\n'),
{
    let n = (if secs < 0 {
        -secs
    } else {
        secs
    }) as nat;
    decimal_is_digits(n);
    let s = signed_decimal(secs);
    assert forall|i: int| 0 <= i < s.len() implies s[i] == '-' || '0' <= s[i] <= '9' by {
        if secs < 0 && i > 0 {
            assert(s[i] == decimal(n)[i - 1]);
        }
    }
}

/// The part of a commit's text behind the parents.
spec fn commit_rest(author: Seq<char>, secs: int, message: Seq<char>) -> Seq<char> {
    let time = signed_decimal(secs) + " +0000"@;
    "author "@ + (author + seq![' '] + time) + seq!['\n'] + ("committer "@ + author + seq![' '] + time
        + seq!['\n'] + seq!['\n'] + message + seq!['\n'])
}

proof fn rest_is_read(
    author: Seq<char>,
    secs: int,
    message: Seq<char>,
    other_author: Seq<char>,
    other_secs: int,
    other_message: Seq<char>,
)
    requires
        !author.contains('\n'),
        !other_author.contains('\n'),
        commit_rest(author, secs, message) == commit_rest(other_author, other_secs, other_message),
    ensures
        author == other_author,
        secs == other_secs,
        message == other_message,
{
    reveal_strlit("author ");
    reveal_strlit("committer ");
    reveal_strlit(" +0000");
    signature_is_plain(secs);
    signature_is_plain(other_secs);
    let time = signed_decimal(secs) + " +0000"@;
    let other_time = signed_decimal(other_secs) + " +0000"@;
    let line = author + seq![' '] + time;
    let other_line = other_author + seq![' '] + other_time;
    let x = "committer "@ + author + seq![' '] + time + seq!['\n'] + seq!['\n'] + message + seq![
        '\n',
    ];
    let y = "committer "@ + other_author + seq![' '] + other_time + seq!['\n'] + seq!['\n']
        + other_message + seq!['\n'];
    assert(no_line_feed(author, signed_decimal(secs)));
    assert(no_line_feed(other_author, signed_decimal(other_secs)));
    line_without_feed(author, signed_decimal(secs));
    line_without_feed(other_author, signed_decimal(other_secs));
    assert(commit_rest(author, secs, message).skip(7) =~= line + seq!['\n'] + x);
    assert(commit_rest(other_author, other_secs, other_message).skip(7) =~= other_line + seq![
        '\n',
    ] + y);
    split_at_first(line, x, other_line, y, '\n');
    let a = author + seq![' '] + signed_decimal(secs);
    let b = other_author + seq![' '] + signed_decimal(other_secs);
    assert(line =~= a + " +0000"@);
    assert(other_line =~= b + " +0000"@);
    assert(a =~= line.take(line.len() - 6));
    assert(b =~= other_line.take(other_line.len() - 6));
    split_at_last(
        author,
        signed_decimal(secs),
        other_author,
        signed_decimal(other_secs),
        ' ',
    );
    signed_decimal_tells_numbers_apart(secs, other_secs);
    let front = "committer "@ + author + seq![' '] + time + seq!['\n'] + seq!['\n'];
    assert(x =~= front + message + seq!['\n']);
    assert(y =~= front + other_message + seq!['\n']);
    assert(message =~= x.subrange(front.len() as int, x.len() - 1));
    assert(other_message =~= y.subrange(front.len() as int, y.len() - 1));
}

spec fn no_line_feed(author: Seq<char>, secs: Seq<char>) -> bool {
    !author.contains('\n') && !secs.contains('\n')
}

proof fn line_without_feed(author: Seq<char>, secs: Seq<char>)
    requires
        no_line_feed(author, secs),
    ensures
        !(author + seq![' '] + (secs + " +0000"@)).contains('\n'),
{
    reveal_strlit(" +0000");
    let s = author + seq![' '] + (secs + " +0000"@);
    if s.contains('\n') {
        let i = choose|i: int| 0 <= i < s.len() && s[i] == '\n';
        if i < author.len() {
            assert(author[i] == '\n');
        } else if i > author.len() && i < author.len() + 1 + secs.len() {
            assert(secs[i - author.len() - 1] == '\n');
        } else if i > author.len() {
            assert(s[i] == " +0000"@[i - author.len() - 1 - secs.len()]);
        }
    }
}

proof fn commit_text_parts(
    tree: Seq<char>,
    parents: Seq<Seq<char>>,
    author: Seq<char>,
    at: Timestamp,
    message: Seq<char>,
)
    ensures
        commit_text(tree, parents, author, at, message) == "tree "@ + tree + seq!['\n'] + (
        parent_lines(parents) + commit_rest(author, at.secs as int, message)),
{
    reveal_strlit("\n");
    reveal_strlit(" ");
    assert("\n"@ =~= seq!['\n']);
    assert(" "@ =~= seq![' ']);
    assert(commit_text(tree, parents, author, at, message) =~= "tree "@ + tree + seq!['\n'] + (
    parent_lines(parents) + commit_rest(author, at.secs as int, message)));
}

proof fn rest_begins(author: Seq<char>, secs: int, message: Seq<char>)
    ensures
        commit_rest(author, secs, message).len() > 0,
        commit_rest(author, secs, message)[0] == 'a',
{
    reveal_strlit("author ");
}

/// The digested text of a commit determines what it says.
pub proof fn commit_text_determines_commit(
    tree: Seq<char>,
    parents: Seq<Seq<char>>,
    author: Seq<char>,
    at: Timestamp,
    message: Seq<char>,
    other_tree: Seq<char>,
    other_parents: Seq<Seq<char>>,
    other_author: Seq<char>,
    other_at: Timestamp,
    other_message: Seq<char>,
)
    requires
        !tree.contains('\n'),
        !other_tree.contains('\n'),
        single_lines(parents),
        single_lines(other_parents),
        !author.contains('\n'),
        !other_author.contains('\n'),
        commit_text(tree, parents, author, at, message) == commit_text(
            other_tree,
            other_parents,
            other_author,
            other_at,
            other_message,
        ),
    ensures
        tree == other_tree,
        parents == other_parents,
        author == other_author,
        at.secs == other_at.secs,
        message == other_message,
{
    commit_text_parts(tree, parents, author, at, message);
    commit_text_parts(other_tree, other_parents, other_author, other_at, other_message);
    let x = commit_rest(author, at.secs as int, message);
    let y = commit_rest(other_author, other_at.secs as int, other_message);
    behind_tree(tree, parent_lines(parents) + x);
    behind_tree(other_tree, parent_lines(other_parents) + y);
    split_at_first(
        tree,
        parent_lines(parents) + x,
        other_tree,
        parent_lines(other_parents) + y,
        '\n',
    );
    rest_begins(author, at.secs as int, message);
    rest_begins(other_author, other_at.secs as int, other_message);
    parents_are_read(parents, x, other_parents, y);
    rest_is_read(
        author,
        at.secs as int,
        message,
        other_author,
        other_at.secs as int,
        other_message,
    );
}

proof fn behind_tree(tree: Seq<char>, rest: Seq<char>)
    ensures
        ("tree "@ + tree + seq!['\n'] + rest).skip(5) == tree + seq!['\n'] + rest,
{
    reveal_strlit("tree ");
    assert(("tree "@ + tree + seq!['\n'] + rest).skip(5) =~= tree + seq!['\n'] + rest);
}

/// Commits with one hash say the same: tree, parents, author, second and message.
pub proof fn commit_hash_tells_commits_apart(
    tree: Seq<char>,
    parents: Seq<Seq<char>>,
    author: Seq<char>,
    at: Timestamp,
    message: Seq<char>,
    other_tree: Seq<char>,
    other_parents: Seq<Seq<char>>,
    other_author: Seq<char>,
    other_at: Timestamp,
    other_message: Seq<char>,
)
    requires
        !tree.contains('\n'),
        !other_tree.contains('\n'),
        single_lines(parents),
        single_lines(other_parents),
        !author.contains('\n'),
        !other_author.contains('\n'),
        commit_hash(tree, parents, author, at, message) == commit_hash(
            other_tree,
            other_parents,
            other_author,
            other_at,
            other_message,
        ),
    ensures
        tree == other_tree && parents == other_parents && author == other_author && at.secs
            == other_at.secs && message == other_message || digests_collide(),
{
    reveal_strlit("commit");
    let s = commit_text(tree, parents, author, at, message);
    let t = commit_text(other_tree, other_parents, other_author, other_at, other_message);
    content_hash_tells_apart("commit"@, encode_utf8(s), "commit"@, encode_utf8(t));
    if encode_utf8(s) == encode_utf8(t) {
        utf8_injective(s, t);
        commit_text_determines_commit(
            tree,
            parents,
            author,
            at,
            message,
            other_tree,
            other_parents,
            other_author,
            other_at,
            other_message,
        );
    }
}

/// A blob, a tree and a commit never have one hash.
pub proof fn kinds_have_hashes_of_their_own(
    data: Seq<u8>,
    entries: Seq<EntryView>,
    tree: Seq<char>,
    parents: Seq<Seq<char>>,
    author: Seq<char>,
    at: Timestamp,
    message: Seq<char>,
)
    ensures
        digests_collide() || {
            &&& blob_hash(data) != tree_hash(entries)
            &&& blob_hash(data) != commit_hash(tree, parents, author, at, message)
            &&& tree_hash(entries) != commit_hash(tree, parents, author, at, message)
        },
{
    reveal_strlit("blob");
    reveal_strlit("tree");
    reveal_strlit("commit");
    let x = encode_utf8(entry_lines(sort_entries(entries)));
    let y = encode_utf8(commit_text(tree, parents, author, at, message));
    assert("blob"@[0] == 'b' && "tree"@[0] == 't' && "commit"@[0] == 'c');
    if blob_hash(data) == tree_hash(entries) {
        content_hash_tells_apart("blob"@, data, "tree"@, x);
    }
    if blob_hash(data) == commit_hash(tree, parents, author, at, message) {
        content_hash_tells_apart("blob"@, data, "commit"@, y);
    }
    if tree_hash(entries) == commit_hash(tree, parents, author, at, message) {
        content_hash_tells_apart("tree"@, x, "commit"@, y);
    }
}

} // verus!
