//! Paths as text, with `/` between components.
use vstd::prelude::*;
use vstd::string::*;
use crate::text::{begins_with, cat2, cat3, chars_of, str_eq, text_of, without_prefix};

verus! {

/// Where the components of a path begin: behind the root, or behind a leading
/// `.` component.
pub open spec fn body_start(p: Seq<char>) -> int {
    if p.len() > 0 && p[0] == '/' {
        1
    } else if p.len() > 0 && p[0] == '.' && (p.len() == 1 || p[1] == '/') {
        1
    } else {
        0
    }
}

/// Where the last component of `p` begins, at `from` or later.
pub open spec fn last_component(p: Seq<char>, from: int) -> int
    decreases p.len(),
{
    if p.len() <= from || p.len() == 0 || p.last() == '/' {
        p.len() as int
    } else {
        last_component(p.drop_last(), from)
    }
}

/// `p` without its last component and the separator before it.
pub open spec fn without_last(p: Seq<char>, from: int) -> Seq<char> {
    let at = last_component(p, from);
    p.take(
        if at > from {
            at - 1
        } else {
            at
        },
    )
}

/// Whether the last component of `p` says nothing: it is empty or `.`.
pub open spec fn last_is_void(p: Seq<char>, from: int) -> bool {
    let last = p.skip(last_component(p, from));
    last.len() == 0 || last == seq!['.']
}

/// `p` without the void components at its end.
pub open spec fn without_void(p: Seq<char>, from: int) -> Seq<char>
    decreases p.len(),
{
    if p.len() > from && last_is_void(p, from) && without_last(p, from).len() < p.len() {
        without_void(without_last(p, from), from)
    } else {
        p
    }
}

/// The path without its final component, if it has one.
pub open spec fn parent_dir(p: Seq<char>) -> Option<Seq<char>> {
    let from = body_start(p);
    let q = without_void(p, from);
    if q.len() > from {
        Some(without_void(without_last(q, from), from))
    } else if from == 1 && p[0] == '.' {
        Some(Seq::empty())
    } else {
        None
    }
}

fn find_last(chars: &Vec<char>, to: usize, from: usize) -> (r: usize)
    requires
        from <= to <= chars@.len(),
    ensures
        r == last_component(chars@.take(to as int), from as int),
        from <= r <= to,
{
    let mut at: usize = to;
    while at > from && chars[at - 1] != '/'
        invariant
            from <= at <= to <= chars@.len(),
            last_component(chars@.take(to as int), from as int) == last_component(
                chars@.take(at as int),
                from as int,
            ),
        decreases at,
    {
        assert(chars@.take(at as int).drop_last() =~= chars@.take(at - 1));
        at -= 1;
    }
    at
}

fn cut_last(chars: &Vec<char>, to: usize, from: usize) -> (r: usize)
    requires
        from <= to <= chars@.len(),
    ensures
        from <= r <= to,
        chars@.take(r as int) == without_last(chars@.take(to as int), from as int),
        to > from ==> r < to,
{
    let at = find_last(chars, to, from);
    let r: usize = if at > from {
        at - 1
    } else {
        at
    };
    assert(chars@.take(r as int) =~= without_last(chars@.take(to as int), from as int));
    r
}

fn cut_void(chars: &Vec<char>, to: usize, from: usize) -> (r: usize)
    requires
        from <= to <= chars@.len(),
    ensures
        from <= r <= to,
        chars@.take(r as int) == without_void(chars@.take(to as int), from as int),
{
    let mut end: usize = to;
    loop
        invariant_except_break
            from <= end <= to <= chars@.len(),
            without_void(chars@.take(to as int), from as int) == without_void(
                chars@.take(end as int),
                from as int,
            ),
        ensures
            from <= end <= to,
            chars@.take(end as int) == without_void(chars@.take(to as int), from as int),
        decreases end,
    {
        if end <= from {
            break;
        }
        let at = find_last(chars, end, from);
        let ghost last = chars@.take(end as int).skip(at as int);
        assert(last.len() == end - at);
        assert(end - at == 1 ==> last[0] == chars@[at as int]);
        assert((last == seq!['.']) == (end - at == 1 && chars@[at as int] == '.')) by {
            if end - at == 1 && chars@[at as int] == '.' {
                assert(last =~= seq!['.']);
            }
        }
        if at == end || (end - at == 1 && chars[at] == '.') {
            let cut = cut_last(chars, end, from);
            end = cut;
        } else {
            break;
        }
    }
    end
}

fn start_of_body(chars: &Vec<char>) -> (r: usize)
    ensures
        r == body_start(chars@),
        r <= chars@.len(),
{
    let n: usize = chars.len();
    if n > 0 && chars[0] == '/' {
        1
    } else if n > 0 && chars[0] == '.' && (n == 1 || chars[1] == '/') {
        1
    } else {
        0
    }
}

/// The path without its final component, if it has one.
pub fn parent_of(path: &str) -> (r: Option<String>)
    ensures
        match r {
            Some(p) => parent_dir(path@) == Some(p@),
            None => parent_dir(path@) is None,
        },
{
    let chars = chars_of(path);
    let n: usize = chars.len();
    assert(chars@.take(n as int) =~= path@);
    let from = start_of_body(&chars);
    let q = cut_void(&chars, n, from);
    if q > from {
        let cut = cut_last(&chars, q, from);
        let end = cut_void(&chars, cut, from);
        let text = text_of(&chars, 0, end);
        assert(text@ =~= chars@.take(end as int));
        Some(text)
    } else if from == 1 && chars[0] == '.' {
        let text = String::new();
        assert(text@ =~= Seq::<char>::empty());
        Some(text)
    } else {
        None
    }
}

/// The final component of a path, unless that is the root, `.` or `..`.
pub open spec fn file_name(p: Seq<char>) -> Option<Seq<char>> {
    let from = body_start(p);
    let q = without_void(p, from);
    let name = q.skip(last_component(q, from));
    if q.len() > from && name != seq!['.', '.'] {
        Some(name)
    } else {
        None
    }
}

/// The final component of a path, unless that is the root, `.` or `..`.
pub fn file_name_of(path: &str) -> (r: Option<String>)
    ensures
        match r {
            Some(name) => file_name(path@) == Some(name@),
            None => file_name(path@) is None,
        },
{
    let chars = chars_of(path);
    let n: usize = chars.len();
    assert(chars@.take(n as int) =~= path@);
    let from = start_of_body(&chars);
    let q = cut_void(&chars, n, from);
    if q <= from {
        return None;
    }
    let at = find_last(&chars, q, from);
    let ghost name = chars@.take(q as int).skip(at as int);
    assert(name.len() == q - at);
    assert((name == seq!['.', '.']) == (q - at == 2 && chars@[at as int] == '.' && chars@[at + 1]
        == '.')) by {
        if q - at == 2 {
            assert(name[0] == chars@[at as int]);
            assert(name[1] == chars@[at + 1]);
            if chars@[at as int] == '.' && chars@[at + 1] == '.' {
                assert(name =~= seq!['.', '.']);
            }
        }
    }
    if q - at == 2 && chars[at] == '.' && chars[at + 1] == '.' {
        None
    } else {
        let text = text_of(&chars, at, q);
        assert(text@ =~= name);
        Some(text)
    }
}

/// `path` taken from within `base`: an absolute path stands for itself.
pub open spec fn joined_path(base: Seq<char>, path: Seq<char>) -> Seq<char> {
    if path.len() > 0 && path[0] == '/' {
        path
    } else if base.len() == 0 || base.last() == '/' {
        base + path
    } else {
        base + "/"@ + path
    }
}

/// `path` taken from within `base`.
pub fn join_path(base: &str, path: &str) -> (r: String)
    ensures
        r@ == joined_path(base@, path@),
{
    let b = chars_of(base);
    let p = chars_of(path);
    if p.len() > 0 && p[0] == '/' {
        String::from_str(path)
    } else if b.len() == 0 || b[b.len() - 1] == '/' {
        cat2(base, path)
    } else {
        cat3(base, "/", path)
    }
}

/// A path with a leading `~` replaced by the home directory, if that is known.
pub open spec fn tilde_expanded(path: Seq<char>, home: Option<Seq<char>>) -> Seq<char> {
    match home {
        Some(home) => if begins_with(path, "~/"@) {
            joined_path(home, path.skip("~/"@.len() as int))
        } else if path == "~"@ {
            home
        } else {
            path
        },
        None => path,
    }
}

/// Expand a leading `~` to the home directory.
pub fn expand_tilde(path: &str, home: Option<&str>) -> (r: String)
    ensures
        r@ == tilde_expanded(
            path@,
            match home {
                Some(h) => Some(h@),
                None => None,
            },
        ),
{
    match home {
        Some(home) => match without_prefix(path, "~/") {
            Some(rest) => join_path(home, rest.as_str()),
            None => if str_eq(path, "~") {
                String::from_str(home)
            } else {
                String::from_str(path)
            },
        },
        None => String::from_str(path),
    }
}

/// Whether a text is an ordinary name within a directory.
pub open spec fn is_name(name: Seq<char>) -> bool {
    &&& name.len() > 0
    &&& name != seq!['.']
    &&& name != seq!['.', '.']
    &&& forall|i: int| 0 <= i < name.len() ==> #[trigger] name[i] != '/'
}

/// Whether a text is empty or ends behind a separator.
pub open spec fn is_front(front: Seq<char>) -> bool {
    front.len() == 0 || front.last() == '/'
}

proof fn last_component_of(front: Seq<char>, name: Seq<char>, from: int)
    requires
        is_front(front),
        0 <= from <= front.len(),
        forall|i: int| 0 <= i < name.len() ==> #[trigger] name[i] != '/',
    ensures
        last_component(front + name, from) == front.len(),
    decreases name.len(),
{
    if name.len() == 0 {
        assert(front + name =~= front);
    } else {
        last_component_of(front, name.drop_last(), from);
        assert((front + name).drop_last() =~= front + name.drop_last());
        assert((front + name).last() == name.last());
        assert(name[name.len() - 1] != '/');
    }
}

proof fn body_start_of(front: Seq<char>, name: Seq<char>)
    requires
        is_front(front),
        is_name(name),
    ensures
        body_start(front + name) <= front.len(),
{
    let p = front + name;
    if front.len() == 0 {
        assert(p =~= name);
        assert(name[0] != '/');
        if name[0] == '.' {
            if name.len() == 1 {
                assert(name =~= seq!['.']);
            } else {
                assert(name[1] != '/');
            }
        }
    }
}

proof fn name_is_not_void(front: Seq<char>, name: Seq<char>, from: int)
    requires
        is_front(front),
        is_name(name),
        0 <= from <= front.len(),
    ensures
        without_void(front + name, from) == front + name,
{
    last_component_of(front, name, from);
    assert((front + name).skip(front.len() as int) =~= name);
}

/// The file of a path is what stands behind the last separator.
pub proof fn file_name_is_the_last_component(front: Seq<char>, name: Seq<char>)
    requires
        is_front(front),
        is_name(name),
    ensures
        file_name(front + name) == Some(name),
{
    let from = body_start(front + name);
    body_start_of(front, name);
    name_is_not_void(front, name, from);
    last_component_of(front, name, from);
    assert((front + name).skip(front.len() as int) =~= name);
}

/// The parent of a file in a directory is that directory.
pub proof fn parent_is_the_directory(front: Seq<char>, dir: Seq<char>, name: Seq<char>)
    requires
        is_front(front),
        is_name(dir),
        is_name(name),
    ensures
        parent_dir(front + dir + seq!['/'] + name) == Some(front + dir),
{
    let base = front + dir;
    let upto = base + seq!['/'];
    let p = upto + name;
    assert(p =~= front + dir + seq!['/'] + name);
    let from = body_start(p);
    body_start_of(upto, name);
    body_start_of(front, dir);
    assert(from <= front.len()) by {
        if front.len() == 0 {
            assert(p[0] == dir[0]);
            assert(dir[0] != '/');
            if dir[0] == '.' {
                if dir.len() == 1 {
                    assert(dir =~= seq!['.']);
                } else {
                    assert(p[1] == dir[1]);
                    assert(dir[1] != '/');
                }
            }
        }
    }
    name_is_not_void(upto, name, from);
    last_component_of(upto, name, from);
    assert(p.take(upto.len() - 1) =~= base);
    name_is_not_void(front, dir, from);
}

/// A relative path taken from within a directory begins with the directory and ends
/// with the path; an absolute one stands for itself.
pub proof fn joined_path_lies_in_the_directory(base: Seq<char>, path: Seq<char>)
    ensures
        path.len() > 0 && path[0] == '/' ==> joined_path(base, path) == path,
        !(path.len() > 0 && path[0] == '/') ==> joined_path(base, path).take(base.len() as int)
            == base && joined_path(base, path).skip(joined_path(base, path).len() - path.len())
            == path,
        !(path.len() > 0 && path[0] == '/') && base.len() > 0 && base.last() != '/' ==> joined_path(
            base,
            path,
        ) == base + seq!['/'] + path,
        !(path.len() > 0 && path[0] == '/') && (base.len() == 0 || base.last() == '/')
            ==> joined_path(base, path) == base + path,
{
    reveal_strlit("/");
    let r = joined_path(base, path);
    if !(path.len() > 0 && path[0] == '/') {
        assert(r.take(base.len() as int) =~= base);
        assert(r.skip(r.len() - path.len()) =~= path);
        assert("/"@ =~= seq!['/']);
    }
}

/// A leading tilde stands for the home directory, where that is known, and only a
/// leading one.
pub proof fn tilde_stands_for_home(path: Seq<char>, home: Seq<char>, rest: Seq<char>)
    ensures
        tilde_expanded(path, None) == path,
        path.len() == 0 || path[0] != '~' ==> tilde_expanded(path, Some(home)) == path,
        path == seq!['~'] ==> tilde_expanded(path, Some(home)) == home,
        path == seq!['~', '/'] + rest && home.len() > 0 && home.last() != '/' && !(rest.len() > 0
            && rest[0] == '/') ==> tilde_expanded(path, Some(home)) == home + seq!['/'] + rest,
{
    reveal_strlit("~/");
    reveal_strlit("~");
    assert("~/"@ =~= seq!['~', '/']);
    assert("~"@ =~= seq!['~']);
    if path == seq!['~', '/'] + rest {
        assert(path.take(2) =~= "~/"@);
        assert(path.skip(2) =~= rest);
        joined_path_lies_in_the_directory(home, rest);
    }
    if begins_with(path, "~/"@) {
        assert(path[0] == path.take(2)[0]);
    }
}

/// A file right below the root has the root for its parent, a bare name has nothing, and
/// the root itself has no parent and no name.
pub proof fn paths_end_at_the_root(name: Seq<char>)
    requires
        is_name(name),
    ensures
        parent_dir(seq!['/'] + name) == Some(seq!['/']),
        parent_dir(name) == Some(Seq::<char>::empty()),
        parent_dir(seq!['/']) is None,
        file_name(seq!['/']) is None,
{
    let root = seq!['/'];
    let none = Seq::<char>::empty();
    let p = root + name;
    assert(p[0] == '/');
    name_is_not_void(root, name, 1);
    last_component_of(root, name, 1);
    assert(p.take(1) =~= root);
    assert(none + name =~= name);
    body_start_of(none, name);
    name_is_not_void(none, name, 0);
    last_component_of(none, name, 0);
    assert(name.take(0) =~= none);
}

} // verus!
