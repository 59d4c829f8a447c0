//! Plans: how to build and run a workspace.
use vstd::prelude::*;
use vstd::string::*;
use vstd::utf8::encode_utf8;
use crate::agent::workspace::WorkspaceInfo;
use crate::outside::json::{json_document, json_field, json_items, json_str, list_view_items, parse_json, Json, JsonView};
use crate::text::{cat2, cat3, cat5, chars_of, decimal, decimal_text, ends_and_beginnings, ends_with, is_suffix, str_eq, text_of, trim_text, trimmed};
use crate::text::{trimmed_loses_only_white_space, white_space};
use crate::types::texts;

verus! {

/// How to build and run a project.
#[derive(Debug, PartialEq, Eq)]
pub struct Plan {
    /// Build command with arguments.
    pub build_cmd: Vec<String>,
    /// Run command with arguments.
    pub run_cmd: Vec<String>,
    /// Working directory in the sandbox.
    pub work_dir: String,
}

/// What a [`Plan`] says.
pub struct PlanView {
    pub build_cmd: Seq<Seq<char>>,
    pub run_cmd: Seq<Seq<char>>,
    pub work_dir: Seq<char>,
}

impl View for Plan {
    type V = PlanView;

    open spec fn view(&self) -> PlanView {
        PlanView {
            build_cmd: texts(self.build_cmd@),
            run_cmd: texts(self.run_cmd@),
            work_dir: self.work_dir@,
        }
    }
}

/// Whether a workspace has a file of this name, in any directory.
pub open spec fn has_file(files: Seq<Seq<char>>, name: Seq<char>) -> bool {
    exists|i: int|
        0 <= i < files.len() && ((#[trigger] files[i]) == name || ends_with(
            files[i],
            "/"@ + name,
        ))
}

/// Whether a workspace has a file of this name, in any directory.
pub fn has(info: &WorkspaceInfo, name: &str) -> (r: bool)
    ensures
        r == has_file(texts(info.files@), name@),
{
    let ghost files = texts(info.files@);
    let below = cat2("/", name);
    let mut i: usize = 0;
    while i < info.files.len()
        invariant
            i <= info.files@.len(),
            files == texts(info.files@),
            below@ == "/"@ + name@,
            forall|k: int|
                0 <= k < i ==> (#[trigger] files[k]) != name@ && !ends_with(files[k], "/"@ + name@),
        decreases info.files@.len() - i,
    {
        let f = info.files[i].as_str();
        assert(files[i as int] == f@);
        if str_eq(f, name) || is_suffix(f, below.as_str()) {
            return true;
        }
        i += 1;
    }
    false
}

/// The first file that ends with a text.
pub open spec fn first_ending(files: Seq<Seq<char>>, ext: Seq<char>) -> Option<Seq<char>>
    decreases files.len(),
{
    if files.len() == 0 {
        None
    } else {
        match first_ending(files.drop_last(), ext) {
            Some(f) => Some(f),
            None => if ends_with(files.last(), ext) {
                Some(files.last())
            } else {
                None
            },
        }
    }
}

/// The first file that ends with a text.
pub fn first_with_ext(info: &WorkspaceInfo, ext: &str) -> (r: Option<String>)
    ensures
        match r {
            Some(f) => first_ending(texts(info.files@), ext@) == Some(f@),
            None => first_ending(texts(info.files@), ext@) is None,
        },
{
    let ghost files = texts(info.files@);
    let mut found: Option<String> = None;
    let mut i: usize = 0;
    assert(files.take(0) =~= Seq::<Seq<char>>::empty());
    while i < info.files.len()
        invariant
            i <= info.files@.len(),
            files == texts(info.files@),
            match found {
                Some(f) => first_ending(files.take(i as int), ext@) == Some(f@),
                None => first_ending(files.take(i as int), ext@) is None,
            },
        decreases info.files@.len() - i,
    {
        assert(files.take(i + 1).drop_last() =~= files.take(i as int));
        assert(files.take(i + 1).last() == info.files@[i as int]@);
        if found.is_none() && is_suffix(info.files[i].as_str(), ext) {
            found = Some(info.files[i].clone());
        }
        i += 1;
    }
    assert(files.take(i as int) =~= files);
    found
}

/// The C files at the root of a workspace.
pub open spec fn root_c_files(files: Seq<Seq<char>>) -> Seq<Seq<char>>
    decreases files.len(),
{
    if files.len() == 0 {
        Seq::empty()
    } else {
        let before = root_c_files(files.drop_last());
        if !files.last().contains('/') && ends_with(files.last(), ".c"@) {
            before.push(files.last())
        } else {
            before
        }
    }
}

fn holds_slash(s: &str) -> (r: bool)
    ensures
        r == s@.contains('/'),
{
    let chars = chars_of(s);
    let mut i: usize = 0;
    while i < chars.len()
        invariant
            i <= chars@.len(),
            chars@ == s@,
            forall|k: int| 0 <= k < i ==> s@[k] != '/',
        decreases chars@.len() - i,
    {
        if chars[i] == '/' {
            return true;
        }
        i += 1;
    }
    false
}

fn c_files(info: &WorkspaceInfo) -> (r: Vec<String>)
    ensures
        texts(r@) == root_c_files(texts(info.files@)),
{
    let ghost files = texts(info.files@);
    let mut out: Vec<String> = Vec::new();
    let mut i: usize = 0;
    assert(files.take(0) =~= Seq::<Seq<char>>::empty());
    assert(texts(out@) =~= Seq::<Seq<char>>::empty());
    while i < info.files.len()
        invariant
            i <= info.files@.len(),
            files == texts(info.files@),
            texts(out@) == root_c_files(files.take(i as int)),
        decreases info.files@.len() - i,
    {
        assert(files.take(i + 1).drop_last() =~= files.take(i as int));
        assert(files.take(i + 1).last() == info.files@[i as int]@);
        let f = info.files[i].as_str();
        if !holds_slash(f) && is_suffix(f, ".c") {
            let ghost before = out@;
            out.push(info.files[i].clone());
            assert(texts(out@) =~= texts(before).push(files[i as int]));
        }
        i += 1;
    }
    assert(files.take(i as int) =~= files);
    out
}

/// A command that installs a tool where it is missing.
pub open spec fn tool_command(pkg: Seq<char>) -> Seq<char> {
    "(command -v "@ + pkg
        + " >/dev/null 2>&1 || (DEBIAN_FRONTEND=noninteractive apt-get update -qq && DEBIAN_FRONTEND=noninteractive apt-get install -y -qq "@
        + pkg + "))"@
}

/// A command that installs a tool where it is missing.
pub fn ensure_tool(pkg: &str) -> (r: String)
    ensures
        r@ == tool_command(pkg@),
{
    cat5(
        "(command -v ",
        pkg,
        " >/dev/null 2>&1 || (DEBIAN_FRONTEND=noninteractive apt-get update -qq && DEBIAN_FRONTEND=noninteractive apt-get install -y -qq ",
        pkg,
        "))",
    )
}

/// The plan for common project layouts: a Cargo project, a single C file at the
/// root, a Makefile, a Python file, a Node package, or else only a listing.
pub open spec fn layout_plan(files: Seq<Seq<char>>) -> PlanView {
    let work_dir = "/root/project"@;
    if has_file(files, "Cargo.toml"@) {
        PlanView {
            build_cmd: seq![tool_command("cargo"@) + " && cargo build --release"@],
            run_cmd: seq!["cargo run --release"@],
            work_dir,
        }
    } else if root_c_files(files).len() == 1 {
        PlanView {
            build_cmd: seq![
                tool_command("gcc"@) + " && gcc "@ + root_c_files(files)[0] + " -o app"@,
            ],
            run_cmd: seq!["./app"@],
            work_dir,
        }
    } else if has_file(files, "Makefile"@) {
        PlanView {
            build_cmd: seq![tool_command("make"@) + " && make"@],
            run_cmd: seq!["./app"@],
            work_dir,
        }
    } else {
        match first_ending(files, ".py"@) {
            Some(py) => PlanView {
                build_cmd: Seq::empty(),
                run_cmd: seq![tool_command("python3"@) + " && python3 "@ + py],
                work_dir,
            },
            None => if has_file(files, "package.json"@) {
                PlanView {
                    build_cmd: seq![tool_command("npm"@) + " && npm install"@],
                    run_cmd: seq!["node index.js"@],
                    work_dir,
                }
            } else {
                PlanView { build_cmd: Seq::empty(), run_cmd: seq!["ls -la"@], work_dir }
            },
        }
    }
}

fn single(command: String) -> (r: Vec<String>)
    ensures
        texts(r@) == seq![command@],
{
    let mut v: Vec<String> = Vec::new();
    v.push(command);
    assert(texts(v@) =~= seq![command@]);
    v
}

fn no_command() -> (r: Vec<String>)
    ensures
        texts(r@) == Seq::<Seq<char>>::empty(),
{
    let v: Vec<String> = Vec::new();
    assert(texts(v@) =~= Seq::<Seq<char>>::empty());
    v
}

/// The plan for common project layouts.
pub fn heuristic_plan(info: &WorkspaceInfo) -> (r: Plan)
    ensures
        r@ == layout_plan(texts(info.files@)),
{
    let work_dir = String::from_str("/root/project");
    if has(info, "Cargo.toml") {
        return Plan {
            build_cmd: single(cat2(ensure_tool("cargo").as_str(), " && cargo build --release")),
            run_cmd: single(String::from_str("cargo run --release")),
            work_dir,
        };
    }
    let c = c_files(info);
    if c.len() == 1 {
        let mut build = cat3(ensure_tool("gcc").as_str(), " && gcc ", c[0].as_str());
        build.append(" -o app");
        assert(root_c_files(texts(info.files@))[0] == c@[0]@);
        return Plan {
            build_cmd: single(build),
            run_cmd: single(String::from_str("./app")),
            work_dir,
        };
    }
    if has(info, "Makefile") {
        return Plan {
            build_cmd: single(cat2(ensure_tool("make").as_str(), " && make")),
            run_cmd: single(String::from_str("./app")),
            work_dir,
        };
    }
    match first_with_ext(info, ".py") {
        Some(py) => {
            return Plan {
                build_cmd: no_command(),
                run_cmd: single(
                    cat3(ensure_tool("python3").as_str(), " && python3 ", py.as_str()),
                ),
                work_dir,
            };
        },
        None => {},
    }
    if has(info, "package.json") {
        return Plan {
            build_cmd: single(cat2(ensure_tool("npm").as_str(), " && npm install")),
            run_cmd: single(String::from_str("node index.js")),
            work_dir,
        };
    }
    Plan { build_cmd: no_command(), run_cmd: single(String::from_str("ls -la")), work_dir }
}

/// Every layout has something to run.
pub proof fn layout_plan_runs_something(files: Seq<Seq<char>>)
    ensures
        layout_plan(files).run_cmd.len() == 1,
{
}

/// The part of a text from its first `{` to its last `}`, or all of it where there
/// is no such part; white space around the text does not count.
pub open spec fn json_part(s: Seq<char>) -> Seq<char> {
    let t = trimmed(s);
    match (t.index_of_first('{'), t.index_of_last('}')) {
        (Some(a), Some(b)) => if b > a {
            t.subrange(a, b + 1)
        } else {
            t
        },
        _ => t,
    }
}

/// The part of a text from its first `{` to its last `}`.
pub fn extract_json(s: &str) -> (r: String)
    ensures
        r@ == json_part(s@),
{
    let t = trim_text(s);
    let chars = chars_of(t.as_str());
    let n: usize = chars.len();
    let ghost whole = t@;
    proof {
        whole.index_of_first_ensures('{');
        whole.index_of_last_ensures('}');
    }
    let mut first: usize = 0;
    while first < n && chars[first] != '{'
        invariant
            first <= n == chars@.len(),
            chars@ == whole,
            forall|k: int| 0 <= k < first ==> whole[k] != '{',
        decreases n - first,
    {
        first += 1;
    }
    let mut last: usize = n;
    while last > 0 && chars[last - 1] != '}'
        invariant
            last <= n == chars@.len(),
            chars@ == whole,
            forall|k: int| last <= k < n ==> whole[k] != '}',
        decreases last,
    {
        last -= 1;
    }
    proof {
        if first < n {
            assert(whole[first as int] == '{');
            assert(whole.contains('{'));
            let a = whole.index_of_first('{')->Some_0;
            assert(a == first) by {
                if a < first {
                    assert(whole[a] != '{');
                }
            }
        } else {
            assert(!whole.contains('{'));
        }
        if last > 0 {
            assert(whole[last - 1] == '}');
            assert(whole.contains('}'));
            let b = whole.index_of_last('}')->Some_0;
            assert(b == last - 1) by {
                if b > last - 1 {
                    assert(whole[b] != '}');
                }
            }
        } else {
            assert(!whole.contains('}'));
        }
    }
    if first < n && last > 0 && last - 1 > first {
        text_of(&chars, first, last)
    } else {
        t
    }
}

/// Why a plan cannot be used.
#[derive(Debug, PartialEq, Eq)]
pub enum PlanError {
    /// It is no JSON.
    NotJson(String),
    /// It runs nothing; the workspace has this many files.
    NothingToRun(u64),
}

/// The message of a plan error.
pub open spec fn plan_message(e: PlanError) -> Seq<char> {
    match e {
        PlanError::NotJson(_) => "plan is not JSON"@,
        PlanError::NothingToRun(n) => "plan has empty run_cmd (files: "@ + decimal(n as nat) + ")"@,
    }
}

impl PlanError {
    /// The message of this error.
    pub fn to_string(&self) -> (r: String)
        ensures
            r@ == plan_message(*self),
    {
        match self {
            PlanError::NotJson(_) => String::from_str("plan is not JSON"),
            PlanError::NothingToRun(n) => cat3(
                "plan has empty run_cmd (files: ",
                decimal_text(*n).as_str(),
                ")",
            ),
        }
    }
}

/// The strings of an array, in order; anything else in it is left out.
pub open spec fn strings_in(v: Seq<JsonView>) -> Seq<Seq<char>>
    decreases v.len(),
{
    if v.len() == 0 {
        Seq::empty()
    } else {
        match json_str(v.last()) {
            Some(s) => strings_in(v.drop_last()).push(s),
            None => strings_in(v.drop_last()),
        }
    }
}

/// The strings of an array field.
pub fn string_list(j: &Json, key: &str) -> (r: Vec<String>)
    ensures
        texts(r@) == strings_in(json_items(json_field(j@, key@))),
{
    let mut out: Vec<String> = Vec::new();
    assert(texts(out@) =~= Seq::<Seq<char>>::empty());
    match j.get(key) {
        Some(Json::List(v)) => {
            let ghost all = json_items(json_field(j@, key@));
            proof {
                list_view_items(v@);
            }
            let mut i: usize = 0;
            assert(all.take(0) =~= Seq::<JsonView>::empty());
            while i < v.len()
                invariant
                    i <= v@.len() == all.len(),
                    forall|k: int| 0 <= k < all.len() ==> (#[trigger] all[k]) == v@[k]@,
                    texts(out@) == strings_in(all.take(i as int)),
                decreases v@.len() - i,
            {
                assert(all.take(i + 1).drop_last() =~= all.take(i as int));
                assert(all.take(i + 1).last() == v@[i as int]@);
                match &v[i] {
                    Json::Text(s) => {
                        let ghost before = out@;
                        out.push(s.clone());
                        assert(texts(out@) =~= texts(before).push(s@));
                    },
                    _ => {},
                }
                i += 1;
            }
            assert(all.take(i as int) =~= all);
        },
        _ => {},
    }
    out
}

/// What a plan in JSON leads to.
pub open spec fn plan_read(j: JsonView, files: nat, r: std::result::Result<Plan, PlanError>) -> bool {
    let run_cmd = strings_in(json_items(json_field(j, "run_cmd"@)));
    if run_cmd.len() == 0 {
        r == Err::<Plan, PlanError>(PlanError::NothingToRun(files as u64))
    } else {
        r is Ok && r->Ok_0@ == (PlanView {
            build_cmd: strings_in(json_items(json_field(j, "build_cmd"@))),
            run_cmd,
            work_dir: match json_str(json_field(j, "work_dir"@)) {
                Some(s) => s,
                None => "/root/project"@,
            },
        })
    }
}

/// The plan that a JSON value spells.
pub fn plan_of(j: &Json, info: &WorkspaceInfo) -> (r: std::result::Result<Plan, PlanError>)
    ensures
        plan_read(j@, info.files@.len(), r),
{
    let work_dir = match j.str_field("work_dir") {
        Some(s) => String::from_str(s),
        None => String::from_str("/root/project"),
    };
    let build_cmd = string_list(j, "build_cmd");
    let run_cmd = string_list(j, "run_cmd");
    assert(texts(run_cmd@).len() == run_cmd@.len());
    if run_cmd.len() == 0 {
        return Err(PlanError::NothingToRun(info.files.len() as u64));
    }
    Ok(Plan { build_cmd, run_cmd, work_dir })
}

/// The plan that a model's answer spells.
pub fn parse_plan(content: &str, info: &WorkspaceInfo) -> (r: std::result::Result<Plan, PlanError>)
    ensures
        match json_document(encode_utf8(json_part(content@))) {
            Ok(j) => plan_read(j, info.files@.len(), r),
            Err(e) => r is Err && r->Err_0 is NotJson && r->Err_0->NotJson_0@ == e,
        },
{
    let part = extract_json(content);
    match parse_json(part.as_str().as_bytes()) {
        Ok(j) => plan_of(&j, info),
        Err(e) => Err(PlanError::NotJson(e)),
    }
}

/// Whether a path names a file in some directory: it is the name, or ends with it
/// behind a slash.
pub open spec fn path_names(path: Seq<char>, name: Seq<char>) -> bool {
    path == name || exists|dir: Seq<char>| path == #[trigger] (dir + "/"@ + name)
}

proof fn has_file_by_path(files: Seq<Seq<char>>, name: Seq<char>)
    ensures
        has_file(files, name) <==> exists|i: int|
            0 <= i < files.len() && path_names(#[trigger] files[i], name),
{
    assert forall|i: int| 0 <= i < files.len() implies (#[trigger] path_names(files[i], name)) == (
    files[i] == name || ends_with(files[i], "/"@ + name)) by {
        let path = files[i];
        ends_and_beginnings(path, "/"@ + name);
        if ends_with(path, "/"@ + name) {
            let front = choose|front: Seq<char>| path == #[trigger] (front + ("/"@ + name));
            assert(path =~= front + "/"@ + name);
        }
        if exists|dir: Seq<char>| path == #[trigger] (dir + "/"@ + name) {
            let dir = choose|dir: Seq<char>| path == #[trigger] (dir + "/"@ + name);
            assert(path =~= dir + ("/"@ + name));
        }
    }
    if has_file(files, name) {
        let i = choose|i: int|
            0 <= i < files.len() && ((#[trigger] files[i]) == name || ends_with(
                files[i],
                "/"@ + name,
            ));
        assert(path_names(files[i], name));
    }
    if exists|i: int| 0 <= i < files.len() && path_names(#[trigger] files[i], name) {
        let i = choose|i: int| 0 <= i < files.len() && path_names(#[trigger] files[i], name);
        assert(files[i] == name || ends_with(files[i], "/"@ + name));
    }
}

/// The first file with an ending is a file of the workspace, has the ending, and no
/// earlier one has it.
pub proof fn first_ending_is_the_first(files: Seq<Seq<char>>, ext: Seq<char>, i: int)
    requires
        0 <= i < files.len(),
        exists|front: Seq<char>| files[i] == #[trigger] (front + ext),
        forall|k: int, front: Seq<char>|
            0 <= k < i ==> (#[trigger] files[k]) != #[trigger] (front + ext),
    ensures
        first_ending(files, ext) == Some(files[i]),
    decreases files.len(),
{
    ends_and_beginnings(files[i], ext);
    if i == files.len() - 1 {
        no_ending(files.drop_last(), ext);
    } else {
        let front = files.drop_last();
        assert(front[i] == files[i]);
        assert forall|k: int, f: Seq<char>| 0 <= k < i implies (#[trigger] front[k])
            != #[trigger] (f + ext) by {
            assert(front[k] == files[k]);
        }
        first_ending_is_the_first(front, ext, i);
    }
}

proof fn no_ending(files: Seq<Seq<char>>, ext: Seq<char>)
    requires
        forall|k: int, front: Seq<char>|
            0 <= k < files.len() ==> (#[trigger] files[k]) != #[trigger] (front + ext),
    ensures
        first_ending(files, ext) is None,
    decreases files.len(),
{
    if files.len() > 0 {
        let front = files.drop_last();
        assert forall|k: int, f: Seq<char>| 0 <= k < front.len() implies (#[trigger] front[k])
            != #[trigger] (f + ext) by {
            assert(front[k] == files[k]);
        }
        no_ending(front, ext);
        ends_and_beginnings(files.last(), ext);
        assert(files[files.len() - 1] == files.last());
    }
}

/// Whether a path is a C file at the root.
pub open spec fn is_root_c(path: Seq<char>) -> bool {
    !path.contains('/') && exists|stem: Seq<char>| path == #[trigger] (stem + ".c"@)
}

proof fn root_c_by_path(path: Seq<char>)
    ensures
        is_root_c(path) == (!path.contains('/') && ends_with(path, ".c"@)),
{
    ends_and_beginnings(path, ".c"@);
}

proof fn no_root_c(files: Seq<Seq<char>>)
    requires
        forall|k: int| 0 <= k < files.len() ==> !is_root_c(#[trigger] files[k]),
    ensures
        root_c_files(files).len() == 0,
    decreases files.len(),
{
    if files.len() > 0 {
        let front = files.drop_last();
        assert forall|k: int| 0 <= k < front.len() implies !is_root_c(#[trigger] front[k]) by {
            assert(front[k] == files[k]);
        }
        no_root_c(front);
        assert(files[files.len() - 1] == files.last());
        root_c_by_path(files.last());
    }
}

proof fn one_root_c(files: Seq<Seq<char>>, i: int)
    requires
        0 <= i < files.len(),
        is_root_c(files[i]),
        forall|k: int| 0 <= k < files.len() && k != i ==> !is_root_c(#[trigger] files[k]),
    ensures
        root_c_files(files) == seq![files[i]],
    decreases files.len(),
{
    let front = files.drop_last();
    root_c_by_path(files.last());
    assert(files[files.len() - 1] == files.last());
    if i == files.len() - 1 {
        assert forall|k: int| 0 <= k < front.len() implies !is_root_c(#[trigger] front[k]) by {
            assert(front[k] == files[k]);
        }
        no_root_c(front);
        assert(root_c_files(files) =~= seq![files[i]]);
    } else {
        assert(front[i] == files[i]);
        assert forall|k: int| 0 <= k < front.len() && k != i implies !is_root_c(
            #[trigger] front[k],
        ) by {
            assert(front[k] == files[k]);
        }
        one_root_c(front, i);
        assert(!is_root_c(files[files.len() - 1]));
    }
}

proof fn two_root_c(files: Seq<Seq<char>>, i: int, j: int)
    requires
        0 <= i < j < files.len(),
        is_root_c(files[i]),
        is_root_c(files[j]),
    ensures
        root_c_files(files).len() >= 2,
    decreases files.len(),
{
    let front = files.drop_last();
    root_c_by_path(files.last());
    assert(front[i] == files[i]);
    if j < files.len() - 1 {
        assert(front[j] == files[j]);
        two_root_c(front, i, j);
    } else {
        some_root_c(front, i);
    }
}

proof fn some_root_c(files: Seq<Seq<char>>, i: int)
    requires
        0 <= i < files.len(),
        is_root_c(files[i]),
    ensures
        root_c_files(files).len() >= 1,
    decreases files.len(),
{
    let front = files.drop_last();
    root_c_by_path(files.last());
    if i < files.len() - 1 {
        assert(front[i] == files[i]);
        some_root_c(front, i);
    }
}

/// Whether a workspace holds a file of a name somewhere.
pub open spec fn holds_file(files: Seq<Seq<char>>, name: Seq<char>) -> bool {
    exists|i: int| 0 <= i < files.len() && path_names(#[trigger] files[i], name)
}

/// Whether exactly one file of a workspace is a C file at the root.
pub open spec fn one_c_file(files: Seq<Seq<char>>) -> bool {
    exists|i: int|
        0 <= i < files.len() && is_root_c(#[trigger] files[i]) && forall|k: int|
            0 <= k < files.len() && k != i ==> !is_root_c(#[trigger] files[k])
}

proof fn c_files_counted(files: Seq<Seq<char>>)
    ensures
        one_c_file(files) <==> root_c_files(files).len() == 1,
{
    if one_c_file(files) {
        let i = choose|i: int|
            0 <= i < files.len() && is_root_c(#[trigger] files[i]) && forall|k: int|
                0 <= k < files.len() && k != i ==> !is_root_c(#[trigger] files[k]);
        one_root_c(files, i);
    } else if exists|i: int| 0 <= i < files.len() && is_root_c(#[trigger] files[i]) {
        let i = choose|i: int| 0 <= i < files.len() && is_root_c(#[trigger] files[i]);
        let k = choose|k: int| 0 <= k < files.len() && k != i && is_root_c(#[trigger] files[k]);
        if i < k {
            two_root_c(files, i, k);
        } else {
            two_root_c(files, k, i);
        }
    } else {
        no_root_c(files);
    }
}

/// A Cargo project is built and run with Cargo, whatever else it holds.
pub proof fn cargo_projects_use_cargo(files: Seq<Seq<char>>)
    requires
        holds_file(files, "Cargo.toml"@),
    ensures
        layout_plan(files).build_cmd.len() == 1,
        exists|front: Seq<char>|
            layout_plan(files).build_cmd[0] == #[trigger] (front + " cargo build --release"@),
        layout_plan(files).run_cmd == seq!["cargo run --release"@],
{
    has_file_by_path(files, "Cargo.toml"@);
    reveal_strlit(" && cargo build --release");
    reveal_strlit(" cargo build --release");
    let tool = tool_command("cargo"@);
    assert(layout_plan(files).build_cmd[0] =~= (tool + seq![' ', '&', '&'])
        + " cargo build --release"@);
}

/// The one C file at the root is what is compiled, and what is compiled is what is
/// run.
pub proof fn single_c_file_is_compiled_and_run(files: Seq<Seq<char>>, i: int)
    requires
        !holds_file(files, "Cargo.toml"@),
        0 <= i < files.len(),
        is_root_c(files[i]),
        forall|k: int| 0 <= k < files.len() && k != i ==> !is_root_c(#[trigger] files[k]),
    ensures
        layout_plan(files).build_cmd.len() == 1,
        layout_plan(files).run_cmd.len() == 1,
        exists|front: Seq<char>, app: Seq<char>| #![trigger front + " gcc "@ + files[i] + " -o "@ + app]
            layout_plan(files).build_cmd[0] == front + " gcc "@ + files[i] + " -o "@ + app
                && layout_plan(files).run_cmd[0] == seq!['.', '/'] + app && app.len() > 0,
{
    has_file_by_path(files, "Cargo.toml"@);
    one_root_c(files, i);
    reveal_strlit(" && gcc ");
    reveal_strlit(" gcc ");
    reveal_strlit(" -o app");
    reveal_strlit(" -o ");
    reveal_strlit("./app");
    let front = tool_command("gcc"@) + seq![' ', '&', '&'];
    let app = seq!['a', 'p', 'p'];
    assert(layout_plan(files).build_cmd[0] =~= front + " gcc "@ + files[i] + " -o "@ + app);
    assert(layout_plan(files).run_cmd[0] =~= seq!['.', '/'] + app);
}

/// A project with a Makefile, and neither Cargo nor a single C file, is made.
pub proof fn makefile_projects_are_made(files: Seq<Seq<char>>)
    requires
        !holds_file(files, "Cargo.toml"@),
        !one_c_file(files),
        holds_file(files, "Makefile"@),
    ensures
        layout_plan(files).build_cmd.len() == 1,
        exists|front: Seq<char>| layout_plan(files).build_cmd[0] == #[trigger] (front + " make"@),
        layout_plan(files).run_cmd == seq!["./app"@],
{
    has_file_by_path(files, "Cargo.toml"@);
    has_file_by_path(files, "Makefile"@);
    c_files_counted(files);
    reveal_strlit(" && make");
    reveal_strlit(" make");
    assert(layout_plan(files).build_cmd[0] =~= (tool_command("make"@) + seq![' ', '&', '&'])
        + " make"@);
}

/// Where nothing else tells how to run a workspace, its first Python file is run:
/// the command ends with that file's path.
pub proof fn first_python_file_is_run(files: Seq<Seq<char>>, i: int)
    requires
        !holds_file(files, "Cargo.toml"@),
        !one_c_file(files),
        !holds_file(files, "Makefile"@),
        0 <= i < files.len(),
        exists|stem: Seq<char>| files[i] == #[trigger] (stem + ".py"@),
        forall|k: int, stem: Seq<char>|
            0 <= k < i ==> (#[trigger] files[k]) != #[trigger] (stem + ".py"@),
    ensures
        layout_plan(files).build_cmd.len() == 0,
        layout_plan(files).run_cmd.len() == 1,
        exists|front: Seq<char>|
            layout_plan(files).run_cmd[0] == #[trigger] (front + (" python3 "@ + files[i])),
{
    has_file_by_path(files, "Cargo.toml"@);
    has_file_by_path(files, "Makefile"@);
    c_files_counted(files);
    first_ending_is_the_first(files, ".py"@, i);
    reveal_strlit(" && python3 ");
    reveal_strlit(" python3 ");
    let front = tool_command("python3"@) + seq![' ', '&', '&'];
    assert(layout_plan(files).run_cmd[0] =~= front + (" python3 "@ + files[i]));
}

/// A Node package that is nothing else is installed and its index is run; a
/// workspace that is nothing known is only listed, and nothing is built.
pub proof fn other_workspaces_are_installed_or_listed(files: Seq<Seq<char>>)
    requires
        !holds_file(files, "Cargo.toml"@),
        !one_c_file(files),
        !holds_file(files, "Makefile"@),
        forall|k: int, stem: Seq<char>|
            0 <= k < files.len() ==> (#[trigger] files[k]) != #[trigger] (stem + ".py"@),
    ensures
        holds_file(files, "package.json"@) ==> layout_plan(files).build_cmd.len() == 1 && (
        exists|front: Seq<char>|
            layout_plan(files).build_cmd[0] == #[trigger] (front + " npm install"@))
            && layout_plan(files).run_cmd == seq!["node index.js"@],
        !holds_file(files, "package.json"@) ==> layout_plan(files).build_cmd.len() == 0
            && layout_plan(files).run_cmd == seq!["ls -la"@],
{
    has_file_by_path(files, "Cargo.toml"@);
    has_file_by_path(files, "Makefile"@);
    has_file_by_path(files, "package.json"@);
    c_files_counted(files);
    no_ending(files, ".py"@);
    reveal_strlit(" && npm install");
    reveal_strlit(" npm install");
    if holds_file(files, "package.json"@) {
        assert(layout_plan(files).build_cmd[0] =~= (tool_command("npm"@) + seq![' ', '&', '&'])
            + " npm install"@);
    }
}

/// Whatever the layout, a plan works in the project's directory, and a command that
/// needs a tool first looks for that very tool and installs it.
pub proof fn tools_are_looked_for_and_installed(pkg: Seq<char>, files: Seq<Seq<char>>)
    ensures
        layout_plan(files).work_dir == "/root/project"@,
        exists|rest: Seq<char>|
            tool_command(pkg) == #[trigger] ("(command -v "@ + pkg + " "@ + rest),
        exists|front: Seq<char>|
            tool_command(pkg) == #[trigger] (front + " install -y -qq "@ + pkg + "))"@),
{
    let middle =
        " >/dev/null 2>&1 || (DEBIAN_FRONTEND=noninteractive apt-get update -qq && DEBIAN_FRONTEND=noninteractive apt-get install -y -qq "@;
    reveal_strlit(
        " >/dev/null 2>&1 || (DEBIAN_FRONTEND=noninteractive apt-get update -qq && DEBIAN_FRONTEND=noninteractive apt-get install -y -qq ",
    );
    reveal_strlit(" install -y -qq ");
    reveal_strlit(" ");
    let end = " install -y -qq "@;
    let rest = middle.drop_first() + pkg + "))"@;
    assert(middle =~= " "@ + middle.drop_first());
    assert(tool_command(pkg) =~= "(command -v "@ + pkg + " "@ + rest);
    let front = "(command -v "@ + pkg + middle.take(middle.len() - end.len());
    assert(middle =~= middle.take(middle.len() - end.len()) + end);
    assert(tool_command(pkg) =~= front + end + pkg + "))"@);
}

/// Where the outermost braces stand in a text that loses a few characters, none of them
/// a brace, at both ends.
proof fn braces_stand_around(
    s: Seq<char>,
    first: int,
    last: int,
    f: Seq<char>,
    t: Seq<char>,
    b: Seq<char>,
)
    requires
        0 <= first < last < s.len(),
        s[first] == '{',
        s[last] == '}',
        forall|i: int| 0 <= i < first ==> #[trigger] s[i] != '{',
        forall|i: int| last < i < s.len() ==> #[trigger] s[i] != '}',
        s == f + t + b,
        !f.contains('{'),
        !b.contains('}'),
    ensures
        f.len() <= first,
        last < f.len() + t.len(),
        t.index_of_first('{') == Some(first - f.len()),
        t.index_of_last('}') == Some(last - f.len()),
{
    if f.len() > first {
        assert(f[first] == s[first]);
        assert(false);
    }
    if last >= f.len() + t.len() {
        assert(b[last - f.len() - t.len()] == s[last]);
        assert(false);
    }
    assert(t[first - f.len()] == s[first]);
    assert(t[last - f.len()] == s[last]);
    assert(t.contains('{') && t.contains('}'));
    t.index_of_first_ensures('{');
    t.index_of_last_ensures('}');
    let i = t.index_of_first('{')->Some_0;
    let j = t.index_of_last('}')->Some_0;
    assert(t[i] == s[f.len() + i]);
    assert(t[j] == s[f.len() + j]);
}

/// A model may talk around its answer: an object between prose without braces is
/// found.
pub proof fn object_is_found_in_prose(front: Seq<char>, object: Seq<char>, back: Seq<char>)
    requires
        object.len() >= 2,
        object[0] == '{',
        object.last() == '}',
        !front.contains('{'),
        !back.contains('}'),
    ensures
        json_part(front + object + back) == object,
{
    let s = front + object + back;
    let t = trimmed(s);
    trimmed_loses_only_white_space(s);
    let (f, b) = choose|f: Seq<char>, b: Seq<char>|
        s == #[trigger] (f + trimmed(s) + b) && (forall|i: int|
            0 <= i < f.len() ==> white_space(#[trigger] f[i])) && (forall|i: int|
            0 <= i < b.len() ==> white_space(#[trigger] b[i]));
    let first = front.len() as int;
    let last = front.len() + object.len() - 1;
    assert(s[first] == object[0]);
    assert(s[last] == object.last());
    assert forall|i: int| 0 <= i < first implies #[trigger] s[i] != '{' by {
        assert(front[i] == s[i]);
    }
    assert forall|i: int| last < i < s.len() implies #[trigger] s[i] != '}' by {
        assert(back[i - last - 1] == s[i]);
    }
    braces_stand_around(s, first, last, f, t, b);
    let from = first - f.len();
    assert(t =~= s.subrange(f.len() as int, (f.len() + t.len()) as int));
    assert(t.subrange(from, last - f.len() + 1) =~= s.subrange(first, last + 1));
    assert(s.subrange(first, last + 1) =~= object);
}

/// The words of a list are its texts, in order.
pub proof fn words_are_the_texts(words: Seq<Seq<char>>)
    ensures
        strings_in(words.map_values(|s: Seq<char>| JsonView::Text(s))) == words,
    decreases words.len(),
{
    let text = |s: Seq<char>| JsonView::Text(s);
    let list = words.map_values(text);
    if words.len() > 0 {
        assert(list.drop_last() =~= words.drop_last().map_values(text));
        words_are_the_texts(words.drop_last());
        assert(words =~= words.drop_last().push(words.last()));
    } else {
        assert(words =~= Seq::empty());
    }
}

/// A plan says what the model answered: its commands word for word, and its working
/// directory, or the usual one. Without anything to run it is no plan.
pub proof fn plan_is_what_the_model_answers(
    j: Map<Seq<char>, JsonView>,
    build: Seq<Seq<char>>,
    run: Seq<Seq<char>>,
    files: nat,
    r: std::result::Result<Plan, PlanError>,
)
    requires
        plan_read(JsonView::Fields(j), files, r),
        j.contains_key("build_cmd"@) && j["build_cmd"@] == JsonView::List(
            build.map_values(|s: Seq<char>| JsonView::Text(s)),
        ),
        j.contains_key("run_cmd"@) && j["run_cmd"@] == JsonView::List(
            run.map_values(|s: Seq<char>| JsonView::Text(s)),
        ),
    ensures
        run.len() == 0 <==> r is Err,
        r matches Ok(plan) ==> plan@.build_cmd == build && plan@.run_cmd == run,
        r is Ok && j.contains_key("work_dir"@) && j["work_dir"@] is Text ==> r->Ok_0@.work_dir
            == j["work_dir"@]->Text_0,
        r is Ok && !j.contains_key("work_dir"@) ==> r->Ok_0@.work_dir == "/root/project"@,
{
    words_are_the_texts(build);
    words_are_the_texts(run);
}

} // verus!
