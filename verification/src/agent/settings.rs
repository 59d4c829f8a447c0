//! Settings of the language model: from the environment, or from a file.
use vstd::prelude::*;
use vstd::string::*;
use crate::paths::{join_path, joined_path};
use crate::table::{value_of, TextTable};
use crate::text::{cat3, chars_of, digit_char, lines, lines_of, text_of, trim_bounds, trim_end, trim_start, trimmed};
use crate::text::trimmed_loses_only_white_space;
use crate::types::texts;

verus! {

/// Settings of a language model.
#[derive(Debug, PartialEq, Eq)]
pub struct LlmConfig {
    /// Address of the service.
    pub base_url: String,
    /// Key of the service; empty where it needs none.
    pub api_key: String,
    /// The model.
    pub model: String,
}

/// Where the settings file lies: the given path, or a path below the home
/// directory.
pub open spec fn settings_path(given: Option<Seq<char>>, home: Option<Seq<char>>) -> Seq<char> {
    match given {
        Some(p) if p.len() > 0 => p,
        _ => joined_path(
            match home {
                Some(h) => h,
                None => "."@,
            },
            ".config/eo-agent/config.env"@,
        ),
    }
}

/// The text of an optional value.
pub open spec fn optional(o: Option<String>) -> Option<Seq<char>> {
    match o {
        Some(s) => Some(s@),
        None => None,
    }
}

fn is_blank(s: &str) -> (r: bool)
    ensures
        r == (s@.len() == 0),
{
    let r = crate::text::str_eq(s, "");
    proof {
        reveal_strlit("");
        if s@.len() == 0 {
            assert(s@ =~= ""@);
        }
    }
    r
}

/// Where the settings file lies.
pub fn config_path(given: &Option<String>, home: &Option<String>) -> (r: String)
    ensures
        r@ == settings_path(optional(*given), optional(*home)),
{
    match given {
        Some(p) => {
            if !is_blank(p.as_str()) {
                return p.clone();
            }
        },
        None => {},
    }
    let base = match home {
        Some(h) => h.as_str(),
        None => ".",
    };
    join_path(base, ".config/eo-agent/config.env")
}

/// The octal notation of a number, without leading zeros.
pub open spec fn octal(n: nat) -> Seq<char>
    decreases n,
{
    if n < 8 {
        seq![digit_char(n)]
    } else {
        octal(n / 8).push(digit_char(n % 8))
    }
}

fn push_octal(s: &mut String, n: u32)
    ensures
        final(s)@ == old(s)@ + octal(n as nat),
    decreases n,
{
    if n < 8 {
        s.push((48u8 + n as u8) as char);
    } else {
        push_octal(s, n / 8);
        s.push((48u8 + (n % 8) as u8) as char);
    }
    assert(s@ =~= old(s)@ + octal(n as nat));
}

/// The warning about a settings file that others can use; none, where only its
/// owner can.
pub fn warn_if_public(path: &str, mode: u32) -> (r: Option<String>)
    ensures
        if mode % 64 == 0 {
            r is None
        } else {
            r is Some && r->Some_0@ == "[eo-agent] warning: "@ + path@
                + " is readable by others (mode "@ + octal((mode % 512) as nat)
                + "); run: chmod 600 "@ + path@
        },
{
    assert(mode & 0o077 == mode % 64) by (bit_vector);
    assert(mode & 0o777 == mode % 512) by (bit_vector);
    if mode & 0o077 == 0 {
        return None;
    }
    let mut text = cat3("[eo-agent] warning: ", path, " is readable by others (mode ");
    push_octal(&mut text, mode & 0o777);
    text.append("); run: chmod 600 ");
    text.append(path);
    Some(text)
}

/// A text without the quotation marks around it.
pub open spec fn unquoted(s: Seq<char>) -> Seq<char>
    decreases s.len(),
{
    if s.len() > 0 && s[0] == '"' {
        unquoted(s.drop_first())
    } else if s.len() > 0 && s.last() == '"' {
        unquoted(s.drop_last())
    } else {
        s
    }
}

/// What a line of the settings file sets: a key and a value around the first `=`;
/// nothing, where the line is blank, a comment or has no `=`.
pub open spec fn setting(line: Seq<char>) -> Option<(Seq<char>, Seq<char>)> {
    let t = trimmed(line);
    if t.len() == 0 || t[0] == '#' {
        None
    } else {
        match t.index_of_first('=') {
            Some(i) => Some((trimmed(t.take(i)), unquoted(trimmed(t.skip(i + 1))))),
            None => None,
        }
    }
}

fn unquote(chars: &Vec<char>, from: usize, to: usize) -> (r: (usize, usize))
    requires
        from <= to <= chars@.len(),
    ensures
        from <= r.0 <= r.1 <= to,
        chars@.subrange(r.0 as int, r.1 as int) == unquoted(
            chars@.subrange(from as int, to as int),
        ),
{
    let mut a: usize = from;
    let mut b: usize = to;
    while a < b && (chars[a] == '"' || chars[b - 1] == '"')
        invariant
            from <= a <= b <= to <= chars@.len(),
            unquoted(chars@.subrange(from as int, to as int)) == unquoted(
                chars@.subrange(a as int, b as int),
            ),
        decreases b - a,
    {
        let ghost s = chars@.subrange(a as int, b as int);
        if chars[a] == '"' {
            assert(s.drop_first() =~= chars@.subrange(a + 1, b as int));
            a += 1;
        } else {
            assert(s.drop_last() =~= chars@.subrange(a as int, b - 1));
            b -= 1;
        }
    }
    (a, b)
}

fn setting_of(line: &str) -> (r: Option<(String, String)>)
    ensures
        match r {
            Some((k, v)) => setting(line@) == Some((k@, v@)),
            None => setting(line@) is None,
        },
{
    let chars = chars_of(line);
    assert(chars@.subrange(0, chars@.len() as int) =~= line@);
    let (from, to) = trim_bounds(&chars, 0, chars.len());
    let ghost t = trimmed(line@);
    assert(t == chars@.subrange(from as int, to as int));
    if from == to || chars[from] == '#' {
        return None;
    }
    proof {
        t.index_of_first_ensures('=');
    }
    let mut at: usize = from;
    while at < to && chars[at] != '='
        invariant
            from <= at <= to <= chars@.len(),
            t == chars@.subrange(from as int, to as int),
            forall|k: int| 0 <= k < at - from ==> t[k] != '=',
        decreases to - at,
    {
        at += 1;
    }
    if at == to {
        assert(!t.contains('='));
        return None;
    }
    proof {
        assert(t[at - from] == '=');
        assert(t.contains('='));
        let i = t.index_of_first('=')->Some_0;
        assert(i == at - from) by {
            if i < at - from {
                assert(t[i] != '=');
            }
        }
        assert(t.take(i) =~= chars@.subrange(from as int, at as int));
        assert(t.skip(i + 1) =~= chars@.subrange(at + 1, to as int));
    }
    let (ka, kb) = trim_bounds(&chars, from, at);
    let (va, vb) = trim_bounds(&chars, at + 1, to);
    let (ua, ub) = unquote(&chars, va, vb);
    Some((text_of(&chars, ka, kb), text_of(&chars, ua, ub)))
}

/// What the lines of a settings file set, by key: the last one counts.
pub open spec fn settings_in(v: Seq<Seq<char>>) -> Map<Seq<char>, Seq<char>>
    decreases v.len(),
{
    if v.len() == 0 {
        Map::empty()
    } else {
        match setting(v.last()) {
            Some((k, x)) => settings_in(v.drop_last()).insert(k, x),
            None => settings_in(v.drop_last()),
        }
    }
}

/// Whether a table holds the settings of a map.
pub open spec fn holds(rows: Seq<(Seq<char>, String)>, m: Map<Seq<char>, Seq<char>>) -> bool {
    forall|k: Seq<char>|
        #![trigger value_of(rows, k)]
        #![trigger m.contains_key(k)]
        match value_of(rows, k) {
            Some(v) => m.contains_key(k) && m[k] == v@,
            None => !m.contains_key(k),
        }
}

/// The settings of a file, given its text; none, where there is no file.
pub fn read_config_file(content: &Option<String>) -> (r: TextTable<String>)
    ensures
        r.wf(),
        holds(
            r@,
            match *content {
                Some(text) => settings_in(lines(text@)),
                None => Map::empty(),
            },
        ),
{
    let mut table: TextTable<String> = TextTable::new();
    assert forall|k: Seq<char>| #[trigger] value_of(table@, k) is None by {}
    match content {
        None => table,
        Some(text) => {
            let all = lines_of(text.as_str());
            let ghost ls = lines(text@);
            let mut i: usize = 0;
            assert(ls.take(0) =~= Seq::<Seq<char>>::empty());
            while i < all.len()
                invariant
                    i <= all@.len(),
                    texts(all@) == ls,
                    table.wf(),
                    holds(table@, settings_in(ls.take(i as int))),
                decreases all@.len() - i,
            {
                assert(ls.take(i + 1).drop_last() =~= ls.take(i as int));
                assert(ls.take(i + 1).last() == all@[i as int]@);
                match setting_of(all[i].as_str()) {
                    Some((k, v)) => {
                        let ghost before = table@;
                        let ghost key = k@;
                        let ghost m = settings_in(ls.take(i as int));
                        table.insert(k, v);
                        proof {
                            assert forall|x: Seq<char>|
                                #![trigger value_of(table@, x)]
                                #![trigger m.insert(key, v@).contains_key(x)]
                                match value_of(table@, x) {
                                    Some(y) => m.insert(key, v@).contains_key(x) && m.insert(
                                        key,
                                        v@,
                                    )[x] == y@,
                                    None => !m.insert(key, v@).contains_key(x),
                                } by {
                                crate::table::with_row_values(before, key, v, x);
                                assert(value_of(before, x) is None || m.contains_key(x));
                            }
                        }
                    },
                    None => {},
                }
                i += 1;
            }
            assert(ls.take(i as int) =~= ls);
            assert(ls.len() == all@.len());
            table
        },
    }
}

/// The first of several names that has a value that is not empty.
pub open spec fn first_set(rows: Seq<(Seq<char>, String)>, names: Seq<Seq<char>>) -> Option<Seq<char>>
    decreases names.len(),
{
    if names.len() == 0 {
        None
    } else {
        match first_set(rows, names.drop_last()) {
            Some(v) => Some(v),
            None => match value_of(rows, names.last()) {
                Some(v) => if v@.len() > 0 {
                    Some(v@)
                } else {
                    None
                },
                None => None,
            },
        }
    }
}

/// A setting under its name or an alias: from the environment, or else from the
/// file.
pub open spec fn picked(
    env: Seq<(Seq<char>, String)>,
    file: Seq<(Seq<char>, String)>,
    names: Seq<Seq<char>>,
) -> Option<Seq<char>> {
    match first_set(env, names) {
        Some(v) => Some(v),
        None => first_set(file, names),
    }
}

/// A name and its aliases.
pub open spec fn names_of(key: Seq<char>, aliases: Seq<&str>) -> Seq<Seq<char>> {
    seq![key] + Seq::new(aliases.len(), |i: int| aliases[i]@)
}

fn find_set(table: &TextTable<String>, key: &str, aliases: &[&str]) -> (r: Option<String>)
    ensures
        match r {
            Some(v) => first_set(table@, names_of(key@, aliases@)) == Some(v@),
            None => first_set(table@, names_of(key@, aliases@)) is None,
        },
{
    let ghost names = names_of(key@, aliases@);
    let mut found: Option<String> = None;
    match table.get(key) {
        Some(v) => {
            if !is_blank(v.as_str()) {
                found = Some(v.clone());
            }
        },
        None => {},
    }
    proof {
        assert(names.take(1).drop_last() =~= Seq::<Seq<char>>::empty());
        assert(names.take(1).last() == key@);
        reveal_with_fuel(first_set, 2);
    }
    let mut i: usize = 0;
    while i < aliases.len()
        invariant
            i <= aliases@.len(),
            names == names_of(key@, aliases@),
            match found {
                Some(v) => first_set(table@, names.take(i + 1)) == Some(v@),
                None => first_set(table@, names.take(i + 1)) is None,
            },
        decreases aliases@.len() - i,
    {
        assert(names.take(i + 2).drop_last() =~= names.take(i + 1));
        assert(names.take(i + 2).last() == aliases@[i as int]@);
        if found.is_none() {
            match table.get(aliases[i]) {
                Some(v) => {
                    if !is_blank(v.as_str()) {
                        found = Some(v.clone());
                    }
                },
                None => {},
            }
        }
        i += 1;
    }
    assert(names.take(i + 1) =~= names);
    found
}

/// A setting under its name or an alias: from the environment, or else from the
/// file. An empty value counts as none.
pub fn pick(env: &TextTable<String>, file: &TextTable<String>, key: &str, aliases: &[&str]) -> (r: Option<
    String,
>)
    ensures
        match r {
            Some(v) => picked(env@, file@, names_of(key@, aliases@)) == Some(v@),
            None => picked(env@, file@, names_of(key@, aliases@)) is None,
        },
{
    match find_set(env, key, aliases) {
        Some(v) => Some(v),
        None => find_set(file, key, aliases),
    }
}

/// The settings of the language model; none, where no service is set.
pub fn llm_config(env: &TextTable<String>, file: &TextTable<String>) -> (r: Option<LlmConfig>)
    ensures
        match picked(env@, file@, seq!["EO_LLM_BASE_URL"@, "OPENAI_BASE_URL"@]) {
            None => r is None,
            Some(url) => {
                &&& r is Some
                &&& r->Some_0.base_url@ == url
                &&& r->Some_0.api_key@ == (match picked(
                    env@,
                    file@,
                    seq!["EO_LLM_API_KEY"@, "OPENAI_API_KEY"@],
                ) {
                    Some(k) => k,
                    None => Seq::empty(),
                })
                &&& r->Some_0.model@ == (match picked(
                    env@,
                    file@,
                    seq!["EO_LLM_MODEL"@, "OPENAI_MODEL"@],
                ) {
                    Some(m) => m,
                    None => "gpt-4o-mini"@,
                })
            },
        },
{
    let base_url = match pick_two(env, file, "EO_LLM_BASE_URL", "OPENAI_BASE_URL") {
        Some(u) => u,
        None => {
            return None;
        },
    };
    let api_key = match pick_two(env, file, "EO_LLM_API_KEY", "OPENAI_API_KEY") {
        Some(k) => k,
        None => {
            let none = String::new();
            assert(none@ =~= Seq::<char>::empty());
            none
        },
    };
    let model = match pick_two(env, file, "EO_LLM_MODEL", "OPENAI_MODEL") {
        Some(m) => m,
        None => String::from_str("gpt-4o-mini"),
    };
    Some(LlmConfig { base_url, api_key, model })
}

fn pick_two(env: &TextTable<String>, file: &TextTable<String>, key: &str, alias: &str) -> (r: Option<
    String,
>)
    ensures
        match r {
            Some(v) => picked(env@, file@, seq![key@, alias@]) == Some(v@),
            None => picked(env@, file@, seq![key@, alias@]) is None,
        },
{
    let mut aliases: Vec<&str> = Vec::new();
    aliases.push(alias);
    assert(names_of(key@, aliases@) =~= seq![key@, alias@]);
    pick(env, file, key, aliases.as_slice())
}

/// Octal digits run from zero to seven, and different numbers have different
/// notations.
pub proof fn octal_tells_numbers_apart(m: nat, n: nat)
    ensures
        octal(m).len() > 0,
        forall|i: int| 0 <= i < octal(m).len() ==> '0' <= #[trigger] octal(m)[i] <= '7',
        octal(m) == octal(n) ==> m == n,
    decreases m,
{
    assert(octal(m).last() as int == 48 + m % 8);
    assert(octal(n).last() as int == 48 + n % 8);
    if m >= 8 {
        octal_tells_numbers_apart(m / 8, n / 8);
        assert(octal(m).drop_last() =~= octal(m / 8));
        assert forall|i: int| 0 <= i < octal(m).len() implies '0' <= #[trigger] octal(m)[i]
            <= '7' by {
            if i < octal(m).len() - 1 {
                assert(octal(m)[i] == octal(m / 8)[i]);
            }
        }
    }
    if n >= 8 {
        octal_is_not_empty(n / 8);
        assert(octal(n).drop_last() =~= octal(n / 8));
    }
}

proof fn octal_is_not_empty(n: nat)
    ensures
        octal(n).len() > 0,
{
}

/// A value loses only the quotation marks around it, and keeps none there.
pub proof fn only_quotes_are_taken_off(s: Seq<char>) -> (at: int)
    ensures
        0 <= at,
        at + unquoted(s).len() <= s.len(),
        s.subrange(at, at + unquoted(s).len()) == unquoted(s),
        forall|i: int| 0 <= i < at ==> #[trigger] s[i] == '"',
        forall|i: int| at + unquoted(s).len() <= i < s.len() ==> #[trigger] s[i] == '"',
        unquoted(s).len() > 0 ==> unquoted(s)[0] != '"' && unquoted(s).last() != '"',
    decreases s.len(),
{
    if s.len() > 0 && s[0] == '"' {
        let rest = s.drop_first();
        let k = only_quotes_are_taken_off(rest);
        let at = k + 1;
        assert(s.subrange(at, at + unquoted(s).len()) =~= rest.subrange(
            k,
            k + unquoted(rest).len(),
        ));
        assert forall|i: int| 0 <= i < at implies #[trigger] s[i] == '"' by {
            if i > 0 {
                assert(rest[i - 1] == s[i]);
            }
        }
        assert forall|i: int| at + unquoted(s).len() <= i < s.len() implies #[trigger] s[i]
            == '"' by {
            assert(rest[i - 1] == s[i]);
        }
        at
    } else if s.len() > 0 && s.last() == '"' {
        let rest = s.drop_last();
        let at = only_quotes_are_taken_off(rest);
        assert(s.subrange(at, at + unquoted(s).len()) =~= rest.subrange(
            at,
            at + unquoted(rest).len(),
        ));
        assert forall|i: int| 0 <= i < at implies #[trigger] s[i] == '"' by {
            assert(rest[i] == s[i]);
        }
        assert forall|i: int| at + unquoted(s).len() <= i < s.len() implies #[trigger] s[i]
            == '"' by {
            if i < s.len() - 1 {
                assert(rest[i] == s[i]);
            }
        }
        at
    } else {
        assert(s.subrange(0, s.len() as int) =~= s);
        0
    }
}

/// A line `key=value` sets the key to the value, where neither has white space or
/// quotation marks around it, and the key has no `=` and is no comment.
pub proof fn line_sets_its_key(key: Seq<char>, value: Seq<char>)
    requires
        key.len() > 0,
        key[0] != '#',
        !key.contains('='),
        trimmed(key) == key,
        value.len() > 0,
        trimmed(value) == value,
        value[0] != '"',
        value.last() != '"',
    ensures
        setting(key + seq!['='] + value) == Some((key, value)),
{
    let line = key + seq!['='] + value;
    trimmed_loses_only_white_space(key);
    trimmed_loses_only_white_space(value);
    assert(line[0] == key[0]);
    assert(line.last() == value.last());
    assert(trim_start(line) == line);
    assert(trim_end(line) == line);
    line.index_of_first_ensures('=');
    assert(line[key.len() as int] == '=');
    let at = line.index_of_first('=')->Some_0;
    assert(line.contains('='));
    if at < key.len() {
        assert(line[at] == key[at]);
        assert(key.contains(key[at]));
    }
    assert(at == key.len());
    assert(line.take(at) =~= key);
    assert(line.skip(at + 1) =~= value);
}

/// A comment and a blank line set nothing.
pub proof fn comments_set_nothing(line: Seq<char>)
    ensures
        trimmed(line).len() == 0 ==> setting(line) is None,
        trimmed(line).len() > 0 && trimmed(line)[0] == '#' ==> setting(line) is None,
        !line.contains('=') ==> setting(line) is None,
{
    let t = trimmed(line);
    t.index_of_first_ensures('=');
    trimmed_loses_only_white_space(line);
    let (front, back) = choose|front: Seq<char>, back: Seq<char>|
        line == #[trigger] (front + trimmed(line) + back);
    if t.contains('=') {
        let i = choose|i: int| 0 <= i < t.len() && t[i] == '=';
        assert(line[front.len() + i] == '=');
        assert(line.contains('='));
    }
}

/// Of several lines for one key the last one counts, and nothing is set that no line
/// sets.
pub proof fn last_line_counts(v: Seq<Seq<char>>, key: Seq<char>, i: int)
    ensures
        settings_in(v).contains_key(key) <==> exists|k: int|
            0 <= k < v.len() && setting(#[trigger] v[k]) is Some && setting(v[k])->Some_0.0 == key,
        0 <= i < v.len() && setting(v[i]) is Some && setting(v[i])->Some_0.0 == key && (forall|
            k: int,
        |
            i < k < v.len() && setting(#[trigger] v[k]) is Some ==> setting(v[k])->Some_0.0 != key)
            ==> settings_in(v)[key] == setting(v[i])->Some_0.1,
    decreases v.len(),
{
    if v.len() > 0 {
        let front = v.drop_last();
        last_line_counts(front, key, i);
        assert(v[v.len() - 1] == v.last());
        assert forall|k: int| 0 <= k < front.len() implies front[k] == #[trigger] v[k] by {}
        if settings_in(front).contains_key(key) {
            let k = choose|k: int|
                0 <= k < front.len() && setting(#[trigger] front[k]) is Some && setting(
                    front[k],
                )->Some_0.0 == key;
            assert(v[k] == front[k]);
        }
        if exists|k: int|
            0 <= k < v.len() && setting(#[trigger] v[k]) is Some && setting(v[k])->Some_0.0
                == key {
            let k = choose|k: int|
                0 <= k < v.len() && setting(#[trigger] v[k]) is Some && setting(v[k])->Some_0.0
                    == key;
            if k < front.len() {
                assert(front[k] == v[k]);
            }
        }
        if 0 <= i < front.len() {
            assert(front[i] == v[i]);
            if forall|k: int|
                i < k < v.len() && setting(#[trigger] v[k]) is Some ==> setting(v[k])->Some_0.0
                    != key {
                assert forall|k: int| i < k < front.len() && setting(#[trigger] front[k]) is Some
                    implies setting(front[k])->Some_0.0 != key by {
                    assert(front[k] == v[k]);
                }
            }
        }
    }
}

proof fn first_set_is_the_first(rows: Seq<(Seq<char>, String)>, names: Seq<Seq<char>>, i: int)
    ensures
        first_set(rows, names) matches Some(v) ==> v.len() > 0 && exists|k: int|
            0 <= k < names.len() && (value_of(rows, #[trigger] names[k]) matches Some(s) && s@ == v),
        0 <= i < names.len() && value_of(rows, names[i]) is Some && value_of(
            rows,
            names[i],
        )->Some_0@.len() > 0 && (forall|k: int|
            0 <= k < i && value_of(rows, #[trigger] names[k]) is Some ==> value_of(
                rows,
                names[k],
            )->Some_0@.len() == 0) ==> first_set(rows, names) == Some(
            value_of(rows, names[i])->Some_0@,
        ),
    decreases names.len(),
{
    if names.len() > 0 {
        let front = names.drop_last();
        first_set_is_the_first(rows, front, i);
        assert(names[names.len() - 1] == names.last());
        if first_set(rows, front) is Some {
            let v = first_set(rows, front)->Some_0;
            let k = choose|k: int|
                0 <= k < front.len() && (value_of(rows, #[trigger] front[k]) matches Some(s) && s@
                    == v);
            assert(names[k] == front[k]);
            if i == front.len() {
                assert(value_of(rows, names[k])->Some_0@.len() > 0);
            }
        }
        if 0 <= i < front.len() {
            assert(front[i] == names[i]);
            if forall|k: int|
                0 <= k < i && value_of(rows, #[trigger] names[k]) is Some ==> value_of(
                    rows,
                    names[k],
                )->Some_0@.len() == 0 {
                assert forall|k: int|
                    0 <= k < i && value_of(rows, #[trigger] front[k]) is Some implies value_of(
                    rows,
                    front[k],
                )->Some_0@.len() == 0 by {
                    assert(front[k] == names[k]);
                }
            }
        }
    }
}

/// A setting comes from the environment where that has one, under the first of its
/// names that is not empty, and from the file only where the environment has none.
pub proof fn environment_comes_before_the_file(
    env: Seq<(Seq<char>, String)>,
    file: Seq<(Seq<char>, String)>,
    names: Seq<Seq<char>>,
    i: int,
)
    requires
        0 <= i < names.len(),
    ensures
        value_of(env, names[i]) is Some && value_of(env, names[i])->Some_0@.len() > 0 && (forall|
            k: int,
        |
            0 <= k < i && value_of(env, #[trigger] names[k]) is Some ==> value_of(
                env,
                names[k],
            )->Some_0@.len() == 0) ==> picked(env, file, names) == Some(
            value_of(env, names[i])->Some_0@,
        ),
        (forall|k: int| 0 <= k < names.len() ==> value_of(env, #[trigger] names[k]) is None)
            && value_of(file, names[i]) is Some && value_of(file, names[i])->Some_0@.len() > 0 && (
        forall|k: int|
            0 <= k < i && value_of(file, #[trigger] names[k]) is Some ==> value_of(
                file,
                names[k],
            )->Some_0@.len() == 0) ==> picked(env, file, names) == Some(
            value_of(file, names[i])->Some_0@,
        ),
        picked(env, file, names) matches Some(v) ==> v.len() > 0,
{
    first_set_is_the_first(env, names, i);
    first_set_is_the_first(file, names, i);
}

/// A settings file that is given is used; else it lies below the home directory.
pub proof fn given_settings_file_is_used(given: Seq<char>, home: Option<Seq<char>>)
    ensures
        given.len() > 0 ==> settings_path(Some(given), home) == given,
        given.len() == 0 ==> settings_path(Some(given), home) == settings_path(None, home),
        home matches Some(h) ==> h.len() > 0 ==> settings_path(None, home).take(h.len() as int) == h,
{
    reveal_strlit(".config/eo-agent/config.env");
    if home is Some {
        crate::paths::joined_path_lies_in_the_directory(
            home->Some_0,
            ".config/eo-agent/config.env"@,
        );
    }
}

} // verus!
