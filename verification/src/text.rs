//! Text helpers: comparison, numbers, trimming, lines and joining.
use vstd::prelude::*;
use vstd::string::*;
use vstd::utf8::*;

verus! {

/// Appends one character: the string then holds its old characters and `c`.
pub assume_specification[ String::push ](s: &mut String, c: char)
    ensures
        final(s)@ == old(s)@.push(c),
;

/// Two texts with the same UTF-8 bytes are the same text.
pub proof fn utf8_injective(a: Seq<char>, b: Seq<char>)
    requires
        encode_utf8(a) == encode_utf8(b),
    ensures
        a == b,
{
    encode_utf8_decode_utf8(a);
    encode_utf8_decode_utf8(b);
}

/// Whether two byte slices hold the same bytes.
pub fn bytes_eq(a: &[u8], b: &[u8]) -> (r: bool)
    ensures
        r == (a@ == b@),
{
    if a.len() != b.len() {
        return false;
    }
    let mut i: usize = 0;
    while i < a.len()
        invariant
            a@.len() == b@.len(),
            i <= a@.len(),
            forall|k: int| 0 <= k < i ==> a@[k] == b@[k],
        decreases a@.len() - i,
    {
        if a[i] != b[i] {
            return false;
        }
        i += 1;
    }
    assert(a@ =~= b@);
    true
}

/// Whether two texts are equal.
pub fn str_eq(a: &str, b: &str) -> (r: bool)
    ensures
        r == (a@ == b@),
{
    let r = bytes_eq(a.as_bytes(), b.as_bytes());
    proof {
        if r {
            utf8_injective(a@, b@);
        }
    }
    r
}

/// The characters of a text.
pub fn chars_of(s: &str) -> (r: Vec<char>)
    ensures
        r@ == s@,
{
    let mut out: Vec<char> = Vec::new();
    for c in iter: s.chars()
        invariant
            out@ == iter.seq().take(iter.index() as int),
            iter.seq() == s@,
    {
        out.push(c);
    }
    assert(s@.take(s@.len() as int) =~= s@);
    out
}

/// The text made of `chars[from..to]`.
pub fn text_of(chars: &Vec<char>, from: usize, to: usize) -> (r: String)
    requires
        from <= to <= chars@.len(),
    ensures
        r@ == chars@.subrange(from as int, to as int),
{
    let mut out = String::new();
    let mut i: usize = from;
    while i < to
        invariant
            from <= i <= to <= chars@.len(),
            out@ == chars@.subrange(from as int, i as int),
        decreases to - i,
    {
        out.push(chars[i]);
        assert(chars@.subrange(from as int, i as int).push(chars@[i as int])
            =~= chars@.subrange(from as int, i + 1));
        i += 1;
    }
    out
}

/// `a` followed by `b`.
pub fn cat2(a: &str, b: &str) -> (r: String)
    ensures
        r@ == a@ + b@,
{
    let mut s = String::from_str(a);
    s.append(b);
    s
}

/// `a`, `b` and `c` in a row.
pub fn cat3(a: &str, b: &str, c: &str) -> (r: String)
    ensures
        r@ == a@ + b@ + c@,
{
    let mut s = cat2(a, b);
    s.append(c);
    s
}

/// Four texts in a row.
pub fn cat4(a: &str, b: &str, c: &str, d: &str) -> (r: String)
    ensures
        r@ == a@ + b@ + c@ + d@,
{
    let mut s = cat3(a, b, c);
    s.append(d);
    s
}

/// Five texts in a row.
pub fn cat5(a: &str, b: &str, c: &str, d: &str, e: &str) -> (r: String)
    ensures
        r@ == a@ + b@ + c@ + d@ + e@,
{
    let mut s = cat4(a, b, c, d);
    s.append(e);
    s
}

/// A decimal digit as a character.
pub open spec fn digit_char(d: nat) -> char {
    (48 + d) as char
}

/// The decimal notation of a natural number, without leading zeros.
pub open spec fn decimal(n: nat) -> Seq<char>
    decreases n,
{
    if n < 10 {
        seq![digit_char(n)]
    } else {
        decimal(n / 10).push(digit_char(n % 10))
    }
}

/// The decimal notation of an integer, with a leading `-` below zero.
pub open spec fn signed_decimal(n: int) -> Seq<char> {
    if n < 0 {
        seq!['-'] + decimal((-n) as nat)
    } else {
        decimal(n as nat)
    }
}

fn push_digit(s: &mut String, d: u64)
    requires
        d < 10,
    ensures
        final(s)@ == old(s)@.push(digit_char(d as nat)),
{
    let c: char = (48u8 + d as u8) as char;
    s.push(c);
}

fn push_decimal(s: &mut String, n: u64)
    ensures
        final(s)@ == old(s)@ + decimal(n as nat),
    decreases n,
{
    if n < 10 {
        push_digit(s, n);
    } else {
        push_decimal(s, n / 10);
        push_digit(s, n % 10);
    }
    assert(s@ =~= old(s)@ + decimal(n as nat));
}

/// The decimal notation of `n`.
pub fn decimal_text(n: u64) -> (r: String)
    ensures
        r@ == decimal(n as nat),
{
    let mut s = String::new();
    push_decimal(&mut s, n);
    assert(s@ =~= decimal(n as nat));
    s
}

/// The decimal notation of a signed number.
pub fn signed_text(n: i64) -> (r: String)
    ensures
        r@ == signed_decimal(n as int),
{
    let mut s = String::new();
    if n < 0 {
        s.push('-');
        if n == i64::MIN {
            push_decimal(&mut s, 9223372036854775808u64);
        } else {
            push_decimal(&mut s, (-n) as u64);
        }
    } else {
        push_decimal(&mut s, n as u64);
    }
    assert(s@ =~= signed_decimal(n as int));
    s
}

/// Lexicographic order of byte strings.
pub open spec fn bytes_le(a: Seq<u8>, b: Seq<u8>) -> bool
    decreases a.len(),
{
    if a.len() == 0 {
        true
    } else if b.len() == 0 {
        false
    } else if a[0] != b[0] {
        a[0] < b[0]
    } else {
        bytes_le(a.drop_first(), b.drop_first())
    }
}

/// Order of texts: that of their UTF-8 bytes.
pub open spec fn text_le(a: Seq<char>, b: Seq<char>) -> bool {
    bytes_le(encode_utf8(a), encode_utf8(b))
}

proof fn bytes_le_total(a: Seq<u8>, b: Seq<u8>)
    ensures
        bytes_le(a, b) || bytes_le(b, a),
    decreases a.len(),
{
    if a.len() > 0 && b.len() > 0 && a[0] == b[0] {
        bytes_le_total(a.drop_first(), b.drop_first());
    }
}

proof fn bytes_le_transitive(a: Seq<u8>, b: Seq<u8>, c: Seq<u8>)
    requires
        bytes_le(a, b),
        bytes_le(b, c),
    ensures
        bytes_le(a, c),
    decreases a.len(),
{
    if a.len() > 0 && a[0] == b[0] && b[0] == c[0] {
        bytes_le_transitive(a.drop_first(), b.drop_first(), c.drop_first());
    }
}

proof fn bytes_le_antisymmetric(a: Seq<u8>, b: Seq<u8>)
    requires
        bytes_le(a, b),
        bytes_le(b, a),
    ensures
        a == b,
    decreases a.len(),
{
    if a.len() > 0 && b.len() > 0 {
        bytes_le_antisymmetric(a.drop_first(), b.drop_first());
        assert(a =~= seq![a[0]] + a.drop_first());
        assert(b =~= seq![b[0]] + b.drop_first());
    } else {
        assert(a =~= b);
    }
}

/// The order of texts is total, transitive and antisymmetric.
pub proof fn text_le_is_an_order(a: Seq<char>, b: Seq<char>, c: Seq<char>)
    ensures
        text_le(a, b) || text_le(b, a),
        text_le(a, b) && text_le(b, c) ==> text_le(a, c),
        text_le(a, b) && text_le(b, a) ==> a == b,
{
    let (x, y, z) = (encode_utf8(a), encode_utf8(b), encode_utf8(c));
    bytes_le_total(x, y);
    if bytes_le(x, y) && bytes_le(y, z) {
        bytes_le_transitive(x, y, z);
    }
    if bytes_le(x, y) && bytes_le(y, x) {
        bytes_le_antisymmetric(x, y);
        utf8_injective(a, b);
    }
}

/// Whether `a` comes before `b` or equals it.
pub fn is_text_le(a: &str, b: &str) -> (r: bool)
    ensures
        r == text_le(a@, b@),
{
    let x = a.as_bytes();
    let y = b.as_bytes();
    let mut i: usize = 0;
    assert(x@.skip(0) =~= x@);
    assert(y@.skip(0) =~= y@);
    while i < x.len() && i < y.len() && x[i] == y[i]
        invariant
            i <= x@.len(),
            i <= y@.len(),
            bytes_le(x@, y@) == bytes_le(x@.skip(i as int), y@.skip(i as int)),
        decreases x@.len() - i,
    {
        assert(x@.skip(i as int).drop_first() =~= x@.skip(i + 1));
        assert(y@.skip(i as int).drop_first() =~= y@.skip(i + 1));
        i += 1;
    }
    if i >= x.len() {
        true
    } else if i >= y.len() {
        false
    } else {
        x[i] < y[i]
    }
}

/// Whether a character is white space (the Unicode property `White_Space`).
pub open spec fn white_space(c: char) -> bool {
    ||| '\u{9}' <= c <= '\u{d}'
    ||| c == ' '
    ||| c == '\u{85}'
    ||| c == '\u{a0}'
    ||| c == '\u{1680}'
    ||| '\u{2000}' <= c <= '\u{200a}'
    ||| c == '\u{2028}'
    ||| c == '\u{2029}'
    ||| c == '\u{202f}'
    ||| c == '\u{205f}'
    ||| c == '\u{3000}'
}

/// Whether a character is white space.
pub fn is_white_space(c: char) -> (r: bool)
    ensures
        r == white_space(c),
{
    ('\u{9}' <= c && c <= '\u{d}') || c == ' ' || c == '\u{85}' || c == '\u{a0}' || c == '\u{1680}'
        || ('\u{2000}' <= c && c <= '\u{200a}') || c == '\u{2028}' || c == '\u{2029}' || c
        == '\u{202f}' || c == '\u{205f}' || c == '\u{3000}'
}

/// A text without its leading white space.
pub open spec fn trim_start(s: Seq<char>) -> Seq<char>
    decreases s.len(),
{
    if s.len() > 0 && white_space(s[0]) {
        trim_start(s.drop_first())
    } else {
        s
    }
}

/// A text without its trailing white space.
pub open spec fn trim_end(s: Seq<char>) -> Seq<char>
    decreases s.len(),
{
    if s.len() > 0 && white_space(s.last()) {
        trim_end(s.drop_last())
    } else {
        s
    }
}

/// A text without its surrounding white space.
pub open spec fn trimmed(s: Seq<char>) -> Seq<char> {
    trim_end(trim_start(s))
}

/// The bounds of a text without its surrounding white space.
pub fn trim_bounds(chars: &Vec<char>, from: usize, to: usize) -> (r: (usize, usize))
    requires
        from <= to <= chars@.len(),
    ensures
        from <= r.0 <= r.1 <= to,
        chars@.subrange(r.0 as int, r.1 as int) == trimmed(chars@.subrange(from as int, to as int)),
{
    let ghost whole = chars@.subrange(from as int, to as int);
    let mut a: usize = from;
    while a < to && is_white_space(chars[a])
        invariant
            from <= a <= to <= chars@.len(),
            trim_start(whole) == trim_start(chars@.subrange(a as int, to as int)),
        decreases to - a,
    {
        assert(chars@.subrange(a as int, to as int).drop_first() =~= chars@.subrange(
            a + 1,
            to as int,
        ));
        a += 1;
    }
    let mut b: usize = to;
    while b > a && is_white_space(chars[b - 1])
        invariant
            a <= b <= to <= chars@.len(),
            trim_end(chars@.subrange(a as int, to as int)) == trim_end(
                chars@.subrange(a as int, b as int),
            ),
        decreases b - a,
    {
        assert(chars@.subrange(a as int, b as int).drop_last() =~= chars@.subrange(
            a as int,
            b - 1,
        ));
        b -= 1;
    }
    (a, b)
}

/// A text without its surrounding white space.
pub fn trim_text(s: &str) -> (r: String)
    ensures
        r@ == trimmed(s@),
{
    let chars = chars_of(s);
    assert(chars@.subrange(0, chars@.len() as int) =~= s@);
    let (a, b) = trim_bounds(&chars, 0, chars.len());
    text_of(&chars, a, b)
}

/// A line without the carriage return before its end.
pub open spec fn without_cr(s: Seq<char>) -> Seq<char> {
    if s.len() > 0 && s.last() == '\r' {
        s.drop_last()
    } else {
        s
    }
}

/// The lines of a text: a line ends at a line feed, with or without a carriage
/// return before it; the last line needs no end.
pub open spec fn lines(s: Seq<char>) -> Seq<Seq<char>>
    decreases s.len(),
{
    if s.len() == 0 {
        Seq::empty()
    } else {
        match s.index_of_first('\n') {
            Some(i) => if 0 <= i < s.len() {
                seq![without_cr(s.take(i))] + lines(s.skip(i + 1))
            } else {
                seq![s]
            },
            None => seq![s],
        }
    }
}

/// The lines of a text.
pub fn lines_of(s: &str) -> (r: Vec<String>)
    ensures
        crate::types::texts(r@) == lines(s@),
{
    let chars = chars_of(s);
    let n: usize = chars.len();
    let mut out: Vec<String> = Vec::new();
    let mut start: usize = 0;
    let mut i: usize = 0;
    assert(s@.skip(0) =~= s@);
    assert(crate::types::texts(out@) + lines(s@.skip(0)) =~= lines(s@));
    while i < n
        invariant
            chars@ == s@,
            n == chars@.len(),
            start <= i <= n,
            forall|k: int| start <= k < i ==> chars@[k] != '\n',
            crate::types::texts(out@) + lines(s@.skip(start as int)) == lines(s@),
        decreases n - i,
    {
        if chars[i] == '\n' {
            let ghost before = crate::types::texts(out@);
            let ghost rest = s@.skip(start as int);
            let end: usize = if i > start && chars[i - 1] == '\r' {
                i - 1
            } else {
                i
            };
            let line = text_of(&chars, start, end);
            proof {
                rest.index_of_first_ensures('\n');
                assert(rest[i - start] == '\n');
                assert(rest.contains('\n'));
                let at = rest.index_of_first('\n')->0;
                assert(at == i - start) by {
                    if at < i - start {
                        assert(chars@[start + at] == rest[at]);
                    }
                }
                assert(rest.take(at) =~= chars@.subrange(start as int, i as int));
                assert(line@ =~= without_cr(rest.take(at)));
                assert(rest.skip(at + 1) =~= s@.skip(i + 1));
            }
            out.push(line);
            assert(crate::types::texts(out@) =~= before.push(line@));
            assert(before.push(line@) + lines(s@.skip(i + 1)) =~= before + (seq![line@] + lines(
                s@.skip(i + 1),
            )));
            start = i + 1;
        }
        i += 1;
    }
    if start < n {
        let ghost before = crate::types::texts(out@);
        let ghost rest = s@.skip(start as int);
        let line = text_of(&chars, start, n);
        proof {
            rest.index_of_first_ensures('\n');
            assert(!rest.contains('\n')) by {
                if rest.contains('\n') {
                    let k = choose|k: int| 0 <= k < rest.len() && rest[k] == '\n';
                    assert(chars@[start + k] == '\n');
                }
            }
            assert(line@ =~= rest);
        }
        out.push(line);
        assert(crate::types::texts(out@) =~= before + seq![line@]);
    } else {
        assert(s@.skip(start as int).len() == 0);
        assert(crate::types::texts(out@) =~= crate::types::texts(out@) + lines(
            s@.skip(start as int),
        ));
    }
    out
}

/// Texts in a row, with a separator between them.
pub open spec fn joined(parts: Seq<Seq<char>>, separator: Seq<char>) -> Seq<char>
    decreases parts.len(),
{
    if parts.len() == 0 {
        Seq::empty()
    } else if parts.len() == 1 {
        parts[0]
    } else {
        joined(parts.drop_last(), separator) + separator + parts.last()
    }
}

/// Texts from `from` on in a row, with a separator between them.
pub fn join_from(parts: &Vec<String>, from: usize, separator: &str) -> (r: String)
    requires
        from <= parts@.len(),
    ensures
        r@ == joined(crate::types::texts(parts@).skip(from as int), separator@),
{
    let ghost all = crate::types::texts(parts@).skip(from as int);
    let mut out = String::new();
    let mut i: usize = from;
    assert(all.take(0) =~= Seq::<Seq<char>>::empty());
    while i < parts.len()
        invariant
            from <= i <= parts@.len(),
            all == crate::types::texts(parts@).skip(from as int),
            out@ == joined(all.take(i - from), separator@),
        decreases parts@.len() - i,
    {
        assert(all.take(i + 1 - from).drop_last() =~= all.take(i - from));
        assert(all.take(i + 1 - from).last() == parts@[i as int]@);
        if i > from {
            out.append(separator);
        }
        out.append(parts[i].as_str());
        assert(out@ =~= joined(all.take(i + 1 - from), separator@));
        i += 1;
    }
    assert(all.take(i - from) =~= all);
    out
}

/// Texts in a row, with a separator between them.
pub fn join_texts(parts: &Vec<String>, separator: &str) -> (r: String)
    ensures
        r@ == joined(crate::types::texts(parts@), separator@),
{
    assert(crate::types::texts(parts@).skip(0) =~= crate::types::texts(parts@));
    join_from(parts, 0, separator)
}

/// The last `n` lines of a text in a row, with a separator between them.
pub open spec fn tail_lines(s: Seq<char>, n: nat, separator: Seq<char>) -> Seq<char> {
    let all = lines(s);
    joined(
        all.skip(
            if all.len() > n {
                all.len() - n
            } else {
                0
            },
        ),
        separator,
    )
}

/// The last `n` lines of a text in a row, with a separator between them.
pub fn tail_of(s: &str, n: usize, separator: &str) -> (r: String)
    ensures
        r@ == tail_lines(s@, n as nat, separator@),
{
    let all = lines_of(s);
    let start: usize = if all.len() > n {
        all.len() - n
    } else {
        0
    };
    join_from(&all, start, separator)
}

/// An ASCII letter in lower case; any other character unchanged.
pub open spec fn lower_char(c: char) -> char {
    if 'A' <= c <= 'Z' {
        (c as int + 32) as char
    } else {
        c
    }
}

/// A text with its ASCII letters in lower case.
pub open spec fn ascii_lower(s: Seq<char>) -> Seq<char> {
    s.map_values(|c: char| lower_char(c))
}

/// A text with its ASCII letters in lower case.
pub fn lower_text(s: &str) -> (r: String)
    ensures
        r@ == ascii_lower(s@),
{
    let chars = chars_of(s);
    let mut out = String::new();
    let mut i: usize = 0;
    while i < chars.len()
        invariant
            i <= chars@.len(),
            chars@ == s@,
            out@ == ascii_lower(s@).take(i as int),
        decreases chars@.len() - i,
    {
        let c = chars[i];
        if 'A' <= c && c <= 'Z' {
            out.push((c as u8 + 32) as char);
        } else {
            out.push(c);
        }
        assert(out@ =~= ascii_lower(s@).take(i + 1));
        i += 1;
    }
    assert(ascii_lower(s@).take(i as int) =~= ascii_lower(s@));
    out
}

/// Whether a text begins with another.
pub open spec fn begins_with(s: Seq<char>, prefix: Seq<char>) -> bool {
    s.len() >= prefix.len() && s.take(prefix.len() as int) == prefix
}

/// Whether a text ends with another.
pub open spec fn ends_with(s: Seq<char>, suffix: Seq<char>) -> bool {
    s.len() >= suffix.len() && s.skip(s.len() - suffix.len()) == suffix
}

/// Whether `part` stands in `chars` at `at`.
pub fn stands_at(chars: &Vec<char>, part: &Vec<char>, at: usize) -> (r: bool)
    requires
        at + part@.len() <= chars@.len(),
    ensures
        r == (chars@.subrange(at as int, at + part@.len()) == part@),
{
    let n: usize = chars.len();
    let mut i: usize = 0;
    while i < part.len()
        invariant
            i <= part@.len(),
            at + part@.len() <= n == chars@.len(),
            forall|k: int| 0 <= k < i ==> chars@[at + k] == part@[k],
        decreases part@.len() - i,
    {
        if chars[at + i] != part[i] {
            assert(chars@.subrange(at as int, at + part@.len())[i as int] != part@[i as int]);
            return false;
        }
        i += 1;
    }
    assert(chars@.subrange(at as int, at + part@.len()) =~= part@);
    true
}

/// The rest of a text behind a prefix, if the text begins with it.
pub fn without_prefix(s: &str, prefix: &str) -> (r: Option<String>)
    ensures
        match r {
            Some(rest) => begins_with(s@, prefix@) && rest@ == s@.skip(prefix@.len() as int),
            None => !begins_with(s@, prefix@),
        },
{
    let chars = chars_of(s);
    let part = chars_of(prefix);
    if chars.len() < part.len() {
        return None;
    }
    assert(s@.take(prefix@.len() as int) =~= s@.subrange(0, prefix@.len() as int));
    if stands_at(&chars, &part, 0) {
        let rest = text_of(&chars, part.len(), chars.len());
        assert(rest@ =~= s@.skip(prefix@.len() as int));
        Some(rest)
    } else {
        None
    }
}

/// Whether a text ends with another.
pub fn is_suffix(s: &str, suffix: &str) -> (r: bool)
    ensures
        r == ends_with(s@, suffix@),
{
    let chars = chars_of(s);
    let part = chars_of(suffix);
    if chars.len() < part.len() {
        return false;
    }
    assert(s@.skip(s@.len() - suffix@.len()) =~= s@.subrange(
        s@.len() - suffix@.len(),
        s@.len() as int,
    ));
    stands_at(&chars, &part, chars.len() - part.len())
}

/// The decimal notation is made of digits.
pub proof fn decimal_is_digits(n: nat)
    ensures
        decimal(n).len() > 0,
        forall|i: int| 0 <= i < decimal(n).len() ==> '0' <= #[trigger] decimal(n)[i] <= '9',
    decreases n,
{
    if n >= 10 {
        decimal_is_digits(n / 10);
    }
}

/// Different numbers have different decimal notations.
pub proof fn decimal_tells_numbers_apart(m: nat, n: nat)
    requires
        decimal(m) == decimal(n),
    ensures
        m == n,
    decreases m,
{
    decimal_is_digits(m / 10);
    decimal_is_digits(n / 10);
    assert(decimal(m).last() == decimal(n).last());
    assert(decimal(m).last() as int == 48 + m % 10);
    assert(decimal(n).last() as int == 48 + n % 10);
    if m >= 10 && n >= 10 {
        assert(decimal(m).drop_last() =~= decimal(m / 10));
        assert(decimal(n).drop_last() =~= decimal(n / 10));
        decimal_tells_numbers_apart(m / 10, n / 10);
    }
}

/// Different integers have different decimal notations.
pub proof fn signed_decimal_tells_numbers_apart(m: int, n: int)
    requires
        signed_decimal(m) == signed_decimal(n),
    ensures
        m == n,
{
    decimal_is_digits((if m < 0 {
        -m
    } else {
        m
    }) as nat);
    decimal_is_digits((if n < 0 {
        -n
    } else {
        n
    }) as nat);
    assert(signed_decimal(m)[0] == signed_decimal(n)[0]);
    assert(m < 0 ==> signed_decimal(m)[0] == '-');
    assert(n < 0 ==> signed_decimal(n)[0] == '-');
    assert(m >= 0 ==> signed_decimal(m)[0] == decimal(m as nat)[0]);
    assert(n >= 0 ==> signed_decimal(n)[0] == decimal(n as nat)[0]);
    if m < 0 && n < 0 {
        assert(signed_decimal(m).drop_first() =~= decimal((-m) as nat));
        assert(signed_decimal(n).drop_first() =~= decimal((-n) as nat));
        decimal_tells_numbers_apart((-m) as nat, (-n) as nat);
    } else if m >= 0 && n >= 0 {
        decimal_tells_numbers_apart(m as nat, n as nat);
    }
}

/// A part that does not hold the separator behind it can be told from what
/// follows.
pub proof fn split_at_first<A>(a: Seq<A>, x: Seq<A>, b: Seq<A>, y: Seq<A>, separator: A)
    requires
        a + seq![separator] + x == b + seq![separator] + y,
        !a.contains(separator),
        !b.contains(separator),
    ensures
        a == b,
        x == y,
{
    let s = a + seq![separator] + x;
    let t = b + seq![separator] + y;
    assert(s[a.len() as int] == separator);
    assert(t[b.len() as int] == separator);
    if a.len() < b.len() {
        assert(t[a.len() as int] == b[a.len() as int]);
    } else if b.len() < a.len() {
        assert(s[b.len() as int] == a[b.len() as int]);
    }
    assert(a =~= s.take(a.len() as int));
    assert(b =~= t.take(b.len() as int));
    assert(x =~= s.skip(a.len() as int + 1));
    assert(y =~= t.skip(b.len() as int + 1));
}

/// A part that does not hold the separator before it can be told from what comes
/// first.
pub proof fn split_at_last<A>(a: Seq<A>, x: Seq<A>, b: Seq<A>, y: Seq<A>, separator: A)
    requires
        a + seq![separator] + x == b + seq![separator] + y,
        !x.contains(separator),
        !y.contains(separator),
    ensures
        a == b,
        x == y,
{
    let s = a + seq![separator] + x;
    let t = b + seq![separator] + y;
    assert(s[a.len() as int] == separator);
    assert(t[b.len() as int] == separator);
    assert(s.len() == t.len());
    if a.len() < b.len() {
        assert(s[b.len() as int] == x[b.len() - a.len() - 1]);
    } else if b.len() < a.len() {
        assert(t[a.len() as int] == y[a.len() - b.len() - 1]);
    }
    assert(a =~= s.take(a.len() as int));
    assert(b =~= t.take(b.len() as int));
    assert(x =~= s.skip(a.len() as int + 1));
    assert(y =~= t.skip(b.len() as int + 1));
}

/// A text ends with another exactly where it is something followed by it, and
/// begins with another exactly where it is that followed by something.
pub proof fn ends_and_beginnings(s: Seq<char>, part: Seq<char>)
    ensures
        ends_with(s, part) <==> exists|front: Seq<char>| s == #[trigger] (front + part),
        begins_with(s, part) <==> exists|rest: Seq<char>| s == #[trigger] (part + rest),
{
    if ends_with(s, part) {
        let front = s.take(s.len() - part.len());
        assert(s =~= front + part);
    }
    if begins_with(s, part) {
        let rest = s.skip(part.len() as int);
        assert(s =~= part + rest);
    }
    assert forall|front: Seq<char>| s == #[trigger] (front + part) implies ends_with(s, part) by {
        assert(s.skip(s.len() - part.len()) =~= part);
    }
    assert forall|rest: Seq<char>| s == #[trigger] (part + rest) implies begins_with(s, part) by {
        assert(s.take(part.len() as int) =~= part);
    }
}

/// Texts in a row hold every text: a longer row is the shorter one, the separator
/// and the text that was added.
pub proof fn joined_grows(parts: Seq<Seq<char>>, part: Seq<char>, separator: Seq<char>)
    ensures
        parts.len() == 0 ==> joined(parts.push(part), separator) == part,
        parts.len() > 0 ==> joined(parts.push(part), separator) == joined(parts, separator)
            + separator + part,
{
    assert(parts.push(part).drop_last() =~= parts);
}

/// Trimming takes white space and nothing else away, and leaves none at the ends.
pub proof fn trimmed_loses_only_white_space(s: Seq<char>)
    ensures
        exists|front: Seq<char>, back: Seq<char>|
            s == #[trigger] (front + trimmed(s) + back) && (forall|i: int|
                0 <= i < front.len() ==> white_space(#[trigger] front[i])) && (forall|i: int|
                0 <= i < back.len() ==> white_space(#[trigger] back[i])),
        trimmed(s).len() > 0 ==> !white_space(trimmed(s)[0]) && !white_space(trimmed(s).last()),
{
    let front = trim_start_parts(s);
    let back = trim_end_parts(trim_start(s));
    assert(s =~= front + trimmed(s) + back);
    trim_end_keeps_start(trim_start(s));
}

proof fn trim_start_parts(s: Seq<char>) -> (front: Seq<char>)
    ensures
        s == front + trim_start(s),
        forall|i: int| 0 <= i < front.len() ==> white_space(#[trigger] front[i]),
        trim_start(s).len() > 0 ==> !white_space(trim_start(s)[0]),
    decreases s.len(),
{
    if s.len() > 0 && white_space(s[0]) {
        let rest = trim_start_parts(s.drop_first());
        let front = seq![s[0]] + rest;
        assert(s =~= seq![s[0]] + s.drop_first());
        assert(trim_start(s) == trim_start(s.drop_first()));
        assert(s =~= front + trim_start(s));
        assert forall|i: int| 0 <= i < front.len() implies white_space(#[trigger] front[i]) by {
            if i > 0 {
                assert(front[i] == rest[i - 1]);
            }
        }
        front
    } else {
        assert(s =~= Seq::<char>::empty() + s);
        Seq::empty()
    }
}

proof fn trim_end_parts(s: Seq<char>) -> (back: Seq<char>)
    ensures
        s == trim_end(s) + back,
        forall|i: int| 0 <= i < back.len() ==> white_space(#[trigger] back[i]),
        trim_end(s).len() > 0 ==> !white_space(trim_end(s).last()),
    decreases s.len(),
{
    if s.len() > 0 && white_space(s.last()) {
        let rest = trim_end_parts(s.drop_last());
        let back = rest.push(s.last());
        assert(s =~= s.drop_last().push(s.last()));
        assert(trim_end(s) == trim_end(s.drop_last()));
        assert(s =~= trim_end(s) + back);
        back
    } else {
        assert(s =~= s + Seq::<char>::empty());
        Seq::empty()
    }
}

proof fn trim_end_keeps_start(s: Seq<char>)
    ensures
        trim_end(s).len() > 0 ==> trim_end(s)[0] == s[0],
    decreases s.len(),
{
    if s.len() > 0 && white_space(s.last()) {
        trim_end_keeps_start(s.drop_last());
    }
}

/// No line of a text holds a line feed, and a text without one is a line of its
/// own.
pub proof fn lines_hold_no_line_feed(s: Seq<char>)
    ensures
        forall|i: int| 0 <= i < lines(s).len() ==> !(#[trigger] lines(s)[i]).contains('\n'),
        s.len() > 0 && !s.contains('\n') ==> lines(s) == seq![s],
    decreases s.len(),
{
    if s.len() > 0 {
        s.index_of_first_ensures('\n');
        match s.index_of_first('\n') {
            Some(i) => {
                let rest = s.skip(i + 1);
                lines_hold_no_line_feed(rest);
                let first = without_cr(s.take(i));
                assert(!first.contains('\n')) by {
                    if first.contains('\n') {
                        let k = choose|k: int| 0 <= k < first.len() && first[k] == '\n';
                        assert(s[k] == '\n');
                    }
                }
                assert forall|k: int| 0 <= k < lines(s).len() implies !(#[trigger] lines(
                    s,
                )[k]).contains('\n') by {
                    if k > 0 {
                        assert(lines(s)[k] == lines(rest)[k - 1]);
                    }
                }
            },
            None => {},
        }
    }
}

/// A text with a line feed is its first line, without the carriage return before
/// the line feed, and the lines of the rest.
pub proof fn lines_of_two_parts(line: Seq<char>, rest: Seq<char>)
    requires
        !line.contains('\n'),
    ensures
        line.len() == 0 || line.last() != '\r' ==> lines(line + seq!['\n'] + rest) == seq![line]
            + lines(rest),
        line.len() > 0 && line.last() == '\r' ==> lines(line + seq!['\n'] + rest) == seq![
            line.drop_last(),
        ] + lines(rest),
{
    let s = line + seq!['\n'] + rest;
    s.index_of_first_ensures('\n');
    assert(s[line.len() as int] == '\n');
    assert(s.contains('\n'));
    let at = s.index_of_first('\n')->0;
    assert(at == line.len()) by {
        if at < line.len() {
            assert(line[at] == s[at]);
            assert(line.contains('\n'));
        }
    }
    assert(s.take(at) =~= line);
    assert(s.skip(at + 1) =~= rest);
}

/// Bytes are ordered by the first one that differs, and a beginning comes first.
pub proof fn first_difference_orders(a: Seq<u8>, b: Seq<u8>, i: int)
    requires
        0 <= i < a.len(),
        i < b.len(),
        a.take(i) == b.take(i),
        a[i] < b[i],
    ensures
        bytes_le(a, b),
        !bytes_le(b, a),
    decreases i,
{
    if i > 0 {
        assert(a[0] == a.take(i)[0] && b[0] == b.take(i)[0]);
        assert(a.drop_first().take(i - 1) =~= b.drop_first().take(i - 1)) by {
            assert forall|k: int| 0 <= k < i - 1 implies a.drop_first()[k] == b.drop_first()[k] by {
                assert(a.take(i)[k + 1] == a[k + 1] && b.take(i)[k + 1] == b[k + 1]);
            }
        }
        first_difference_orders(a.drop_first(), b.drop_first(), i - 1);
    }
}

/// A beginning of bytes comes before the whole.
pub proof fn beginnings_come_first(a: Seq<u8>, rest: Seq<u8>)
    ensures
        bytes_le(a, a + rest),
        rest.len() > 0 ==> !bytes_le(a + rest, a),
    decreases a.len(),
{
    if a.len() > 0 {
        assert((a + rest).drop_first() =~= a.drop_first() + rest);
        beginnings_come_first(a.drop_first(), rest);
    }
}

/// Only the letters from `A` to `Z` become others: the small ones.
pub proof fn only_capitals_are_lowered(s: Seq<char>, i: int)
    requires
        0 <= i < s.len(),
    ensures
        ascii_lower(s).len() == s.len(),
        'A' <= s[i] <= 'Z' ==> ascii_lower(s)[i] as int == s[i] as int + 32,
        !('A' <= s[i] <= 'Z') ==> ascii_lower(s)[i] == s[i],
{
}

/// The tail of a text is made of its last lines: as many as are asked for, or all.
pub proof fn tail_is_the_last_lines(s: Seq<char>, n: nat, separator: Seq<char>)
    ensures
        exists|head: Seq<Seq<char>>, last: Seq<Seq<char>>|
            lines(s) == #[trigger] (head + last) && tail_lines(s, n, separator) == joined(
                last,
                separator,
            ) && last.len() <= n && (last.len() < n ==> head.len() == 0),
{
    let all = lines(s);
    let at = if all.len() > n {
        all.len() - n
    } else {
        0
    };
    assert(all =~= all.take(at) + all.skip(at));
}

} // verus!
