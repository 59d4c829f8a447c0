//! The stored form of a log entry: a protocol buffers message.
//!
//! Its fields are the kind (1), the term (2), the index (3), the data (4), the
//! request for a synchronous write (5) and the context (6). They are written in
//! this order, each behind a key that holds its number and how it is written: a
//! number in groups of seven bits, or bytes behind their length. A field that is
//! zero or empty is not written.
use vstd::prelude::*;
use vstd::slice::slice_subrange;
use crate::raft::storage::{RaftEntry, RaftEntryView};
use crate::types::clone_bytes;

verus! {

/// The largest number of bytes that a number takes.
pub const NUMBER_SIZE: u8 = 10;

/// A number in groups of seven bits, the lowest first; every group but the last has
/// its high bit set.
pub open spec fn number_form(n: u64) -> Seq<u8>
    decreases n,
{
    if n < 128 {
        seq![n as u8]
    } else {
        seq![(n % 128 + 128) as u8] + number_form(n / 128)
    }
}

/// The number at the head of bytes, in `left` groups at most, and what follows it.
pub open spec fn groups_read(bytes: Seq<u8>, left: nat) -> Option<(nat, Seq<u8>)>
    decreases left,
{
    if left == 0 || bytes.len() == 0 {
        None
    } else if bytes[0] < 128 {
        Some((bytes[0] as nat, bytes.drop_first()))
    } else {
        match groups_read(bytes.drop_first(), (left - 1) as nat) {
            Some((n, rest)) => Some(((bytes[0] - 128 + 128 * n) as nat, rest)),
            None => None,
        }
    }
}

/// The number at the head of bytes, and what follows it. A number of more than 64
/// bits is none.
pub open spec fn number_read(bytes: Seq<u8>) -> Option<(u64, Seq<u8>)> {
    match groups_read(bytes, NUMBER_SIZE as nat) {
        Some((n, rest)) => if n <= u64::MAX {
            Some((n as u64, rest))
        } else {
            None
        },
        None => None,
    }
}

/// The kind of an entry as a number of 64 bits without a sign.
pub open spec fn kind_code(entry_type: i32) -> u64 {
    if entry_type >= 0 {
        entry_type as u64
    } else {
        (entry_type + 0x1_0000_0000_0000_0000) as u64
    }
}

/// The kind that the lower 32 bits of a number stand for.
pub open spec fn kind_of(code: u64) -> i32 {
    let low = code % 0x1_0000_0000;
    if low < 0x8000_0000 {
        low as i32
    } else {
        (low - 0x1_0000_0000) as i32
    }
}

/// A field that holds a number.
pub open spec fn number_field(field: u8, n: u64) -> Seq<u8> {
    if n == 0 {
        Seq::empty()
    } else {
        seq![(8 * field) as u8] + number_form(n)
    }
}

/// A field that holds bytes.
pub open spec fn bytes_field(field: u8, bytes: Seq<u8>) -> Seq<u8> {
    if bytes.len() == 0 {
        Seq::empty()
    } else {
        seq![(8 * field + 2) as u8] + number_form(bytes.len() as u64) + bytes
    }
}

/// A yes or no as a number.
pub open spec fn flag_code(flag: bool) -> u64 {
    if flag {
        1
    } else {
        0
    }
}

/// The stored form of an entry.
pub open spec fn entry_form(e: RaftEntryView) -> Seq<u8> {
    number_field(1, kind_code(e.entry_type)) + number_field(2, e.term) + number_field(3, e.index)
        + bytes_field(4, e.data) + number_field(5, flag_code(e.sync_log)) + bytes_field(
        6,
        e.context,
    )
}

/// The entry in which no field is set.
pub open spec fn blank_entry() -> RaftEntryView {
    RaftEntryView {
        entry_type: 0,
        term: 0,
        index: 0,
        data: Seq::empty(),
        context: Seq::empty(),
        sync_log: false,
    }
}

/// An entry with a field set to a number. Fields of other numbers than those of an
/// entry are passed over; those that hold bytes cannot be set so.
pub open spec fn with_number(e: RaftEntryView, field: u64, n: u64) -> Option<RaftEntryView> {
    if field == 1 {
        Some(RaftEntryView { entry_type: kind_of(n), ..e })
    } else if field == 2 {
        Some(RaftEntryView { term: n, ..e })
    } else if field == 3 {
        Some(RaftEntryView { index: n, ..e })
    } else if field == 5 {
        Some(RaftEntryView { sync_log: n != 0, ..e })
    } else if field == 4 || field == 6 {
        None
    } else {
        Some(e)
    }
}

/// An entry with a field set to bytes. Fields of other numbers than those of an
/// entry are passed over; those that hold numbers cannot be set so.
pub open spec fn with_bytes(e: RaftEntryView, field: u64, bytes: Seq<u8>) -> Option<RaftEntryView> {
    if field == 4 {
        Some(RaftEntryView { data: bytes, ..e })
    } else if field == 6 {
        Some(RaftEntryView { context: bytes, ..e })
    } else if field == 1 || field == 2 || field == 3 || field == 5 {
        None
    } else {
        Some(e)
    }
}

/// What the first `size` bytes make of an entry as the value of a field, and what
/// follows them.
pub open spec fn value_read(
    e: RaftEntryView,
    field: u64,
    size: nat,
    bytes: Seq<u8>,
) -> Option<(RaftEntryView, Seq<u8>)> {
    if size <= bytes.len() {
        match with_bytes(e, field, bytes.take(size as int)) {
            Some(more) => Some((more, bytes.skip(size as int))),
            None => None,
        }
    } else {
        None
    }
}

/// What the field at the head of bytes makes of an entry, and what follows it. The
/// key tells its number and how it is written: a number, eight bytes, bytes behind
/// their length, or four bytes.
pub open spec fn field_read(e: RaftEntryView, bytes: Seq<u8>) -> Option<(RaftEntryView, Seq<u8>)> {
    match number_read(bytes) {
        None => None,
        Some((key, rest)) => {
            let field = key / 8;
            let form = key % 8;
            if key > u32::MAX || field == 0 {
                None
            } else if form == 0 {
                match number_read(rest) {
                    None => None,
                    Some((n, rest)) => match with_number(e, field, n) {
                        Some(more) => Some((more, rest)),
                        None => None,
                    },
                }
            } else if form == 2 {
                match number_read(rest) {
                    None => None,
                    Some((size, rest)) => value_read(e, field, size as nat, rest),
                }
            } else if field <= 6 {
                None
            } else if form == 1 {
                value_read(e, field, 8, rest)
            } else if form == 5 {
                value_read(e, field, 4, rest)
            } else {
                None
            }
        },
    }
}

/// What all the fields of a message make of an entry.
pub open spec fn fields_read(e: RaftEntryView, bytes: Seq<u8>) -> Option<RaftEntryView>
    decreases bytes.len(),
{
    if bytes.len() == 0 {
        Some(e)
    } else {
        match field_read(e, bytes) {
            Some((more, rest)) => if rest.len() < bytes.len() {
                fields_read(more, rest)
            } else {
                None
            },
            None => None,
        }
    }
}

/// The entry that bytes are a form of. Of a field that occurs twice the last
/// counts, and fields that are not known are passed over.
pub open spec fn entry_read(bytes: Seq<u8>) -> Option<RaftEntryView> {
    fields_read(blank_entry(), bytes)
}

/// How many groups of seven bits a number takes.
spec fn groups(n: u64) -> nat
    decreases n,
{
    if n < 128 {
        1
    } else {
        1 + groups(n / 128)
    }
}

proof fn groups_fit(n: u64)
    ensures
        groups(n) <= NUMBER_SIZE,
{
    reveal_with_fuel(groups, 11);
}

proof fn groups_read_back(n: u64, rest: Seq<u8>, left: nat)
    requires
        groups(n) <= left,
    ensures
        groups_read(number_form(n) + rest, left) == Some((n as nat, rest)),
    decreases n,
{
    let bytes = number_form(n) + rest;
    if n < 128 {
        assert(bytes.drop_first() =~= rest);
    } else {
        assert(bytes.drop_first() =~= number_form(n / 128) + rest);
        groups_read_back(n / 128, rest, (left - 1) as nat);
    }
}

/// A number is read back from its form, whatever follows it.
pub proof fn number_reads_back(n: u64, rest: Seq<u8>)
    ensures
        number_read(number_form(n) + rest) == Some((n, rest)),
        number_form(n).len() > 0,
{
    groups_fit(n);
    groups_read_back(n, rest, NUMBER_SIZE as nat);
}

proof fn small_number(n: u8)
    requires
        n < 128,
    ensures
        number_form(n as u64) == seq![n],
{
}

proof fn number_field_reads_back(
    e: RaftEntryView,
    more: RaftEntryView,
    field: u8,
    n: u64,
    rest: Seq<u8>,
)
    requires
        1 <= field <= 6,
        with_number(e, field as u64, n) == Some(more),
        n == 0 ==> more == e,
    ensures
        fields_read(e, number_field(field, n) + rest) == fields_read(more, rest),
{
    let bytes = number_field(field, n) + rest;
    if n == 0 {
        assert(bytes =~= rest);
    } else {
        let key = (8 * field) as u8;
        small_number(key);
        assert(bytes =~= number_form(key as u64) + (number_form(n) + rest));
        number_reads_back(key as u64, number_form(n) + rest);
        number_reads_back(n, rest);
        assert(field_read(e, bytes) == Some((more, rest)));
    }
}

proof fn bytes_field_reads_back(
    e: RaftEntryView,
    more: RaftEntryView,
    field: u8,
    value: Seq<u8>,
    rest: Seq<u8>,
)
    requires
        1 <= field <= 6,
        value.len() <= u64::MAX,
        with_bytes(e, field as u64, value) == Some(more),
        value.len() == 0 ==> more == e,
    ensures
        fields_read(e, bytes_field(field, value) + rest) == fields_read(more, rest),
{
    let bytes = bytes_field(field, value) + rest;
    if value.len() == 0 {
        assert(bytes =~= rest);
    } else {
        let key = (8 * field + 2) as u8;
        let size = value.len() as u64;
        small_number(key);
        assert(bytes =~= number_form(key as u64) + (number_form(size) + (value + rest)));
        number_reads_back(key as u64, number_form(size) + (value + rest));
        number_reads_back(size, value + rest);
        assert((value + rest).take(size as int) =~= value);
        assert((value + rest).skip(size as int) =~= rest);
        assert(field_read(e, bytes) == Some((more, rest)));
    }
}

proof fn kind_reads_back(entry_type: i32)
    ensures
        kind_of(kind_code(entry_type)) == entry_type,
        kind_code(entry_type) == 0 ==> entry_type == 0,
{
}

proof fn six_parts(a: Seq<u8>, b: Seq<u8>, c: Seq<u8>, d: Seq<u8>, e: Seq<u8>, f: Seq<u8>)
    ensures
        a + b + c + d + e + f == a + (b + (c + (d + (e + f)))),
{
    assert(a + b + c + d + e + f =~= a + (b + (c + (d + (e + f)))));
}

/// The stored form of an entry is read back as that entry, whole: kind, term,
/// index, data, context and the request for a synchronous write.
pub proof fn stored_entry_reads_back(e: RaftEntryView)
    requires
        e.data.len() <= u64::MAX,
        e.context.len() <= u64::MAX,
    ensures
        entry_read(entry_form(e)) == Some(e),
{
    let f1 = number_field(1, kind_code(e.entry_type));
    let f2 = number_field(2, e.term);
    let f3 = number_field(3, e.index);
    let f4 = bytes_field(4, e.data);
    let f5 = number_field(5, flag_code(e.sync_log));
    let f6 = bytes_field(6, e.context);
    let none = Seq::<u8>::empty();
    let e0 = blank_entry();
    let e1 = RaftEntryView { entry_type: e.entry_type, ..e0 };
    let e2 = RaftEntryView { term: e.term, ..e1 };
    let e3 = RaftEntryView { index: e.index, ..e2 };
    let e4 = RaftEntryView { data: e.data, ..e3 };
    let e5 = RaftEntryView { sync_log: e.sync_log, ..e4 };
    kind_reads_back(e.entry_type);
    if e.data.len() == 0 {
        assert(e.data =~= none);
    }
    if e.context.len() == 0 {
        assert(e.context =~= none);
    }
    number_field_reads_back(e0, e1, 1, kind_code(e.entry_type), f2 + (f3 + (f4 + (f5 + f6))));
    number_field_reads_back(e1, e2, 2, e.term, f3 + (f4 + (f5 + f6)));
    number_field_reads_back(e2, e3, 3, e.index, f4 + (f5 + f6));
    bytes_field_reads_back(e3, e4, 4, e.data, f5 + f6);
    number_field_reads_back(e4, e5, 5, flag_code(e.sync_log), f6);
    bytes_field_reads_back(e5, e, 6, e.context, none);
    assert(f6 + none =~= f6);
    six_parts(f1, f2, f3, f4, f5, f6);
}

fn push_number(out: &mut Vec<u8>, n: u64)
    ensures
        final(out)@ == old(out)@ + number_form(n),
    decreases n,
{
    if n < 128 {
        out.push(n as u8);
    } else {
        out.push((n % 128 + 128) as u8);
        push_number(out, n / 128);
    }
    assert(out@ =~= old(out)@ + number_form(n));
}

fn push_number_field(out: &mut Vec<u8>, field: u8, n: u64)
    requires
        1 <= field <= 6,
    ensures
        final(out)@ == old(out)@ + number_field(field, n),
{
    if n != 0 {
        out.push(8 * field);
        push_number(out, n);
    }
    assert(out@ =~= old(out)@ + number_field(field, n));
}

fn push_bytes_field(out: &mut Vec<u8>, field: u8, bytes: &Vec<u8>)
    requires
        1 <= field <= 6,
    ensures
        final(out)@ == old(out)@ + bytes_field(field, bytes@),
{
    if bytes.len() != 0 {
        out.push(8 * field + 2);
        push_number(out, bytes.len() as u64);
        out.extend_from_slice(bytes.as_slice());
    }
    assert(out@ =~= old(out)@ + bytes_field(field, bytes@));
}

/// The bytes to store for an entry.
pub fn entry_bytes(entry: &RaftEntry) -> (r: Vec<u8>)
    ensures
        r@ == entry_form(entry@),
{
    let kind: u64 = if entry.entry_type >= 0 {
        entry.entry_type as u64
    } else {
        u64::MAX - (-(entry.entry_type as i64 + 1)) as u64
    };
    let mut out: Vec<u8> = Vec::new();
    push_number_field(&mut out, 1, kind);
    push_number_field(&mut out, 2, entry.term);
    push_number_field(&mut out, 3, entry.index);
    push_bytes_field(&mut out, 4, &entry.data);
    push_number_field(
        &mut out,
        5,
        if entry.sync_log {
            1
        } else {
            0
        },
    );
    push_bytes_field(&mut out, 6, &entry.context);
    assert(out@ =~= entry_form(entry@));
    out
}

fn rest_of(bytes: &[u8], from: usize) -> (r: &[u8])
    requires
        from <= bytes@.len(),
    ensures
        r@ == bytes@.skip(from as int),
{
    let rest = slice_subrange(bytes, from, bytes.len());
    assert(rest@ =~= bytes@.skip(from as int));
    rest
}

fn read_groups(bytes: &[u8], left: u8) -> (r: Option<(u64, &[u8])>)
    ensures
        match groups_read(bytes@, left as nat) {
            Some((n, rest)) => if n <= u64::MAX {
                r is Some && r->Some_0.0 == n && r->Some_0.1@ == rest
            } else {
                r is None
            },
            None => r is None,
        },
    decreases left,
{
    if left == 0 || bytes.len() == 0 {
        return None;
    }
    let first: u8 = bytes[0];
    let rest = rest_of(bytes, 1);
    assert(rest@ =~= bytes@.drop_first());
    if first < 128 {
        return Some((first as u64, rest));
    }
    let low: u64 = (first - 128) as u64;
    match read_groups(rest, left - 1) {
        Some((n, rest)) => if n <= (u64::MAX - low) / 128 {
            Some((low + 128 * n, rest))
        } else {
            None
        },
        None => None,
    }
}

fn read_number(bytes: &[u8]) -> (r: Option<(u64, &[u8])>)
    ensures
        match number_read(bytes@) {
            Some((n, rest)) => r is Some && r->Some_0.0 == n && r->Some_0.1@ == rest,
            None => r is None,
        },
{
    read_groups(bytes, NUMBER_SIZE)
}

fn set_number(e: &mut RaftEntry, field: u64, n: u64) -> (r: bool)
    ensures
        match with_number(old(e)@, field, n) {
            Some(more) => r && final(e)@ == more,
            None => !r,
        },
{
    if field == 1 {
        let low: u64 = n % 0x1_0000_0000;
        e.entry_type = if low < 0x8000_0000 {
            low as i32
        } else {
            (low as i64 - 0x1_0000_0000) as i32
        };
    } else if field == 2 {
        e.term = n;
    } else if field == 3 {
        e.index = n;
    } else if field == 5 {
        e.sync_log = n != 0;
    } else if field == 4 || field == 6 {
        return false;
    }
    true
}

/// Set a field to the first `size` bytes; what follows them, where all went well.
fn read_value<'a>(e: &mut RaftEntry, field: u64, size: u64, bytes: &'a [u8]) -> (r: Option<&'a [u8]>)
    ensures
        match value_read(old(e)@, field, size as nat, bytes@) {
            Some((more, rest)) => r is Some && r->Some_0@ == rest && final(e)@ == more,
            None => r is None,
        },
{
    if size > bytes.len() as u64 {
        return None;
    }
    let at: usize = size as usize;
    if field == 4 || field == 6 {
        let value = clone_bytes(slice_subrange(bytes, 0, at));
        assert(value@ =~= bytes@.take(at as int));
        if field == 4 {
            e.data = value;
        } else {
            e.context = value;
        }
    } else if field == 1 || field == 2 || field == 3 || field == 5 {
        return None;
    }
    Some(rest_of(bytes, at))
}

fn read_field<'a>(e: &mut RaftEntry, bytes: &'a [u8]) -> (r: Option<&'a [u8]>)
    ensures
        match field_read(old(e)@, bytes@) {
            Some((more, rest)) => r is Some && r->Some_0@ == rest && final(e)@ == more,
            None => r is None,
        },
{
    let (key, rest) = match read_number(bytes) {
        Some(read) => read,
        None => {
            return None;
        },
    };
    let field: u64 = key / 8;
    let form: u64 = key % 8;
    if key > 0xffff_ffff || field == 0 {
        return None;
    }
    if form == 0 {
        match read_number(rest) {
            Some((n, rest)) => if set_number(e, field, n) {
                Some(rest)
            } else {
                None
            },
            None => None,
        }
    } else if form == 2 {
        match read_number(rest) {
            Some((size, rest)) => read_value(e, field, size, rest),
            None => None,
        }
    } else if field <= 6 {
        None
    } else if form == 1 {
        read_value(e, field, 8, rest)
    } else if form == 5 {
        read_value(e, field, 4, rest)
    } else {
        None
    }
}

/// The entry that stored bytes are a form of, if they are one.
pub fn read_entry(bytes: &[u8]) -> (r: Option<RaftEntry>)
    ensures
        match r {
            Some(e) => entry_read(bytes@) == Some(e@),
            None => entry_read(bytes@) is None,
        },
{
    let mut e = RaftEntry {
        entry_type: 0,
        term: 0,
        index: 0,
        data: Vec::new(),
        context: Vec::new(),
        sync_log: false,
    };
    assert(e@.data =~= Seq::<u8>::empty());
    assert(e@.context =~= Seq::<u8>::empty());
    let mut rest = bytes;
    while rest.len() > 0
        invariant
            fields_read(e@, rest@) == entry_read(bytes@),
        decreases rest@.len(),
    {
        let before: usize = rest.len();
        match read_field(&mut e, rest) {
            Some(more) => {
                if more.len() >= before {
                    return None;
                }
                rest = more;
            },
            None => {
                return None;
            },
        }
    }
    Some(e)
}

/// The stored form is keyed by field: kind, term, index and the flag as numbers under
/// 8, 16, 24 and 40, data and context as bytes under 34 and 50, in the order of their
/// keys, and a field that is not set takes no room.
pub proof fn stored_fields_are_keyed(e: RaftEntryView)
    ensures
        e.entry_type != 0 ==> entry_form(e)[0] == 8,
        e.entry_type == 0 && e.term != 0 ==> entry_form(e)[0] == 16,
        e.entry_type == 0 && e.term == 0 && e.index != 0 ==> entry_form(e)[0] == 24,
        e.entry_type == 0 && e.term == 0 && e.index == 0 && e.data.len() > 0 ==> entry_form(e)[0]
            == 34,
        e.entry_type == 0 && e.term == 0 && e.index == 0 && e.data.len() == 0 && e.sync_log
            ==> entry_form(e)[0] == 40,
        e.entry_type == 0 && e.term == 0 && e.index == 0 && e.data.len() == 0 && !e.sync_log
            && e.context.len() > 0 ==> entry_form(e)[0] == 50,
        entry_form(blank_entry()).len() == 0,
{
}

/// A number below 128 is stored as itself, in one byte, and in a larger one every
/// byte but the last has its highest bit set.
pub proof fn numbers_are_stored_in_groups(n: u64, i: int)
    requires
        0 <= i < number_form(n).len(),
    ensures
        n < 128 ==> number_form(n) == seq![n as u8],
        number_form(n)[i] >= 128 <==> i < number_form(n).len() - 1,
        number_form(n)[0] % 128 == n % 128,
    decreases n,
{
    if n >= 128 && i > 0 {
        numbers_are_stored_in_groups(n / 128, i - 1);
    } else if n >= 128 {
        small_rest(n / 128);
    }
}

proof fn small_rest(n: u64)
    ensures
        number_form(n).len() > 0,
{
}

} // verus!
