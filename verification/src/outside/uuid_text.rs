//! UUIDs as 128-bit numbers and as text.
use vstd::prelude::*;
use vstd::arithmetic::power::pow;
use vstd::arithmetic::power::*;
use crate::text::ascii_lower;
use crate::outside::digest::{hex_char, hex_value};

verus! {

/// The value of a run of hexadecimal digits, most significant first.
pub open spec fn hex_number(text: Seq<char>) -> Option<nat>
    decreases text.len(),
{
    if text.len() == 0 {
        Some(0)
    } else {
        match (hex_number(text.drop_last()), hex_value(text.last())) {
            (Some(high), Some(low)) => Some(16 * high + low),
            _ => None,
        }
    }
}

/// The value of 36 characters in five groups of hexadecimal digits.
pub open spec fn grouped_number(text: Seq<char>) -> Option<nat> {
    if text.len() == 36 && text[8] == '-' && text[13] == '-' && text[18] == '-' && text[23] == '-' {
        hex_number(
            text.subrange(0, 8) + text.subrange(9, 13) + text.subrange(14, 18) + text.subrange(
                19,
                23,
            ) + text.subrange(24, 36),
        )
    } else {
        None
    }
}

/// The UUID that a text spells: 32 digits, or five groups bare, in braces or
/// behind `urn:uuid:`.
pub open spec fn uuid_value(text: Seq<char>) -> Option<nat> {
    if text.len() == 32 {
        hex_number(text)
    } else if text.len() == 36 {
        grouped_number(text)
    } else if text.len() == 38 && text[0] == '{' && text[37] == '}' {
        grouped_number(text.subrange(1, 37))
    } else if text.len() == 45 && ascii_lower(text.subrange(0, 9)) == "urn:uuid:"@ {
        grouped_number(text.subrange(9, 45))
    } else {
        None
    }
}

/// The message of the error that a malformed UUID gives.
pub uninterp spec fn uuid_error_text(text: Seq<char>) -> Seq<char>;

/// Calls `uuid::Uuid::parse_str`: it accepts exactly the four notations of
/// [`uuid_value`] and returns the value; otherwise the result is the message of
/// its error, which depends on the text alone.
#[verifier::external_body]
pub(crate) fn parse_uuid(text: &str) -> (r: std::result::Result<u128, String>)
    ensures
        match r {
            Ok(id) => uuid_value(text@) == Some(id as nat),
            Err(e) => uuid_value(text@) is None && e@ == uuid_error_text(text@),
        },
{
    match uuid::Uuid::parse_str(text) {
        Ok(id) => Ok(id.as_u128()),
        Err(e) => Err(e.to_string()),
    }
}

/// The `width` lowest hexadecimal digits of a number.
pub open spec fn hex_digits(n: nat, width: nat) -> Seq<char>
    decreases width,
{
    if width == 0 {
        Seq::empty()
    } else {
        hex_digits(n / 16, (width - 1) as nat).push(hex_char(n as int % 16))
    }
}

/// The hyphenated lower-case notation of a UUID.
pub open spec fn uuid_notation(id: u128) -> Seq<char> {
    let d = hex_digits(id as nat, 32);
    d.subrange(0, 8) + seq!['-'] + d.subrange(8, 12) + seq!['-'] + d.subrange(12, 16) + seq!['-']
        + d.subrange(16, 20) + seq!['-'] + d.subrange(20, 32)
}

/// Calls `uuid::Uuid`'s `Display`: the result is the hyphenated lower-case
/// notation.
#[verifier::external_body]
pub(crate) fn uuid_to_text(id: u128) -> (r: String)
    ensures
        r@ == uuid_notation(id),
{
    uuid::Uuid::from_u128(id).to_string()
}

proof fn hex_digits_len(n: nat, width: nat)
    ensures
        hex_digits(n, width).len() == width,
    decreases width,
{
    if width > 0 {
        hex_digits_len(n / 16, (width - 1) as nat);
    }
}

proof fn hex_digits_number(n: nat, width: nat)
    requires
        n < pow(16, width),
    ensures
        hex_number(hex_digits(n, width)) == Some(n),
    decreases width,
{
    if width == 0 {
        lemma_pow0(16);
        assert(hex_digits(n, 0).len() == 0);
    } else {
        let w = (width - 1) as nat;
        lemma_pow_adds(16, w, 1);
        lemma_pow1(16);
        assert(pow(16, width) == pow(16, w) * 16);
        assert(n / 16 < pow(16, w)) by (nonlinear_arith)
            requires
                n < pow(16, w) * 16,
                n >= 0,
        ;
        hex_digits_number(n / 16, w);
        let t = hex_digits(n, width);
        assert(t.drop_last() =~= hex_digits(n / 16, w));
        assert(t.last() == hex_char(n as int % 16));
        let d = n as int % 16;
        assert(hex_value(hex_char(d)) == Some(d as nat));
    }
}

/// Reading back the notation of a UUID gives the UUID.
pub proof fn uuid_notation_reads_back(id: u128)
    ensures
        uuid_value(uuid_notation(id)) == Some(id as nat),
{
    let d = hex_digits(id as nat, 32);
    hex_digits_len(id as nat, 32);
    assert(pow(16, 32) == 0x1_0000_0000_0000_0000_0000_0000_0000_0000int) by {
        reveal(pow);
        reveal_with_fuel(pow, 33);
    }
    hex_digits_number(id as nat, 32);
    let t = uuid_notation(id);
    assert(t.len() == 36);
    assert(t.subrange(0, 8) + t.subrange(9, 13) + t.subrange(14, 18) + t.subrange(19, 23)
        + t.subrange(24, 36) =~= d);
}

} // verus!
