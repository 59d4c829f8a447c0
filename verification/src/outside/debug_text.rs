//! Texts and points in time as they are shown for debugging.
use vstd::prelude::*;
use vstd::string::*;
use crate::outside::clock::Timestamp;

verus! {

/// What a text is shown as: in quotes, with escapes.
pub uninterp spec fn text_debug(text: Seq<char>) -> Seq<char>;

/// Calls `format!` with `{:?}` on a `str`: what is shown depends on the text
/// alone.
#[verifier::external_body]
pub(crate) fn debug_text(text: &str) -> (r: String)
    ensures
        r@ == text_debug(text@),
{
    format!("{text:?}")
}

/// What a point in time is shown as.
pub uninterp spec fn time_debug(secs: i64, nanos: u32) -> Seq<char>;

/// Calls `chrono::DateTime::<Utc>::from_timestamp` and `format!` with `{:?}` on
/// the result: what is shown depends on the point in time alone. Outside the
/// calendar the epoch is shown.
#[verifier::external_body]
pub(crate) fn debug_time(t: Timestamp) -> (r: String)
    ensures
        r@ == time_debug(t.secs, t.nanos),
{
    let at = chrono::DateTime::<chrono::Utc>::from_timestamp(t.secs, t.nanos).unwrap_or_default();
    format!("{at:?}")
}

} // verus!
