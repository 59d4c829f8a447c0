//! Points in time.
use vstd::prelude::*;
use vstd::string::*;
use crate::text::signed_decimal;

verus! {

/// A point in time: seconds since 1970-01-01 00:00:00 UTC and the nanoseconds
/// past them.
#[derive(Debug, Clone, Copy, PartialEq, Eq, Structural)]
pub struct Timestamp {
    /// Seconds since the epoch, negative before it.
    pub secs: i64,
    /// Nanoseconds within the second.
    pub nanos: u32,
}

impl Timestamp {
    /// Whether the calendar holds this point: years -262143 to 262142, and the
    /// nanoseconds below one second, or below two in the last second of a
    /// minute, which stands for a leap second.
    pub open spec fn valid(self) -> bool {
        &&& -8334601228800 <= self.secs <= 8210266876799
        &&& self.nanos < 1_000_000_000 || (self.nanos < 2_000_000_000 && self.secs as int % 60
            == 59)
    }
}

/// Calls `chrono::DateTime::<Utc>::from_timestamp` and formats the result with
/// `%s %z`: the seconds in decimal, and the offset of UTC.
#[verifier::external_body]
pub(crate) fn commit_time(t: Timestamp) -> (r: String)
    requires
        t.valid(),
    ensures
        r@ == signed_decimal(t.secs as int) + " +0000"@,
{
    let at = chrono::DateTime::<chrono::Utc>::from_timestamp(t.secs, t.nanos).unwrap_or_default();
    at.format("%s %z").to_string()
}

} // verus!
