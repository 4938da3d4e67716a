//! Points in time.

use vstd::prelude::*;

verus! {

/// A point in time in UTC: whole seconds since the Unix epoch and the
/// nanoseconds after them.
#[derive(Clone, Copy, Debug, PartialEq, Eq, Structural)]
pub struct Timestamp {
    pub seconds: i64,
    pub nanos: u32,
}

/// The first second that a timestamp can stand for, in the year -262143.
pub const FIRST_SECOND: i64 = -8_334_601_228_800;

/// The last second that a timestamp can stand for, in the year 262142.
pub const LAST_SECOND: i64 = 8_210_266_876_799;

impl Timestamp {
    /// Whether this is a point in time within the calendar.
    pub open spec fn wf(self) -> bool {
        FIRST_SECOND <= self.seconds <= LAST_SECOND && self.nanos < 1_000_000_000
    }

    /// Nanoseconds since the Unix epoch.
    pub open spec fn instant(self) -> int {
        self.seconds * 1_000_000_000 + self.nanos
    }
}

/// A point in time in the form of RFC 3339, with `Z` for UTC and as many
/// digits after the seconds as it takes, in threes.
pub uninterp spec fn rfc3339(seconds: i64, nanos: u32) -> Seq<char>;

/// `DateTime::to_rfc3339_opts` of the crate `chrono`, with `AutoSi` and `Z`.
/// The text is named, not spelled out: it depends on the point in time alone.
#[verifier::external_body]
pub(crate) fn to_rfc3339(time: Timestamp) -> (res: String)
    requires
        time.wf(),
    ensures
        res@ == rfc3339(time.seconds, time.nanos),
{
    let time = chrono::DateTime::from_timestamp(time.seconds, time.nanos).unwrap();
    time.to_rfc3339_opts(chrono::SecondsFormat::AutoSi, true)
}

/// Points in time are ordered by their seconds, and within one second by their
/// nanoseconds; no two of them are the same instant.
pub proof fn instants_are_ordered(a: Timestamp, b: Timestamp)
    requires
        a.wf(),
        b.wf(),
    ensures
        a.instant() < b.instant() <==> a.seconds < b.seconds || (a.seconds == b.seconds && a.nanos
            < b.nanos),
        a.instant() == b.instant() <==> a == b,
{
}

} // verus!
