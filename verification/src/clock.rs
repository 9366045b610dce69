//! Points in time.

use vstd::prelude::*;

verus! {

/// A point in time in UTC: whole seconds since 1970-01-01T00:00:00Z and the
/// nanoseconds past them.
///
/// Within a leap second `nanos` runs on from one to two thousand million while
/// `secs` stands still, so the order is lexicographic rather than by a sum.
#[derive(PartialEq, Eq, Structural, Clone, Copy, Debug)]
pub struct Timestamp {
    pub secs: i64,
    pub nanos: u32,
}

impl Timestamp {
    /// `self` is strictly earlier than `other`.
    pub open spec fn before(self, other: Timestamp) -> bool {
        ||| self.secs < other.secs
        ||| self.secs == other.secs && self.nanos < other.nanos
    }

    /// Whether `self` is strictly earlier than `other`.
    pub fn is_before(self, other: Timestamp) -> (r: bool)
        ensures
            r == self.before(other),
    {
        self.secs < other.secs || (self.secs == other.secs && self.nanos < other.nanos)
    }
}

/// What a clock reading looks like: not before 1970, and never inside a leap
/// second.
pub open spec fn is_reading(t: Timestamp) -> bool {
    t.secs >= 0 && t.nanos < 1_000_000_000
}

/// Reads the system clock through `chrono::Utc::now` and takes the value apart
/// with `DateTime::timestamp` and `DateTime::timestamp_subsec_nanos`.
///
/// Which instant comes back is the machine's business. `chrono` builds it from
/// the time elapsed since 1970, whose subsecond part is below one second; it
/// panics on a clock set before 1970 or past the last year that it can hold,
/// and then nothing is returned.
#[verifier::external_body]
pub(crate) fn utc_now() -> (t: Timestamp)
    ensures
        is_reading(t),
{
    let now = chrono::Utc::now();
    Timestamp { secs: now.timestamp(), nanos: now.timestamp_subsec_nanos() }
}

} // verus!
