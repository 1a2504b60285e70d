//! Points in time, as far as the client compares them.

use vstd::prelude::*;

verus! {

/// A point in time in UTC: whole seconds since the Unix epoch, and the nanoseconds within the
/// second. A leap second is written as the second before it with `nanos` of one billion or more,
/// so that the order of the two fields is the order of time.
#[derive(Clone, Copy, Debug, PartialEq, Eq, Structural)]
pub struct UtcTime {
    pub seconds: i64,
    pub nanos: u32,
}

impl UtcTime {
    /// `self` is not later than `other`.
    pub open spec fn not_after(self, other: UtcTime) -> bool {
        self.seconds < other.seconds || (self.seconds == other.seconds && self.nanos <= other.nanos)
    }

    /// Whether `self` is not later than `other`.
    pub fn is_not_after(&self, other: &UtcTime) -> (r: bool)
        ensures
            r == self.not_after(*other),
            r == (self.seconds < other.seconds || (self.seconds == other.seconds && self.nanos
                <= other.nanos)),
    {
        self.seconds < other.seconds || (self.seconds == other.seconds && self.nanos <= other.nanos)
    }
}

/// The current time, by `chrono::Utc::now`. The instant that comes back is the system clock's and
/// is left open; chrono documents that the nanoseconds within a second, leap seconds counted in,
/// stay below two billion. chrono panics where the system clock stands before the Unix epoch.
#[verifier::external_body]
pub(crate) fn utc_now() -> (r: UtcTime)
    ensures
        r.nanos < 2_000_000_000,
{
    let now = chrono::Utc::now();
    UtcTime { seconds: now.timestamp(), nanos: now.timestamp_subsec_nanos() }
}

} // verus!
