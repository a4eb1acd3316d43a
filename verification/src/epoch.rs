use vstd::prelude::*;

verus! {

/// Earliest instant that the calendar can hold, in seconds since
/// 1970-01-01T00:00:00 UTC: the first second of the year -262143.
pub const MIN_SECONDS: i64 = -8_334_601_228_800;

/// Latest second that the calendar can hold: the last second of the year
/// 262142.
pub const MAX_SECONDS: i64 = 8_210_266_876_799;

/// Nanoseconds in a second.
pub const NANOS_PER_SECOND: u32 = 1_000_000_000;

/// An instant on the UTC time scale without leap seconds.
#[derive(Clone, Copy, Debug, PartialEq, Eq, Structural)]
pub struct Epoch {
    /// Whole seconds since 1970-01-01T00:00:00 UTC.
    pub seconds: i64,
    /// Nanoseconds into that second.
    pub nanos: u32,
}

/// Whether the calendar can hold second `s`.
pub open spec fn in_calendar(s: int) -> bool {
    MIN_SECONDS <= s <= MAX_SECONDS
}

/// `chrono::NaiveDateTime::checked_add_signed`, applied to the instant
/// `seconds` and `nanos` after 1970-01-01T00:00:00 UTC (built by
/// `chrono::DateTime::from_timestamp`) and the span that
/// `chrono::TimeDelta::try_seconds` makes of `delta`. The contract claims
/// that the sum is exact, that the nanoseconds are kept, and that the call
/// succeeds exactly when the start and the sum both lie between the first
/// second of `NaiveDate::MIN` and the last second of `NaiveDate::MAX`.
#[verifier::external_body]
fn shift_timestamp(seconds: i64, nanos: u32, delta: i64) -> (r: Option<(i64, u32)>)
    requires
        nanos < NANOS_PER_SECOND,
    ensures
        r.is_some() == (in_calendar(seconds as int) && in_calendar(seconds + delta)),
        r matches Some(t) ==> t.0 == seconds + delta && t.1 == nanos,
{
    let start = chrono::DateTime::from_timestamp(seconds, nanos)?.naive_utc();
    let moved = start.checked_add_signed(chrono::TimeDelta::try_seconds(delta)?)?.and_utc();
    Some((moved.timestamp(), moved.timestamp_subsec_nanos()))
}

impl Epoch {
    /// Nanoseconds stay below a second, and the calendar holds the instant.
    pub open spec fn wf(&self) -> bool {
        &&& self.nanos < NANOS_PER_SECOND
        &&& in_calendar(self.seconds as int)
    }

    /// The instant `delta` seconds later (earlier, where `delta` is
    /// negative), or `None` where the calendar cannot hold it or `self` is
    /// not well formed.
    pub fn advance(&self, delta: i64) -> (r: Option<Epoch>)
        ensures
            r is Some <==> self.wf() && in_calendar(self.seconds + delta),
            r matches Some(e) ==> e.wf() && e.seconds == self.seconds + delta && e.nanos == self.nanos,
    {
        if self.nanos >= NANOS_PER_SECOND {
            return None;
        }
        match shift_timestamp(self.seconds, self.nanos, delta) {
            Some(t) => Some(Epoch { seconds: t.0, nanos: t.1 }),
            None => None,
        }
    }

    /// The instant `minutes` minutes later, or `None` where the calendar
    /// cannot hold it or `self` is not well formed.
    pub fn advance_minutes(&self, minutes: i64) -> (r: Option<Epoch>)
        ensures
            r is Some <==> self.wf() && in_calendar(self.seconds + 60 * minutes),
            r matches Some(e) ==> e.wf() && e.seconds == self.seconds + 60 * minutes && e.nanos
                == self.nanos,
    {
        match minutes.checked_mul(60) {
            Some(delta) => self.advance(delta),
            None => None,
        }
    }
}

} // verus!
