//! Timezone-aware instants, modeled as a seconds/nanoseconds pair.
//!
//! The store keeps every timestamp as an `Instant`; the wire encoding is the
//! same pair. Reading the wall clock is delegated to the `chrono` crate.

use vstd::prelude::*;

verus! {

/// A point in time: seconds since the Unix epoch plus a subsecond
/// nanosecond part. The nanosecond part stays below two billion; a value
/// at or above one billion only ever stands for a leap second.
#[derive(Clone, Copy, Debug, PartialEq, Eq, Structural)]
pub struct Instant {
    pub seconds: i64,
    pub nanos: u32,
}

impl Instant {
    /// The nanosecond part is in range.
    pub open spec fn wf(self) -> bool {
        self.nanos < 2_000_000_000
    }

    /// Build an instant from its two components.
    pub fn new(seconds: i64, nanos: u32) -> (r: Instant)
        requires
            nanos < 2_000_000_000,
        ensures
            r == (Instant { seconds, nanos }),
            r.wf(),
    {
        Instant { seconds, nanos }
    }

    /// Compare two instants, earlier-or-equal.
    pub fn le(self, other: Instant) -> (r: bool)
        ensures
            r == instant_le(self, other),
    {
        self.seconds < other.seconds || (self.seconds == other.seconds && self.nanos <= other.nanos)
    }
}

/// Lexicographic order on (seconds, nanos): `a` is at or before `b`.
pub open spec fn instant_le(a: Instant, b: Instant) -> bool {
    a.seconds < b.seconds || (a.seconds == b.seconds && a.nanos <= b.nanos)
}

/// Relies on chrono's `Utc::now`, `DateTime::timestamp` and
/// `DateTime::timestamp_subsec_nanos`: the wall clock, read once. Nothing is
/// promised of the value except that the nanosecond part is in range, which
/// chrono documents (at most 1,999,999,999 during a leap second).
#[verifier::external_body]
pub fn instant_now() -> (r: Instant)
    ensures
        r.wf(),
{
    let now = chrono::Utc::now();
    Instant { seconds: now.timestamp(), nanos: now.timestamp_subsec_nanos() }
}

/// Whether chrono accepts this seconds/nanoseconds pair as a timestamp.
/// Always false once `nanos` reaches two billion.
pub uninterp spec fn timestamp_in_range(seconds: i64, nanos: u32) -> bool;

/// Relies on chrono's `DateTime::from_timestamp`: it returns a date exactly
/// when the pair is within chrono's representable range (it documents `None`
/// on an out-of-range second count or an invalid nanosecond), and the
/// round trip through `timestamp` / `timestamp_subsec_nanos` returns the
/// components unchanged.
#[verifier::external_body]
pub fn instant_from_parts(seconds: i64, nanos: u32) -> (r: Option<Instant>)
    ensures
        r is Some <==> timestamp_in_range(seconds, nanos),
        r matches Some(i) ==> i == (Instant { seconds, nanos }),
        nanos >= 2_000_000_000 ==> r is None,
{
    chrono::DateTime::from_timestamp(seconds, nanos)
        .map(|dt| Instant { seconds: dt.timestamp(), nanos: dt.timestamp_subsec_nanos() })
}

} // verus!
