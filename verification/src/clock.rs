//! Points in time at the resolution of the store, and the clock.

use vstd::prelude::*;
use crate::duration::{Duration, NANOS_PER_MICRO};

verus! {

/// The earliest point in time, in microseconds since the Unix epoch: the
/// first instant of the year -9999.
pub const TIMESTAMP_MIN_MICROS: i64 = -377_705_116_800_000_000;

/// The latest point in time, in microseconds since the Unix epoch: the last
/// microsecond of the year 9999.
pub const TIMESTAMP_MAX_MICROS: i64 = 253_402_300_799_999_999;

/// Whether `micros` microseconds since the Unix epoch is a point in time
/// that a timestamp can hold.
pub open spec fn timestamp_in_range(micros: int) -> bool {
    TIMESTAMP_MIN_MICROS <= micros <= TIMESTAMP_MAX_MICROS
}

/// A point in time with microsecond resolution.
///
/// Its view is the number of microseconds since the Unix epoch.
#[derive(Clone, Copy, Debug, PartialEq, Eq, Structural)]
pub struct Timestamp {
    micros: i64,
}

impl View for Timestamp {
    type V = int;

    closed spec fn view(&self) -> int {
        self.micros as int
    }
}

impl Timestamp {
    #[verifier::type_invariant]
    closed spec fn in_range(self) -> bool {
        timestamp_in_range(self.micros as int)
    }

    /// Whether the point lies in the range that the type holds. True of
    /// every value that executable code can get hold of.
    pub open spec fn wf(&self) -> bool {
        timestamp_in_range(self@)
    }

    /// The point `micros` microseconds after the Unix epoch, where the type
    /// can hold it.
    pub fn from_unix_micros(micros: i64) -> (r: Option<Timestamp>)
        ensures
            r.is_some() <==> timestamp_in_range(micros as int),
            r.is_some() ==> r.unwrap()@ == micros && r.unwrap().wf(),
    {
        if TIMESTAMP_MIN_MICROS <= micros && micros <= TIMESTAMP_MAX_MICROS {
            Some(Timestamp { micros })
        } else {
            None
        }
    }

    /// The point `nanos` nanoseconds after the Unix epoch, cut down to the
    /// microsecond at or before it, where the type can hold that.
    pub fn from_unix_nanos(nanos: i128) -> (r: Option<Timestamp>)
        ensures
            r.is_some() <==> timestamp_in_range(nanos as int / NANOS_PER_MICRO as int),
            r.is_some() ==> r.unwrap()@ == nanos as int / NANOS_PER_MICRO as int
                && r.unwrap().wf(),
    {
        let low: i128 = TIMESTAMP_MIN_MICROS as i128 * NANOS_PER_MICRO;
        let high: i128 = TIMESTAMP_MAX_MICROS as i128 * NANOS_PER_MICRO + 999;
        if nanos < low || nanos > high {
            return None;
        }
        let shifted: i128 = nanos - low;
        let micros: i128 = shifted / NANOS_PER_MICRO + TIMESTAMP_MIN_MICROS as i128;
        Some(Timestamp { micros: micros as i64 })
    }

    /// Microseconds since the Unix epoch.
    pub fn unix_micros(&self) -> (r: i64)
        ensures
            r == self@,
            self.wf(),
    {
        proof {
            use_type_invariant(self);
        }
        self.micros
    }

    /// The time from `earlier` to this point; negative where `earlier` is
    /// the later of the two.
    pub fn since(&self, earlier: &Timestamp) -> (r: Duration)
        ensures
            r@ == (self@ - earlier@) * NANOS_PER_MICRO,
            r.wf(),
    {
        proof {
            use_type_invariant(self);
            use_type_invariant(earlier);
        }
        Duration::microseconds(self.micros - earlier.micros)
    }

    /// Whether this point is strictly later than `other`.
    pub fn is_after(&self, other: &Timestamp) -> (r: bool)
        ensures
            r == (self@ > other@),
    {
        self.micros > other.micros
    }

    /// The point `micros` microseconds after this one (before it, where
    /// `micros` is negative), where the type can hold it.
    pub fn shifted_by_micros(&self, micros: i64) -> (r: Option<Timestamp>)
        ensures
            r.is_some() <==> timestamp_in_range(self@ + micros),
            r.is_some() ==> r.unwrap()@ == self@ + micros && r.unwrap().wf(),
    {
        proof {
            use_type_invariant(self);
        }
        let wide: i128 = self.micros as i128 + micros as i128;
        if TIMESTAMP_MIN_MICROS as i128 <= wide && wide <= TIMESTAMP_MAX_MICROS as i128 {
            Some(Timestamp { micros: wide as i64 })
        } else {
            None
        }
    }
}

/// Reads the clock through `time::OffsetDateTime::now_utc` and hands back
/// the reading in nanoseconds since the Unix epoch.
///
/// Trusted, and nothing is claimed of the reading.
#[verifier::external_body]
fn clock_unix_nanos() -> i128 {
    time::OffsetDateTime::now_utc().unix_timestamp_nanos()
}

/// The reading of the clock in nanoseconds since the Unix epoch.
pub fn unix_nanos_now() -> i128 {
    clock_unix_nanos()
}

/// The current time, or `None` where the clock reads a time that no
/// timestamp can hold.
pub fn now() -> (r: Option<Timestamp>)
    ensures
        r.is_some() ==> r.unwrap().wf(),
{
    Timestamp::from_unix_nanos(clock_unix_nanos())
}

} // verus!
