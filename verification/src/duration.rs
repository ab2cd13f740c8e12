//! Durations in the three shapes the queue meets them: signed with nanosecond
//! resolution, unsigned as the standard library has them, and the store's
//! interval. One conversion layer turns each into the others.

use vstd::prelude::*;
use vstd::string::StringExecFns;

verus! {

/// Nanoseconds in one second.
pub const NANOS_PER_SECOND: i128 = 1_000_000_000;

/// Nanoseconds in one microsecond.
pub const NANOS_PER_MICRO: i128 = 1_000;

/// The longest signed duration: `i64::MAX` seconds and 999,999,999 nanoseconds.
pub const DURATION_MAX_NANOS: i128 = 9_223_372_036_854_775_807_999_999_999;

/// The most negative signed duration: `i64::MIN` seconds and -999,999,999 nanoseconds.
pub const DURATION_MIN_NANOS: i128 = -9_223_372_036_854_775_808_999_999_999;

/// The quotient of `a` by a positive `b`, rounded toward zero.
pub open spec fn div_toward_zero(a: int, b: int) -> int {
    if a >= 0 {
        a / b
    } else {
        -((-a) / b)
    }
}

/// Whether `nanos` is a length of time that a signed duration can hold.
pub open spec fn duration_in_range(nanos: int) -> bool {
    DURATION_MIN_NANOS <= nanos <= DURATION_MAX_NANOS
}

/// A signed span of time with nanosecond resolution.
///
/// Its view is the span in nanoseconds.
#[derive(Clone, Copy, Debug, PartialEq, Eq, Structural)]
pub struct Duration {
    nanos: i128,
}

impl View for Duration {
    type V = int;

    closed spec fn view(&self) -> int {
        self.nanos as int
    }
}

impl Duration {
    #[verifier::type_invariant]
    closed spec fn in_range(self) -> bool {
        duration_in_range(self.nanos as int)
    }

    /// Whether the span lies in the range that the type holds. True of every
    /// value that executable code can get hold of.
    pub open spec fn wf(&self) -> bool {
        duration_in_range(self@)
    }

    /// The empty span.
    pub fn zero() -> (r: Duration)
        ensures
            r@ == 0,
            r.wf(),
    {
        Duration { nanos: 0 }
    }

    /// The span of `seconds` whole seconds.
    pub fn seconds(seconds: i64) -> (r: Duration)
        ensures
            r@ == seconds * NANOS_PER_SECOND,
            r.wf(),
    {
        let wide: i128 = seconds as i128;
        Duration { nanos: wide * NANOS_PER_SECOND }
    }

    /// The span of `microseconds` whole microseconds.
    pub fn microseconds(microseconds: i64) -> (r: Duration)
        ensures
            r@ == microseconds * NANOS_PER_MICRO,
            r.wf(),
    {
        let wide: i128 = microseconds as i128;
        Duration { nanos: wide * NANOS_PER_MICRO }
    }

    /// The span of `nanoseconds` nanoseconds, where the type can hold it.
    pub fn from_nanos(nanoseconds: i128) -> (r: Option<Duration>)
        ensures
            r.is_some() <==> duration_in_range(nanoseconds as int),
            r.is_some() ==> r.unwrap()@ == nanoseconds && r.unwrap().wf(),
    {
        if DURATION_MIN_NANOS <= nanoseconds && nanoseconds <= DURATION_MAX_NANOS {
            Some(Duration { nanos: nanoseconds })
        } else {
            None
        }
    }

    /// The span in nanoseconds.
    pub fn whole_nanoseconds(&self) -> (r: i128)
        ensures
            r == self@,
            self.wf(),
    {
        proof {
            use_type_invariant(self);
        }
        self.nanos
    }

    /// The whole microseconds in the span, rounded toward zero.
    pub fn whole_microseconds(&self) -> (r: i128)
        ensures
            r == div_toward_zero(self@, NANOS_PER_MICRO as int),
    {
        proof {
            use_type_invariant(self);
        }
        if self.nanos >= 0 {
            self.nanos / NANOS_PER_MICRO
        } else {
            -((-self.nanos) / NANOS_PER_MICRO)
        }
    }

    /// The whole seconds in the span, rounded toward zero.
    pub fn whole_seconds(&self) -> (r: i64)
        ensures
            r == div_toward_zero(self@, NANOS_PER_SECOND as int),
    {
        proof {
            use_type_invariant(self);
        }
        if self.nanos >= 0 {
            (self.nanos / NANOS_PER_SECOND) as i64
        } else {
            (-((-self.nanos) / NANOS_PER_SECOND)) as i64
        }
    }

    /// Whether the span is below zero.
    pub fn is_negative(&self) -> (r: bool)
        ensures
            r == (self@ < 0),
    {
        self.nanos < 0
    }

    /// Whether the span is above zero.
    pub fn is_positive(&self) -> (r: bool)
        ensures
            r == (self@ > 0),
    {
        self.nanos > 0
    }

    /// Whether this span is strictly longer than `other`.
    pub fn exceeds(&self, other: &Duration) -> (r: bool)
        ensures
            r == (self@ > other@),
    {
        self.nanos > other.nanos
    }

    /// The sum of two spans, where the type can hold it.
    pub fn checked_add(&self, other: &Duration) -> (r: Option<Duration>)
        ensures
            r.is_some() <==> duration_in_range(self@ + other@),
            r.is_some() ==> r.unwrap()@ == self@ + other@ && r.unwrap().wf(),
    {
        proof {
            use_type_invariant(self);
            use_type_invariant(other);
        }
        Duration::from_nanos(self.nanos + other.nanos)
    }

    /// The difference of two spans, where the type can hold it.
    pub fn checked_sub(&self, other: &Duration) -> (r: Option<Duration>)
        ensures
            r.is_some() <==> duration_in_range(self@ - other@),
            r.is_some() ==> r.unwrap()@ == self@ - other@ && r.unwrap().wf(),
    {
        proof {
            use_type_invariant(self);
            use_type_invariant(other);
        }
        Duration::from_nanos(self.nanos - other.nanos)
    }

    /// The span itself, or the empty span where it is negative.
    pub fn max_zero(&self) -> (r: Duration)
        ensures
            r@ == if self@ > 0 { self@ } else { 0 },
            r.wf(),
    {
        proof {
            use_type_invariant(self);
        }
        if self.nanos > 0 {
            *self
        } else {
            Duration::zero()
        }
    }
}

/// Microseconds in one second.
pub const MICROS_PER_SECOND: u64 = 1_000_000;

/// An unsigned span of time: whole seconds and the nanoseconds beyond them.
#[derive(Clone, Copy, Debug, PartialEq, Eq, Structural)]
pub struct StdDuration {
    secs: u64,
    nanos: u32,
}

impl StdDuration {
    #[verifier::type_invariant]
    closed spec fn normal(self) -> bool {
        self.nanos < 1_000_000_000
    }

    /// The whole seconds of the span.
    pub closed spec fn secs(&self) -> u64 {
        self.secs
    }

    /// The nanoseconds beyond the whole seconds.
    pub closed spec fn nanos(&self) -> u32 {
        self.nanos
    }

    /// Whether the nanoseconds stay below one second. True of every value
    /// that executable code can get hold of.
    pub open spec fn wf(&self) -> bool {
        self.nanos() < 1_000_000_000
    }

    /// The span in microseconds, rounded down.
    pub open spec fn micros(&self) -> int {
        self.secs() * 1_000_000 + self.nanos() / 1_000
    }

    /// The span of `secs` whole seconds.
    pub fn from_secs(secs: u64) -> (r: StdDuration)
        ensures
            r.secs() == secs,
            r.nanos() == 0,
            r.wf(),
    {
        StdDuration { secs, nanos: 0 }
    }

    /// The span of `micros` microseconds.
    pub fn from_micros(micros: u64) -> (r: StdDuration)
        ensures
            r.secs() == micros / MICROS_PER_SECOND,
            r.nanos() == (micros % MICROS_PER_SECOND) * 1_000,
            r.wf(),
    {
        let rest: u64 = micros % MICROS_PER_SECOND;
        StdDuration { secs: micros / MICROS_PER_SECOND, nanos: (rest * 1_000) as u32 }
    }

    /// The span of `nanos` nanoseconds.
    pub fn from_nanos(nanos: u64) -> (r: StdDuration)
        ensures
            r.secs() == nanos / 1_000_000_000,
            r.nanos() == nanos % 1_000_000_000,
            r.wf(),
    {
        StdDuration { secs: nanos / 1_000_000_000, nanos: (nanos % 1_000_000_000) as u32 }
    }

    /// The span of `millis` milliseconds.
    pub fn from_millis(millis: u64) -> (r: StdDuration)
        ensures
            r.secs() == millis / 1_000,
            r.nanos() == (millis % 1_000) * 1_000_000,
            r.wf(),
    {
        let rest: u64 = millis % 1_000;
        StdDuration { secs: millis / 1_000, nanos: (rest * 1_000_000) as u32 }
    }

    /// The span of `secs` seconds and `nanos` nanoseconds, where `nanos`
    /// stays below one second.
    pub fn new(secs: u64, nanos: u32) -> (r: Option<StdDuration>)
        ensures
            r.is_some() <==> nanos < 1_000_000_000,
            r.is_some() ==> r.unwrap().secs() == secs && r.unwrap().nanos() == nanos
                && r.unwrap().wf(),
    {
        if nanos < 1_000_000_000 {
            Some(StdDuration { secs, nanos })
        } else {
            None
        }
    }

    /// The whole seconds of the span.
    pub fn as_secs(&self) -> (r: u64)
        ensures
            r == self.secs(),
    {
        self.secs
    }

    /// The nanoseconds beyond the whole seconds.
    pub fn subsec_nanos(&self) -> (r: u32)
        ensures
            r == self.nanos(),
            r < 1_000_000_000,
    {
        proof {
            use_type_invariant(self);
        }
        self.nanos
    }

    /// The span in microseconds, rounded down.
    pub fn as_micros(&self) -> (r: u128)
        ensures
            r == self.micros(),
    {
        let secs: u128 = self.secs as u128;
        let sub: u128 = (self.nanos / 1_000) as u128;
        secs * 1_000_000 + sub
    }
}

/// A span of time as the store keeps it: calendar months and days beside
/// a count of microseconds.
#[derive(Clone, Copy, Debug, PartialEq, Eq, Structural)]
pub struct PgInterval {
    pub months: i32,
    pub days: i32,
    pub microseconds: i64,
}

/// Why a span could not be turned into another shape.
#[derive(Clone, Copy, Debug, PartialEq, Eq, Structural)]
pub enum ConversionError {
    /// The span is below zero and the target is unsigned.
    Negative,
    /// The span is longer than the target can hold, in the one direction
    /// or the other.
    TooLarge,
    /// The interval counts months or days, which have no fixed length.
    CalendarUnits,
}

/// What the human-readable rendering of an unsigned span of `secs` seconds
/// and `nanos` nanoseconds reads.
pub uninterp spec fn human_text(secs: u64, nanos: u32) -> Seq<char>;

/// Renders a span with `humantime::format_duration`, as in `2h 37m`.
///
/// Trusted: the text is a function of the seconds and nanoseconds alone.
#[verifier::external_body]
fn format_std_duration(secs: u64, nanos: u32) -> (r: String)
    requires
        nanos < 1_000_000_000,
    ensures
        r@ == human_text(secs, nanos),
{
    humantime::format_duration(std::time::Duration::new(secs, nanos)).to_string()
}

/// Conversions between the three shapes of a span, and its rendering for
/// people.
pub trait DurationExt {
    /// The span as a signed duration, in nanoseconds, or why it has none.
    spec fn duration_model(&self) -> Result<int, ConversionError>;

    /// The span as an unsigned duration, in whole seconds and the
    /// nanoseconds beyond them, or why it has none.
    spec fn std_model(&self) -> Result<(u64, u32), ConversionError>;

    /// The span as an interval of the store, or why it has none.
    spec fn interval_model(&self) -> Result<PgInterval, ConversionError>;

    /// The span as a signed duration.
    fn to_duration(&self) -> (r: Result<Duration, ConversionError>)
        ensures
            match r {
                Ok(d) => self.duration_model() == Ok::<int, ConversionError>(d@) && d.wf(),
                Err(e) => self.duration_model() == Err::<int, ConversionError>(e),
            },
    ;

    /// The span as an unsigned duration.
    fn to_std_duration(&self) -> (r: Result<StdDuration, ConversionError>)
        ensures
            match r {
                Ok(d) => self.std_model() == Ok::<(u64, u32), ConversionError>(
                    (d.secs(), d.nanos()),
                ) && d.wf(),
                Err(e) => self.std_model() == Err::<(u64, u32), ConversionError>(e),
            },
    ;

    /// The span as an interval of the store.
    fn to_pg_interval(&self) -> (r: Result<PgInterval, ConversionError>)
        ensures
            r == self.interval_model(),
    ;

    /// The span for people to read. A span that has no unsigned form reads
    /// as the empty span does.
    fn format_human(&self) -> (r: String)
        ensures
            r@ == match self.std_model() {
                Ok(d) => human_text(d.0, d.1),
                Err(_) => "0s"@,
            },
    {
        match self.to_std_duration() {
            Ok(d) => format_std_duration(d.as_secs(), d.subsec_nanos()),
            Err(_) => String::from_str("0s"),
        }
    }
}

impl DurationExt for Duration {
    open spec fn duration_model(&self) -> Result<int, ConversionError> {
        Ok(self@)
    }

    open spec fn std_model(&self) -> Result<(u64, u32), ConversionError> {
        if self@ < 0 {
            Err(ConversionError::Negative)
        } else {
            Ok(((self@ / NANOS_PER_SECOND as int) as u64, 0u32))
        }
    }

    open spec fn interval_model(&self) -> Result<PgInterval, ConversionError> {
        let micros = div_toward_zero(self@, NANOS_PER_MICRO as int);
        if micros > i64::MAX || micros < i64::MIN {
            Err(ConversionError::TooLarge)
        } else {
            Ok(PgInterval { months: 0, days: 0, microseconds: micros as i64 })
        }
    }

    fn to_duration(&self) -> (r: Result<Duration, ConversionError>) {
        proof {
            use_type_invariant(self);
        }
        Ok(*self)
    }

    fn to_std_duration(&self) -> (r: Result<StdDuration, ConversionError>) {
        if self.is_negative() {
            return Err(ConversionError::Negative);
        }
        let secs: i64 = self.whole_seconds();
        Ok(StdDuration::from_secs(secs as u64))
    }

    fn to_pg_interval(&self) -> (r: Result<PgInterval, ConversionError>) {
        let micros: i128 = self.whole_microseconds();
        if micros > i64::MAX as i128 || micros < i64::MIN as i128 {
            return Err(ConversionError::TooLarge);
        }
        Ok(PgInterval { months: 0, days: 0, microseconds: micros as i64 })
    }
}

impl DurationExt for StdDuration {
    open spec fn duration_model(&self) -> Result<int, ConversionError> {
        if self.secs() > i64::MAX {
            Err(ConversionError::TooLarge)
        } else {
            Ok(self.secs() * NANOS_PER_SECOND)
        }
    }

    open spec fn std_model(&self) -> Result<(u64, u32), ConversionError> {
        Ok((self.secs(), self.nanos()))
    }

    open spec fn interval_model(&self) -> Result<PgInterval, ConversionError> {
        if self.micros() > i64::MAX {
            Err(ConversionError::TooLarge)
        } else {
            Ok(PgInterval { months: 0, days: 0, microseconds: self.micros() as i64 })
        }
    }

    fn to_duration(&self) -> (r: Result<Duration, ConversionError>) {
        let seconds: u64 = self.as_secs();
        if seconds > i64::MAX as u64 {
            return Err(ConversionError::TooLarge);
        }
        Ok(Duration::seconds(seconds as i64))
    }

    fn to_std_duration(&self) -> (r: Result<StdDuration, ConversionError>) {
        proof {
            use_type_invariant(self);
        }
        Ok(*self)
    }

    fn to_pg_interval(&self) -> (r: Result<PgInterval, ConversionError>) {
        let micros: u128 = self.as_micros();
        if micros > i64::MAX as u128 {
            return Err(ConversionError::TooLarge);
        }
        Ok(PgInterval { months: 0, days: 0, microseconds: micros as i64 })
    }
}

impl DurationExt for PgInterval {
    open spec fn duration_model(&self) -> Result<int, ConversionError> {
        if self.months != 0 || self.days != 0 {
            Err(ConversionError::CalendarUnits)
        } else {
            Ok(self.microseconds * NANOS_PER_MICRO)
        }
    }

    open spec fn std_model(&self) -> Result<(u64, u32), ConversionError> {
        if self.months != 0 || self.days != 0 {
            Err(ConversionError::CalendarUnits)
        } else if self.microseconds < 0 {
            Err(ConversionError::Negative)
        } else {
            Ok(
                (
                    (self.microseconds / 1_000_000) as u64,
                    ((self.microseconds % 1_000_000) * 1_000) as u32,
                ),
            )
        }
    }

    open spec fn interval_model(&self) -> Result<PgInterval, ConversionError> {
        Ok(*self)
    }

    fn to_duration(&self) -> (r: Result<Duration, ConversionError>) {
        if self.months != 0 || self.days != 0 {
            return Err(ConversionError::CalendarUnits);
        }
        Ok(Duration::microseconds(self.microseconds))
    }

    fn to_std_duration(&self) -> (r: Result<StdDuration, ConversionError>) {
        if self.months != 0 || self.days != 0 {
            return Err(ConversionError::CalendarUnits);
        }
        if self.microseconds < 0 {
            return Err(ConversionError::Negative);
        }
        Ok(StdDuration::from_micros(self.microseconds as u64))
    }

    fn to_pg_interval(&self) -> (r: Result<PgInterval, ConversionError>) {
        Ok(*self)
    }
}

/// A span of whole microseconds that is not negative and no longer than
/// an interval can count comes back unchanged from the way to an interval
/// and back.
pub proof fn lemma_interval_round_trip(d: Duration)
    requires
        d.wf(),
        0 <= d@,
        d@ % (NANOS_PER_MICRO as int) == 0,
        d@ / (NANOS_PER_MICRO as int) <= i64::MAX,
    ensures
        d.interval_model().is_ok(),
        d.interval_model().unwrap().duration_model() == Ok::<int, ConversionError>(d@),
{
}

/// An interval without months and days comes back unchanged from the way
/// to a signed duration and back.
pub proof fn lemma_duration_round_trip(interval: PgInterval, d: Duration)
    requires
        interval.months == 0,
        interval.days == 0,
        d.wf(),
        interval.duration_model() == Ok::<int, ConversionError>(d@),
    ensures
        d.interval_model() == Ok::<PgInterval, ConversionError>(interval),
{
    let micros = interval.microseconds as int;
    assert(d@ == micros * 1000);
    if micros >= 0 {
        assert((micros * 1000) / 1000 == micros);
    } else {
        assert((-(micros * 1000)) / 1000 == -micros);
    }
}

} // verus!
