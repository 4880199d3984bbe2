//! Points in time, and the date formats that the sources deliver.

use vstd::prelude::*;

verus! {

/// An instant: whole seconds since 1970-01-01T00:00:00 UTC and the
/// nanoseconds past that second.
#[derive(Clone, Copy, Debug, PartialEq, Eq, Structural)]
pub struct Timestamp {
    pub secs: i64,
    pub nanos: u32,
}

/// A reading of a calendar and a clock without a time zone: the seconds
/// that have passed on that clock since its 1970-01-01T00:00:00, and the
/// nanoseconds past that second.
#[derive(Clone, Copy, Debug, PartialEq, Eq, Structural)]
pub struct WallClock {
    pub secs: i64,
    pub nanos: u32,
}

/// Why a text was not read as a date.
#[derive(Clone, Copy, Debug, PartialEq, Eq, Structural)]
pub enum DateError {
    /// The text ended before the format was complete.
    TooShort,
    /// Any other mismatch between text and format.
    Malformed,
}

/// What a wall-clock reading means in the time zone of this machine.
#[derive(Clone, Copy, Debug, PartialEq, Eq, Structural)]
pub enum LocalTime {
    /// Exactly one instant.
    Single(Timestamp),
    /// Two instants, in either order: the clock was set back over this
    /// reading.
    Ambiguous(Timestamp, Timestamp),
    /// No instant: the clock was set forward over this reading, or the
    /// reading lies outside the years that can be told.
    Missing,
}

impl Timestamp {
    /// Whether this instant lies strictly before `other`.
    pub open spec fn before(self, other: Timestamp) -> bool {
        self.secs < other.secs || (self.secs == other.secs && self.nanos < other.nanos)
    }

    /// The pair by which instants are ordered.
    pub fn key(&self) -> (k: (i64, u32))
        ensures
            k == (self.secs, self.nanos),
    {
        (self.secs, self.nanos)
    }

    /// Whether this instant lies strictly before `other`.
    pub fn is_before(&self, other: &Timestamp) -> (r: bool)
        ensures
            r == self.before(*other),
    {
        self.secs < other.secs || (self.secs == other.secs && self.nanos < other.nanos)
    }

    /// The present instant.
    pub fn now() -> Timestamp {
        current_time()
    }
}

impl WallClock {
    /// The instant at which a clock set to UTC shows this reading.
    pub fn at_utc(&self) -> (t: Timestamp)
        ensures
            t == (Timestamp { secs: self.secs, nanos: self.nanos }),
    {
        Timestamp { secs: self.secs, nanos: self.nanos }
    }
}

impl WallClock {
    /// Whether an instant is one at which a clock in some time zone shows
    /// this reading: it differs from the instant at which a clock set to
    /// UTC shows it by less than a day of whole seconds.
    pub open spec fn shown_at(self, t: Timestamp) -> bool {
        t.nanos == self.nanos && -86_400 < t.secs - self.secs < 86_400
    }

    /// Whether each instant of `local` is one at which a clock in some
    /// time zone shows this reading.
    pub open spec fn resolves_to(self, local: LocalTime) -> bool {
        match local {
            LocalTime::Single(t) => self.shown_at(t),
            LocalTime::Ambiguous(a, b) => self.shown_at(a) && self.shown_at(b),
            LocalTime::Missing => true,
        }
    }
}

/// The seconds of a day.
pub const SECONDS_PER_DAY: i64 = 86_400;

/// The reading of a clock at the first moment of a day, given as the
/// number of days since 1970-01-01.
pub open spec fn midnight_of(day: i32) -> WallClock {
    WallClock { secs: (day * SECONDS_PER_DAY) as i64, nanos: 0 }
}

/// The reading of a clock at the first moment of a day, given as the
/// number of days since 1970-01-01.
pub fn midnight(day: i32) -> (r: WallClock)
    ensures
        r == midnight_of(day),
{
    let days: i64 = day as i64;
    WallClock { secs: days * SECONDS_PER_DAY, nanos: 0 }
}

/// The instant that stands for a local reading: the only one, or the
/// earlier of two.
pub open spec fn earliest_instant(outcome: LocalTime) -> Option<Timestamp> {
    match outcome {
        LocalTime::Single(t) => Some(t),
        LocalTime::Ambiguous(a, b) => Some(
            if b.before(a) {
                b
            } else {
                a
            },
        ),
        LocalTime::Missing => None,
    }
}

/// Chooses the instant that stands for a local reading.
pub fn pick_earliest(outcome: LocalTime) -> (t: Option<Timestamp>)
    ensures
        t == earliest_instant(outcome),
{
    match outcome {
        LocalTime::Single(t) => Some(t),
        LocalTime::Ambiguous(a, b) => {
            if b.is_before(&a) {
                Some(b)
            } else {
                Some(a)
            }
        },
        LocalTime::Missing => None,
    }
}

/// What `chrono::DateTime::parse_from_str` makes of `text` under `format`.
pub uninterp spec fn zoned_time(text: Seq<char>, format: Seq<char>) -> Result<Timestamp, DateError>;

/// What `chrono::NaiveDateTime::parse_from_str` makes of `text` under `format`.
pub uninterp spec fn wall_clock_time(text: Seq<char>, format: Seq<char>) -> Result<
    WallClock,
    DateError,
>;

/// What `chrono::NaiveDate::parse_from_str` makes of `text` under
/// `format`: the day as the number of days since 1970-01-01.
pub uninterp spec fn calendar_date(text: Seq<char>, format: Seq<char>) -> Result<i32, DateError>;

/// What `chrono::DateTime::parse_from_rfc3339` makes of `text`.
pub uninterp spec fn rfc3339_time(text: Seq<char>) -> Result<Timestamp, DateError>;

/// Calls `chrono::DateTime::parse_from_str`. Trusted: the result is a
/// function of text and format alone; a date and time with its zone comes
/// back as the instant it denotes, a failure as `TooShort` where chrono
/// reports a premature end of the input and as `Malformed` otherwise.
#[verifier::external_body]
pub(crate) fn parse_zoned(text: &str, format: &str) -> (r: Result<Timestamp, DateError>)
    ensures
        r == zoned_time(text@, format@),
{
    match chrono::DateTime::parse_from_str(text, format) {
        Ok(t) => Ok(Timestamp { secs: t.timestamp(), nanos: t.timestamp_subsec_nanos() }),
        Err(e) if e.kind() == chrono::format::ParseErrorKind::TooShort => Err(DateError::TooShort),
        Err(_) => Err(DateError::Malformed),
    }
}

/// Calls `chrono::NaiveDateTime::parse_from_str`. Trusted: the result is a
/// function of text and format alone; failures are told apart as in
/// `parse_zoned`.
#[verifier::external_body]
pub(crate) fn parse_wall_clock(text: &str, format: &str) -> (r: Result<WallClock, DateError>)
    ensures
        r == wall_clock_time(text@, format@),
{
    match chrono::NaiveDateTime::parse_from_str(text, format) {
        Ok(t) => Ok(
            WallClock { secs: t.and_utc().timestamp(), nanos: t.and_utc().timestamp_subsec_nanos() },
        ),
        Err(e) if e.kind() == chrono::format::ParseErrorKind::TooShort => Err(DateError::TooShort),
        Err(_) => Err(DateError::Malformed),
    }
}

/// Calls `chrono::NaiveDate::parse_from_str` and hands the day out as
/// `NaiveDate::to_epoch_days` counts it. Trusted: the result is a
/// function of text and format alone; failures are told apart as in
/// `parse_zoned`.
#[verifier::external_body]
pub(crate) fn parse_calendar_date(text: &str, format: &str) -> (r: Result<i32, DateError>)
    ensures
        r == calendar_date(text@, format@),
{
    match chrono::NaiveDate::parse_from_str(text, format) {
        Ok(d) => Ok(d.to_epoch_days()),
        Err(e) if e.kind() == chrono::format::ParseErrorKind::TooShort => Err(DateError::TooShort),
        Err(_) => Err(DateError::Malformed),
    }
}

/// Calls `chrono::DateTime::parse_from_rfc3339`. Trusted: the result is a
/// function of the text alone; failures are told apart as in `parse_zoned`.
#[verifier::external_body]
pub(crate) fn parse_rfc3339(text: &str) -> (r: Result<Timestamp, DateError>)
    ensures
        r == rfc3339_time(text@),
{
    match chrono::DateTime::parse_from_rfc3339(text) {
        Ok(t) => Ok(Timestamp { secs: t.timestamp(), nanos: t.timestamp_subsec_nanos() }),
        Err(e) if e.kind() == chrono::format::ParseErrorKind::TooShort => Err(DateError::TooShort),
        Err(_) => Err(DateError::Malformed),
    }
}

/// Calls `chrono::NaiveDateTime::and_local_timezone` with `chrono::Local`
/// on the reading that `chrono::DateTime::from_timestamp` rebuilds. Which
/// instants come back depends on the time zone of the machine. Trusted
/// of each of them: chrono takes an offset of whole seconds and of less
/// than a day from the reading, so the nanoseconds stay and the seconds
/// differ by less than a day.
#[verifier::external_body]
pub(crate) fn resolve_local(reading: WallClock) -> (r: LocalTime)
    ensures
        reading.resolves_to(r),
{
    let instant = |t: chrono::DateTime<chrono::Local>| Timestamp {
        secs: t.timestamp(),
        nanos: t.timestamp_subsec_nanos(),
    };
    match chrono::DateTime::from_timestamp(reading.secs, reading.nanos) {
        Some(utc) => match utc.naive_utc().and_local_timezone(chrono::Local) {
            chrono::offset::LocalResult::Single(t) => LocalTime::Single(instant(t)),
            chrono::offset::LocalResult::Ambiguous(a, b) => LocalTime::Ambiguous(instant(a), instant(b)),
            chrono::offset::LocalResult::None => LocalTime::Missing,
        },
        None => LocalTime::Missing,
    }
}

/// Calls `chrono::Utc::now`. Nothing is claimed of the result.
#[verifier::external_body]
pub(crate) fn current_time() -> Timestamp {
    let now = chrono::Utc::now();
    Timestamp { secs: now.timestamp(), nanos: now.timestamp_subsec_nanos() }
}

} // verus!
