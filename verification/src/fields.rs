//! Dates as they stand in the fields of a response, and the rule by which
//! a start date holds a task back.

use crate::error::{ErrorKind, SourceError, SourceErrorView};
use crate::json::{Json, JsonView};
use crate::time::{
    calendar_date, midnight, midnight_of, parse_calendar_date, parse_rfc3339, parse_zoned,
    rfc3339_time, zoned_time, DateError, Timestamp,
};
use vstd::prelude::*;
use vstd::string::*;

verus! {

/// The format of a calendar day: year, month and day with hyphens.
pub const DAY_FORMAT: &'static str = "%Y-%m-%d";

/// The format of a date and time in ISO 8601 with its zone.
pub const INSTANT_FORMAT: &'static str = "%+";

/// The failure that stands for a date that could not be read.
pub open spec fn unreadable_date(text: Seq<char>) -> SourceErrorView {
    SourceErrorView {
        kind: ErrorKind::Parse,
        message: "Could not parse date '"@ + text + "'"@,
    }
}

/// The failure for a date that could not be read.
pub fn unreadable_date_error(text: &str) -> (e: SourceError)
    ensures
        e@ == unreadable_date(text@),
{
    let mut message = "Could not parse date '".to_owned();
    message.append(text);
    message.append("'");
    SourceError::new(ErrorKind::Parse, message)
}

/// A task is held back while its start date lies in the future; a task
/// without start date is never held back.
pub open spec fn startable(start: Option<Timestamp>, now: Timestamp) -> bool {
    match start {
        Some(start) => !now.before(start),
        None => true,
    }
}

/// Whether a task with the given start date may be shown at `now`.
pub fn can_start(start: &Option<Timestamp>, now: &Timestamp) -> (r: bool)
    ensures
        r == startable(*start, *now),
{
    match start {
        Some(start) => !now.is_before(start),
        None => true,
    }
}

/// What a field that may hold a date stands for, given what the date
/// format makes of its text: no date where the field holds no text, the
/// date where the text is one, a failure where it is none.
pub open spec fn dated<T>(text: Option<Seq<char>>, read: Result<T, DateError>) -> Result<
    Option<T>,
    SourceErrorView,
> {
    match text {
        None => Ok(None),
        Some(text) => match read {
            Ok(t) => Ok(Some(t)),
            Err(_) => Err(unreadable_date(text)),
        },
    }
}

/// The calendar day in a field, at midnight UTC.
pub open spec fn day_field(value: JsonView) -> Result<Option<Timestamp>, SourceErrorView> {
    match value.text() {
        None => Ok(None),
        Some(text) => match calendar_date(text, DAY_FORMAT@) {
            Ok(day) => Ok(
                Some(Timestamp { secs: midnight_of(day).secs, nanos: midnight_of(day).nanos }),
            ),
            Err(_) => Err(unreadable_date(text)),
        },
    }
}

/// The ISO 8601 date and time in a field.
pub open spec fn instant_field(value: JsonView) -> Result<Option<Timestamp>, SourceErrorView> {
    match value.text() {
        None => Ok(None),
        Some(text) => dated(Some(text), zoned_time(text, INSTANT_FORMAT@)),
    }
}

/// The RFC 3339 date and time in a field.
pub open spec fn rfc3339_field(value: JsonView) -> Result<Option<Timestamp>, SourceErrorView> {
    match value.text() {
        None => Ok(None),
        Some(text) => dated(Some(text), rfc3339_time(text)),
    }
}

/// Whether a result and its model agree: the same date, or failures with
/// the same content.
pub open spec fn agrees(
    r: Result<Option<Timestamp>, SourceError>,
    model: Result<Option<Timestamp>, SourceErrorView>,
) -> bool {
    match r {
        Ok(date) => model == Ok::<Option<Timestamp>, SourceErrorView>(date),
        Err(e) => model == Err::<Option<Timestamp>, SourceErrorView>(e@),
    }
}

/// Reads the calendar day in a field, as midnight UTC of that day. A
/// field that holds no text gives no date; a text that is no day fails.
pub fn read_day(value: &Json) -> (r: Result<Option<Timestamp>, SourceError>)
    ensures
        agrees(r, day_field(value@)),
{
    match value.as_str() {
        None => Ok(None),
        Some(text) => match parse_calendar_date(text, DAY_FORMAT) {
            Ok(day) => Ok(Some(midnight(day).at_utc())),
            Err(_) => Err(unreadable_date_error(text)),
        },
    }
}

/// Reads the ISO 8601 date and time in a field. A field that holds no
/// text gives no date; a text that is no date fails.
pub fn read_instant(value: &Json) -> (r: Result<Option<Timestamp>, SourceError>)
    ensures
        agrees(r, instant_field(value@)),
{
    match value.as_str() {
        None => Ok(None),
        Some(text) => match parse_zoned(text, INSTANT_FORMAT) {
            Ok(t) => Ok(Some(t)),
            Err(_) => Err(unreadable_date_error(text)),
        },
    }
}

/// Reads the RFC 3339 date and time in a field. A field that holds no
/// text gives no date; a text that is no date fails.
pub fn read_rfc3339(value: &Json) -> (r: Result<Option<Timestamp>, SourceError>)
    ensures
        agrees(r, rfc3339_field(value@)),
{
    match value.as_str() {
        None => Ok(None),
        Some(text) => match parse_rfc3339(text) {
            Ok(t) => Ok(Some(t)),
            Err(_) => Err(unreadable_date_error(text)),
        },
    }
}

} // verus!
