//! Instants in whole seconds of UTC, and the ranges between two of them.

use chrono::format::ParseError;
use chrono::{DateTime, NaiveDate, NaiveDateTime, NaiveTime, Utc};
use vstd::prelude::*;

verus! {

/// The first second a [`Timestamp`] can hold: 0000-01-01 00:00:00 UTC.
pub const MIN_SECONDS: i64 = -62_167_219_200;

/// The last second a [`Timestamp`] can hold: 9999-12-31 23:59:59 UTC.
pub const MAX_SECONDS: i64 = 253_402_300_799;

/// An instant, as seconds since 1970-01-01 00:00:00 UTC.
///
/// Every value lies in the years 0000 to 9999, the span that fourteen digits
/// `YYYYMMDDHHMMSS` can write.
#[derive(Clone, Copy, Debug, PartialEq, Eq, Structural)]
pub struct Timestamp {
    secs: i64,
}

impl View for Timestamp {
    type V = int;

    closed spec fn view(&self) -> int {
        self.secs as int
    }
}

/// Whether `secs` lies in the span of [`Timestamp`].
pub open spec fn in_span(secs: int) -> bool {
    MIN_SECONDS <= secs <= MAX_SECONDS
}

/// `chrono::format::ParseError`, which is carried through and never looked
/// into.
#[verifier::external_type_specification]
#[verifier::external_body]
pub struct ExParseError(ParseError);

/// What `chrono` reads out of `text` under `%Y%m%dT%H%M%SZ`: the seconds
/// from the epoch to that date and time of day taken as UTC, or nothing where
/// `chrono` refuses the text.
pub uninterp spec fn seen_date_seconds(text: Seq<char>) -> Option<i64>;

/// What `chrono` writes for the instant `secs` under `%Y%m%d%H%M%S`.
pub uninterp spec fn window_text(secs: int) -> Seq<char>;

/// What `chrono` writes for the instant `secs` of UTC in the notation of RFC
/// 3339, `1996-12-19T16:39:57+00:00`.
pub uninterp spec fn rfc3339_text(secs: int) -> Seq<char>;

/// What `chrono` reads out of `text` under `%Y-%m-%d`: the seconds from the
/// epoch to midnight UTC at the start of that day, or nothing where `chrono`
/// refuses the text.
pub uninterp spec fn day_start_seconds(text: Seq<char>) -> Option<i64>;

/// `chrono::NaiveDateTime::parse_from_str` under `%Y%m%dT%H%M%SZ`, with the
/// date and time it returns counted in seconds from the epoch as UTC.
/// Trusted: that the outcome depends on the characters of `text` alone.
#[verifier::external_body]
fn chrono_parse_seen_date(text: &str) -> (parsed: Result<i64, ParseError>)
    ensures
        parsed is Ok <==> seen_date_seconds(text@) is Some,
        parsed matches Ok(secs) ==> seen_date_seconds(text@) == Some(secs),
{
    match NaiveDateTime::parse_from_str(text, "%Y%m%dT%H%M%SZ") {
        Ok(moment) => Ok(moment.and_utc().timestamp()),
        Err(refusal) => Err(refusal),
    }
}

/// `chrono::DateTime::format` under `%Y%m%d%H%M%S`, on the UTC instant that
/// `chrono::DateTime::from_timestamp` makes of `secs`.
/// Trusted: that `chrono` can hold every second of the years 0000 to 9999, and
/// that the text depends on `secs` alone.
#[verifier::external_body]
fn chrono_window_text(secs: i64) -> (text: String)
    requires
        in_span(secs as int),
    ensures
        text@ == window_text(secs as int),
{
    let moment: DateTime<Utc> = DateTime::from_timestamp(secs, 0).unwrap_or_default();
    moment.format("%Y%m%d%H%M%S").to_string()
}

/// `chrono::DateTime::to_rfc3339`, on the UTC instant that
/// `chrono::DateTime::from_timestamp` makes of `secs`.
/// Trusted: that `chrono` can hold every second of the years 0000 to 9999, and
/// that the text depends on `secs` alone.
#[verifier::external_body]
fn chrono_rfc3339(secs: i64) -> (text: String)
    requires
        in_span(secs as int),
    ensures
        text@ == rfc3339_text(secs as int),
{
    let moment: DateTime<Utc> = DateTime::from_timestamp(secs, 0).unwrap_or_default();
    moment.to_rfc3339()
}

/// `chrono::NaiveDate::parse_from_str` under `%Y-%m-%d`, with midnight of
/// the day it returns counted in seconds from the epoch as UTC.
/// Trusted: that the outcome depends on the characters of `text` alone.
#[verifier::external_body]
fn chrono_parse_day(text: &str) -> (parsed: Result<i64, ParseError>)
    ensures
        parsed is Ok <==> day_start_seconds(text@) is Some,
        parsed matches Ok(secs) ==> day_start_seconds(text@) == Some(secs),
{
    match NaiveDate::parse_from_str(text, "%Y-%m-%d") {
        Ok(day) => Ok(day.and_time(NaiveTime::MIN).and_utc().timestamp()),
        Err(refusal) => Err(refusal),
    }
}

impl Timestamp {
    #[verifier::type_invariant]
    spec fn within_span(self) -> bool {
        in_span(self.secs as int)
    }

    /// The instant `secs` seconds from the epoch, if it lies in the span.
    pub fn new(secs: i64) -> (made: Option<Timestamp>)
        ensures
            made is Some <==> in_span(secs as int),
            made matches Some(t) ==> t@ == secs,
    {
        if MIN_SECONDS <= secs && secs <= MAX_SECONDS {
            Some(Timestamp { secs })
        } else {
            None
        }
    }

    /// Seconds since the epoch.
    pub fn seconds(&self) -> (secs: i64)
        ensures
            secs == self@,
            in_span(secs as int),
    {
        proof {
            use_type_invariant(self);
        }
        self.secs
    }

    /// Whether `self` is strictly earlier than `other`.
    pub fn is_before(&self, other: &Timestamp) -> (earlier: bool)
        ensures
            earlier == (self@ < other@),
    {
        self.secs < other.secs
    }

    /// Whether both are the same instant.
    pub fn is_same(&self, other: &Timestamp) -> (same: bool)
        ensures
            same == (self@ == other@),
            same == (*self == *other),
    {
        self.secs == other.secs
    }

    /// The instant as fourteen digits of UTC, `YYYYMMDDHHMMSS`.
    pub fn to_window_text(&self) -> (text: String)
        ensures
            text@ == window_text(self@),
    {
        proof {
            use_type_invariant(self);
        }
        chrono_window_text(self.secs)
    }

    /// The instant in the notation of RFC 3339, `2024-01-31T00:00:00+00:00`.
    pub fn to_rfc3339(&self) -> (text: String)
        ensures
            text@ == rfc3339_text(self@),
    {
        proof {
            use_type_invariant(self);
        }
        chrono_rfc3339(self.secs)
    }
}

/// Why a text gave no [`Timestamp`].
#[derive(Clone, Copy, Debug, PartialEq, Eq, Structural)]
pub enum TimestampError {
    /// The text is not a date and time in the expected notation.
    Unreadable,
    /// The text names an instant outside the years 0000 to 9999.
    OutOfSpan,
}

/// What a reading of `seconds`, as a parser hands it on, comes to.
pub open spec fn timestamp_of(seconds: Option<i64>) -> Result<int, TimestampError> {
    match seconds {
        None => Err(TimestampError::Unreadable),
        Some(secs) => if in_span(secs as int) {
            Ok(secs as int)
        } else {
            Err(TimestampError::OutOfSpan)
        },
    }
}

/// Whether `made` is the timestamp or the refusal that `expected` describes.
pub open spec fn agrees(made: Result<Timestamp, TimestampError>, expected: Result<int, TimestampError>) -> bool {
    match (made, expected) {
        (Ok(t), Ok(secs)) => t@ == secs,
        (Err(e), Err(f)) => e == f,
        _ => false,
    }
}

/// Turns what a parser read into a timestamp: its error stays an error, and a
/// second outside the span is refused.
pub fn timestamp_from_parse(parsed: Result<i64, ParseError>) -> (made: Result<Timestamp, TimestampError>)
    ensures
        agrees(made, timestamp_of(match parsed { Ok(secs) => Some(secs), Err(_) => None })),
{
    match parsed {
        Ok(secs) => match Timestamp::new(secs) {
            Some(t) => Ok(t),
            None => Err(TimestampError::OutOfSpan),
        },
        Err(_) => Err(TimestampError::Unreadable),
    }
}

/// Reads the instant an article was seen, as the provider writes it
/// (`20230624T121500Z`).
pub fn to_datetime(date: &String) -> (made: Result<Timestamp, TimestampError>)
    ensures
        agrees(made, timestamp_of(seen_date_seconds(date@))),
{
    timestamp_from_parse(chrono_parse_seen_date(date.as_str()))
}

/// Reads a calendar day (`2024-01-31`) as the midnight UTC that begins it.
pub fn day_start(day: &String) -> (made: Result<Timestamp, TimestampError>)
    ensures
        agrees(made, timestamp_of(day_start_seconds(day@))),
{
    timestamp_from_parse(chrono_parse_day(day.as_str()))
}

/// Why two instants do not make a [`DateRange`].
#[derive(Clone, Copy, Debug, PartialEq, Eq, Structural)]
pub enum DateRangeError {
    /// The start is not strictly before the end.
    InvalidDateRange,
}

impl DateRangeError {
    /// The error in words.
    pub fn message(&self) -> (text: String)
        ensures
            text@ == "Start date must be before end date"@,
    {
        String::from_str("Start date must be before end date")
    }
}

/// The instants from `start` up to `end`; the start always precedes the end.
#[derive(Clone, Copy, Debug, PartialEq, Eq, Structural)]
pub struct DateRange {
    start: Timestamp,
    end: Timestamp,
}

impl DateRange {
    #[verifier::type_invariant]
    spec fn ordered(self) -> bool {
        self.start@ < self.end@
    }

    /// The first second of the range.
    pub closed spec fn start_seconds(&self) -> int {
        self.start@
    }

    /// The second at which the range ends.
    pub closed spec fn end_seconds(&self) -> int {
        self.end@
    }

    /// The range from `start_date` to `end_date`, which must come later.
    pub fn new(start_date: Timestamp, end_date: Timestamp) -> (made: Result<DateRange, DateRangeError>)
        ensures
            start_date@ < end_date@ ==> made is Ok,
            start_date@ >= end_date@ ==> made == Err::<DateRange, DateRangeError>(DateRangeError::InvalidDateRange),
            made matches Ok(range) ==> range.start_seconds() == start_date@ && range.end_seconds() == end_date@,
    {
        if start_date.is_before(&end_date) {
            Ok(DateRange { start: start_date, end: end_date })
        } else {
            Err(DateRangeError::InvalidDateRange)
        }
    }

    /// Where the range starts.
    pub fn start(&self) -> (t: Timestamp)
        ensures
            t@ == self.start_seconds(),
            t@ < self.end_seconds(),
    {
        proof {
            use_type_invariant(self);
        }
        self.start
    }

    /// Where the range ends.
    pub fn end(&self) -> (t: Timestamp)
        ensures
            t@ == self.end_seconds(),
            self.start_seconds() < t@,
    {
        proof {
            use_type_invariant(self);
        }
        self.end
    }

    /// Whether `t` lies between the two ends, both included.
    pub fn covers(&self, t: &Timestamp) -> (inside: bool)
        ensures
            inside == (self.start_seconds() <= t@ <= self.end_seconds()),
    {
        !t.is_before(&self.start) && !self.end.is_before(t)
    }
}

} // verus!
