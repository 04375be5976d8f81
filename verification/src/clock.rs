//! Instants and calendar dates as plain numbers, and their standard texts.

use crate::text::opt_chars;
use chrono::Datelike;
use vstd::prelude::*;

verus! {

/// An instant: whole seconds since 1970-01-01 00:00:00 UTC and the
/// nanoseconds into that second.
#[derive(Clone, Copy, Debug, PartialEq, Eq, Structural)]
pub struct Timestamp {
    pub seconds: i64,
    pub nanos: u32,
}

/// The text that chrono displays for the UTC instant `seconds` and `nanos`
/// after the epoch (`2015-05-15 00:00:00 UTC`), or `None` where chrono has no
/// such instant.
pub uninterp spec fn utc_text(seconds: i64, nanos: u32) -> Option<Seq<char>>;

/// The calendar date that chrono reads from `text` under the pattern
/// `%Y-%m-%d`, as year, month and day, or `None` where it reads none.
pub uninterp spec fn parsed_date(text: Seq<char>) -> Option<(i32, u32, u32)>;

/// The text that chrono displays for the calendar date `year`, `month`,
/// `day` (`2015-09-05`), or `None` where no such date exists.
pub uninterp spec fn date_text(year: i32, month: u32, day: u32) -> Option<Seq<char>>;

/// `Utc::now` of chrono, with `DateTime::timestamp` and
/// `DateTime::timestamp_subsec_nanos`: the current instant. Which instant
/// it is cannot be said; chrono makes it with `DateTime::from_timestamp` from
/// the seconds and the nanoseconds of the system clock, so the numbers are
/// an instant that chrono accepts and displays, and the nanoseconds are less
/// than a second.
#[verifier::external_body]
fn utc_now() -> (t: Timestamp)
    ensures
        utc_text(t.seconds, t.nanos) is Some,
        t.nanos < 1_000_000_000,
{
    let now = chrono::Utc::now();
    Timestamp { seconds: now.timestamp(), nanos: now.timestamp_subsec_nanos() }
}

/// `DateTime::from_timestamp` of chrono, displayed: the text of the instant,
/// or `None` where chrono rejects the numbers.
#[verifier::external_body]
fn format_utc(seconds: i64, nanos: u32) -> (out: Option<String>)
    ensures
        opt_chars(out) == utc_text(seconds, nanos),
{
    match chrono::DateTime::from_timestamp(seconds, nanos) {
        Some(t) => Some(t.to_string()),
        None => None,
    }
}

/// `NaiveDate::parse_from_str` of chrono under the pattern `%Y-%m-%d`, read
/// back through `Datelike`: the year, month and day of the date, or `None`
/// where the text is no such date.
#[verifier::external_body]
fn parse_ymd(text: &str) -> (out: Option<(i32, u32, u32)>)
    ensures
        out == parsed_date(text@),
{
    match chrono::NaiveDate::parse_from_str(text, "%Y-%m-%d") {
        Ok(d) => Some((d.year(), d.month(), d.day())),
        Err(_) => None,
    }
}

/// `NaiveDate::from_ymd_opt` of chrono, displayed: the text of the date, or
/// `None` where no such date exists.
#[verifier::external_body]
fn format_ymd(year: i32, month: u32, day: u32) -> (out: Option<String>)
    ensures
        opt_chars(out) == date_text(year, month, day),
{
    match chrono::NaiveDate::from_ymd_opt(year, month, day) {
        Some(d) => Some(d.to_string()),
        None => None,
    }
}

impl Timestamp {
    /// Whether `self` is no later than `other`.
    pub open spec fn le(self, other: Timestamp) -> bool {
        self.seconds < other.seconds || (self.seconds == other.seconds && self.nanos
            <= other.nanos)
    }

    /// Whether the numbers name an instant that can be displayed.
    pub open spec fn is_instant(self) -> bool {
        utc_text(self.seconds, self.nanos) is Some
    }

    /// Whether the numbers are what a reading of the clock gives: an instant
    /// that can be displayed, with its nanoseconds within the second.
    pub open spec fn is_clock_time(self) -> bool {
        self.is_instant() && self.nanos < 1_000_000_000
    }

    /// The display text of the instant; empty where the numbers name no
    /// instant.
    pub open spec fn text(self) -> Seq<char> {
        match utc_text(self.seconds, self.nanos) {
            Some(t) => t,
            None => Seq::empty(),
        }
    }

    /// The current instant, as the system clock gives it: an instant that
    /// can be displayed, with its nanoseconds within the second. Two calls
    /// are not promised to differ, nor the second to be the later.
    pub fn now() -> (t: Timestamp)
        ensures
            t.is_clock_time(),
            t.text() == utc_text(t.seconds, t.nanos)->0,
    {
        utc_now()
    }

    /// Decides [`Timestamp::le`].
    pub fn precedes(&self, other: &Timestamp) -> (r: bool)
        ensures
            r == self.le(*other),
    {
        self.seconds < other.seconds || (self.seconds == other.seconds && self.nanos
            <= other.nanos)
    }

    /// Writes the instant.
    pub fn to_string(&self) -> (out: String)
        ensures
            out@ == self.text(),
    {
        match format_utc(self.seconds, self.nanos) {
            Some(t) => t,
            None => String::new(),
        }
    }
}

/// A day of the calendar.
#[derive(Clone, Copy, Debug, PartialEq, Eq, Structural)]
pub struct CalendarDate {
    pub year: i32,
    pub month: u32,
    pub day: u32,
}

impl CalendarDate {
    /// The date that `text` names, if it names one.
    pub open spec fn parsed(text: Seq<char>) -> Option<CalendarDate> {
        match parsed_date(text) {
            Some(ymd) => Some(CalendarDate { year: ymd.0, month: ymd.1, day: ymd.2 }),
            None => None,
        }
    }

    /// The display text of the date; empty where the numbers name no date.
    pub open spec fn text(self) -> Seq<char> {
        match date_text(self.year, self.month, self.day) {
            Some(t) => t,
            None => Seq::empty(),
        }
    }

    /// Reads a date written as year, month and day with hyphens between.
    pub fn parse(text: &str) -> (out: Option<CalendarDate>)
        ensures
            out == CalendarDate::parsed(text@),
    {
        match parse_ymd(text) {
            Some(ymd) => Some(CalendarDate { year: ymd.0, month: ymd.1, day: ymd.2 }),
            None => None,
        }
    }

    /// Writes the date.
    pub fn to_string(&self) -> (out: String)
        ensures
            out@ == self.text(),
    {
        match format_ymd(self.year, self.month, self.day) {
            Some(t) => t,
            None => String::new(),
        }
    }
}

} // verus!
