//! Dates and times, as the crate `chrono` reads and writes them.
use crate::text::{padded, push_padded};
use chrono::{Datelike, NaiveDate, NaiveTime, Timelike};
use vstd::prelude::*;
use vstd::string::StringExecFns;

verus! {

/// A calendar date.
#[derive(Debug, Clone, Copy, PartialEq, Eq, Structural)]
pub struct DateParts {
    pub year: i32,
    pub month: u8,
    pub day: u8,
}

/// A time of day. In a leap second the nanoseconds run on beyond the second.
#[derive(Debug, Clone, Copy, PartialEq, Eq, Structural)]
pub struct TimeParts {
    pub hour: u8,
    pub minute: u8,
    pub second: u8,
    pub nanosecond: u32,
}

/// A moment with the offset from UTC in which it was written.
#[derive(Debug, Clone, Copy, PartialEq, Eq, Structural)]
pub struct Moment {
    pub utc_date: DateParts,
    pub utc_time: TimeParts,
    pub local_date: DateParts,
    pub local_time: TimeParts,
    pub offset_seconds: i32,
}

/// Whether the numbers are those of a time of day.
pub open spec fn is_time(time: TimeParts) -> bool {
    time.hour < 24 && time.minute < 60 && time.second < 60 && time.nanosecond < 2_000_000_000
}

/// The date of a text in the form `%Y-%m-%d`.
pub uninterp spec fn date_of(text: Seq<char>) -> Option<DateParts>;

/// The time of a text in the form `%H:%M:%S%.f`.
pub uninterp spec fn time_of(text: Seq<char>) -> Option<TimeParts>;

/// The moment of a text in the form of RFC 3339.
pub uninterp spec fn moment_of(text: Seq<char>) -> Option<Moment>;

/// `chrono::NaiveDate::parse_from_str` with the form `%Y-%m-%d`.
#[verifier::external_body]
pub(crate) fn parse_date(text: &str) -> (result: Option<DateParts>)
    ensures
        result == date_of(text@),
{
    let date = NaiveDate::parse_from_str(text, "%Y-%m-%d").ok()?;
    Some(DateParts { year: date.year(), month: date.month() as u8, day: date.day() as u8 })
}

/// `chrono::NaiveTime::parse_from_str` with the form `%H:%M:%S%.f`.
#[verifier::external_body]
pub(crate) fn parse_time(text: &str) -> (result: Option<TimeParts>)
    ensures
        result == time_of(text@),
        result matches Some(time) ==> is_time(time),
{
    let time = NaiveTime::parse_from_str(text, "%H:%M:%S%.f").ok()?;
    Some(TimeParts {
        hour: time.hour() as u8,
        minute: time.minute() as u8,
        second: time.second() as u8,
        nanosecond: time.nanosecond(),
    })
}

/// `chrono::DateTime::parse_from_rfc3339`, with the date and time in UTC (`naive_utc`) and at the
/// offset of the text (`naive_local`), and that offset (`local_minus_utc`), which is less than a
/// day.
#[verifier::external_body]
pub(crate) fn parse_moment(text: &str) -> (result: Option<Moment>)
    ensures
        result == moment_of(text@),
        result matches Some(moment) ==> is_time(moment.utc_time) && is_time(moment.local_time)
            && -86_400 < moment.offset_seconds < 86_400,
{
    let moment = chrono::DateTime::parse_from_rfc3339(text).ok()?;
    let (utc, local) = (moment.naive_utc(), moment.naive_local());
    let date = |d: NaiveDate| DateParts { year: d.year(), month: d.month() as u8, day: d.day() as u8 };
    let time = |t: NaiveTime| TimeParts {
        hour: t.hour() as u8, minute: t.minute() as u8, second: t.second() as u8, nanosecond: t.nanosecond(),
    };
    Some(Moment {
        utc_date: date(utc.date()),
        utc_time: time(utc.time()),
        local_date: date(local.date()),
        local_time: time(local.time()),
        offset_seconds: moment.offset().local_minus_utc(),
    })
}

/// A year: four digits, and a sign where these are not enough.
pub open spec fn year_text(year: int) -> Seq<char> {
    if 0 <= year < 10_000 {
        padded(year as nat, 4)
    } else if year < 0 {
        "-"@ + padded((-year) as nat, 4)
    } else {
        "+"@ + padded(year as nat, 4)
    }
}

/// A date in the form `%Y-%m-%d`.
pub open spec fn date_form(date: DateParts) -> Seq<char> {
    year_text(date.year as int) + "-"@ + padded(date.month as nat, 2) + "-"@ + padded(
        date.day as nat,
        2,
    )
}

/// The fraction of a second: in three, six or nine digits, and none where it is zero.
pub open spec fn fraction_text(nanosecond: nat) -> Seq<char> {
    if nanosecond == 0 {
        Seq::empty()
    } else if nanosecond % 1_000_000 == 0 {
        "."@ + padded(nanosecond / 1_000_000, 3)
    } else if nanosecond % 1_000 == 0 {
        "."@ + padded(nanosecond / 1_000, 6)
    } else {
        "."@ + padded(nanosecond, 9)
    }
}

/// A time of day in the form `%H:%M:%S%.f`. A leap second is the sixtieth.
pub open spec fn time_form(time: TimeParts) -> Seq<char> {
    padded(time.hour as nat, 2) + ":"@ + padded(time.minute as nat, 2) + ":"@ + padded(
        time.second as nat + time.nanosecond as nat / 1_000_000_000,
        2,
    ) + fraction_text(time.nanosecond as nat % 1_000_000_000)
}

/// A date and time in the form `%Y-%m-%dT%H:%M:%S%.f`.
pub open spec fn date_time_form(date: DateParts, time: TimeParts) -> Seq<char> {
    date_form(date) + "T"@ + time_form(time)
}

/// Writes a date in the form `%Y-%m-%d`.
pub fn write_date(date: DateParts) -> (result: String)
    ensures
        result@ == date_form(date),
{
    let mut text = String::new();
    let year: i64 = date.year as i64;
    if year < 0 {
        text.append("-");
        push_padded(&mut text, (-year) as u64, 4);
    } else {
        if year >= 10_000 {
            text.append("+");
        }
        push_padded(&mut text, year as u64, 4);
    }
    assert(text@ =~= year_text(date.year as int));
    text.append("-");
    push_padded(&mut text, date.month as u64, 2);
    text.append("-");
    push_padded(&mut text, date.day as u64, 2);
    text
}

/// Writes a time of day in the form `%H:%M:%S%.f`.
pub fn write_time(time: TimeParts) -> (result: String)
    ensures
        result@ == time_form(time),
{
    let mut text = String::new();
    push_padded(&mut text, time.hour as u64, 2);
    text.append(":");
    push_padded(&mut text, time.minute as u64, 2);
    text.append(":");
    push_padded(&mut text, time.second as u64 + (time.nanosecond / 1_000_000_000) as u64, 2);
    let ghost whole = text@;
    let fraction: u64 = (time.nanosecond % 1_000_000_000) as u64;
    if fraction != 0 {
        text.append(".");
        if fraction % 1_000_000 == 0 {
            push_padded(&mut text, fraction / 1_000_000, 3);
        } else if fraction % 1_000 == 0 {
            push_padded(&mut text, fraction / 1_000, 6);
        } else {
            push_padded(&mut text, fraction, 9);
        }
    }
    assert(text@ =~= whole + fraction_text(fraction as nat));
    assert(text@ =~= time_form(time));
    text
}

/// Writes a date and time in the form `%Y-%m-%dT%H:%M:%S%.f`.
pub fn write_date_time(date: DateParts, time: TimeParts) -> (result: String)
    ensures
        result@ == date_time_form(date, time),
{
    let mut text = write_date(date);
    text.append("T");
    text.append(write_time(time).as_str());
    text
}

} // verus!
