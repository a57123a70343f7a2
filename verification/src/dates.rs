//! Calendar dates: the only kind of time that a document's header carries.
//!
//! A date is a day of the proleptic Gregorian calendar. Where a timestamp is
//! asked for, it is the midnight that starts the day, in UTC.

use crate::text::two_digits;
use chrono::{DateTime, Datelike, NaiveDate, ParseError, Utc};
use vstd::prelude::*;

verus! {

/// Leap years of the proleptic Gregorian calendar, with year 0 and negative
/// years counted astronomically.
pub open spec fn is_leap_year(year: int) -> bool {
    year % 4 == 0 && (year % 100 != 0 || year % 400 == 0)
}

/// The number of days of a month, 0 where `month` is no month.
pub open spec fn days_in_month(year: int, month: int) -> int {
    if month == 2 {
        if is_leap_year(year) {
            29
        } else {
            28
        }
    } else if month == 4 || month == 6 || month == 9 || month == 11 {
        30
    } else if 1 <= month <= 12 {
        31
    } else {
        0
    }
}

/// The first year that a date can have.
pub const MIN_YEAR: i32 = -262143;

/// The last year that a date can have.
pub const MAX_YEAR: i32 = 262142;

/// Year, month and day name a day that exists, in a year that a date can have.
pub open spec fn is_calendar_date(year: int, month: int, day: int) -> bool {
    &&& MIN_YEAR <= year <= MAX_YEAR
    &&& 1 <= month <= 12
    &&& 1 <= day <= days_in_month(year, month)
}

/// Whether date `a` lies before date `b`: by year, then month, then day.
pub open spec fn date_before(a: (int, int, int), b: (int, int, int)) -> bool {
    a.0 < b.0 || (a.0 == b.0 && (a.1 < b.1 || (a.1 == b.1 && a.2 < b.2)))
}

/// The RFC 3339 text of a moment of UTC in the years 0 to 9999, to the
/// second: `YYYY-MM-DDTHH:MM:SS+00:00`.
pub open spec fn timestamp_text(
    year: int,
    month: int,
    day: int,
    hour: int,
    minute: int,
    second: int,
) -> Seq<char> {
    two_digits(year / 100) + two_digits(year % 100) + seq!['-'] + two_digits(month) + seq!['-']
        + two_digits(day) + seq!['T'] + two_digits(hour) + seq![':'] + two_digits(minute)
        + seq![':'] + two_digits(second) + seq!['+', '0', '0', ':', '0', '0']
}

/// `chrono::ParseError`, chrono's report of text that is no date.
#[verifier::external_type_specification]
#[verifier::external_body]
pub struct ExParseError(ParseError);

/// Year, month and day of the date that `chrono::NaiveDate::parse_from_str`
/// reads out of `text` under `format`, or `None` where it fails.
pub uninterp spec fn chrono_formatted_date(text: Seq<char>, format: Seq<char>) -> Option<
    (int, int, int),
>;

/// Year, month and day, in UTC, of the moment that
/// `chrono::DateTime::parse_from_rfc3339` reads out of `text`, or `None`
/// where it fails.
pub uninterp spec fn chrono_rfc3339_date(text: Seq<char>) -> Option<(int, int, int)>;

/// The text that `chrono::DateTime::<Utc>::to_rfc3339` writes for a moment
/// of UTC, or `None` where chrono has no such date or time of day.
pub uninterp spec fn chrono_rfc3339_text(
    year: int,
    month: int,
    day: int,
    hour: int,
    minute: int,
    second: int,
) -> Option<Seq<char>>;

/// Calls `chrono::NaiveDate::parse_from_str` and hands out the date's year,
/// month and day. Claimed: the outcome is a function of the two texts, and
/// a date that comes back exists (chrono holds no other).
#[verifier::external_body]
fn parse_formatted_date(text: &str, format: &str) -> (r: Result<(i32, u32, u32), ParseError>)
    ensures
        match r {
            Ok(d) => chrono_formatted_date(text@, format@) == Some(
                (d.0 as int, d.1 as int, d.2 as int),
            ) && is_calendar_date(d.0 as int, d.1 as int, d.2 as int),
            Err(_) => chrono_formatted_date(text@, format@) is None,
        },
{
    NaiveDate::parse_from_str(text, format).map(|d| (d.year(), d.month(), d.day()))
}

/// Calls `chrono::DateTime::parse_from_rfc3339`, moves the moment to UTC and
/// hands out its date's year, month and day. Claimed: the outcome is a
/// function of the text, and a date that comes back exists.
#[verifier::external_body]
fn parse_rfc3339_date(text: &str) -> (r: Result<(i32, u32, u32), ParseError>)
    ensures
        match r {
            Ok(d) => chrono_rfc3339_date(text@) == Some((d.0 as int, d.1 as int, d.2 as int))
                && is_calendar_date(d.0 as int, d.1 as int, d.2 as int),
            Err(_) => chrono_rfc3339_date(text@) is None,
        },
{
    DateTime::parse_from_rfc3339(text).map(|t| t.with_timezone(&Utc).date_naive()).map(
        |d| (d.year(), d.month(), d.day()),
    )
}

/// Builds the moment of UTC with `chrono::NaiveDate::from_ymd_opt`,
/// `and_hms_opt` and `and_utc`, and writes it with `to_rfc3339`. Claimed:
/// the outcome is a function of the six numbers; a day that exists and a
/// time of day below 24:00:00 give a text; in the years 0 to 9999 that text
/// is `YYYY-MM-DDTHH:MM:SS+00:00`.
#[verifier::external_body]
fn rfc3339_text(year: i32, month: u32, day: u32, hour: u32, minute: u32, second: u32) -> (r:
    Option<String>)
    ensures
        r.deep_view() == chrono_rfc3339_text(
            year as int,
            month as int,
            day as int,
            hour as int,
            minute as int,
            second as int,
        ),
        is_calendar_date(year as int, month as int, day as int) && hour < 24 && minute < 60
            && second < 60 ==> r is Some,
        r is Some && 0 <= year <= 9999 ==> r.deep_view() == Some(
            timestamp_text(
                year as int,
                month as int,
                day as int,
                hour as int,
                minute as int,
                second as int,
            ),
        ),
{
    let moment = NaiveDate::from_ymd_opt(year, month, day)?.and_hms_opt(hour, minute, second)?;
    Some(moment.and_utc().to_rfc3339())
}

/// The RFC 3339 text of the midnight, in UTC, that starts a day.
pub open spec fn midnight_text_of(date: (int, int, int)) -> Seq<char> {
    chrono_rfc3339_text(date.0, date.1, date.2, 0, 0, 0)->0
}

/// A day of the calendar. Every value names a day that exists.
#[derive(Clone, Copy, Debug, PartialEq, Eq, Structural)]
pub struct CalendarDate {
    year: i32,
    month: u32,
    day: u32,
}

impl View for CalendarDate {
    type V = (int, int, int);

    /// Year, month and day.
    closed spec fn view(&self) -> (int, int, int) {
        (self.year as int, self.month as int, self.day as int)
    }
}

impl CalendarDate {
    #[verifier::type_invariant]
    spec fn exists_in_calendar(self) -> bool {
        is_calendar_date(self.year as int, self.month as int, self.day as int)
    }

    /// The date of `year`, `month` and `day`, if that day exists.
    pub fn new(year: i32, month: u32, day: u32) -> (r: Option<CalendarDate>)
        ensures
            r is Some <==> is_calendar_date(year as int, month as int, day as int),
            r matches Some(d) ==> d@ == (year as int, month as int, day as int),
    {
        if year < MIN_YEAR || year > MAX_YEAR || month < 1 || month > 12 || day < 1 {
            return None;
        }
        let leap = year % 4 == 0 && (year % 100 != 0 || year % 400 == 0);
        let days: u32 = if month == 2 {
            if leap {
                29
            } else {
                28
            }
        } else if month == 4 || month == 6 || month == 9 || month == 11 {
            30
        } else {
            31
        };
        if day > days {
            return None;
        }
        Some(CalendarDate { year, month, day })
    }

    /// The year.
    pub fn year(&self) -> (r: i32)
        ensures
            r == self@.0,
    {
        self.year
    }

    /// The month, from 1.
    pub fn month(&self) -> (r: u32)
        ensures
            r == self@.1,
    {
        self.month
    }

    /// The day of the month, from 1.
    pub fn day(&self) -> (r: u32)
        ensures
            r == self@.2,
    {
        self.day
    }

    /// Recalls that the date exists in the calendar, for a proof that
    /// needs it.
    pub fn check(&self)
        ensures
            is_calendar_date(self@.0, self@.1, self@.2),
    {
        proof {
            use_type_invariant(self);
        }
    }

    /// Whether this date lies before `other`.
    pub fn is_before(&self, other: &CalendarDate) -> (r: bool)
        ensures
            r == date_before(self@, other@),
    {
        self.year < other.year || (self.year == other.year && (self.month < other.month || (
        self.month == other.month && self.day < other.day)))
    }

    /// Reads a date out of `text` under a `strftime` format such as
    /// `%Y-%m-%d`.
    pub fn parse_from_str(text: &str, format: &str) -> (r: Option<CalendarDate>)
        ensures
            match r {
                Some(d) => chrono_formatted_date(text@, format@) == Some(d@),
                None => chrono_formatted_date(text@, format@) is None,
            },
    {
        match parse_formatted_date(text, format) {
            Ok((year, month, day)) => Some(CalendarDate { year, month, day }),
            Err(_) => None,
        }
    }

    /// Reads the UTC date out of an RFC 3339 date and time.
    pub fn parse_from_rfc3339(text: &str) -> (r: Option<CalendarDate>)
        ensures
            match r {
                Some(d) => chrono_rfc3339_date(text@) == Some(d@),
                None => chrono_rfc3339_date(text@) is None,
            },
    {
        match parse_rfc3339_date(text) {
            Ok((year, month, day)) => Some(CalendarDate { year, month, day }),
            Err(_) => None,
        }
    }

    /// Writes the midnight, in UTC, that starts this day as RFC 3339 text.
    /// In the years 0 to 9999 that is `YYYY-MM-DDT00:00:00+00:00`.
    pub fn to_rfc3339(&self) -> (r: String)
        ensures
            r@ == midnight_text_of(self@),
            0 <= self@.0 <= 9999 ==> r@ == timestamp_text(self@.0, self@.1, self@.2, 0, 0, 0),
    {
        proof {
            use_type_invariant(self);
        }
        match rfc3339_text(self.year, self.month, self.day, 0, 0, 0) {
            Some(text) => text,
            None => String::new(),
        }
    }
}

} // verus!
