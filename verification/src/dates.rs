//! Calendar dates and the folder names made from them.

use vstd::prelude::*;
use vstd::string::*;
use crate::text::{decimal, str_eq};

verus! {

/// A point in time: whole seconds since the start of 1970 in UTC, and the
/// nanoseconds past that second.
#[derive(Clone, Copy, Debug, PartialEq, Eq, Structural)]
pub struct Timestamp {
    pub secs: i64,
    pub nanos: u32,
}

/// A day of the proleptic Gregorian calendar.
#[derive(Clone, Copy, Debug, PartialEq, Eq, Structural)]
pub struct CalendarDate {
    pub year: i32,
    pub month: u32,
    pub day: u32,
}

/// How much of a date names the folder.
#[derive(Clone, Copy, Debug, PartialEq, Eq, Structural)]
pub enum DateFormat {
    Year,
    Month,
    Day,
}

/// The first year that a date can have.
pub open spec fn min_year() -> int {
    -262_143
}

/// The last year that a date can have.
pub open spec fn max_year() -> int {
    262_142
}

/// Whether a year has a 29th of February.
pub open spec fn is_leap_year(year: int) -> bool {
    year % 4 == 0 && (year % 100 != 0 || year % 400 == 0)
}

/// The number of days of a month.
pub open spec fn days_in_month(year: int, month: int) -> int {
    if month == 2 {
        if is_leap_year(year) {
            29
        } else {
            28
        }
    } else if month == 4 || month == 6 || month == 9 || month == 11 {
        30
    } else {
        31
    }
}

/// The selector that names a format.
pub open spec fn format_selector(format: DateFormat) -> Seq<char> {
    match format {
        DateFormat::Year => "year"@,
        DateFormat::Month => "month"@,
        DateFormat::Day => "day"@,
    }
}

/// The pattern that a format is written with.
pub open spec fn format_pattern(format: DateFormat) -> Seq<char> {
    match format {
        DateFormat::Year => "%Y"@,
        DateFormat::Month => "%Y-%m"@,
        DateFormat::Day => "%Y-%m-%d"@,
    }
}

/// The decimal numeral of a number with zeros in front of it, as many as it
/// takes to reach the width.
pub open spec fn zero_padded(n: nat, width: nat) -> Seq<char> {
    if decimal(n).len() >= width {
        decimal(n)
    } else {
        Seq::new((width - decimal(n).len()) as nat, |i: int| '0') + decimal(n)
    }
}

/// A year as it is written: four digits from 0 to 9999, and beyond that a
/// sign in front of at least four digits.
pub open spec fn year_text(year: int) -> Seq<char> {
    if 0 <= year <= 9999 {
        zero_padded(year as nat, 4)
    } else if year < 0 {
        seq!['-'] + zero_padded((-year) as nat, 4)
    } else {
        seq!['+'] + zero_padded(year as nat, 4)
    }
}

/// The folder name of a date: the year, then the month and the day as far as
/// the format asks for them, each in two digits after a hyphen.
pub open spec fn bucket_text(date: CalendarDate, format: DateFormat) -> Seq<char> {
    match format {
        DateFormat::Year => year_text(date.year as int),
        DateFormat::Month => year_text(date.year as int) + seq!['-'] + zero_padded(
            date.month as nat,
            2,
        ),
        DateFormat::Day => year_text(date.year as int) + seq!['-'] + zero_padded(
            date.month as nat,
            2,
        ) + seq!['-'] + zero_padded(date.day as nat, 2),
    }
}

/// What a date looks like when written with one of the three patterns.
pub open spec fn pattern_text(date: CalendarDate, pattern: Seq<char>) -> Seq<char> {
    if pattern == format_pattern(DateFormat::Year) {
        bucket_text(date, DateFormat::Year)
    } else if pattern == format_pattern(DateFormat::Month) {
        bucket_text(date, DateFormat::Month)
    } else {
        bucket_text(date, DateFormat::Day)
    }
}

/// Whether a text is one of the three patterns.
pub open spec fn is_date_pattern(pattern: Seq<char>) -> bool {
    exists|format: DateFormat| pattern == format_pattern(format)
}

impl CalendarDate {
    /// Whether the day exists in the calendar, within the years that dates
    /// span.
    pub open spec fn is_valid(&self) -> bool {
        &&& min_year() <= self.year <= max_year()
        &&& 1 <= self.month <= 12
        &&& 1 <= self.day <= days_in_month(self.year as int, self.month as int)
    }
}

/// `chrono::DateTime::from_timestamp` reads the point in time, `with_timezone`
/// moves it to `chrono::Local`, and `Datelike::year`, `month` and `day` give
/// the day that it falls on there. Which day that is depends on the time
/// zone of the machine, so the contract holds only what is true in every
/// zone: the month is one of the twelve and the day lies between 1 and 31.
/// A point in time beyond the years that chrono spans gives `None`.
#[verifier::external_body]
pub(crate) fn local_date(stamp: Timestamp) -> (date: Option<CalendarDate>)
    ensures
        date matches Some(d) ==> 1 <= d.month <= 12 && 1 <= d.day <= 31,
{
    chrono::DateTime::from_timestamp(stamp.secs, stamp.nanos).map(
        |utc| {
            let local = utc.with_timezone(&chrono::Local);
            CalendarDate {
                year: chrono::Datelike::year(&local),
                month: chrono::Datelike::month(&local),
                day: chrono::Datelike::day(&local),
            }
        },
    )
}

/// `chrono::NaiveDate::from_ymd_opt` takes the date, which it accepts exactly
/// when the day exists and the year lies within chrono's span, and
/// `NaiveDate::format` writes it: `%Y` as the year in four digits (signed
/// beyond 0 to 9999), `%m` and `%d` as two digits each, a hyphen as itself.
#[verifier::external_body]
pub(crate) fn written_date(date: CalendarDate, pattern: &str) -> (text: Option<String>)
    requires
        is_date_pattern(pattern@),
    ensures
        text is Some <==> date.is_valid(),
        text matches Some(t) ==> t@ == pattern_text(date, pattern@),
{
    chrono::NaiveDate::from_ymd_opt(date.year, date.month, date.day).map(
        |day| day.format(pattern).to_string(),
    )
}

impl DateFormat {
    /// Reads a selector: `year`, `month` or `day`.
    pub fn parse(selector: &str) -> (format: Option<DateFormat>)
        ensures
            match format {
                Some(f) => selector@ == format_selector(f),
                None => forall|f: DateFormat| selector@ != format_selector(f),
            },
    {
        if str_eq(selector, "year") {
            Some(DateFormat::Year)
        } else if str_eq(selector, "month") {
            Some(DateFormat::Month)
        } else if str_eq(selector, "day") {
            Some(DateFormat::Day)
        } else {
            assert forall|f: DateFormat| selector@ != format_selector(f) by {
                match f {
                    DateFormat::Year => {},
                    DateFormat::Month => {},
                    DateFormat::Day => {},
                }
            }
            None
        }
    }

    /// The pattern that dates are written with under this format.
    pub fn pattern(&self) -> (pattern: &'static str)
        ensures
            pattern@ == format_pattern(*self),
    {
        match self {
            DateFormat::Year => "%Y",
            DateFormat::Month => "%Y-%m",
            DateFormat::Day => "%Y-%m-%d",
        }
    }
}

/// The three patterns differ from each other.
pub proof fn lemma_patterns_differ()
    ensures
        format_pattern(DateFormat::Year) != format_pattern(DateFormat::Month),
        format_pattern(DateFormat::Year) != format_pattern(DateFormat::Day),
        format_pattern(DateFormat::Month) != format_pattern(DateFormat::Day),
{
    reveal_strlit("%Y");
    reveal_strlit("%Y-%m");
    reveal_strlit("%Y-%m-%d");
    assert("%Y"@.len() == 2);
    assert("%Y-%m"@.len() == 5);
    assert("%Y-%m-%d"@.len() == 8);
}

/// The name of the folder that a date falls into, or `None` for a day that
/// the calendar does not have.
pub fn date_folder(date: CalendarDate, format: DateFormat) -> (folder: Option<String>)
    ensures
        folder is Some <==> date.is_valid(),
        folder matches Some(name) ==> name@ == bucket_text(date, format),
{
    proof {
        lemma_patterns_differ();
    }
    written_date(date, format.pattern())
}

} // verus!
