//! Calendar dates as plain numbers, and the two questions that the calendar
//! asks of the `chrono` crate: on which day of the week a date falls, and
//! which date comes before it.
use vstd::prelude::*;
use chrono::{Datelike, NaiveDate};

verus! {

/// A day of the proleptic Gregorian calendar. Year 0 is the year before
/// year 1.
#[derive(Debug, Clone, Copy, PartialEq, Eq, Structural)]
pub struct Date {
    pub year: i32,
    pub month: u32,
    pub day: u32,
}

/// The first year that a date can have.
pub const MIN_YEAR: i32 = -262143;

/// The last year that a date can have.
pub const MAX_YEAR: i32 = 262142;

/// A leap year has a 29th of February: every fourth year, but of the years
/// that end a century only every fourth.
pub open spec fn is_leap_year(year: int) -> bool {
    year % 4 == 0 && (year % 100 != 0 || year % 400 == 0)
}

/// The number of days of a month.
pub open spec fn days_in_month(year: int, month: int) -> int {
    if month == 2 {
        if is_leap_year(year) {
            29
        } else {
            28
        }
    } else if month == 4 || month == 6 || month == 9 || month == 11 {
        30
    } else {
        31
    }
}

/// The number of days of a year that lie before its month `month`.
pub open spec fn days_before_month(year: int, month: int) -> int
    decreases month,
{
    if month <= 1 {
        0
    } else {
        days_before_month(year, month - 1) + days_in_month(year, month - 1)
    }
}

/// The number of days from the first day of year 1 to the first day of
/// `year`; it is negative for the years before year 1.
pub open spec fn days_before_year(year: int) -> int {
    365 * (year - 1) + (year - 1) / 4 - (year - 1) / 100 + (year - 1) / 400
}

/// The day of the week on which a date falls, counted from Sunday, which is
/// 0, to Saturday, which is 6. The first day of year 1 is a Monday.
pub open spec fn weekday_from_sunday(year: int, month: int, day: int) -> int {
    (days_before_year(year) + days_before_month(year, month) + day) % 7
}

impl Date {
    /// This is a day that the calendar has, in a year that a date can have.
    pub open spec fn is_valid(self) -> bool {
        &&& MIN_YEAR <= self.year <= MAX_YEAR
        &&& 1 <= self.month <= 12
        &&& 1 <= self.day <= days_in_month(self.year as int, self.month as int)
    }

    /// The day before this one.
    pub open spec fn previous(self) -> Date {
        if self.day > 1 {
            Date { year: self.year, month: self.month, day: (self.day - 1) as u32 }
        } else if self.month > 1 {
            Date {
                year: self.year,
                month: (self.month - 1) as u32,
                day: days_in_month(self.year as int, self.month - 1) as u32,
            }
        } else {
            Date { year: (self.year - 1) as i32, month: 12, day: 31 }
        }
    }
}

/// The day of the week of `date`, from Sunday, which is 0.
///
/// Trusted: `chrono::NaiveDate::weekday` and
/// `chrono::Weekday::num_days_from_sunday`, which count the days of the
/// proleptic Gregorian calendar as `weekday_from_sunday` does.
#[verifier::external_body]
pub(crate) fn weekday_of(date: Date) -> (weekday: u32)
    requires
        date.is_valid(),
    ensures
        weekday == weekday_from_sunday(date.year as int, date.month as int, date.day as int),
        weekday < 7,
{
    let day = NaiveDate::from_ymd_opt(date.year, date.month, date.day).unwrap();
    day.weekday().num_days_from_sunday()
}

/// The day before `date`.
///
/// Trusted: `chrono::NaiveDate::pred_opt`, which steps back one day within a
/// month, to the last day of the month before, or to the last day of the
/// year before.
#[verifier::external_body]
pub(crate) fn previous_day(date: Date) -> (before: Date)
    requires
        date.is_valid(),
        date.year > MIN_YEAR || date.month > 1 || date.day > 1,
    ensures
        before == date.previous(),
{
    let day = NaiveDate::from_ymd_opt(date.year, date.month, date.day).unwrap();
    let before = day.pred_opt().unwrap();
    Date { year: before.year(), month: before.month(), day: before.day() }
}

} // verus!
