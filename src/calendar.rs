//! Calendar dates of the proleptic Gregorian calendar, and the count of days
//! that seeds the choice of each day's secret word.

use vstd::prelude::*;

verus! {

/// The earliest year that a date may have.
pub const EARLIEST_YEAR: i32 = -262143;

/// The latest year that a date may have.
pub const LATEST_YEAR: i32 = 262142;

pub open spec fn is_leap_year(year: int) -> bool {
    year % 4 == 0 && (year % 100 != 0 || year % 400 == 0)
}

/// Number of days of month `month` (1 to 12) in year `year`.
pub open spec fn days_in_month(year: int, month: int) -> int {
    if month == 2 {
        if is_leap_year(year) {
            29
        } else {
            28
        }
    } else if month == 4 || month == 6 || month == 9 || month == 11 {
        30
    } else {
        31
    }
}

/// Whether `year`-`month`-`day` is a day of the calendar, within the years
/// that a date may have.
pub open spec fn is_valid_date(year: int, month: int, day: int) -> bool {
    &&& EARLIEST_YEAR <= year <= LATEST_YEAR
    &&& 1 <= month <= 12
    &&& 1 <= day <= days_in_month(year, month)
}

/// Days of the months of `year` that come before month `month`.
pub open spec fn days_before_month(year: int, month: int) -> int
    decreases month,
{
    if month <= 1 {
        0
    } else {
        days_before_month(year, month - 1) + days_in_month(year, month - 1)
    }
}

/// The number of a day, counted with 1 January of year 1 as day 1 (and
/// 31 December of the year before as day 0).
pub open spec fn day_number_from_ce(year: int, month: int, day: int) -> int {
    let y = year - 1;
    365 * y + y / 4 - y / 100 + y / 400 + days_before_month(year, month) + day
}

/// Relies on chrono's `NaiveDate::from_ymd_opt`, which returns `None` for a
/// day that the proleptic Gregorian calendar lacks or a year outside
/// chrono's range (-262143 to 262142), and on `Datelike::num_days_from_ce`,
/// which counts days with 1 January of year 1 as day 1.
#[verifier::external_body]
fn days_from_ce(year: i32, month: u32, day: u32) -> (r: Option<i32>)
    ensures
        r is Some <==> is_valid_date(year as int, month as int, day as int),
        r matches Some(n) ==> n == day_number_from_ce(year as int, month as int, day as int),
{
    match chrono::NaiveDate::from_ymd_opt(year, month, day) {
        Some(d) => Some(chrono::Datelike::num_days_from_ce(&d)),
        None => None,
    }
}

/// A day of the calendar.
#[derive(Clone, Copy, Debug, PartialEq, Eq, Structural)]
pub struct CalendarDate {
    pub year: i32,
    /// From 1 (January) to 12.
    pub month: u32,
    /// From 1 to the length of the month.
    pub day: u32,
}

impl CalendarDate {
    /// Whether the fields name a day of the calendar.
    pub open spec fn is_valid(self) -> bool {
        is_valid_date(self.year as int, self.month as int, self.day as int)
    }

    /// Whole days from 1 January of year 1 to this day.
    pub open spec fn spec_days_since_epoch(self) -> int {
        day_number_from_ce(self.year as int, self.month as int, self.day as int) - 1
    }

    /// The date `year`-`month`-`day`, or `None` where no such day exists.
    pub fn new(year: i32, month: u32, day: u32) -> (r: Option<CalendarDate>)
        ensures
            r is Some <==> is_valid_date(year as int, month as int, day as int),
            r matches Some(d) ==> d.year == year && d.month == month && d.day == day,
    {
        match days_from_ce(year, month, day) {
            Some(_) => Some(CalendarDate { year, month, day }),
            None => None,
        }
    }

    /// Whole days from 1 January of year 1 to this day: 0 on that day,
    /// negative before it.
    pub fn days_since_epoch(&self) -> (r: i64)
        requires
            self.is_valid(),
        ensures
            r == self.spec_days_since_epoch(),
    {
        match days_from_ce(self.year, self.month, self.day) {
            Some(n) => n as i64 - 1,
            None => 0,
        }
    }
}

} // verus!
