//! Calendar dates of workout sessions.
//!
//! A session carries a date without a time of day. Dates are checked by
//! `chrono` when they are made and are ordered as the calendar orders them.

use vstd::prelude::*;

verus! {

/// A year, month and day as mathematical integers: the view of a [`SessionDate`].
pub struct CalendarDate {
    pub year: int,
    pub month: int,
    pub day: int,
}

/// The first year that `chrono::NaiveDate` can hold.
pub const MIN_YEAR: i32 = -262143;

/// The last year that `chrono::NaiveDate` can hold.
pub const MAX_YEAR: i32 = 262142;

/// Leap years of the proleptic Gregorian calendar.
pub open spec fn is_leap_year(year: int) -> bool {
    year % 4 == 0 && (year % 100 != 0 || year % 400 == 0)
}

/// The number of days of a month, 0 where `month` is not a month.
pub open spec fn days_in_month(year: int, month: int) -> int {
    if month == 2 {
        if is_leap_year(year) {
            29
        } else {
            28
        }
    } else if month == 4 || month == 6 || month == 9 || month == 11 {
        30
    } else if 1 <= month <= 12 {
        31
    } else {
        0
    }
}

impl CalendarDate {
    /// Whether the day exists in the proleptic Gregorian calendar, in a year
    /// that `chrono::NaiveDate` can hold.
    pub open spec fn is_valid(self) -> bool {
        &&& MIN_YEAR <= self.year <= MAX_YEAR
        &&& 1 <= self.month <= 12
        &&& 1 <= self.day <= days_in_month(self.year, self.month)
    }

    /// Whether `self` is a strictly later day than `other`.
    pub open spec fn is_after(self, other: CalendarDate) -> bool {
        self.year > other.year || (self.year == other.year && (self.month > other.month || (
        self.month == other.month && self.day > other.day)))
    }
}

/// The calendar date of a workout session.
#[derive(Debug, Clone, Copy, PartialEq, Eq, PartialOrd, Ord)]
pub struct SessionDate {
    year: i32,
    month: u32,
    day: u32,
}

impl View for SessionDate {
    type V = CalendarDate;

    closed spec fn view(&self) -> CalendarDate {
        CalendarDate { year: self.year as int, month: self.month as int, day: self.day as int }
    }
}

/// Asks `chrono::NaiveDate::from_ymd_opt` whether the day exists. Trusted:
/// chrono returns a date exactly for the days of the proleptic Gregorian
/// calendar whose year lies between its `MIN_YEAR` and `MAX_YEAR`.
#[verifier::external_body]
fn chrono_has_date(year: i32, month: u32, day: u32) -> (exists: bool)
    ensures
        exists == (CalendarDate { year: year as int, month: month as int, day: day as int }).is_valid(),
{
    chrono::NaiveDate::from_ymd_opt(year, month, day).is_some()
}

impl SessionDate {
    #[verifier::type_invariant]
    spec fn is_calendar_date(self) -> bool {
        self@.is_valid()
    }

    /// The date of the given year, month and day, or `None` where the
    /// calendar has no such day.
    pub fn from_ymd_opt(year: i32, month: u32, day: u32) -> (date: Option<SessionDate>)
        ensures
            date is Some <==> (CalendarDate {
                year: year as int,
                month: month as int,
                day: day as int,
            }).is_valid(),
            date matches Some(d) ==> d@ == (CalendarDate {
                year: year as int,
                month: month as int,
                day: day as int,
            }),
    {
        if chrono_has_date(year, month, day) {
            Some(SessionDate { year, month, day })
        } else {
            None
        }
    }

    /// The year of the date. Every date of this type is a day of the
    /// calendar.
    pub fn year(&self) -> (year: i32)
        ensures
            year == self@.year,
            self@.is_valid(),
    {
        proof {
            use_type_invariant(self);
        }
        self.year
    }

    /// The month of the date, from 1 to 12.
    pub fn month(&self) -> (month: u32)
        ensures
            month == self@.month,
            self@.is_valid(),
            1 <= month <= 12,
    {
        proof {
            use_type_invariant(self);
        }
        self.month
    }

    /// The day of the month, from 1 to 31.
    pub fn day(&self) -> (day: u32)
        ensures
            day == self@.day,
            self@.is_valid(),
            1 <= day <= 31,
    {
        proof {
            use_type_invariant(self);
        }
        self.day
    }

    /// Whether `self` is a strictly later day than `other`.
    pub fn is_after(&self, other: &SessionDate) -> (after: bool)
        ensures
            after == self@.is_after(other@),
    {
        self.year > other.year || (self.year == other.year && (self.month > other.month || (
        self.month == other.month && self.day > other.day)))
    }
}

} // verus!
