//! The proleptic Gregorian calendar: civil dates, their validity, and the
//! number of each day counted from 1 January of year 1.

use vstd::prelude::*;

verus! {

/// The earliest year a date may lie in.
pub const MIN_YEAR: i32 = -262_143;

/// The latest year a date may lie in.
pub const MAX_YEAR: i32 = 262_142;

/// Whether `year` has a 29 February.
pub open spec fn is_leap_year(year: int) -> bool {
    year % 4 == 0 && (year % 100 != 0 || year % 400 == 0)
}

/// The number of days of `month` (1 to 12) in `year`.
pub open spec fn days_in_month(year: int, month: int) -> int {
    if month == 2 {
        if is_leap_year(year) { 29 } else { 28 }
    } else if month == 4 || month == 6 || month == 9 || month == 11 {
        30
    } else {
        31
    }
}

/// The number of days of `year` that lie before the first of `month`.
pub open spec fn days_before_month(year: int, month: int) -> int {
    let leap: int = if month > 2 && is_leap_year(year) { 1 } else { 0 };
    if month <= 1 {
        0
    } else if month == 2 {
        31
    } else if month == 3 {
        59 + leap
    } else if month == 4 {
        90 + leap
    } else if month == 5 {
        120 + leap
    } else if month == 6 {
        151 + leap
    } else if month == 7 {
        181 + leap
    } else if month == 8 {
        212 + leap
    } else if month == 9 {
        243 + leap
    } else if month == 10 {
        273 + leap
    } else if month == 11 {
        304 + leap
    } else {
        334 + leap
    }
}

/// The number of days between 1 January of year 1 and 1 January of `year`
/// (negative for earlier years).
pub open spec fn days_before_year(year: int) -> int {
    365 * (year - 1) + (year - 1) / 4 - (year - 1) / 100 + (year - 1) / 400
}

/// The number of days of `year`.
pub open spec fn days_in_year(year: int) -> int {
    if is_leap_year(year) { 366 } else { 365 }
}

/// Whether `year`, `month`, `day` name a day of the calendar.
pub open spec fn is_calendar_day(year: int, month: int, day: int) -> bool {
    &&& MIN_YEAR <= year <= MAX_YEAR
    &&& 1 <= month <= 12
    &&& 1 <= day <= days_in_month(year, month)
}

/// The number of the day `year`-`month`-`day`, where 1 January of year 1 is
/// day 1 and each later day has the next number.
pub open spec fn day_number_of(year: int, month: int, day: int) -> int {
    days_before_year(year) + days_before_month(year, month) + day
}

/// The number of the first day of the calendar.
pub open spec fn first_day_number() -> int {
    day_number_of(MIN_YEAR as int, 1, 1)
}

/// The number of the last day of the calendar.
pub open spec fn last_day_number() -> int {
    day_number_of(MAX_YEAR as int, 12, 31)
}

/// Whether `n` is the number of a day of the calendar.
pub open spec fn in_calendar(n: int) -> bool {
    first_day_number() <= n <= last_day_number()
}

/// The date whose day number is `n`, for `n` in the calendar.
pub open spec fn date_numbered(n: int) -> CivilDate {
    choose|d: CivilDate| #[trigger] d.valid() && d.day_number() == n
}

/// A date of the civil calendar, without a time of day.
#[derive(Clone, Copy, Debug, PartialEq, Eq, Structural)]
pub struct CivilDate {
    pub year: i32,
    pub month: u32,
    pub day: u32,
}

impl CivilDate {
    /// The date names a day that exists.
    pub open spec fn valid(self) -> bool {
        is_calendar_day(self.year as int, self.month as int, self.day as int)
    }

    /// The date's day number.
    pub open spec fn day_number(self) -> int {
        day_number_of(self.year as int, self.month as int, self.day as int)
    }

    /// The day of the week: 0 for Monday up to 6 for Sunday.
    pub open spec fn weekday_index(self) -> int {
        (self.day_number() - 1) % 7
    }

    /// The number of the Monday that begins the date's week.
    pub open spec fn monday_number(self) -> int {
        self.day_number() - self.weekday_index()
    }

    /// `self` comes earlier in the calendar than `other`.
    pub open spec fn before(self, other: CivilDate) -> bool {
        self.year < other.year || (self.year == other.year && (self.month < other.month || (
        self.month == other.month && self.day < other.day)))
    }

    /// The date `year`-`month`-`day`, if there is such a day.
    pub fn new(year: i32, month: u32, day: u32) -> (r: Option<CivilDate>)
        ensures
            r == if is_calendar_day(year as int, month as int, day as int) {
                Some(CivilDate { year, month, day })
            } else {
                None::<CivilDate>
            },
    {
        if year < MIN_YEAR || year > MAX_YEAR || month < 1 || month > 12 || day < 1 {
            return None;
        }
        if day > month_length(year, month) {
            return None;
        }
        Some(CivilDate { year, month, day })
    }

    /// The same month and day in another year, if that day exists.
    pub fn with_year(self, year: i32) -> (r: Option<CivilDate>)
        ensures
            r == if is_calendar_day(year as int, self.month as int, self.day as int) {
                Some(CivilDate { year, month: self.month, day: self.day })
            } else {
                None::<CivilDate>
            },
    {
        CivilDate::new(year, self.month, self.day)
    }

    /// The same day of another month of the year, if that day exists.
    pub fn with_month(self, month: u32) -> (r: Option<CivilDate>)
        ensures
            r == if is_calendar_day(self.year as int, month as int, self.day as int) {
                Some(CivilDate { year: self.year, month, day: self.day })
            } else {
                None::<CivilDate>
            },
    {
        CivilDate::new(self.year, month, self.day)
    }

    /// Another day of the same month, if that day exists.
    pub fn with_day(self, day: u32) -> (r: Option<CivilDate>)
        ensures
            r == if is_calendar_day(self.year as int, self.month as int, day as int) {
                Some(CivilDate { year: self.year, month: self.month, day })
            } else {
                None::<CivilDate>
            },
    {
        CivilDate::new(self.year, self.month, day)
    }

    /// Whether `self` comes earlier in the calendar than `other`.
    pub fn is_before(&self, other: &CivilDate) -> (r: bool)
        ensures
            r == self.before(*other),
    {
        self.year < other.year || (self.year == other.year && (self.month < other.month || (
        self.month == other.month && self.day < other.day)))
    }
}

/// Whether `year` has a 29 February.
pub fn leap_year(year: i32) -> (r: bool)
    ensures
        r == is_leap_year(year as int),
{
    year % 4 == 0 && (year % 100 != 0 || year % 400 == 0)
}

/// The number of days of `month` in `year`.
pub fn month_length(year: i32, month: u32) -> (r: u32)
    requires
        1 <= month <= 12,
    ensures
        r == days_in_month(year as int, month as int),
{
    if month == 2 {
        if leap_year(year) { 29 } else { 28 }
    } else if month == 4 || month == 6 || month == 9 || month == 11 {
        30
    } else {
        31
    }
}

} // verus!
