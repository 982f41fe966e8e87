//! What holds of day numbers: they count the days of the calendar one by one,
//! in the order of the dates, from its first day to its last.

use vstd::prelude::*;
use crate::calendar::{
    date_numbered, days_before_month, days_before_year, days_in_month, days_in_year,
    first_day_number, in_calendar, CivilDate, MAX_YEAR, MIN_YEAR,
};

verus! {

/// The first day of the calendar.
pub open spec fn first_date() -> CivilDate {
    CivilDate { year: MIN_YEAR, month: 1, day: 1 }
}

/// The last day of the calendar.
pub open spec fn last_date() -> CivilDate {
    CivilDate { year: MAX_YEAR, month: 12, day: 31 }
}

/// The date after `date`.
pub open spec fn next_date(date: CivilDate) -> CivilDate {
    if date.day < days_in_month(date.year as int, date.month as int) {
        CivilDate { year: date.year, month: date.month, day: (date.day + 1) as u32 }
    } else if date.month < 12 {
        CivilDate { year: date.year, month: (date.month + 1) as u32, day: 1 }
    } else {
        CivilDate { year: (date.year + 1) as i32, month: 1, day: 1 }
    }
}

/// A year begins as many days after the one before it as that one has.
pub proof fn lemma_year_length(year: int)
    ensures
        days_before_year(year + 1) == days_before_year(year) + days_in_year(year),
{
}

/// A month begins as many days after the one before it as that one has, and
/// the days of the twelve months are the days of the year.
pub proof fn lemma_month_length(year: int, month: int)
    requires
        1 <= month <= 12,
    ensures
        month < 12 ==> days_before_month(year, month + 1) == days_before_month(year, month)
            + days_in_month(year, month),
        month == 12 ==> days_in_year(year) == days_before_month(year, month) + days_in_month(
            year,
            month,
        ),
        0 <= days_before_month(year, month),
        days_before_month(year, month) + days_in_month(year, month) <= days_in_year(year),
{
}

/// A later year begins after every day of an earlier one.
pub proof fn lemma_years_ordered(early: int, late: int)
    requires
        early < late,
    ensures
        days_before_year(early) + days_in_year(early) <= days_before_year(late),
    decreases late - early,
{
    lemma_year_length(late - 1);
    if early < late - 1 {
        lemma_years_ordered(early, late - 1);
    }
}

/// A later month begins after every day of an earlier one of the same year.
pub proof fn lemma_months_ordered(year: int, early: int, late: int)
    requires
        1 <= early < late <= 12,
    ensures
        days_before_month(year, early) + days_in_month(year, early) <= days_before_month(
            year,
            late,
        ),
{
}

/// Day numbers follow the order of the dates: of two dates of the calendar
/// the earlier has the smaller number, and only equal dates share one.
pub proof fn lemma_day_numbers_ordered(a: CivilDate, b: CivilDate)
    requires
        a.valid(),
        b.valid(),
    ensures
        a.before(b) <==> a.day_number() < b.day_number(),
        a == b <==> a.day_number() == b.day_number(),
{
    lemma_month_length(a.year as int, a.month as int);
    lemma_month_length(b.year as int, b.month as int);
    if a.year < b.year {
        lemma_years_ordered(a.year as int, b.year as int);
    } else if b.year < a.year {
        lemma_years_ordered(b.year as int, a.year as int);
    } else if a.month < b.month {
        lemma_months_ordered(a.year as int, a.month as int, b.month as int);
    } else if b.month < a.month {
        lemma_months_ordered(a.year as int, b.month as int, a.month as int);
    }
}

/// Every date but the last is followed by a date whose number is one more.
pub proof fn lemma_next_date(date: CivilDate)
    requires
        date.valid(),
        date != last_date(),
    ensures
        next_date(date).valid(),
        next_date(date).day_number() == date.day_number() + 1,
{
    lemma_month_length(date.year as int, date.month as int);
    lemma_year_length(date.year as int);
}

/// Every number in the calendar is the number of a date.
pub proof fn lemma_numbers_are_dates(n: int)
    requires
        in_calendar(n),
    ensures
        date_numbered(n).valid(),
        date_numbered(n).day_number() == n,
    decreases n - first_day_number(),
{
    if n == first_day_number() {
        assert(first_date().valid() && first_date().day_number() == n);
    } else {
        lemma_numbers_are_dates(n - 1);
        let d = date_numbered(n - 1);
        lemma_next_date(d);
        assert(next_date(d).valid() && next_date(d).day_number() == n);
    }
}

/// The number of every date lies in the calendar, and the date is the one
/// with that number.
pub proof fn lemma_dates_are_numbered(date: CivilDate)
    requires
        date.valid(),
    ensures
        in_calendar(date.day_number()),
        date_numbered(date.day_number()) == date,
{
    lemma_day_numbers_ordered(first_date(), date);
    lemma_day_numbers_ordered(date, last_date());
    lemma_day_numbers_ordered(date, date_numbered(date.day_number()));
}

/// The day of the week is a number from 0 to 6, and the Monday that begins a
/// date's week is the date itself or one of the six days before it.
pub proof fn lemma_weekday_range(date: CivilDate)
    ensures
        0 <= date.weekday_index() <= 6,
        date.day_number() - 6 <= date.monday_number() <= date.day_number(),
        (date.monday_number() - 1) % 7 == 0,
{
}

} // verus!
