//! Day arithmetic that the `chrono` crate performs: moving a date by a number
//! of days, and finding its day of the week. The contracts of the two private
//! functions that call the crate are taken on trust; everything else in the
//! library is proved from them.

use vstd::prelude::*;
use chrono::Datelike;
use crate::calendar::{date_numbered, in_calendar, CivilDate};
use crate::calendar_laws::{lemma_dates_are_numbered, lemma_weekday_range};

verus! {

/// Calls `chrono::NaiveDate::checked_add_signed` with a `TimeDelta` of `days`
/// whole days. Trusted: the outcome is the date whose day number is that of
/// `date` plus `days`, and there is none exactly when that number lies
/// outside those of `NaiveDate::MIN` (1 January of `MIN_YEAR`) and
/// `NaiveDate::MAX` (31 December of `MAX_YEAR`).
#[verifier::external_body]
fn chrono_plus_days(date: CivilDate, days: i32) -> (r: Option<CivilDate>)
    requires
        date.valid(),
    ensures
        r.is_some() <==> in_calendar(date.day_number() + days),
        r matches Some(d) ==> d.valid() && d.day_number() == date.day_number() + days,
{
    let from = chrono::NaiveDate::from_ymd_opt(date.year, date.month, date.day)?;
    let to = from.checked_add_signed(chrono::TimeDelta::days(i64::from(days)))?;
    Some(CivilDate { year: to.year(), month: to.month(), day: to.day() })
}

/// Calls `chrono::NaiveDate::weekday` and `chrono::Weekday::num_days_from_monday`.
/// Trusted: the outcome is the date's day of the week, 0 for Monday up to 6
/// for Sunday, in the calendar in which 1 January of year 1 is a Monday.
#[verifier::external_body]
fn chrono_days_from_monday(date: CivilDate) -> (r: u32)
    requires
        date.valid(),
    ensures
        r == date.weekday_index(),
{
    let on = chrono::NaiveDate::from_ymd_opt(date.year, date.month, date.day).unwrap();
    on.weekday().num_days_from_monday()
}

impl CivilDate {
    /// The date `days` days after this one, or before it for a negative
    /// number, if the calendar reaches that far.
    pub fn plus_days(self, days: i32) -> (r: Option<CivilDate>)
        requires
            self.valid(),
        ensures
            r == if in_calendar(self.day_number() + days) {
                Some(date_numbered(self.day_number() + days))
            } else {
                None::<CivilDate>
            },
            r matches Some(d) ==> d.valid() && d.day_number() == self.day_number() + days,
    {
        let moved = chrono_plus_days(self, days);
        proof {
            if let Some(d) = moved {
                lemma_dates_are_numbered(d);
            }
        }
        moved
    }

    /// The day of the week: 0 for Monday up to 6 for Sunday.
    pub fn days_from_monday(self) -> (r: u32)
        requires
            self.valid(),
        ensures
            r == self.weekday_index(),
            r <= 6,
    {
        proof {
            lemma_weekday_range(self);
        }
        chrono_days_from_monday(self)
    }
}

} // verus!
