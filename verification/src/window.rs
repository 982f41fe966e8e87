//! Calendar windows: the day, the week from Monday, and the month that hold a
//! given instant, each as a half-open range of local instants.

use vstd::prelude::*;
use crate::calendar::{date_numbered, in_calendar, CivilDate, MAX_YEAR};
use crate::calendar_laws::lemma_dates_are_numbered;
use crate::instant::{midnight_of, LocalInstant};

verus! {

/// Which calendar window to take.
#[derive(Clone, Copy, Debug, PartialEq, Eq, Structural)]
pub enum WindowKind {
    Day,
    Week,
    Month,
}

/// The range of instants from `start` up to, but not including, `end`.
#[derive(Clone, Copy, Debug, PartialEq, Eq, Structural)]
pub struct Window {
    pub start: LocalInstant,
    pub end: LocalInstant,
}

/// A boundary of a window would lie outside the calendar.
#[derive(Clone, Copy, Debug, PartialEq, Eq, Structural)]
pub struct LogicFault;

impl Window {
    /// `at` lies in the window: at or after its start, and before its end.
    pub open spec fn contains(self, at: LocalInstant) -> bool {
        at.at_or_after(self.start) && at.before(self.end)
    }

    /// Whether `at` lies in the window.
    pub fn holds(&self, at: &LocalInstant) -> (r: bool)
        ensures
            r == self.contains(*at),
    {
        !at.is_before(&self.start) && at.is_before(&self.end)
    }
}

/// The first day of the month of `date`.
pub open spec fn month_start(date: CivilDate) -> CivilDate {
    CivilDate { year: date.year, month: date.month, day: 1 }
}

/// The first day of the month after that of `date`: January of the next
/// year after a December.
pub open spec fn next_month_start(date: CivilDate) -> CivilDate {
    if date.month == 12 {
        CivilDate { year: (date.year + 1) as i32, month: 1, day: 1 }
    } else {
        CivilDate { year: date.year, month: (date.month + 1) as u32, day: 1 }
    }
}

/// The window from the midnight that begins the day numbered `first` to the
/// midnight that begins the day numbered `past`; a fault where either day
/// lies outside the calendar.
pub open spec fn window_of_days(first: int, past: int) -> Result<Window, LogicFault> {
    if in_calendar(first) && in_calendar(past) {
        Ok(
            Window {
                start: midnight_of(date_numbered(first)),
                end: midnight_of(date_numbered(past)),
            },
        )
    } else {
        Err(LogicFault)
    }
}

/// The day window of `now`: from the midnight that begins its date to the
/// midnight that begins the next date.
pub open spec fn day_window_of(now: LocalInstant) -> Result<Window, LogicFault> {
    window_of_days(now.date.day_number(), now.date.day_number() + 1)
}

/// The week window of `now`: seven days from the midnight that begins the
/// Monday of its week.
pub open spec fn week_window_of(now: LocalInstant) -> Result<Window, LogicFault> {
    window_of_days(now.date.monday_number(), now.date.monday_number() + 7)
}

/// The month window of `now`: from the midnight that begins the first day of
/// its month to the midnight that begins the first day of the next month; a
/// fault in the December of the calendar's last year.
pub open spec fn month_window_of(now: LocalInstant) -> Result<Window, LogicFault> {
    if now.date.month < 12 || now.date.year < MAX_YEAR {
        Ok(
            Window {
                start: midnight_of(month_start(now.date)),
                end: midnight_of(next_month_start(now.date)),
            },
        )
    } else {
        Err(LogicFault)
    }
}

/// The window of the given kind of `now`.
pub open spec fn window_of(now: LocalInstant, kind: WindowKind) -> Result<Window, LogicFault> {
    match kind {
        WindowKind::Day => day_window_of(now),
        WindowKind::Week => week_window_of(now),
        WindowKind::Month => month_window_of(now),
    }
}

/// The day window of `now`.
pub fn day_window(now: LocalInstant) -> (r: Result<Window, LogicFault>)
    requires
        now.date.valid(),
    ensures
        r == day_window_of(now),
{
    proof {
        lemma_dates_are_numbered(now.date);
    }
    match now.date.plus_days(1) {
        Some(next) => Ok(Window { start: now.date.midnight(), end: next.midnight() }),
        None => Err(LogicFault),
    }
}

/// The week window of `now`; weeks begin on Monday.
pub fn week_window(now: LocalInstant) -> (r: Result<Window, LogicFault>)
    requires
        now.date.valid(),
    ensures
        r == week_window_of(now),
{
    let since_monday: u32 = now.date.days_from_monday();
    let back: i32 = 0 - (since_monday as i32);
    match now.date.plus_days(back) {
        Some(monday) => match monday.plus_days(7) {
            Some(next) => Ok(Window { start: monday.midnight(), end: next.midnight() }),
            None => Err(LogicFault),
        },
        None => Err(LogicFault),
    }
}

/// The month window of `now`.
pub fn month_window(now: LocalInstant) -> (r: Result<Window, LogicFault>)
    requires
        now.date.valid(),
    ensures
        r == month_window_of(now),
{
    let first = match now.date.with_day(1) {
        Some(d) => d,
        None => { return Err(LogicFault); },
    };
    let next = if first.month == 12 {
        match first.with_year(first.year + 1) {
            Some(d) => d.with_month(1),
            None => None,
        }
    } else {
        first.with_month(first.month + 1)
    };
    match next {
        Some(d) => Ok(Window { start: first.midnight(), end: d.midnight() }),
        None => Err(LogicFault),
    }
}

/// The window of the given kind of `now`.
pub fn resolve(now: LocalInstant, kind: WindowKind) -> (r: Result<Window, LogicFault>)
    requires
        now.date.valid(),
    ensures
        r == window_of(now, kind),
{
    match kind {
        WindowKind::Day => day_window(now),
        WindowKind::Week => week_window(now),
        WindowKind::Month => month_window(now),
    }
}

} // verus!
