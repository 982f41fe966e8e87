//! What holds of windows and totals together.

use vstd::prelude::*;
use crate::calendar::{date_numbered, CivilDate, MAX_YEAR, MIN_YEAR};
use crate::calendar_laws::{
    lemma_dates_are_numbered, lemma_day_numbers_ordered, lemma_month_length,
    lemma_numbers_are_dates, lemma_weekday_range, lemma_year_length, lemma_years_ordered,
};
use crate::instant::LocalInstant;
use crate::store::{counted, total_in, Event};
use crate::window::{
    day_window_of, month_window_of, week_window_of, window_of, WindowKind,
};

verus! {

/// A log without events has the total 0 over every range.
pub proof fn lemma_empty_total(start: LocalInstant, end: LocalInstant)
    ensures
        total_in(Seq::<Event>::empty(), start, end) == 0,
{
}

/// Recording an event adds its repetitions to the total of a range that
/// holds its instant, and leaves the total of any other range as it was.
pub proof fn lemma_total_after_record(
    events: Seq<Event>,
    event: Event,
    start: LocalInstant,
    end: LocalInstant,
)
    ensures
        total_in(events.push(event), start, end) == total_in(events, start, end) + counted(
            event,
            start,
            end,
        ),
{
    assert(events.push(event).drop_last() == events);
}

/// The window of an instant holds that instant, and begins before it ends.
pub proof fn lemma_window_holds_instant(now: LocalInstant, kind: WindowKind)
    requires
        now.date.valid(),
        window_of(now, kind) is Ok,
    ensures
        window_of(now, kind)->Ok_0.contains(now),
        window_of(now, kind)->Ok_0.start.before(window_of(now, kind)->Ok_0.end),
        window_of(now, kind)->Ok_0.start.date.valid(),
        window_of(now, kind)->Ok_0.end.date.valid(),
{
    let w = window_of(now, kind)->Ok_0;
    lemma_dates_are_numbered(now.date);
    lemma_weekday_range(now.date);
    match kind {
        WindowKind::Day => {
            lemma_numbers_are_dates(now.date.day_number() + 1);
        },
        WindowKind::Week => {
            lemma_numbers_are_dates(now.date.monday_number());
            lemma_numbers_are_dates(now.date.monday_number() + 7);
        },
        WindowKind::Month => {},
    }
    lemma_day_numbers_ordered(w.start.date, now.date);
    lemma_day_numbers_ordered(now.date, w.end.date);
    lemma_day_numbers_ordered(w.start.date, w.end.date);
}

/// An event recorded at an instant is counted in the day, the week and the
/// month of that instant: each of those totals grows by its repetitions.
pub proof fn lemma_recorded_is_counted(events: Seq<Event>, event: Event, kind: WindowKind)
    requires
        event.at.date.valid(),
        window_of(event.at, kind) is Ok,
    ensures
        ({
            let w = window_of(event.at, kind)->Ok_0;
            total_in(events.push(event), w.start, w.end) == total_in(events, w.start, w.end)
                + event.reps
        }),
{
    let w = window_of(event.at, kind)->Ok_0;
    lemma_window_holds_instant(event.at, kind);
    lemma_total_after_record(events, event, w.start, w.end);
}

/// Each window ends where the next one of its kind begins: the window of
/// the instant at which a window ends begins at that instant.
pub proof fn lemma_windows_abut(now: LocalInstant, kind: WindowKind)
    requires
        now.date.valid(),
        window_of(now, kind) is Ok,
        window_of(window_of(now, kind)->Ok_0.end, kind) is Ok,
    ensures
        window_of(window_of(now, kind)->Ok_0.end, kind)->Ok_0.start == window_of(
            now,
            kind,
        )->Ok_0.end,
{
    match kind {
        WindowKind::Day => {
            let next = date_numbered(now.date.day_number() + 1);
            lemma_numbers_are_dates(now.date.day_number() + 1);
            lemma_dates_are_numbered(next);
        },
        WindowKind::Week => {
            let next = date_numbered(now.date.monday_number() + 7);
            lemma_numbers_are_dates(now.date.monday_number() + 7);
            lemma_weekday_range(now.date);
            lemma_following_monday(now.date.monday_number(), next);
            lemma_dates_are_numbered(next);
        },
        WindowKind::Month => {},
    }
}

/// The date seven days after a Monday is the Monday of its own week.
proof fn lemma_following_monday(monday: int, next: CivilDate)
    requires
        (monday - 1) % 7 == 0,
        next.day_number() == monday + 7,
    ensures
        next.monday_number() == next.day_number(),
{
    let n = next.day_number();
    assert((n - 1) % 7 == 0);
}

/// An event recorded exactly at the end of a window is not counted in that
/// window, and is counted in the next window of the same kind.
pub proof fn lemma_boundary_event(
    events: Seq<Event>,
    event: Event,
    now: LocalInstant,
    kind: WindowKind,
)
    requires
        now.date.valid(),
        window_of(now, kind) is Ok,
        event.at == window_of(now, kind)->Ok_0.end,
        window_of(event.at, kind) is Ok,
    ensures
        ({
            let w = window_of(now, kind)->Ok_0;
            let next = window_of(event.at, kind)->Ok_0;
            &&& next.start == w.end
            &&& total_in(events.push(event), w.start, w.end) == total_in(
                events,
                w.start,
                w.end,
            )
            &&& total_in(events.push(event), next.start, next.end) == total_in(
                events,
                next.start,
                next.end,
            ) + event.reps
        }),
{
    let w = window_of(now, kind)->Ok_0;
    let next = window_of(event.at, kind)->Ok_0;
    lemma_windows_abut(now, kind);
    lemma_window_holds_instant(now, kind);
    lemma_window_holds_instant(event.at, kind);
    lemma_total_after_record(events, event, w.start, w.end);
    lemma_total_after_record(events, event, next.start, next.end);
}

/// A week window begins on a Monday, on the date of the instant or one of
/// the six dates before it, and ends seven days later.
pub proof fn lemma_week_begins_on_monday(now: LocalInstant)
    requires
        now.date.valid(),
        week_window_of(now) is Ok,
    ensures
        ({
            let w = week_window_of(now)->Ok_0;
            &&& w.start.date.weekday_index() == 0
            &&& now.date.day_number() - 6 <= w.start.date.day_number() <= now.date.day_number()
            &&& w.end.date.day_number() == w.start.date.day_number() + 7
        }),
{
    lemma_weekday_range(now.date);
    lemma_numbers_are_dates(now.date.monday_number());
    lemma_numbers_are_dates(now.date.monday_number() + 7);
}

/// A day window begins on the date of its instant, whatever the time of day.
pub proof fn lemma_day_begins_at_midnight(now: LocalInstant)
    requires
        now.date.valid(),
        day_window_of(now) is Ok,
    ensures
        ({
            let w = day_window_of(now)->Ok_0;
            &&& w.start.date == now.date
            &&& w.end.date.day_number() == now.date.day_number() + 1
        }),
{
    lemma_dates_are_numbered(now.date);
    lemma_numbers_are_dates(now.date.day_number() + 1);
}

/// Two instants of one month have the same month window, whatever their
/// days.
pub proof fn lemma_month_window_of_month(a: LocalInstant, b: LocalInstant)
    requires
        a.date.year == b.date.year,
        a.date.month == b.date.month,
    ensures
        month_window_of(a) == month_window_of(b),
{
}

/// Every instant but those of the calendar's first and last year has its
/// day, its week and its month.
pub proof fn lemma_windows_exist(now: LocalInstant, kind: WindowKind)
    requires
        now.date.valid(),
        MIN_YEAR < now.date.year < MAX_YEAR,
    ensures
        window_of(now, kind) is Ok,
{
    let year = now.date.year as int;
    lemma_month_length(year, now.date.month as int);
    lemma_year_length(year);
    lemma_years_ordered(MIN_YEAR as int, year);
    lemma_years_ordered(year, MAX_YEAR as int);
    lemma_weekday_range(now.date);
}

/// A window is the window of each instant that it holds: the same total is
/// asked for from any instant of a day, a week or a month.
pub proof fn lemma_window_of_each_instant(now: LocalInstant, other: LocalInstant, kind: WindowKind)
    requires
        now.date.valid(),
        other.date.valid(),
        window_of(now, kind) is Ok,
        window_of(now, kind)->Ok_0.contains(other),
    ensures
        window_of(other, kind) == window_of(now, kind),
{
    let w = window_of(now, kind)->Ok_0;
    match kind {
        WindowKind::Day => {
            lemma_dates_are_numbered(now.date);
            lemma_numbers_are_dates(now.date.day_number() + 1);
            lemma_day_numbers_ordered(other.date, w.start.date);
            lemma_day_numbers_ordered(other.date, w.end.date);
        },
        WindowKind::Week => {
            lemma_numbers_are_dates(now.date.monday_number());
            lemma_numbers_are_dates(now.date.monday_number() + 7);
            lemma_day_numbers_ordered(other.date, w.start.date);
            lemma_day_numbers_ordered(other.date, w.end.date);
            lemma_weekday_range(now.date);
            lemma_monday_of_week(now.date.monday_number(), other.date);
        },
        WindowKind::Month => {},
    }
}

/// A date within the seven days from a Monday has that Monday as the Monday
/// of its week.
proof fn lemma_monday_of_week(monday: int, date: CivilDate)
    requires
        (monday - 1) % 7 == 0,
        monday <= date.day_number() < monday + 7,
    ensures
        date.monday_number() == monday,
{
    let n = date.day_number();
    assert((n - 1) % 7 == n - monday);
}

} // verus!
