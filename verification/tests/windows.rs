use pushups::calendar::{leap_year, month_length, CivilDate, MAX_YEAR, MIN_YEAR};
use pushups::instant::LocalInstant;
use pushups::window::{day_window, month_window, resolve, week_window, LogicFault, Window, WindowKind};

fn date(year: i32, month: u32, day: u32) -> CivilDate {
    CivilDate::new(year, month, day).unwrap()
}

fn at(year: i32, month: u32, day: u32, hour: u32, minute: u32, second: u32) -> LocalInstant {
    date(year, month, day).and_hms(hour, minute, second).unwrap()
}

fn midnight(year: i32, month: u32, day: u32) -> LocalInstant {
    LocalInstant { date: CivilDate { year, month, day }, hour: 0, minute: 0, second: 0, nano: 0 }
}

#[test]
fn new_accepts_only_days_that_exist() {
    assert_eq!(CivilDate::new(2024, 2, 29), Some(CivilDate { year: 2024, month: 2, day: 29 }));
    assert_eq!(CivilDate::new(2023, 2, 29), None);
    assert_eq!(CivilDate::new(1900, 2, 29), None);
    assert_eq!(CivilDate::new(2000, 2, 29), Some(CivilDate { year: 2000, month: 2, day: 29 }));
    assert_eq!(CivilDate::new(2024, 4, 31), None);
    assert_eq!(CivilDate::new(2024, 0, 1), None);
    assert_eq!(CivilDate::new(2024, 13, 1), None);
    assert_eq!(CivilDate::new(2024, 1, 0), None);
    assert_eq!(CivilDate::new(MAX_YEAR + 1, 1, 1), None);
    assert_eq!(CivilDate::new(MIN_YEAR - 1, 12, 31), None);
    assert!(CivilDate::new(MAX_YEAR, 12, 31).is_some());
    assert!(CivilDate::new(MIN_YEAR, 1, 1).is_some());
}

#[test]
fn leap_years_follow_the_gregorian_rule() {
    assert!(leap_year(2024));
    assert!(!leap_year(2023));
    assert!(!leap_year(1900));
    assert!(leap_year(2000));
    assert!(leap_year(0));
    assert!(leap_year(-4));
    assert!(!leap_year(-100));
}

#[test]
fn month_lengths() {
    assert_eq!(month_length(2024, 1), 31);
    assert_eq!(month_length(2024, 2), 29);
    assert_eq!(month_length(2023, 2), 28);
    assert_eq!(month_length(2023, 4), 30);
    assert_eq!(month_length(2023, 6), 30);
    assert_eq!(month_length(2023, 9), 30);
    assert_eq!(month_length(2023, 11), 30);
    assert_eq!(month_length(2023, 12), 31);
}

#[test]
fn with_day_month_and_year() {
    let d = date(2024, 1, 31);
    assert_eq!(d.with_day(1), Some(date(2024, 1, 1)));
    assert_eq!(d.with_day(32), None);
    assert_eq!(d.with_month(3), Some(date(2024, 3, 31)));
    assert_eq!(d.with_month(2), None);
    assert_eq!(d.with_month(13), None);
    assert_eq!(d.with_year(2025), Some(date(2025, 1, 31)));
    assert_eq!(date(2024, 2, 29).with_year(2025), None);
    assert_eq!(d.with_year(MAX_YEAR + 1), None);
}

#[test]
fn and_hms_accepts_only_seconds_of_the_day() {
    let d = date(2024, 3, 10);
    assert_eq!(
        d.and_hms(23, 59, 59),
        Some(LocalInstant { date: d, hour: 23, minute: 59, second: 59, nano: 0 })
    );
    assert_eq!(d.and_hms(24, 0, 0), None);
    assert_eq!(d.and_hms(0, 60, 0), None);
    assert_eq!(d.and_hms(0, 0, 60), None);
    assert_eq!(d.midnight(), midnight(2024, 3, 10));
}

#[test]
fn instants_are_ordered_as_they_read() {
    let a = at(2024, 3, 10, 23, 59, 59);
    let b = at(2024, 3, 11, 0, 0, 0);
    assert!(a.is_before(&b));
    assert!(!b.is_before(&a));
    assert!(!a.is_before(&a));
    assert!(at(2023, 12, 31, 23, 0, 0).is_before(&at(2024, 1, 1, 0, 0, 0)));
    assert!(at(2024, 1, 1, 8, 59, 59).is_before(&at(2024, 1, 1, 9, 0, 0)));
    let early = LocalInstant { nano: 1, ..a };
    let late = LocalInstant { nano: 2, ..a };
    assert!(early.is_before(&late));
    assert!(!late.is_before(&early));
    assert!(date(2024, 2, 29).is_before(&date(2024, 3, 1)));
    assert!(!date(2024, 3, 1).is_before(&date(2024, 3, 1)));
}

#[test]
fn day_window_of_last_second_of_a_day() {
    let w = day_window(at(2024, 3, 10, 23, 59, 59)).unwrap();
    assert_eq!(w.start, midnight(2024, 3, 10));
    assert_eq!(w.end, midnight(2024, 3, 11));
}

#[test]
fn day_window_at_month_and_year_ends() {
    assert_eq!(day_window(at(2024, 2, 28, 12, 0, 0)).unwrap().end, midnight(2024, 2, 29));
    assert_eq!(day_window(at(2024, 2, 29, 12, 0, 0)).unwrap().end, midnight(2024, 3, 1));
    assert_eq!(day_window(at(2023, 2, 28, 12, 0, 0)).unwrap().end, midnight(2023, 3, 1));
    assert_eq!(day_window(at(2023, 4, 30, 12, 0, 0)).unwrap().end, midnight(2023, 5, 1));
    assert_eq!(day_window(at(2023, 12, 31, 12, 0, 0)).unwrap().end, midnight(2024, 1, 1));
    assert_eq!(day_window(at(2024, 1, 1, 0, 0, 0)).unwrap().start, midnight(2024, 1, 1));
}

#[test]
fn week_window_of_a_wednesday() {
    let w = week_window(at(2024, 3, 13, 15, 30, 0)).unwrap();
    assert_eq!(w.start, midnight(2024, 3, 11));
    assert_eq!(w.end, midnight(2024, 3, 18));
}

#[test]
fn week_window_of_a_monday_just_after_midnight() {
    let now = at(2024, 3, 11, 0, 0, 1);
    let w = week_window(now).unwrap();
    assert_eq!(w.start, midnight(2024, 3, 11));
    assert_eq!(w.end, midnight(2024, 3, 18));
}

#[test]
fn week_window_of_a_sunday() {
    let w = week_window(at(2024, 3, 17, 23, 59, 59)).unwrap();
    assert_eq!(w.start, midnight(2024, 3, 11));
    assert_eq!(w.end, midnight(2024, 3, 18));
}

#[test]
fn week_window_across_a_year_boundary() {
    let w = week_window(at(2025, 1, 1, 8, 0, 0)).unwrap();
    assert_eq!(w.start, midnight(2024, 12, 30));
    assert_eq!(w.end, midnight(2025, 1, 6));
}

#[test]
fn week_window_across_a_month_boundary() {
    let w = week_window(at(2024, 3, 1, 8, 0, 0)).unwrap();
    assert_eq!(w.start, midnight(2024, 2, 26));
    assert_eq!(w.end, midnight(2024, 3, 4));
}

#[test]
fn week_window_in_distant_years() {
    // 1 January of year 1 is a Monday.
    let w = week_window(at(1, 1, 3, 0, 0, 0)).unwrap();
    assert_eq!(w.start, midnight(1, 1, 1));
    // 14 March of year -308 is a Friday.
    let w = week_window(at(-308, 3, 14, 0, 0, 0)).unwrap();
    assert_eq!(w.start, midnight(-308, 3, 10));
    assert_eq!(w.end, midnight(-308, 3, 17));
}

#[test]
fn month_window_of_the_last_day_of_december() {
    let w = month_window(at(2023, 12, 31, 10, 0, 0)).unwrap();
    assert_eq!(w.start, midnight(2023, 12, 1));
    assert_eq!(w.end, midnight(2024, 1, 1));
}

#[test]
fn month_window_of_a_leap_february() {
    let w = month_window(at(2024, 2, 15, 10, 0, 0)).unwrap();
    assert_eq!(w.start, midnight(2024, 2, 1));
    assert_eq!(w.end, midnight(2024, 3, 1));
}

#[test]
fn month_window_of_a_day_the_next_month_lacks() {
    let w = month_window(at(2024, 1, 31, 10, 0, 0)).unwrap();
    assert_eq!(w.start, midnight(2024, 1, 1));
    assert_eq!(w.end, midnight(2024, 2, 1));
    let w = month_window(at(2024, 3, 31, 10, 0, 0)).unwrap();
    assert_eq!(w.end, midnight(2024, 4, 1));
}

#[test]
fn month_window_of_the_first_day() {
    let w = month_window(at(2024, 6, 1, 0, 0, 0)).unwrap();
    assert_eq!(w.start, midnight(2024, 6, 1));
    assert_eq!(w.end, midnight(2024, 7, 1));
}

#[test]
fn windows_at_the_end_of_the_calendar_are_faults() {
    let last = at(MAX_YEAR, 12, 31, 12, 0, 0);
    assert_eq!(day_window(last), Err(LogicFault));
    assert_eq!(week_window(last), Err(LogicFault));
    assert_eq!(month_window(last), Err(LogicFault));
    assert_eq!(
        day_window(at(MAX_YEAR, 12, 30, 12, 0, 0)).unwrap().end,
        midnight(MAX_YEAR, 12, 31)
    );
    assert!(month_window(at(MAX_YEAR, 11, 30, 12, 0, 0)).is_ok());
}

#[test]
fn windows_at_the_start_of_the_calendar() {
    // The first day of the calendar is a Thursday.
    let first = at(MIN_YEAR, 1, 1, 12, 0, 0);
    let w = day_window(first).unwrap();
    assert_eq!(w.start, midnight(MIN_YEAR, 1, 1));
    assert_eq!(w.end, midnight(MIN_YEAR, 1, 2));
    assert_eq!(week_window(first), Err(LogicFault));
    assert_eq!(week_window(at(MIN_YEAR, 1, 4, 12, 0, 0)), Err(LogicFault));
    let w = week_window(at(MIN_YEAR, 1, 5, 12, 0, 0)).unwrap();
    assert_eq!(w.start, midnight(MIN_YEAR, 1, 5));
    assert_eq!(w.end, midnight(MIN_YEAR, 1, 12));
    assert_eq!(month_window(first).unwrap().start, midnight(MIN_YEAR, 1, 1));
}

#[test]
fn resolve_picks_the_window_of_the_kind() {
    let now = at(2024, 3, 13, 15, 30, 0);
    assert_eq!(resolve(now, WindowKind::Day), day_window(now));
    assert_eq!(resolve(now, WindowKind::Week), week_window(now));
    assert_eq!(resolve(now, WindowKind::Month), month_window(now));
    assert_eq!(
        resolve(now, WindowKind::Day),
        Ok(Window { start: midnight(2024, 3, 13), end: midnight(2024, 3, 14) })
    );
}

#[test]
fn a_window_holds_its_start_and_not_its_end() {
    let w = day_window(at(2024, 3, 10, 23, 59, 59)).unwrap();
    assert!(w.holds(&w.start));
    assert!(!w.holds(&w.end));
    assert!(w.holds(&at(2024, 3, 10, 23, 59, 59)));
    assert!(!w.holds(&at(2024, 3, 9, 23, 59, 59)));
    let next = day_window(w.end).unwrap();
    assert_eq!(next.start, w.end);
    assert!(next.holds(&w.end));
}

#[test]
fn each_window_holds_its_instant() {
    let now = at(2024, 12, 31, 23, 59, 59);
    for kind in [WindowKind::Day, WindowKind::Week, WindowKind::Month] {
        let w = resolve(now, kind).unwrap();
        assert!(w.holds(&now));
        assert!(w.start.is_before(&w.end));
        let next = resolve(w.end, kind).unwrap();
        assert_eq!(next.start, w.end);
    }
}

#[test]
fn plus_days_moves_through_the_calendar() {
    assert_eq!(date(2015, 9, 5).plus_days(40), Some(date(2015, 10, 15)));
    assert_eq!(date(2015, 9, 5).plus_days(-40), Some(date(2015, 7, 27)));
    assert_eq!(date(2024, 2, 28).plus_days(1), Some(date(2024, 2, 29)));
    assert_eq!(date(2023, 2, 28).plus_days(1), Some(date(2023, 3, 1)));
    assert_eq!(date(2024, 1, 1).plus_days(-1), Some(date(2023, 12, 31)));
    assert_eq!(date(2024, 1, 1).plus_days(366), Some(date(2025, 1, 1)));
    assert_eq!(date(2024, 1, 1).plus_days(0), Some(date(2024, 1, 1)));
    assert_eq!(date(1, 1, 1).plus_days(-1), Some(date(0, 12, 31)));
    assert_eq!(date(1, 1, 1).plus_days(719_162), Some(date(1970, 1, 1)));
}

#[test]
fn plus_days_stops_at_the_ends_of_the_calendar() {
    assert_eq!(date(MAX_YEAR, 12, 31).plus_days(1), None);
    assert_eq!(date(MAX_YEAR, 12, 31).plus_days(0), Some(date(MAX_YEAR, 12, 31)));
    assert_eq!(date(MAX_YEAR, 12, 30).plus_days(1), Some(date(MAX_YEAR, 12, 31)));
    assert_eq!(date(MIN_YEAR, 1, 1).plus_days(-1), None);
    assert_eq!(date(MIN_YEAR, 1, 2).plus_days(-1), Some(date(MIN_YEAR, 1, 1)));
    assert_eq!(date(2024, 1, 1).plus_days(i32::MAX), None);
    assert_eq!(date(2024, 1, 1).plus_days(i32::MIN), None);
}

#[test]
fn days_from_monday_of_known_dates() {
    assert_eq!(date(2024, 3, 11).days_from_monday(), 0);
    assert_eq!(date(2015, 9, 8).days_from_monday(), 1);
    assert_eq!(date(2024, 3, 13).days_from_monday(), 2);
    assert_eq!(date(1970, 1, 1).days_from_monday(), 3);
    assert_eq!(date(-308, 3, 14).days_from_monday(), 4);
    assert_eq!(date(2024, 3, 16).days_from_monday(), 5);
    assert_eq!(date(2024, 3, 10).days_from_monday(), 6);
    assert_eq!(date(1, 1, 1).days_from_monday(), 0);
    assert_eq!(date(0, 12, 31).days_from_monday(), 6);
    assert_eq!(date(MIN_YEAR, 1, 1).days_from_monday(), 3);
}

#[test]
fn a_window_is_the_window_of_each_of_its_instants() {
    let now = at(2024, 2, 29, 12, 0, 0);
    for kind in [WindowKind::Day, WindowKind::Week, WindowKind::Month] {
        let w = resolve(now, kind).unwrap();
        assert_eq!(resolve(w.start, kind), Ok(w));
        let last_day = w.end.date.plus_days(-1).unwrap();
        let last = LocalInstant {
            date: last_day,
            hour: 23,
            minute: 59,
            second: 59,
            nano: 999_999_999,
        };
        assert!(w.holds(&last));
        assert_eq!(resolve(last, kind), Ok(w));
    }
}

#[test]
fn month_window_is_the_same_for_every_day_of_the_month() {
    let first = month_window(at(2024, 2, 1, 0, 0, 0));
    for day in 2..=29 {
        assert_eq!(month_window(at(2024, 2, day, 13, 0, 0)), first);
    }
}
