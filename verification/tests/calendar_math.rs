use sakd::calendar::{
    add_days, civil_of_instant, day_count, days_in_month, instant_of_civil, is_leap_year,
    next_weekday_date, weekday_of_index, CivilDateTime, Date, Time,
};
use sakd::utils::parse_full_date_time;

fn date(y: u16, m: u8, d: u8) -> Date {
    Date::new(y, m, d).unwrap()
}

#[test]
fn leap_year_rules() {
    assert!(is_leap_year(2024));
    assert!(!is_leap_year(2023));
    assert!(!is_leap_year(1900));
    assert!(is_leap_year(2000));
    assert_eq!(days_in_month(2024, 2), 29);
    assert_eq!(days_in_month(2023, 2), 28);
    assert_eq!(days_in_month(2026, 4), 30);
    assert_eq!(days_in_month(2026, 12), 31);
}

#[test]
fn date_validation() {
    assert!(Date::new(2026, 2, 29).is_none());
    assert!(Date::new(2026, 0, 1).is_none());
    assert!(Date::new(2026, 1, 0).is_none());
    assert!(Date::new(2026, 13, 1).is_none());
    assert!(Date::new(2024, 2, 29).is_some());
}

#[test]
fn day_index_round_trips() {
    for d in [date(0, 1, 1), date(1970, 1, 1), date(2000, 2, 29), date(2026, 10, 12), date(
        9999,
        12,
        31,
    )] {
        let idx = d.day_index();
        assert_eq!(Date::of_day_index(idx), d);
    }
    assert_eq!(date(9999, 12, 31).day_index() + 1, day_count());
}

#[test]
fn known_weekdays() {
    // 1970-01-01 was a Thursday, 2000-01-01 a Saturday, 2026-10-12 a Monday
    assert_eq!(weekday_of_index(date(1970, 1, 1).day_index()), 3);
    assert_eq!(weekday_of_index(date(2000, 1, 1).day_index()), 5);
    assert_eq!(weekday_of_index(date(2026, 10, 12).day_index()), 0);
}

#[test]
fn adding_days_crosses_boundaries() {
    assert_eq!(add_days(date(2024, 2, 28), 1), Some(date(2024, 2, 29)));
    assert_eq!(add_days(date(2023, 2, 28), 1), Some(date(2023, 3, 1)));
    assert_eq!(add_days(date(2026, 1, 1), -1), Some(date(2025, 12, 31)));
    assert_eq!(add_days(date(9999, 12, 31), 1), None);
    assert_eq!(add_days(date(0, 1, 1), -1), None);
}

#[test]
fn next_weekday_is_within_a_week() {
    let monday = date(2026, 10, 12);
    assert_eq!(next_weekday_date(monday, 0), Some(date(2026, 10, 19)));
    assert_eq!(next_weekday_date(monday, 1), Some(date(2026, 10, 13)));
    assert_eq!(next_weekday_date(monday, 6), Some(date(2026, 10, 18)));
}

#[test]
fn instants_order_and_round_trip() {
    let c = CivilDateTime { date: date(2026, 1, 15), time: Time { hour: 12, minute: 34 } };
    let i = instant_of_civil(c);
    assert_eq!(civil_of_instant(i), Some(c));
    assert_eq!(civil_of_instant(i + 59), Some(c));
    let later = CivilDateTime { date: date(2026, 1, 15), time: Time { hour: 12, minute: 35 } };
    assert!(instant_of_civil(later) == i + 60);
    assert!(instant_of_civil(CivilDateTime { date: date(2026, 1, 16), time: c.time }) > i);
}

#[test]
fn full_date_time_goes_through_the_zone() {
    // exercises the real chrono conversion, whatever zone the machine runs in
    let a = parse_full_date_time("2026-01-15", "12:00").unwrap();
    let b = parse_full_date_time("2026-01-16", "12:00").unwrap();
    assert_eq!(b - a, 86400);
    let c = parse_full_date_time("2026-01-15", "13:30").unwrap();
    assert_eq!(c - a, 5400);
    assert_eq!(parse_full_date_time("", "12:00"), None);
    assert_eq!(parse_full_date_time("   ", "12:00"), None);
    assert_eq!(parse_full_date_time("nonsense", "12:00"), None);
    // an unreadable time falls back to one minute before midnight
    let d = parse_full_date_time("2026-01-15", "").unwrap();
    let e = parse_full_date_time("2026-01-15", "junk").unwrap();
    assert_eq!(d, e);
    assert_eq!(d - a, 11 * 3600 + 59 * 60);
}
