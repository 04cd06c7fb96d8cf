use sakd::calendar::{Date, Time};
use sakd::task::Priority;
use sakd::text::parse_i64;
use sakd::utils::{
    parse_deps, parse_hm, parse_md, parse_priority, parse_tags, parse_ymd, resolve_time,
    shortcut_date_for, shortcut_time_for,
};

fn date(y: u16, m: u8, d: u8) -> Date {
    Date::new(y, m, d).unwrap()
}

#[test]
fn today_token_resolves_to_today() {
    let today = date(2026, 10, 12);
    assert_eq!(shortcut_date_for("t", today), Some(today));
    assert_eq!(shortcut_date_for("today", today), Some(today));
    assert_eq!(shortcut_date_for("TODAY", today), Some(today));
}

#[test]
fn tomorrow_token_resolves_to_next_day() {
    let today = date(2026, 10, 12);
    assert_eq!(shortcut_date_for("tm", today), Some(date(2026, 10, 13)));
    assert_eq!(shortcut_date_for("tomorrow", today), Some(date(2026, 10, 13)));
}

#[test]
fn day_offset_tokens() {
    let today = date(2026, 10, 12);
    assert_eq!(shortcut_date_for("3d", today), Some(date(2026, 10, 15)));
    assert_eq!(shortcut_date_for("-2d", today), Some(date(2026, 10, 10)));
    assert_eq!(shortcut_date_for("0d", today), Some(today));
    // crossing a month boundary
    assert_eq!(shortcut_date_for("20d", today), Some(date(2026, 11, 1)));
}

#[test]
fn week_offset_tokens() {
    let today = date(2026, 10, 12);
    assert_eq!(shortcut_date_for("1w", today), Some(date(2026, 10, 19)));
    assert_eq!(shortcut_date_for("-1w", today), Some(date(2026, 10, 5)));
}

#[test]
fn weekday_token_is_never_today() {
    // 2026-10-12 falls on a Monday
    let today = date(2026, 10, 12);
    let next_monday = shortcut_date_for("mon", today).unwrap();
    assert_ne!(next_monday, today);
    assert_eq!(next_monday, date(2026, 10, 19));
    assert_eq!(shortcut_date_for("tue", today), Some(date(2026, 10, 13)));
    assert_eq!(shortcut_date_for("sun", today), Some(date(2026, 10, 18)));
}

#[test]
fn unknown_date_tokens_fail() {
    let today = date(2026, 10, 12);
    assert_eq!(shortcut_date_for("yesterday", today), None);
    assert_eq!(shortcut_date_for("", today), None);
    assert_eq!(shortcut_date_for("d", today), None);
    assert_eq!(shortcut_date_for("99999999999999999999d", today), None);
}

#[test]
fn named_time_tokens() {
    let now = Time { hour: 10, minute: 30 };
    assert_eq!(shortcut_time_for("last", now), Some(Time { hour: 23, minute: 59 }));
    assert_eq!(shortcut_time_for("morning", now), Some(Time { hour: 9, minute: 0 }));
    assert_eq!(shortcut_time_for("noon", now), Some(Time { hour: 12, minute: 0 }));
    assert_eq!(shortcut_time_for("evening", now), Some(Time { hour: 18, minute: 0 }));
    assert_eq!(shortcut_time_for("night", now), Some(Time { hour: 21, minute: 0 }));
}

#[test]
fn hour_offset_tokens_truncate_to_time_of_day() {
    let now = Time { hour: 10, minute: 30 };
    assert_eq!(shortcut_time_for("2h", now), Some(Time { hour: 12, minute: 30 }));
    let late = Time { hour: 23, minute: 15 };
    assert_eq!(shortcut_time_for("2h", late), Some(Time { hour: 1, minute: 15 }));
    assert_eq!(shortcut_time_for("-11h", late), Some(Time { hour: 12, minute: 15 }));
    assert_eq!(shortcut_time_for("24h", late), Some(late));
}

#[test]
fn explicit_time_format() {
    assert_eq!(parse_hm("09:05"), Some(Time { hour: 9, minute: 5 }));
    assert_eq!(parse_hm("9:5"), Some(Time { hour: 9, minute: 5 }));
    assert_eq!(parse_hm("23:59"), Some(Time { hour: 23, minute: 59 }));
    assert_eq!(parse_hm("24:00"), None);
    assert_eq!(parse_hm("12:60"), None);
    assert_eq!(parse_hm("noon"), None);
    assert_eq!(parse_hm("1:2:3"), None);
}

#[test]
fn time_field_resolution_defaults() {
    let now = Time { hour: 8, minute: 0 };
    assert_eq!(resolve_time("", now), Time { hour: 23, minute: 59 });
    assert_eq!(resolve_time("   ", now), Time { hour: 23, minute: 59 });
    assert_eq!(resolve_time("last", now), Time { hour: 23, minute: 59 });
    assert_eq!(resolve_time("garbled", now), Time { hour: 23, minute: 59 });
    assert_eq!(resolve_time("07:45", now), Time { hour: 7, minute: 45 });
    assert_eq!(resolve_time("1h", now), Time { hour: 9, minute: 0 });
}

#[test]
fn explicit_date_format() {
    assert_eq!(parse_ymd("2026-01-15", '-'), Some(date(2026, 1, 15)));
    assert_eq!(parse_ymd("2026-1-5", '-'), Some(date(2026, 1, 5)));
    assert_eq!(parse_ymd("2024-02-29", '-'), Some(date(2024, 2, 29)));
    assert_eq!(parse_ymd("2023-02-29", '-'), None);
    assert_eq!(parse_ymd("2026-13-01", '-'), None);
    assert_eq!(parse_ymd("26-01-15", '-'), None);
    assert_eq!(parse_ymd("2026/01/15", '/'), Some(date(2026, 1, 15)));
    assert_eq!(parse_ymd("2026-01-15", '/'), None);
}

#[test]
fn month_day_format_takes_given_year() {
    assert_eq!(parse_md("3/14", '/', 2026), Some(date(2026, 3, 14)));
    assert_eq!(parse_md("02/29", '/', 2023), None);
    assert_eq!(parse_md("02/29", '/', 2024), Some(date(2024, 2, 29)));
}

#[test]
fn priority_names_fold_case() {
    assert_eq!(parse_priority("high"), Priority::High);
    assert_eq!(parse_priority("HIGH"), Priority::High);
    assert_eq!(parse_priority("Medium"), Priority::Medium);
    assert_eq!(parse_priority("low"), Priority::Low);
    assert_eq!(parse_priority("none"), Priority::Unset);
    assert_eq!(parse_priority(" "), Priority::Unset);
    assert_eq!(parse_priority("urgent"), Priority::Unset);
}

#[test]
fn tag_lists_are_trimmed_and_pruned() {
    let tags = parse_tags(" home , ,Work ,");
    let views: Vec<&str> = tags.iter().map(|s| s.as_str()).collect();
    assert_eq!(views, vec!["home", "Work"]);
    assert!(parse_tags("").is_empty());
    assert!(parse_tags(" , ,").is_empty());
}

#[test]
fn dependency_lists_drop_bad_entries() {
    assert_eq!(parse_deps("1, 2,x, 3 "), vec![1, 2, 3]);
    assert_eq!(parse_deps(""), Vec::<i64>::new());
    assert_eq!(parse_deps("-4"), vec![-4]);
}

#[test]
fn integer_parsing_matches_std() {
    for s in ["42", "-7", "+3", "0", "9223372036854775807", "-9223372036854775808",
        "9223372036854775808", "-9223372036854775809", " 42", "4 2", "", "-", "+", "--1",
        "00000000000000000000042"] {
        let chars: Vec<char> = s.chars().collect();
        assert_eq!(parse_i64(&chars), s.parse::<i64>().ok(), "on {:?}", s);
    }
}

#[test]
fn clock_backed_shortcuts() {
    // named tokens resolve the same way whatever the clock says
    assert_eq!(
        sakd::utils::parse_shortcut_time("last"),
        Some(Time { hour: 23, minute: 59 })
    );
    assert_eq!(
        sakd::utils::parse_shortcut_time("NOON"),
        Some(Time { hour: 12, minute: 0 })
    );
    assert_eq!(sakd::utils::parse_shortcut_time("soonish"), None);
    assert_eq!(sakd::utils::parse_shortcut_date("not a date"), None);
    // today's date comes from the clock; the token must resolve to something
    assert!(sakd::utils::parse_shortcut_date("t").is_some());
}
