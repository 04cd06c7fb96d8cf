use sakd::calendar::{Date, Time};
use sakd::entry::PopupData;
use sakd::render::{
    format_date, format_time, limit_band, pad_title, parse_selection_id, task_line, LimitBand,
};
use sakd::task::{has_incomplete_dependencies, Priority, Task};

fn task(id: i64, title: &str) -> Task {
    Task {
        id,
        title: title.to_string(),
        is_done: false,
        limit: None,
        description: None,
        priority: Priority::Unset,
        tags: Vec::new(),
        dependencies: Vec::new(),
    }
}

#[test]
fn priority_symbols_and_ranks() {
    assert_eq!(Priority::High.to_symbol(), "!!!");
    assert_eq!(Priority::Medium.to_symbol(), "!! ");
    assert_eq!(Priority::Low.to_symbol(), "!  ");
    assert_eq!(Priority::Unset.to_symbol(), "   ");
    assert_eq!(Priority::High.to_int(), 3);
    assert_eq!(Priority::from_int(2), Priority::Medium);
    assert_eq!(Priority::from_int(0), Priority::Unset);
    assert_eq!(Priority::from_int(-5), Priority::Unset);
    for p in [Priority::High, Priority::Medium, Priority::Low, Priority::Unset] {
        assert_eq!(Priority::from_int(p.to_int()), p);
    }
}

#[test]
fn titles_pad_by_display_width() {
    assert_eq!(pad_title("ab", 5), "ab   ");
    assert_eq!(pad_title("abcdef", 5), "abcdef");
    // a wide character counts two columns, so only two spaces follow
    assert_eq!(pad_title("\u{3042}", 4), "\u{3042}  ");
    assert_eq!(pad_title("", 3), "   ");
}

#[test]
fn dates_and_times_format_zero_padded() {
    assert_eq!(format_date(Date::new(2026, 1, 5).unwrap(), '-'), "2026-01-05");
    assert_eq!(format_date(Date::new(987, 11, 23).unwrap(), '/'), "0987/11/23");
    assert_eq!(format_time(Time { hour: 9, minute: 5 }), "09:05");
    assert_eq!(format_time(Time { hour: 23, minute: 59 }), "23:59");
}

#[test]
fn limit_bands_match_the_colour_rules() {
    let now: u64 = 1_000_000_000;
    assert_eq!(limit_band(now - 1, now), LimitBand::Overdue);
    assert_eq!(limit_band(now, now), LimitBand::Today);
    assert_eq!(limit_band(now + 86399, now), LimitBand::Today);
    assert_eq!(limit_band(now + 86400, now), LimitBand::ThreeDays);
    assert_eq!(limit_band(now + 259199, now), LimitBand::ThreeDays);
    assert_eq!(limit_band(now + 259200, now), LimitBand::Week);
    assert_eq!(limit_band(now + 604800, now), LimitBand::Later);
}

#[test]
fn list_rows_carry_status_and_warning() {
    let plain = task(7, "Water");
    let all = vec![task(1, "dep"), plain.clone()];
    assert_eq!(task_line(&plain, &all), " 7: [ ]       Water");

    let mut urgent = task(12, "Ship");
    urgent.priority = Priority::High;
    urgent.dependencies = vec![1];
    assert_eq!(task_line(&urgent, &all), "12: [ ] !!! * Ship");

    let mut done = task(3, "Rest");
    done.is_done = true;
    assert_eq!(task_line(&done, &all), " 3: [v]       Rest");
}

#[test]
fn dependency_warnings_look_at_completion() {
    let mut a = task(1, "a");
    a.dependencies = vec![2, 99];
    let b = task(2, "b");
    let all = vec![a.clone(), b.clone()];
    assert!(has_incomplete_dependencies(&a, &all));

    let mut b_done = b;
    b_done.is_done = true;
    let all_done = vec![a.clone(), b_done];
    // id 99 names no task, so nothing incomplete remains
    assert!(!has_incomplete_dependencies(&a, &all_done));
}

#[test]
fn selection_rows_parse_back() {
    assert_eq!(parse_selection_id("12: Buy milk"), Some(12));
    assert_eq!(parse_selection_id("7: a: b"), Some(7));
    assert_eq!(parse_selection_id("nope"), None);
    assert_eq!(parse_selection_id(""), None);
}

#[test]
fn fresh_popup_defaults() {
    let p = PopupData::default();
    assert_eq!(p.title, "");
    assert_eq!(p.priority, "None");
    assert_eq!(p.tags, "");
    assert_eq!(p.description, "");
}

#[test]
fn detail_panel_lines() {
    let mut t = task(5, "Plan");
    t.priority = Priority::High;
    t.tags = vec!["a".to_string(), "b".to_string()];
    t.dependencies = vec![1, 2];
    t.description = Some("soon".to_string());
    let dep = task(1, "dep");
    let all = vec![dep, t.clone()];
    let lines = sakd::render::detail_lines(&t, &all);
    assert_eq!(
        lines,
        vec![
            "Title: Plan".to_string(),
            "Priority: High".to_string(),
            "Tags: a, b".to_string(),
            "Done: No".to_string(),
            "Limit: None".to_string(),
            "Dependencies: [1, 2]".to_string(),
            "!! Pending dependencies exist !!".to_string(),
            "".to_string(),
            "Description:".to_string(),
            "soon".to_string(),
        ]
    );
}
