use sakd::calendar::{instant_of_civil, CivilDateTime, Date, Time};
use sakd::task::{Priority, Task};
use sakd::view::{best_suggestion, App, SortOrder};

fn task(id: i64, title: &str, done: bool, priority: Priority) -> Task {
    Task {
        id,
        title: title.to_string(),
        is_done: done,
        limit: None,
        description: None,
        priority,
        tags: Vec::new(),
        dependencies: Vec::new(),
    }
}

fn with_tags(mut t: Task, tags: &[&str]) -> Task {
    t.tags = tags.iter().map(|s| s.to_string()).collect();
    t
}

fn ids(app: &App) -> Vec<i64> {
    app.filtered_tasks.iter().map(|t| t.id).collect()
}

fn instant(y: u16, mo: u8, d: u8, h: u8, mi: u8) -> u64 {
    instant_of_civil(CivilDateTime {
        date: Date::new(y, mo, d).unwrap(),
        time: Time { hour: h, minute: mi },
    })
}

#[test]
fn cursor_wraps_around_whole_projection() {
    let tasks = vec![
        task(1, "a", false, Priority::Unset),
        task(2, "b", false, Priority::Unset),
        task(3, "c", false, Priority::Unset),
    ];
    let mut app = App::new(tasks);
    let len = app.filtered_tasks.len();
    assert_eq!(len, 3);
    app.next();
    let start = app.selected;
    for _ in 0..len {
        app.next();
    }
    assert_eq!(app.selected, start);
    for _ in 0..len {
        app.previous();
    }
    assert_eq!(app.selected, start);
}

#[test]
fn toggling_show_done_twice_restores_projection() {
    let tasks = vec![
        task(1, "a", false, Priority::Low),
        task(2, "b", true, Priority::High),
        task(3, "c", false, Priority::Medium),
    ];
    let mut app = App::new(tasks);
    let before = ids(&app);
    app.toggle_done_visibility();
    assert_eq!(ids(&app), vec![1, 3, 2]);
    app.toggle_done_visibility();
    assert_eq!(ids(&app), before);
}

#[test]
fn priority_sort_puts_unfinished_high_first() {
    let tasks = vec![
        task(1, "A", false, Priority::Low),
        task(2, "B", false, Priority::High),
        task(3, "C", true, Priority::High),
    ];
    let mut app = App::new(tasks);
    app.toggle_done_visibility();  // show completed too
    app.set_sort(SortOrder::Priority);
    assert_eq!(ids(&app), vec![2, 1, 3]);
}

#[test]
fn id_sort_is_ascending_with_done_last() {
    let tasks = vec![
        task(9, "x", false, Priority::Unset),
        task(2, "y", true, Priority::Unset),
        task(5, "z", false, Priority::Unset),
    ];
    let mut app = App::new(tasks);
    app.toggle_done_visibility();
    app.set_sort(SortOrder::Id);
    assert_eq!(ids(&app), vec![5, 9, 2]);
}

#[test]
fn limit_sort_orders_by_due_then_undated() {
    let mut a = task(1, "a", false, Priority::Unset);
    a.limit = Some(instant(2026, 3, 1, 12, 0));
    let mut b = task(2, "b", false, Priority::Unset);
    b.limit = Some(instant(2026, 2, 1, 12, 0));
    let c = task(3, "c", false, Priority::Unset);
    let app = App::new(vec![a, b, c]);
    assert_eq!(ids(&app), vec![2, 1, 3]);
}

#[test]
fn tag_filter_matches_substring_case_insensitively() {
    let tasks = vec![
        with_tags(task(1, "a", false, Priority::Unset), &["HomeWork"]),
        with_tags(task(2, "b", false, Priority::Unset), &["errand"]),
        task(3, "c", false, Priority::Unset),
    ];
    let mut app = App::new(tasks);
    app.set_filter(Some("work".to_string()), None);
    assert_eq!(ids(&app), vec![1]);
    app.set_filter(None, None);
    assert_eq!(ids(&app), vec![1, 2, 3]);
}

#[test]
fn priority_filter_keeps_exact_level() {
    let tasks = vec![
        task(1, "a", false, Priority::High),
        task(2, "b", false, Priority::Low),
        task(3, "c", false, Priority::High),
    ];
    let mut app = App::new(tasks);
    app.set_filter(None, Some(Priority::High));
    assert_eq!(ids(&app), vec![1, 3]);
}

#[test]
fn cursor_follows_task_across_refilter() {
    let tasks = vec![
        task(1, "a", false, Priority::Low),
        task(2, "b", false, Priority::High),
        task(3, "c", false, Priority::Medium),
    ];
    let mut app = App::new(tasks);
    app.next();  // select id 2
    assert_eq!(app.filtered_tasks[app.selected.unwrap()].id, 2);
    app.set_sort(SortOrder::Priority);  // id 2 moves to the front
    assert_eq!(app.filtered_tasks[app.selected.unwrap()].id, 2);
}

#[test]
fn cursor_clamps_when_task_disappears() {
    let tasks = vec![
        task(1, "a", false, Priority::Unset),
        task(2, "b", false, Priority::High),
    ];
    let mut app = App::new(tasks);
    app.next();  // select id 2 at index 1
    app.set_filter(None, Some(Priority::Unset));  // id 2 gone, one row left
    assert_eq!(app.selected, Some(0));
    assert_eq!(ids(&app), vec![1]);
    app.set_filter(None, Some(Priority::Medium));  // nothing visible
    assert_eq!(app.selected, None);
    assert!(app.filtered_tasks.is_empty());
}

#[test]
fn toggle_status_flips_and_hides() {
    let tasks = vec![
        task(1, "a", false, Priority::Unset),
        task(2, "b", false, Priority::Unset),
    ];
    let mut app = App::new(tasks);
    let changed = app.toggle_status().unwrap();
    assert_eq!(changed.id, 1);
    assert!(changed.is_done);
    // completed tasks are hidden by default, so one row remains
    assert_eq!(ids(&app), vec![2]);
    assert!(app.tasks.iter().find(|t| t.id == 1).unwrap().is_done);
}

#[test]
fn suggestion_tie_resolves_to_cache_order() {
    let now = instant(2026, 10, 12, 12, 0);
    // overdue with no priority scores 50; due in 48 hours with high
    // priority scores 30 + 20 = 50
    let mut overdue = task(7, "late", false, Priority::Unset);
    overdue.limit = Some(now - 3600);
    let mut soon = task(8, "soon", false, Priority::High);
    soon.limit = Some(now + 48 * 3600);

    let first_order = vec![overdue.clone(), soon.clone()];
    assert_eq!(best_suggestion(&first_order, now), Some(7));
    let second_order = vec![soon, overdue];
    assert_eq!(best_suggestion(&second_order, now), Some(8));
}

#[test]
fn suggestion_prefers_strictly_higher_score() {
    let now = instant(2026, 10, 12, 12, 0);
    let low = task(1, "l", false, Priority::Low);
    let mut urgent = task(2, "u", false, Priority::Low);
    urgent.limit = Some(now + 3600);  // within a day: +40
    assert_eq!(best_suggestion(&vec![low, urgent], now), Some(2));
}

#[test]
fn suggestion_skips_done_and_handles_empty() {
    let now = instant(2026, 10, 12, 12, 0);
    let done = task(1, "d", true, Priority::High);
    assert_eq!(best_suggestion(&vec![done], now), None);
    assert_eq!(best_suggestion(&Vec::new(), now), None);
    let zero = task(3, "plain", false, Priority::Unset);
    assert_eq!(best_suggestion(&vec![zero], now), Some(3));
}
