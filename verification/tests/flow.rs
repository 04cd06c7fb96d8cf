use sakd::entry::{PopupStep, SaveAction};
use sakd::input::{InputMode, Key, UiOutcome};
use sakd::task::{Priority, Task};
use sakd::view::App;

fn task(id: i64, title: &str) -> Task {
    Task {
        id,
        title: title.to_string(),
        is_done: false,
        limit: None,
        description: None,
        priority: Priority::Unset,
        tags: Vec::new(),
        dependencies: Vec::new(),
    }
}

fn type_text(app: &mut App, text: &str) {
    for c in text.chars() {
        match app.handle_key(Key::Char(c)) {
            UiOutcome::Continue => {},
            _ => panic!("typing must only continue"),
        }
    }
}

fn expect_continue(app: &mut App, key: Key) {
    match app.handle_key(key) {
        UiOutcome::Continue => {},
        _ => panic!("expected the loop to continue"),
    }
}

#[test]
fn adding_flow_builds_the_entered_task() {
    let mut app = App::new(vec![task(1, "existing")]);
    expect_continue(&mut app, Key::Char('a'));
    assert!(matches!(app.input_mode, InputMode::Adding(PopupStep::Title)));

    type_text(&mut app, "Milk");
    expect_continue(&mut app, Key::Enter);  // title -> priority
    type_text(&mut app, "high");
    expect_continue(&mut app, Key::Enter);  // priority -> tags
    type_text(&mut app, "shop, food");
    expect_continue(&mut app, Key::Enter);  // tags -> dependencies
    type_text(&mut app, "1, x");
    expect_continue(&mut app, Key::Enter);  // dependencies -> date
    expect_continue(&mut app, Key::Enter);  // empty date -> time
    expect_continue(&mut app, Key::Enter);  // empty time -> description
    type_text(&mut app, "note");
    let out = app.handle_key(Key::Enter);  // commits

    match out {
        UiOutcome::Save(SaveAction::Create(f)) => {
            assert_eq!(f.title, "Milk");
            assert_eq!(f.priority, Priority::High);
            assert_eq!(f.tags, vec!["shop".to_string(), "food".to_string()]);
            assert_eq!(f.dependencies, vec![1]);
            assert_eq!(f.limit, None);
            assert_eq!(f.description.as_deref(), Some("note"));
        },
        _ => panic!("the last field must commit a creation"),
    }
    assert!(matches!(app.input_mode, InputMode::Normal));
    assert_eq!(app.input_buffer, "");
    // the cache itself is untouched until the store reloads it
    assert_eq!(app.tasks.len(), 1);
}

#[test]
fn typing_edits_the_buffer() {
    let mut app = App::new(Vec::new());
    expect_continue(&mut app, Key::Char('a'));
    type_text(&mut app, "abc");
    assert_eq!(app.input_buffer, "abc");
    expect_continue(&mut app, Key::Backspace);
    assert_eq!(app.input_buffer, "ab");
    expect_continue(&mut app, Key::Backspace);
    expect_continue(&mut app, Key::Backspace);
    expect_continue(&mut app, Key::Backspace);  // beyond empty stays empty
    assert_eq!(app.input_buffer, "");
}

#[test]
fn cancelling_an_add_leaves_tasks_untouched() {
    let mut app = App::new(vec![task(1, "keep me")]);
    let before: Vec<i64> = app.tasks.iter().map(|t| t.id).collect();
    expect_continue(&mut app, Key::Char('a'));
    type_text(&mut app, "half-typed title");
    expect_continue(&mut app, Key::Esc);  // cancel: no save action comes back
    assert!(matches!(app.input_mode, InputMode::Normal));
    let after: Vec<i64> = app.tasks.iter().map(|t| t.id).collect();
    assert_eq!(before, after);
    assert_eq!(app.tasks[0].title, "keep me");
}

#[test]
fn editing_seeds_the_form_from_the_task() {
    let mut t = task(4, "Water plants");
    t.priority = Priority::Medium;
    t.tags = vec!["garden".to_string(), "home".to_string()];
    t.dependencies = vec![2, 9];
    t.description = Some("back yard".to_string());
    let mut app = App::new(vec![t]);
    expect_continue(&mut app, Key::Char('e'));
    assert!(matches!(app.input_mode, InputMode::Editing(4, PopupStep::Title)));
    assert_eq!(app.popup_data.title, "Water plants");
    assert_eq!(app.popup_data.priority, "Medium");
    assert_eq!(app.popup_data.tags, "garden, home");
    assert_eq!(app.popup_data.dependencies, "2, 9");
    assert_eq!(app.popup_data.date, "");
    assert_eq!(app.popup_data.time, "");
    assert_eq!(app.popup_data.description, "back yard");
    assert_eq!(app.input_buffer, "Water plants");

    // walking through every field unchanged commits an edit of the same id
    let mut out = UiOutcome::Continue;
    for _ in 0..7 {
        out = app.handle_key(Key::Enter);
    }
    match out {
        UiOutcome::Save(SaveAction::Edit(id, f)) => {
            assert_eq!(id, 4);
            assert_eq!(f.title, "Water plants");
            assert_eq!(f.priority, Priority::Medium);
            assert_eq!(f.tags, vec!["garden".to_string(), "home".to_string()]);
            assert_eq!(f.dependencies, vec![2, 9]);
            assert_eq!(f.description.as_deref(), Some("back yard"));
        },
        _ => panic!("the walk must end in an edit of task 4"),
    }
}

#[test]
fn confirmed_delete_targets_the_captured_id() {
    let mut app = App::new(vec![task(1, "a"), task(2, "b")]);
    expect_continue(&mut app, Key::Char('j'));  // cursor to id 2
    expect_continue(&mut app, Key::Char('r'));  // capture it
    assert!(matches!(app.input_mode, InputMode::Deleting(2)));
    // stray keys while confirming change nothing
    expect_continue(&mut app, Key::Char('j'));
    expect_continue(&mut app, Key::Down);
    match app.handle_key(Key::Enter) {
        UiOutcome::Delete(id) => assert_eq!(id, 2),
        _ => panic!("confirming must delete the captured task"),
    }
    assert!(matches!(app.input_mode, InputMode::Normal));
}

#[test]
fn cancelled_delete_removes_nothing() {
    let mut app = App::new(vec![task(1, "a")]);
    expect_continue(&mut app, Key::Char('r'));
    assert!(matches!(app.input_mode, InputMode::Deleting(1)));
    expect_continue(&mut app, Key::Esc);
    assert!(matches!(app.input_mode, InputMode::Normal));
    expect_continue(&mut app, Key::Char('r'));
    expect_continue(&mut app, Key::Char('n'));
    assert!(matches!(app.input_mode, InputMode::Normal));
    assert_eq!(app.tasks.len(), 1);
}

#[test]
fn tag_filter_mode_commits_and_cancels() {
    let mut a = task(1, "a");
    a.tags = vec!["work".to_string()];
    let b = task(2, "b");
    let mut app = App::new(vec![a, b]);
    expect_continue(&mut app, Key::Char('f'));
    assert!(matches!(app.input_mode, InputMode::FilteringTag));
    type_text(&mut app, "work");
    expect_continue(&mut app, Key::Enter);
    assert!(matches!(app.input_mode, InputMode::Normal));
    assert_eq!(app.tag_filter.as_deref(), Some("work"));
    let ids: Vec<i64> = app.filtered_tasks.iter().map(|t| t.id).collect();
    assert_eq!(ids, vec![1]);

    // reopening seeds the buffer with the active filter; cancelling keeps it
    expect_continue(&mut app, Key::Char('f'));
    assert_eq!(app.input_buffer, "work");
    expect_continue(&mut app, Key::Esc);
    assert_eq!(app.tag_filter.as_deref(), Some("work"));

    // committing an empty buffer clears the filter
    expect_continue(&mut app, Key::Char('f'));
    for _ in 0..4 {
        expect_continue(&mut app, Key::Backspace);
    }
    expect_continue(&mut app, Key::Enter);
    assert_eq!(app.tag_filter, None);
}

#[test]
fn priority_filter_mode_sets_levels() {
    let mut app = App::new(vec![task(1, "a")]);
    expect_continue(&mut app, Key::Char('p'));
    expect_continue(&mut app, Key::Char('h'));
    assert_eq!(app.priority_filter, Some(Priority::High));
    assert!(matches!(app.input_mode, InputMode::Normal));
    expect_continue(&mut app, Key::Char('p'));
    expect_continue(&mut app, Key::Char('n'));
    assert_eq!(app.priority_filter, None);
    expect_continue(&mut app, Key::Char('p'));
    expect_continue(&mut app, Key::Esc);
    assert_eq!(app.priority_filter, None);
}

#[test]
fn quit_keys_leave_the_screen() {
    let mut app = App::new(Vec::new());
    assert!(matches!(app.handle_key(Key::Char('q')), UiOutcome::Quit));
    assert!(matches!(app.handle_key(Key::Esc), UiOutcome::Quit));
}

#[test]
fn toggling_over_keys_persists_the_flip() {
    let mut app = App::new(vec![task(1, "a")]);
    match app.handle_key(Key::Enter) {
        UiOutcome::Persist(t) => {
            assert_eq!(t.id, 1);
            assert!(t.is_done);
        },
        _ => panic!("toggling must hand the task back for the store"),
    }
}

#[test]
fn advancing_seeds_each_field_from_its_value() {
    let mut t = task(3, "Seeded");
    t.priority = Priority::Medium;
    t.tags = vec!["x".to_string()];
    let mut app = App::new(vec![t]);
    expect_continue(&mut app, Key::Char('e'));
    assert_eq!(app.input_buffer, "Seeded");
    expect_continue(&mut app, Key::Enter);  // commit title, seed priority
    assert_eq!(app.input_buffer, "Medium");
    assert!(matches!(app.input_mode, InputMode::Editing(3, PopupStep::Priority)));
    expect_continue(&mut app, Key::Enter);  // commit priority, seed tags
    assert_eq!(app.input_buffer, "x");
}

#[test]
fn fresh_add_form_starts_blank() {
    let mut app = App::new(Vec::new());
    expect_continue(&mut app, Key::Char('a'));
    assert_eq!(app.popup_data.title, "");
    assert_eq!(app.popup_data.priority, " ");
    assert_eq!(app.popup_data.tags, "");
    assert_eq!(app.input_buffer, "");
}
