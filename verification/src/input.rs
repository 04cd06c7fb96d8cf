//! The key-input state machine: the single active mode that routes every
//! key, the keys themselves, and what a handled key asks the store to do.

use vstd::prelude::*;
use vstd::string::StrSliceExecFns;

use crate::entry::{spec_step_rel, PopupStep, SaveAction};
use crate::task::{task_views, Task};
use crate::view::{spec_cursor_after, spec_find_id, spec_jumped, spec_nav_next, spec_nav_prev, App};

verus! {

/// The single active interaction mode.  Exactly one is active at a time and
/// it alone decides what a key means.
#[derive(Clone, Copy, Debug)]
pub enum InputMode {
    /// Browsing the list.
    Normal,
    /// Filling the entry form for a new task, at the given field.
    Adding(PopupStep),
    /// Filling the entry form for the task with this id, at the given field.
    Editing(i64, PopupStep),
    /// Waiting for confirmation to delete the task with this id.
    Deleting(i64),
    /// Typing a tag filter.
    FilteringTag,
    /// Choosing a priority filter.
    FilteringPriority,
}

/// A key event, as the state machine reads it.
#[derive(Clone, Copy, Debug, PartialEq, Eq, Structural)]
pub enum Key {
    Char(char),
    Enter,
    Esc,
    Backspace,
    Up,
    Down,
}

/// What the screen loop reports to its caller.
pub enum TuiEvent {
    Quit,
}

/// What a handled key asks the surrounding loop to do.
pub enum UiOutcome {
    /// Nothing beyond the state change; redraw.
    Continue,
    /// Leave the screen.
    Quit,
    /// Hand the flipped row to the store.
    Persist(Task),
    /// Create or rewrite a task, then reload the cache.
    Save(SaveAction),
    /// Delete the task with this id, then reload the cache.
    Delete(i64),
}

/// The selected task's completion flag flipped in the cache, the changed
/// task handed out to persist, and the projection recomputed.
pub open spec fn spec_toggle(pre: App, post: App, out: UiOutcome) -> bool {
    &&& post.same_options(pre)
    &&& post.same_entry(pre)
    &&& match pre.selected {
        None => {
            &&& post.tasks@ == pre.tasks@
            &&& post.filtered_tasks@ == pre.filtered_tasks@
            &&& post.selected == pre.selected
            &&& out is Continue
        },
        Some(i) => {
            let id = task_views(pre.filtered_tasks@)[i as int].id;
            &&& match spec_find_id(task_views(pre.tasks@), id) {
                Some(k) => {
                    &&& task_views(post.tasks@) == task_views(pre.tasks@).update(
                        k,
                        App::spec_flip(task_views(pre.tasks@)[k]),
                    )
                    &&& match out {
                        UiOutcome::Persist(t) => t@ == App::spec_flip(task_views(pre.tasks@)[k]),
                        _ => false,
                    }
                },
                None => {
                    &&& post.tasks@ == pre.tasks@
                    &&& out is Continue
                },
            }
            &&& task_views(post.filtered_tasks@) == post.spec_proj()
            &&& post.sel_view() == spec_cursor_after(
                pre.sel_view(),
                task_views(pre.filtered_tasks@),
                post.spec_proj(),
            )
        },
    }
}

/// The projection recomputed after one option changed, with the cursor
/// relocated by the selected task's id.
pub open spec fn spec_refiltered(pre: App, post: App) -> bool {
    &&& post.tasks@ == pre.tasks@
    &&& task_views(post.filtered_tasks@) == post.spec_proj()
    &&& post.sel_view() == spec_cursor_after(
        pre.sel_view(),
        task_views(pre.filtered_tasks@),
        post.spec_proj(),
    )
}

/// What each key does in each mode: the full transition table of the
/// screen's state machine.
pub open spec fn spec_key_rel(pre: App, key: Key, post: App, out: UiOutcome) -> bool {
    match pre.input_mode {
        InputMode::Normal => spec_normal_key(pre, key, post, out),
        InputMode::Adding(step) => spec_popup_key(pre, key, post, out, step, None),
        InputMode::Editing(id, step) => spec_popup_key(pre, key, post, out, step, Some(id)),
        InputMode::Deleting(id) => spec_deleting_key(pre, id, key, post, out),
        InputMode::FilteringTag => spec_tag_filter_key(pre, key, post, out),
        InputMode::FilteringPriority => spec_priority_filter_key(pre, key, post, out),
    }
}

/// Browsing: navigation, toggling, opening the flows, filters, sorting,
/// suggestion and quitting.
pub open spec fn spec_normal_key(pre: App, key: Key, post: App, out: UiOutcome) -> bool {
    match key {
        Key::Esc => post == pre && out is Quit,
        Key::Down => spec_nav_next(pre, post) && out is Continue,
        Key::Up => spec_nav_prev(pre, post) && out is Continue,
        Key::Enter => spec_toggle(pre, post, out),
        Key::Backspace => post == pre && out is Continue,
        Key::Char(c) => if c == 'q' {
            post == pre && out is Quit
        } else if c == 'j' {
            spec_nav_next(pre, post) && out is Continue
        } else if c == 'k' {
            spec_nav_prev(pre, post) && out is Continue
        } else if c == ' ' {
            spec_toggle(pre, post, out)
        } else if c == 'r' {
            out is Continue && match pre.selected {
                Some(i) => post == App {
                    input_mode: InputMode::Deleting(pre.filtered_tasks@[i as int].id),
                    ..pre
                },
                None => post == pre,
            }
        } else if c == 'h' {
            &&& post.show_done == !pre.show_done
            &&& post.tag_filter == pre.tag_filter
            &&& post.priority_filter == pre.priority_filter
            &&& post.sort_order == pre.sort_order
            &&& post.same_entry(pre)
            &&& spec_refiltered(pre, post)
            &&& out is Continue
        } else if c == 'a' {
            &&& post.tasks@ == pre.tasks@
            &&& post.filtered_tasks@ == pre.filtered_tasks@
            &&& post.selected == pre.selected
            &&& post.same_options(pre)
            &&& post.input_mode == InputMode::Adding(PopupStep::Title)
            &&& post.input_buffer@ == Seq::<char>::empty()
            &&& post.popup_data.title@ == Seq::<char>::empty()
            &&& post.popup_data.priority@ == " "@
            &&& post.popup_data.tags@ == Seq::<char>::empty()
            &&& post.popup_data.dependencies@ == Seq::<char>::empty()
            &&& post.popup_data.date@ == Seq::<char>::empty()
            &&& post.popup_data.time@ == Seq::<char>::empty()
            &&& post.popup_data.description@ == Seq::<char>::empty()
            &&& out is Continue
        } else if c == 'e' {
            &&& post.tasks@ == pre.tasks@
            &&& post.filtered_tasks@ == pre.filtered_tasks@
            &&& post.selected == pre.selected
            &&& post.same_options(pre)
            &&& match pre.selected {
                None => post.same_entry(pre),
                Some(i) => {
                    &&& post.input_mode == InputMode::Editing(
                        pre.filtered_tasks@[i as int].id,
                        PopupStep::Title,
                    )
                    &&& post.popup_data.title@ == task_views(pre.filtered_tasks@)[i as int].title
                    &&& post.input_buffer@ == task_views(pre.filtered_tasks@)[i as int].title
                },
            }
            &&& out is Continue
        } else if c == 's' {
            &&& post.tasks@ == pre.tasks@
            &&& post.filtered_tasks@ == pre.filtered_tasks@
            &&& post.same_options(pre)
            &&& post.same_entry(pre)
            &&& ((exists|now: int| now >= 0 && spec_jumped(pre, post.sel_view(), now))
                || post.selected == pre.selected)
            &&& out is Continue
        } else if c == 'o' {
            &&& post.sort_order == App::spec_next_order(pre.sort_order)
            &&& post.show_done == pre.show_done
            &&& post.tag_filter == pre.tag_filter
            &&& post.priority_filter == pre.priority_filter
            &&& post.same_entry(pre)
            &&& spec_refiltered(pre, post)
            &&& out is Continue
        } else if c == 'f' {
            &&& post == App { input_mode: post.input_mode, input_buffer: post.input_buffer, ..pre }
            &&& post.input_mode is FilteringTag
            &&& post.input_buffer@ == match pre.tag_filter {
                Some(s) => s@,
                None => Seq::<char>::empty(),
            }
            &&& out is Continue
        } else if c == 'p' {
            post == App { input_mode: post.input_mode, ..pre } && post.input_mode
                is FilteringPriority && out is Continue
        } else {
            post == pre && out is Continue
        },
    }
}

/// Filling the entry form: commit and advance, cancel, or edit the buffer.
pub open spec fn spec_popup_key(
    pre: App,
    key: Key,
    post: App,
    out: UiOutcome,
    step: PopupStep,
    editing: Option<i64>,
) -> bool {
    &&& post.tasks@ == pre.tasks@
    &&& post.filtered_tasks@ == pre.filtered_tasks@
    &&& post.selected == pre.selected
    &&& post.same_options(pre)
    &&& match key {
        Key::Enter => match out {
            UiOutcome::Continue => spec_step_rel(pre, post, None, step, editing),
            UiOutcome::Save(a) => spec_step_rel(pre, post, Some(a), step, editing),
            _ => false,
        },
        Key::Esc => {
            &&& post == App { input_mode: post.input_mode, input_buffer: post.input_buffer, ..pre }
            &&& post.input_mode is Normal
            &&& post.input_buffer@ == Seq::<char>::empty()
            &&& out is Continue
        },
        Key::Char(c) => {
            &&& post == App { input_buffer: post.input_buffer, ..pre }
            &&& post.input_buffer@ == pre.input_buffer@.push(c)
            &&& out is Continue
        },
        Key::Backspace => {
            &&& post == App { input_buffer: post.input_buffer, ..pre }
            &&& post.input_buffer@ == if pre.input_buffer@.len() == 0 {
                pre.input_buffer@
            } else {
                pre.input_buffer@.drop_last()
            }
            &&& out is Continue
        },
        _ => post == pre && out is Continue,
    }
}

/// Confirming a deletion: only the id captured on entry is ever deleted.
pub open spec fn spec_deleting_key(
    pre: App,
    id: i64,
    key: Key,
    post: App,
    out: UiOutcome,
) -> bool {
    match key {
        Key::Enter => {
            &&& post == App { input_mode: post.input_mode, ..pre }
            &&& post.input_mode is Normal
            &&& out == UiOutcome::Delete(id)
        },
        Key::Esc => {
            &&& post == App { input_mode: post.input_mode, ..pre }
            &&& post.input_mode is Normal
            &&& out is Continue
        },
        Key::Char(c) => if c == 'n' {
            &&& post == App { input_mode: post.input_mode, ..pre }
            &&& post.input_mode is Normal
            &&& out is Continue
        } else {
            post == pre && out is Continue
        },
        _ => post == pre && out is Continue,
    }
}

/// Typing a tag filter: commit it, cancel it, or edit the buffer.
pub open spec fn spec_tag_filter_key(pre: App, key: Key, post: App, out: UiOutcome) -> bool {
    match key {
        Key::Enter => {
            &&& crate::view::view_of_tag(post.tag_filter) == (if pre.input_buffer@.len() == 0 {
                Option::<Seq<char>>::None
            } else {
                Some(pre.input_buffer@)
            })
            &&& post.show_done == pre.show_done
            &&& post.priority_filter == pre.priority_filter
            &&& post.sort_order == pre.sort_order
            &&& post.input_mode is Normal
            &&& post.input_buffer@ == Seq::<char>::empty()
            &&& post.popup_data == pre.popup_data
            &&& spec_refiltered(pre, post)
            &&& out is Continue
        },
        Key::Esc => {
            &&& post == App { input_mode: post.input_mode, input_buffer: post.input_buffer, ..pre }
            &&& post.input_mode is Normal
            &&& post.input_buffer@ == Seq::<char>::empty()
            &&& out is Continue
        },
        Key::Backspace => {
            &&& post == App { input_buffer: post.input_buffer, ..pre }
            &&& post.input_buffer@ == if pre.input_buffer@.len() == 0 {
                pre.input_buffer@
            } else {
                pre.input_buffer@.drop_last()
            }
            &&& out is Continue
        },
        Key::Char(c) => {
            &&& post == App { input_buffer: post.input_buffer, ..pre }
            &&& post.input_buffer@ == pre.input_buffer@.push(c)
            &&& out is Continue
        },
        _ => post == pre && out is Continue,
    }
}

/// Choosing a priority filter with one key.
pub open spec fn spec_priority_filter_key(pre: App, key: Key, post: App, out: UiOutcome) -> bool {
    match key {
        Key::Char(c) => if c == 'n' || c == ' ' {
            spec_priority_chosen(pre, post, None) && out is Continue
        } else if c == 'l' {
            spec_priority_chosen(pre, post, Some(crate::task::Priority::Low)) && out is Continue
        } else if c == 'm' {
            spec_priority_chosen(pre, post, Some(crate::task::Priority::Medium)) && out
                is Continue
        } else if c == 'h' {
            spec_priority_chosen(pre, post, Some(crate::task::Priority::High)) && out is Continue
        } else {
            post == pre && out is Continue
        },
        Key::Esc => {
            &&& post == App { input_mode: post.input_mode, ..pre }
            &&& post.input_mode is Normal
            &&& out is Continue
        },
        _ => post == pre && out is Continue,
    }
}

/// The priority filter set to a chosen level and the projection recomputed.
pub open spec fn spec_priority_chosen(
    pre: App,
    post: App,
    p: Option<crate::task::Priority>,
) -> bool {
    &&& post.priority_filter == p
    &&& post.show_done == pre.show_done
    &&& post.tag_filter == pre.tag_filter
    &&& post.sort_order == pre.sort_order
    &&& post.input_buffer == pre.input_buffer
    &&& post.popup_data == pre.popup_data
    &&& post.input_mode is Normal
    &&& spec_refiltered(pre, post)
}

/// Cancellation law: cancelling an entry flow — however much of the form was
/// already typed — changes no task and asks the store for nothing, so no
/// partial task can ever be created.
pub proof fn lemma_cancel_entry_preserves_tasks(pre: App, post: App, out: UiOutcome)
    requires
        pre.input_mode is Adding || pre.input_mode is Editing,
        spec_key_rel(pre, Key::Esc, post, out),
    ensures
        post.tasks@ == pre.tasks@,
        post.filtered_tasks@ == pre.filtered_tasks@,
        out is Continue,
        post.input_mode is Normal,
{
}

/// Deletion law: confirming a deletion asks the store to remove exactly the
/// task whose id was captured when the confirmation began — never one
/// re-derived from the cursor.
pub proof fn lemma_confirm_deletes_captured_id(
    pre: App,
    id: i64,
    post: App,
    out: UiOutcome,
)
    requires
        pre.input_mode == InputMode::Deleting(id),
        spec_key_rel(pre, Key::Enter, post, out),
    ensures
        out == UiOutcome::Delete(id),
        post.tasks@ == pre.tasks@,
        post.input_mode is Normal,
{
}

impl App {
    /// Routes one key through the active mode: the whole transition table of
    /// the screen, as `spec_key_rel` states it.
    pub fn handle_key(&mut self, key: Key) -> (out: UiOutcome)
        requires
            old(self).wf(),
        ensures
            final(self).wf(),
            spec_key_rel(*old(self), key, *final(self), out),
    {
        match self.input_mode {
            InputMode::Normal => match key {
                Key::Esc => UiOutcome::Quit,
                Key::Down => {
                    self.next();
                    UiOutcome::Continue
                },
                Key::Up => {
                    self.previous();
                    UiOutcome::Continue
                },
                Key::Enter => match self.toggle_status() {
                    Some(t) => UiOutcome::Persist(t),
                    None => UiOutcome::Continue,
                },
                Key::Backspace => UiOutcome::Continue,
                Key::Char(c) => {
                    if c == 'q' {
                        UiOutcome::Quit
                    } else if c == 'j' {
                        self.next();
                        UiOutcome::Continue
                    } else if c == 'k' {
                        self.previous();
                        UiOutcome::Continue
                    } else if c == ' ' {
                        match self.toggle_status() {
                            Some(t) => UiOutcome::Persist(t),
                            None => UiOutcome::Continue,
                        }
                    } else if c == 'r' {
                        match self.selected {
                            Some(i) => {
                                let id = self.filtered_tasks[i].id;
                                self.input_mode = InputMode::Deleting(id);
                            },
                            None => {},
                        }
                        UiOutcome::Continue
                    } else if c == 'h' {
                        self.toggle_done_visibility();
                        UiOutcome::Continue
                    } else if c == 'a' {
                        self.start_add_popup();
                        UiOutcome::Continue
                    } else if c == 'e' {
                        self.start_edit_popup();
                        UiOutcome::Continue
                    } else if c == 's' {
                        self.jump_to_suggestion();
                        UiOutcome::Continue
                    } else if c == 'o' {
                        self.cycle_sort_order();
                        UiOutcome::Continue
                    } else if c == 'f' {
                        self.input_buffer = match &self.tag_filter {
                            Some(s) => s.clone(),
                            None => String::new(),
                        };
                        self.input_mode = InputMode::FilteringTag;
                        UiOutcome::Continue
                    } else if c == 'p' {
                        self.input_mode = InputMode::FilteringPriority;
                        UiOutcome::Continue
                    } else {
                        UiOutcome::Continue
                    }
                },
            },
            InputMode::Adding(_) | InputMode::Editing(_, _) => match key {
                Key::Enter => match self.next_popup_step() {
                    Some(a) => UiOutcome::Save(a),
                    None => UiOutcome::Continue,
                },
                Key::Esc => {
                    self.input_mode = InputMode::Normal;
                    self.input_buffer = String::new();
                    UiOutcome::Continue
                },
                Key::Char(c) => {
                    self.input_buffer = crate::text::push_char(&self.input_buffer, c);
                    UiOutcome::Continue
                },
                Key::Backspace => {
                    self.input_buffer = crate::text::pop_char(&self.input_buffer);
                    UiOutcome::Continue
                },
                _ => UiOutcome::Continue,
            },
            InputMode::Deleting(id) => match key {
                Key::Enter => {
                    self.input_mode = InputMode::Normal;
                    UiOutcome::Delete(id)
                },
                Key::Esc => {
                    self.input_mode = InputMode::Normal;
                    UiOutcome::Continue
                },
                Key::Char(c) => {
                    if c == 'n' {
                        self.input_mode = InputMode::Normal;
                    }
                    UiOutcome::Continue
                },
                _ => UiOutcome::Continue,
            },
            InputMode::FilteringTag => match key {
                Key::Enter => {
                    let empty = self.input_buffer.as_str().unicode_len() == 0;
                    self.tag_filter = if empty {
                        None
                    } else {
                        Some(self.input_buffer.clone())
                    };
                    self.update_filtered_tasks();
                    self.input_mode = InputMode::Normal;
                    self.input_buffer = String::new();
                    UiOutcome::Continue
                },
                Key::Esc => {
                    self.input_mode = InputMode::Normal;
                    self.input_buffer = String::new();
                    UiOutcome::Continue
                },
                Key::Backspace => {
                    self.input_buffer = crate::text::pop_char(&self.input_buffer);
                    UiOutcome::Continue
                },
                Key::Char(c) => {
                    self.input_buffer = crate::text::push_char(&self.input_buffer, c);
                    UiOutcome::Continue
                },
                _ => UiOutcome::Continue,
            },
            InputMode::FilteringPriority => match key {
                Key::Char(c) => {
                    if c == 'n' || c == ' ' {
                        self.priority_filter = None;
                        self.update_filtered_tasks();
                        self.input_mode = InputMode::Normal;
                    } else if c == 'l' {
                        self.priority_filter = Some(crate::task::Priority::Low);
                        self.update_filtered_tasks();
                        self.input_mode = InputMode::Normal;
                    } else if c == 'm' {
                        self.priority_filter = Some(crate::task::Priority::Medium);
                        self.update_filtered_tasks();
                        self.input_mode = InputMode::Normal;
                    } else if c == 'h' {
                        self.priority_filter = Some(crate::task::Priority::High);
                        self.update_filtered_tasks();
                        self.input_mode = InputMode::Normal;
                    }
                    UiOutcome::Continue
                },
                Key::Esc => {
                    self.input_mode = InputMode::Normal;
                    UiOutcome::Continue
                },
                _ => UiOutcome::Continue,
            },
        }
    }
}

} // verus!
