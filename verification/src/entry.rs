//! The multi-field entry flow: the fixed field order of the add/edit form,
//! the buffered field values, and what saving them means.

use vstd::prelude::*;
use vstd::string::StrSliceExecFns;

use crate::input::InputMode;
use crate::task::Priority;
use crate::view::App;

verus! {

/// The fields of the entry form, in their fixed order.
#[derive(Clone, Copy, Debug, PartialEq, Eq, Structural)]
pub enum PopupStep {
    Title,
    Priority,
    Tags,
    Dependencies,
    Date,
    Time,
    Description,
}

impl PopupStep {
    /// The field after this one; the last field has none.
    pub open spec fn spec_next(self) -> Option<PopupStep> {
        match self {
            PopupStep::Title => Some(PopupStep::Priority),
            PopupStep::Priority => Some(PopupStep::Tags),
            PopupStep::Tags => Some(PopupStep::Dependencies),
            PopupStep::Dependencies => Some(PopupStep::Date),
            PopupStep::Date => Some(PopupStep::Time),
            PopupStep::Time => Some(PopupStep::Description),
            PopupStep::Description => None,
        }
    }
}

/// The buffered text of every field of the entry form.
pub struct PopupData {
    pub title: String,
    pub priority: String,
    pub tags: String,
    pub dependencies: String,
    pub date: String,
    pub time: String,
    pub description: String,
}

impl PopupData {
    /// The buffered text of one field.
    pub open spec fn spec_field(self, step: PopupStep) -> Seq<char> {
        match step {
            PopupStep::Title => self.title@,
            PopupStep::Priority => self.priority@,
            PopupStep::Tags => self.tags@,
            PopupStep::Dependencies => self.dependencies@,
            PopupStep::Date => self.date@,
            PopupStep::Time => self.time@,
            PopupStep::Description => self.description@,
        }
    }

    /// `post` is `pre` with the text of one field replaced.
    pub open spec fn spec_updated(pre: PopupData, post: PopupData, step: PopupStep, text: Seq<char>) -> bool {
        forall|s: PopupStep|
            #[trigger] post.spec_field(s) == if s == step {
                text
            } else {
                pre.spec_field(s)
            }
    }

    /// The buffered text of one field, as a fresh string.
    pub fn field(&self, step: PopupStep) -> (r: String)
        ensures
            r@ == self.spec_field(step),
    {
        match step {
            PopupStep::Title => self.title.clone(),
            PopupStep::Priority => self.priority.clone(),
            PopupStep::Tags => self.tags.clone(),
            PopupStep::Dependencies => self.dependencies.clone(),
            PopupStep::Date => self.date.clone(),
            PopupStep::Time => self.time.clone(),
            PopupStep::Description => self.description.clone(),
        }
    }
}

impl Default for PopupData {
    /// An empty form; the priority field starts at the name of no priority.
    fn default() -> (r: Self)
        ensures
            r.title@ == Seq::<char>::empty(),
            r.priority@ == "None"@,
            r.tags@ == Seq::<char>::empty(),
            r.dependencies@ == Seq::<char>::empty(),
            r.date@ == Seq::<char>::empty(),
            r.time@ == Seq::<char>::empty(),
            r.description@ == Seq::<char>::empty(),
    {
        PopupData {
            title: String::new(),
            priority: crate::text::string_of_chars(&crate::text::chars_of("None")),
            tags: String::new(),
            dependencies: String::new(),
            date: String::new(),
            time: String::new(),
            description: String::new(),
        }
    }
}

/// The plain field values a finished form denotes, ready to store.
pub struct TaskFields {
    pub title: String,
    pub limit: Option<u64>,
    pub description: Option<String>,
    pub priority: Priority,
    pub tags: Vec<String>,
    pub dependencies: Vec<i64>,
}

/// What a finished form asks the store to do.
pub enum SaveAction {
    /// Create a task with these fields.
    Create(TaskFields),
    /// Rewrite the fields of the task with this id.
    Edit(i64, TaskFields),
}

impl TaskFields {
    /// How the computed fields relate to the form's buffered text: everything
    /// but the due instant is an exact function of the form.
    pub open spec fn spec_from_popup(self, p: PopupData) -> bool {
        &&& self.title@ == p.title@
        &&& self.priority == crate::utils::spec_parse_priority(p.priority@)
        &&& self.tags@.map_values(|t: String| t@) == crate::utils::spec_parse_tags(p.tags@)
        &&& self.dependencies@ == crate::utils::spec_parse_deps(p.dependencies@)
        &&& self.description == if p.description@.len() == 0 {
            Option::<String>::None
        } else {
            Some(p.description)
        }
        &&& crate::text::spec_trim(p.date@).len() == 0 ==> self.limit is None
    }
}

impl PopupData {
    /// Replaces the text of one field.
    pub fn set_field(&mut self, step: PopupStep, text: String)
        ensures
            PopupData::spec_updated(*old(self), *final(self), step, text@),
    {
        match step {
            PopupStep::Title => {
                self.title = text;
            },
            PopupStep::Priority => {
                self.priority = text;
            },
            PopupStep::Tags => {
                self.tags = text;
            },
            PopupStep::Dependencies => {
                self.dependencies = text;
            },
            PopupStep::Date => {
                self.date = text;
            },
            PopupStep::Time => {
                self.time = text;
            },
            PopupStep::Description => {
                self.description = text;
            },
        }
    }
}

impl PopupStep {
    /// The field after this one; the last field has none.
    pub fn next_step(self) -> (r: Option<PopupStep>)
        ensures
            r == self.spec_next(),
    {
        match self {
            PopupStep::Title => Some(PopupStep::Priority),
            PopupStep::Priority => Some(PopupStep::Tags),
            PopupStep::Tags => Some(PopupStep::Dependencies),
            PopupStep::Dependencies => Some(PopupStep::Date),
            PopupStep::Date => Some(PopupStep::Time),
            PopupStep::Time => Some(PopupStep::Description),
            PopupStep::Description => None,
        }
    }
}

/// One advance of the entry flow: the buffer committed into the active
/// field, then either the next field seeded into the buffer, or — past the
/// last field — the finished form handed out and the flow closed.
pub open spec fn spec_step_rel(
    pre: App,
    post: App,
    r: Option<SaveAction>,
    step: PopupStep,
    editing: Option<i64>,
) -> bool {
    &&& PopupData::spec_updated(pre.popup_data, post.popup_data, step, pre.input_buffer@)
    &&& match step.spec_next() {
        Some(ns) => {
            &&& post.input_mode == match editing {
                None => InputMode::Adding(ns),
                Some(id) => InputMode::Editing(id, ns),
            }
            &&& post.input_buffer@ == post.popup_data.spec_field(ns)
            &&& r is None
        },
        None => {
            &&& post.input_mode is Normal
            &&& post.input_buffer@ == Seq::<char>::empty()
            &&& match r {
                Some(SaveAction::Create(f)) => editing is None && f.spec_from_popup(
                    post.popup_data,
                ),
                Some(SaveAction::Edit(id2, f)) => editing == Some(id2) && f.spec_from_popup(
                    post.popup_data,
                ),
                None => false,
            }
        },
    }
}

impl App {
    /// The field values the current form denotes.
    fn popup_fields(&self) -> (f: TaskFields)
        ensures
            f.spec_from_popup(self.popup_data),
    {
        let dchars = crate::text::chars_of(self.popup_data.date.as_str());
        let dtrim = crate::text::trim_chars(&dchars);
        let limit: Option<u64> = if dtrim.len() == 0 {
            None
        } else {
            let tchars = crate::text::chars_of(self.popup_data.time.as_str());
            let ttrim = crate::text::trim_chars(&tchars);
            let ds = crate::text::string_of_chars(&dtrim);
            let ts = crate::text::string_of_chars(&ttrim);
            crate::utils::parse_full_date_time(ds.as_str(), ts.as_str())
        };
        let description: Option<String> = if self.popup_data.description.as_str().unicode_len()
            == 0 {
            None
        } else {
            Some(self.popup_data.description.clone())
        };
        TaskFields {
            title: self.popup_data.title.clone(),
            limit,
            description,
            priority: crate::utils::parse_priority(self.popup_data.priority.as_str()),
            tags: crate::utils::parse_tags(self.popup_data.tags.as_str()),
            dependencies: crate::utils::parse_deps(self.popup_data.dependencies.as_str()),
        }
    }

    /// What saving the current form means: a creation when adding, a rewrite
    /// when editing, nothing in any other mode.  The form's buffered text is
    /// not touched.
    pub fn save_popup(&self) -> (r: Option<SaveAction>)
        ensures
            match self.input_mode {
                InputMode::Adding(_) => match r {
                    Some(SaveAction::Create(f)) => f.spec_from_popup(self.popup_data),
                    _ => false,
                },
                InputMode::Editing(id, _) => match r {
                    Some(SaveAction::Edit(id2, f)) => id2 == id && f.spec_from_popup(
                        self.popup_data,
                    ),
                    _ => false,
                },
                _ => r is None,
            },
    {
        match self.input_mode {
            InputMode::Adding(_) => Some(SaveAction::Create(self.popup_fields())),
            InputMode::Editing(id, _) => Some(SaveAction::Edit(id, self.popup_fields())),
            _ => None,
        }
    }

    /// Opens the entry form for a new task: every field empty, the priority
    /// field showing no priority, the flow at the title.
    pub fn start_add_popup(&mut self)
        ensures
            final(self).tasks@ == old(self).tasks@,
            final(self).filtered_tasks@ == old(self).filtered_tasks@,
            final(self).selected == old(self).selected,
            final(self).same_options(*old(self)),
            final(self).input_mode == InputMode::Adding(PopupStep::Title),
            final(self).input_buffer@ == Seq::<char>::empty(),
            final(self).popup_data.title@ == Seq::<char>::empty(),
            final(self).popup_data.priority@ == " "@,
            final(self).popup_data.tags@ == Seq::<char>::empty(),
            final(self).popup_data.dependencies@ == Seq::<char>::empty(),
            final(self).popup_data.date@ == Seq::<char>::empty(),
            final(self).popup_data.time@ == Seq::<char>::empty(),
            final(self).popup_data.description@ == Seq::<char>::empty(),
            old(self).wf() ==> final(self).wf(),
    {
        let sp = String::new();
        let sp = crate::text::push_char(&sp, ' ');
        proof {
            reveal_strlit(" ");
            assert(sp@ =~= " "@);
        }
        self.popup_data = PopupData {
            title: String::new(),
            priority: sp,
            tags: String::new(),
            dependencies: String::new(),
            date: String::new(),
            time: String::new(),
            description: String::new(),
        };
        self.input_buffer = String::new();
        self.input_mode = InputMode::Adding(PopupStep::Title);
    }

    /// Opens the entry form over the selected task, every field seeded from
    /// its current value; does nothing without a selection.  Which local
    /// civil time the due instant shows as is the time zone's to decide.
    pub fn start_edit_popup(&mut self)
        requires
            old(self).wf(),
        ensures
            final(self).wf(),
            final(self).tasks@ == old(self).tasks@,
            final(self).filtered_tasks@ == old(self).filtered_tasks@,
            final(self).selected == old(self).selected,
            final(self).same_options(*old(self)),
            match old(self).selected {
                None => final(self).same_entry(*old(self)),
                Some(i) => {
                    let t = task_views_at(old(self).filtered_tasks@, i as int);
                    &&& final(self).input_mode == InputMode::Editing(
                        old(self).filtered_tasks@[i as int].id,
                        PopupStep::Title,
                    )
                    &&& final(self).popup_data.title@ == t.title
                    &&& final(self).popup_data.priority@ == if t.priority is Unset {
                        " "@
                    } else {
                        t.priority.spec_label()
                    }
                    &&& final(self).popup_data.tags@ == crate::text::spec_join(t.tags, ", "@)
                    &&& final(self).popup_data.dependencies@ == crate::text::spec_join(
                        t.dependencies.map_values(|d: int| crate::text::spec_dec_i64(d)),
                        ", "@,
                    )
                    &&& match t.limit {
                        None => final(self).popup_data.date@ == Seq::<char>::empty() && final(self).popup_data.time@ == Seq::<char>::empty(),
                        Some(_) => (exists|c: crate::calendar::CivilDateTime|
                            c.wf() && final(self).popup_data.date@
                                == crate::render::spec_date_text(c.date, '-') && final(self).popup_data.time@ == crate::render::spec_time_text(c.time)) || (final(self).popup_data.date@ == Seq::<char>::empty() && final(self).popup_data.time@
                            == Seq::<char>::empty()),
                    }
                    &&& final(self).popup_data.description@ == match t.description {
                        Some(d) => d,
                        None => Seq::<char>::empty(),
                    }
                    &&& final(self).input_buffer@ == t.title
                },
            },
    {
        let i = match self.selected {
            Some(i) => i,
            None => {
                return ;
            },
        };
        let task = self.filtered_tasks[i].clone();
        proof {
            assert(task@ == task_views_at(self.filtered_tasks@, i as int));
        }
        let priority_text = if task.priority == Priority::Unset {
            let sp = String::new();
            let sp = crate::text::push_char(&sp, ' ');
            proof {
                reveal_strlit(" ");
                assert(sp@ =~= " "@);
            }
            sp
        } else {
            let l = task.priority.label();
            let mut out = String::new();
            out.append(l);
            out
        };
        let tags_text = crate::text::join_strings(&task.tags, ", ");
        let dep_items = crate::text::i64_strings(&task.dependencies);
        let deps_text = crate::text::join_strings(&dep_items, ", ");
        let (date_text, time_text): (String, String) = match task.limit {
            None => (String::new(), String::new()),
            Some(l) => {
                match crate::calendar::civil_of_instant(l) {
                    Some(u) => {
                        match crate::clock::utc_civil_to_local_parts(u.date, u.time) {
                            Some(p) => {
                                match crate::clock::civil_of_parts(p) {
                                    Some(c) => {
                                        (
                                            crate::render::format_date(c.date, '-'),
                                            crate::render::format_time(c.time),
                                        )
                                    },
                                    None => (String::new(), String::new()),
                                }
                            },
                            None => (String::new(), String::new()),
                        }
                    },
                    None => (String::new(), String::new()),
                }
            },
        };
        let description_text = match &task.description {
            Some(d) => d.clone(),
            None => String::new(),
        };
        self.popup_data = PopupData {
            title: task.title.clone(),
            priority: priority_text,
            tags: tags_text,
            dependencies: deps_text,
            date: date_text,
            time: time_text,
            description: description_text,
        };
        self.input_buffer = task.title;
        self.input_mode = InputMode::Editing(task.id, PopupStep::Title);
    }

    /// Commits the buffer into the active field and advances the flow; past
    /// the last field, hands out the finished form and returns to browsing.
    pub fn next_popup_step(&mut self) -> (r: Option<SaveAction>)
        ensures
            final(self).tasks@ == old(self).tasks@,
            final(self).filtered_tasks@ == old(self).filtered_tasks@,
            final(self).selected == old(self).selected,
            final(self).same_options(*old(self)),
            old(self).wf() ==> final(self).wf(),
            match old(self).input_mode {
                InputMode::Adding(step) => spec_step_rel(*old(self), *final(self), r, step, None),
                InputMode::Editing(id, step) => spec_step_rel(
                    *old(self),
                    *final(self),
                    r,
                    step,
                    Some(id),
                ),
                _ => *final(self) == *old(self) && r is None,
            },
    {
        let (step, editing): (PopupStep, Option<i64>) = match self.input_mode {
            InputMode::Adding(s) => (s, None),
            InputMode::Editing(id, s) => (s, Some(id)),
            _ => {
                return None;
            },
        };
        let buf = self.input_buffer.clone();
        self.popup_data.set_field(step, buf);
        match step.next_step() {
            Some(ns) => {
                self.input_mode = match editing {
                    None => InputMode::Adding(ns),
                    Some(id) => InputMode::Editing(id, ns),
                };
                self.input_buffer = self.popup_data.field(ns);
                None
            },
            None => {
                let action = self.save_popup();
                self.input_mode = InputMode::Normal;
                self.input_buffer = String::new();
                action
            },
        }
    }
}

/// The view of one row of a task list.
pub open spec fn task_views_at(s: Seq<crate::task::Task>, i: int) -> crate::task::TaskV {
    crate::task::task_views(s)[i]
}

} // verus!
