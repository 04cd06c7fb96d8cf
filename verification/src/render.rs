//! Pure text building for the screen: list rows, the detail panel, help
//! lines, form prompts, date and time formatting, and display-width padding.
//! Nothing here mutates state; the terminal itself is drawn outside the
//! library from these strings.

use vstd::prelude::*;

use crate::calendar::{Date, Time};
use crate::task::{spec_has_incomplete_deps, task_views, Priority, Task, TaskV};
use crate::text::{
    chars_of, i64_string, pad_left_chars, push_dec, spec_dec, spec_dec_i64, spec_pad_left,
    string_of_chars,
};

verus! {

/// The display width of the characters, as the terminal will render them.
pub uninterp spec fn display_width(s: Seq<char>) -> nat;

/// Relies on `unicode_width::UnicodeWidthStr::width`: the display width of a
/// string is a function of its characters alone.
#[verifier::external_body]
pub fn str_width(s: &str) -> (w: usize)
    ensures
        w == display_width(s@),
{
    unicode_width::UnicodeWidthStr::width(s)
}

/// The title padded with spaces to a display width, unchanged when already
/// that wide.
pub open spec fn spec_padded_title(s: Seq<char>, w: int) -> Seq<char> {
    if display_width(s) >= w {
        s
    } else {
        s + Seq::new((w - display_width(s)) as nat, |i: int| ' ')
    }
}

/// Pads a title on the right to a display width.
pub fn pad_title(title: &str, width: usize) -> (r: String)
    ensures
        r@ == spec_padded_title(title@, width as int),
{
    let tw = str_width(title);
    let mut out = String::new();
    out.append(title);
    if tw >= width {
        return out;
    }
    let k = width - tw;
    let mut i: usize = 0;
    while i < k
        invariant
            i <= k,
            out@ == title@ + Seq::new(i as nat, |j: int| ' '),
        decreases k - i,
    {
        out.append(" ");
        proof {
            reveal_strlit(" ");
            assert(out@ =~= title@ + Seq::new((i + 1) as nat, |j: int| ' '));
        }
        i = i + 1;
    }
    out
}

/// `YYYY<sep>MM<sep>DD`, zero-padded.
pub open spec fn spec_date_text(d: Date, sep: char) -> Seq<char> {
    spec_pad_left(spec_dec(d.year as int), 4, '0') + seq![sep] + spec_pad_left(
        spec_dec(d.month as int),
        2,
        '0',
    ) + seq![sep] + spec_pad_left(spec_dec(d.day as int), 2, '0')
}

/// Formats a date as `YYYY<sep>MM<sep>DD`.
pub fn format_date(d: Date, sep: char) -> (r: String)
    ensures
        r@ == spec_date_text(d, sep),
{
    let mut y: Vec<char> = Vec::new();
    push_dec(d.year as u64, &mut y);
    let mut mo: Vec<char> = Vec::new();
    push_dec(d.month as u64, &mut mo);
    let mut da: Vec<char> = Vec::new();
    push_dec(d.day as u64, &mut da);
    let mut yp = pad_left_chars(&y, 4, '0');
    let mut mp = pad_left_chars(&mo, 2, '0');
    let mut dp = pad_left_chars(&da, 2, '0');
    let mut out: Vec<char> = Vec::new();
    out.append(&mut yp);
    out.push(sep);
    out.append(&mut mp);
    out.push(sep);
    out.append(&mut dp);
    proof {
        assert(out@ =~= spec_date_text(d, sep));
    }
    string_of_chars(&out)
}

/// `HH:MM`, zero-padded.
pub open spec fn spec_time_text(t: Time) -> Seq<char> {
    spec_pad_left(spec_dec(t.hour as int), 2, '0') + seq![':'] + spec_pad_left(
        spec_dec(t.minute as int),
        2,
        '0',
    )
}

/// Formats a time of day as `HH:MM`.
pub fn format_time(t: Time) -> (r: String)
    ensures
        r@ == spec_time_text(t),
{
    let mut h: Vec<char> = Vec::new();
    push_dec(t.hour as u64, &mut h);
    let mut mi: Vec<char> = Vec::new();
    push_dec(t.minute as u64, &mut mi);
    let mut hp = pad_left_chars(&h, 2, '0');
    let mut mp = pad_left_chars(&mi, 2, '0');
    let mut out: Vec<char> = Vec::new();
    out.append(&mut hp);
    out.push(':');
    out.append(&mut mp);
    proof {
        assert(out@ =~= spec_time_text(t));
    }
    string_of_chars(&out)
}

/// The urgency bands of a due instant against the current instant, as the
/// listing colours them.
#[derive(Clone, Copy, Debug, PartialEq, Eq, Structural)]
pub enum LimitBand {
    Overdue,
    Today,
    ThreeDays,
    Week,
    Later,
}

pub open spec fn spec_limit_band(limit: int, now: int) -> LimitBand {
    if limit < now {
        LimitBand::Overdue
    } else if limit - now < 86400 {
        LimitBand::Today
    } else if limit - now < 259200 {
        LimitBand::ThreeDays
    } else if limit - now < 604800 {
        LimitBand::Week
    } else {
        LimitBand::Later
    }
}

/// Classifies a due instant against the current instant: overdue, within a
/// day, three days, a week, or later.
pub fn limit_band(limit: u64, now: u64) -> (r: LimitBand)
    ensures
        r == spec_limit_band(limit as int, now as int),
{
    if limit < now {
        LimitBand::Overdue
    } else if limit - now < 86400 {
        LimitBand::Today
    } else if limit - now < 259200 {
        LimitBand::ThreeDays
    } else if limit - now < 604800 {
        LimitBand::Week
    } else {
        LimitBand::Later
    }
}

/// One row of the task list: the id right-padded to two columns, the
/// completion mark, the priority symbol, the dependency warning and the
/// title.
pub open spec fn spec_task_line(t: TaskV, warn: bool) -> Seq<char> {
    spec_pad_left(spec_dec_i64(t.id), 2, ' ') + ": "@ + (if t.is_done {
        "[v]"@
    } else {
        "[ ]"@
    }) + " "@ + t.priority.spec_symbol() + " "@ + (if warn {
        "*"@
    } else {
        " "@
    }) + " "@ + t.title
}

/// Builds one row of the task list; the warning star marks unfinished
/// dependencies.
pub fn task_line(t: &Task, all: &Vec<Task>) -> (r: String)
    ensures
        r@ == spec_task_line(t@, spec_has_incomplete_deps(t@, task_views(all@))),
{
    let idtext = i64_string(t.id);
    let idchars = chars_of(idtext.as_str());
    let idpad = pad_left_chars(&idchars, 2, ' ');
    let mut out = string_of_chars(&idpad);
    out.append(": ");
    if t.is_done {
        out.append("[v]");
    } else {
        out.append("[ ]");
    }
    out.append(" ");
    out.append(t.priority.to_symbol());
    out.append(" ");
    if crate::task::has_incomplete_dependencies(t, all) {
        out.append("*");
    } else {
        out.append(" ");
    }
    out.append(" ");
    out.append(t.title.as_str());
    proof {
        assert(out@ =~= spec_task_line(t@, spec_has_incomplete_deps(t@, task_views(all@))));
    }
    out
}

/// The help line of each mode.
pub fn help_text(mode: &crate::input::InputMode) -> (r: &'static str)
    ensures
        mode is Normal ==> r@
            == "j/k: Nav | Space: Toggle | h: Hide/Show Done | a: Add | e: Edit | r: Del | s: Suggest | o: Sort | f/p: Filter | q: Quit"@,
        (mode is Adding || mode is Editing) ==> r@
            == "Enter: Next/Save | Esc: Cancel | Backspace: Delete"@,
        mode is Deleting ==> r@ == "Enter: Confirm Delete | Esc/n: Cancel"@,
        mode is FilteringTag ==> r@ == "Enter: Set Tag Filter | Esc: Cancel"@,
        mode is FilteringPriority ==> r@ == "l/m/h: Filter | Space/n: None | Esc: Cancel"@,
{
    match mode {
        crate::input::InputMode::Normal => "j/k: Nav | Space: Toggle | h: Hide/Show Done | a: Add | e: Edit | r: Del | s: Suggest | o: Sort | f/p: Filter | q: Quit",
        crate::input::InputMode::Adding(_) | crate::input::InputMode::Editing(_, _) => "Enter: Next/Save | Esc: Cancel | Backspace: Delete",
        crate::input::InputMode::Deleting(_) => "Enter: Confirm Delete | Esc/n: Cancel",
        crate::input::InputMode::FilteringTag => "Enter: Set Tag Filter | Esc: Cancel",
        crate::input::InputMode::FilteringPriority => "l/m/h: Filter | Space/n: None | Esc: Cancel",
    }
}

/// The prompt and the hint shown for each entry field.
pub fn popup_prompt(step: crate::entry::PopupStep) -> (r: (&'static str, &'static str))
    ensures
        step is Title ==> r.0@ == "Title:"@ && r.1@ == "(Required)"@,
        step is Priority ==> r.0@ == "Priority:"@ && r.1@ == "High, Medium, Low, None"@,
        step is Tags ==> r.0@ == "Tags:"@ && r.1@ == "comma, separated, tags"@,
        step is Dependencies ==> r.0@ == "Dep IDs:"@ && r.1@ == "comma, separated, numbers"@,
        step is Date ==> r.0@ == "Date:"@ && r.1@ == "YYYY-MM-DD or t, tm, 2d, 1w..."@,
        step is Time ==> r.0@ == "Time:"@ && r.1@ == "HH:MM or last, noon, 1h..."@,
        step is Description ==> r.0@ == "Description:"@ && r.1@ == "(Optional)"@,
{
    match step {
        crate::entry::PopupStep::Title => ("Title:", "(Required)"),
        crate::entry::PopupStep::Priority => ("Priority:", "High, Medium, Low, None"),
        crate::entry::PopupStep::Tags => ("Tags:", "comma, separated, tags"),
        crate::entry::PopupStep::Dependencies => ("Dep IDs:", "comma, separated, numbers"),
        crate::entry::PopupStep::Date => ("Date:", "YYYY-MM-DD or t, tm, 2d, 1w..."),
        crate::entry::PopupStep::Time => ("Time:", "HH:MM or last, noon, 1h..."),
        crate::entry::PopupStep::Description => ("Description:", "(Optional)"),
    }
}

/// The lines of the detail panel for one task, given the text shown for its
/// due instant and whether a dependency warning applies.
pub open spec fn spec_detail_lines(t: TaskV, warn: bool, limit_text: Seq<char>) -> Seq<Seq<char>> {
    let base = seq![
        "Title: "@ + t.title,
        "Priority: "@ + t.priority.spec_name(),
        "Tags: "@ + crate::text::spec_join(t.tags, ", "@),
        "Done: "@ + (if t.is_done {
            "Yes"@
        } else {
            "No"@
        }),
        "Limit: "@ + limit_text,
    ];
    let with_deps = if t.dependencies.len() > 0 {
        let listed = base.push(
            "Dependencies: ["@ + crate::text::spec_join(
                t.dependencies.map_values(|d: int| spec_dec_i64(d)),
                ", "@,
            ) + "]"@,
        );
        if warn {
            listed.push("!! Pending dependencies exist !!"@)
        } else {
            listed
        }
    } else {
        base
    };
    match t.description {
        Some(d) => with_deps.push(Seq::empty()).push("Description:"@).push(d),
        None => with_deps,
    }
}

/// Builds the detail panel of a task.  The due instant is shown on the local
/// clock, so only its shape is pinned; every other line is exact.
pub fn detail_lines(t: &Task, all: &Vec<Task>) -> (r: Vec<String>)
    ensures
        exists|limit_text: Seq<char>|
            {
                &&& r@.map_values(|s: String| s@) == #[trigger] spec_detail_lines(
                    t@,
                    spec_has_incomplete_deps(t@, task_views(all@)),
                    limit_text,
                )
                &&& (t@.limit is None ==> limit_text == "None"@)
                &&& (t@.limit is Some ==> limit_text == "None"@ || exists|
                    c: crate::calendar::CivilDateTime,
                |
                    c.wf() && limit_text == spec_date_text(c.date, '-') + " "@ + spec_time_text(
                        c.time,
                    ))
            },
{
    let limit_line: String = match t.limit {
        None => {
            let mut s = String::new();
            s.append("None");
            s
        },
        Some(l) => {
            let local = match crate::calendar::civil_of_instant(l) {
                Some(u) => match crate::clock::utc_civil_to_local_parts(u.date, u.time) {
                    Some(p) => crate::clock::civil_of_parts(p),
                    None => None,
                },
                None => None,
            };
            match local {
                Some(c) => {
                    let mut s = format_date(c.date, '-');
                    s.append(" ");
                    let tt = format_time(c.time);
                    s.append(tt.as_str());
                    s
                },
                None => {
                    let mut s = String::new();
                    s.append("None");
                    s
                },
            }
        },
    };
    let ghost limit_text = limit_line@;
    let mut r: Vec<String> = Vec::new();
    let mut line = String::new();
    line.append("Title: ");
    line.append(t.title.as_str());
    r.push(line);
    let mut line = String::new();
    line.append("Priority: ");
    line.append(t.priority.name());
    r.push(line);
    let mut line = String::new();
    line.append("Tags: ");
    let tags_joined = crate::text::join_strings(&t.tags, ", ");
    line.append(tags_joined.as_str());
    r.push(line);
    let mut line = String::new();
    line.append("Done: ");
    if t.is_done {
        line.append("Yes");
    } else {
        line.append("No");
    }
    r.push(line);
    let mut line = String::new();
    line.append("Limit: ");
    line.append(limit_line.as_str());
    r.push(line);
    if t.dependencies.len() > 0 {
        let mut line = String::new();
        line.append("Dependencies: [");
        let items = crate::text::i64_strings(&t.dependencies);
        let joined = crate::text::join_strings(&items, ", ");
        line.append(joined.as_str());
        line.append("]");
        r.push(line);
        if crate::task::has_incomplete_dependencies(t, all) {
            let mut line = String::new();
            line.append("!! Pending dependencies exist !!");
            r.push(line);
        }
    }
    match &t.description {
        Some(d) => {
            r.push(String::new());
            let mut line = String::new();
            line.append("Description:");
            r.push(line);
            r.push(d.clone());
        },
        None => {},
    }
    proof {
        let ghost warn = spec_has_incomplete_deps(t@, task_views(all@));
        assert(r@.map_values(|s: String| s@) =~= spec_detail_lines(t@, warn, limit_text));
    }
    r
}

/// The id written before the first colon of a selection row, as shown by
/// the pickers.
pub open spec fn spec_selection_id(s: Seq<char>) -> Option<i64> {
    crate::text::spec_parse_i64(crate::text::spec_split(s, ':')[0])
}

/// Reads the id back out of a selection row.
pub fn parse_selection_id(s: &str) -> (r: Option<i64>)
    ensures
        r == spec_selection_id(s@),
{
    let v = chars_of(s);
    let ps = crate::text::split_chars(&v, ':');
    proof {
        assert(ps@.map_values(|p: Vec<char>| p@) == crate::text::spec_split(s@, ':'));
        assert(crate::text::spec_split(s@, ':').len() > 0) by {
            crate::text::lemma_find_char(s@, ':');
        }
        assert(ps@[0]@ == crate::text::spec_split(s@, ':')[0]);
    }
    crate::text::parse_i64(&ps[0])
}

} // verus!
