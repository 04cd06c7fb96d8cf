//! The task view model: the filtered, sorted projection of the cache, the
//! cursor that tracks a task across recomputations, navigation, completion
//! toggling and the suggestion scorer.

use vstd::multiset::Multiset;
use vstd::prelude::*;

use crate::entry::PopupData;
use crate::input::InputMode;
use crate::task::{task_views, Priority, Task, TaskV};
use crate::text::{chars_of, contains_ci, spec_contains_seq, spec_lower_seq};

verus! {

/// The order of the projection.
#[derive(Clone, Copy, Debug, PartialEq, Eq, Structural)]
pub enum SortOrder {
    /// Unfinished first, dated before undated, earlier due first.
    Limit,
    /// Unfinished first, higher priority first.
    Priority,
    /// Unfinished first, lower id first.
    Id,
}

/// Whether a task passes the tag filter: no filter, or some tag contains the
/// filter text, case-insensitively.
pub open spec fn spec_tag_visible(t: TaskV, f: Option<Seq<char>>) -> bool {
    match f {
        None => true,
        Some(f) => exists|i: int|
            0 <= i < t.tags.len() && spec_contains_seq(
                spec_lower_seq(#[trigger] t.tags[i]),
                spec_lower_seq(f),
            ),
    }
}

/// Whether a task is visible under the current filters.
pub open spec fn spec_visible(
    t: TaskV,
    show_done: bool,
    tag: Option<Seq<char>>,
    prio: Option<Priority>,
) -> bool {
    &&& (show_done || !t.is_done)
    &&& spec_tag_visible(t, tag)
    &&& match prio {
        None => true,
        Some(p) => t.priority == p,
    }
}

/// The visible tasks, in cache order.
pub open spec fn spec_visible_seq(
    s: Seq<TaskV>,
    show_done: bool,
    tag: Option<Seq<char>>,
    prio: Option<Priority>,
) -> Seq<TaskV>
    decreases s.len(),
{
    if s.len() == 0 {
        s
    } else {
        let rest = spec_visible_seq(s.drop_last(), show_done, tag, prio);
        if spec_visible(s.last(), show_done, tag, prio) {
            rest.push(s.last())
        } else {
            rest
        }
    }
}

/// The sort key order: within each mode, unfinished tasks come first.
pub open spec fn spec_le(o: SortOrder, a: TaskV, b: TaskV) -> bool {
    if a.is_done != b.is_done {
        !a.is_done
    } else {
        match o {
            SortOrder::Limit => match (a.limit, b.limit) {
                (Option::None, Option::None) => true,
                (Option::None, Option::Some(_)) => false,
                (Option::Some(_), Option::None) => true,
                (Option::Some(x), Option::Some(y)) => x <= y,
            },
            SortOrder::Priority => a.priority.spec_int() >= b.priority.spec_int(),
            SortOrder::Id => a.id <= b.id,
        }
    }
}

/// The order is total and transitive.
pub proof fn lemma_le_total(o: SortOrder, a: TaskV, b: TaskV)
    ensures
        spec_le(o, a, b) || spec_le(o, b, a),
{
}

pub proof fn lemma_le_trans(o: SortOrder, a: TaskV, b: TaskV, c: TaskV)
    requires
        spec_le(o, a, b),
        spec_le(o, b, c),
    ensures
        spec_le(o, a, c),
{
}

/// `x` inserted into `s` after every element not greater than it, so equal
/// elements keep their first-come order.
pub open spec fn spec_insert_sorted(o: SortOrder, x: TaskV, s: Seq<TaskV>) -> Seq<TaskV>
    decreases s.len(),
{
    if s.len() == 0 {
        seq![x]
    } else if spec_le(o, s[0], x) {
        seq![s[0]] + spec_insert_sorted(o, x, s.drop_first())
    } else {
        seq![x] + s
    }
}

/// Stable insertion sort of the visible tasks.
pub open spec fn spec_sort(o: SortOrder, s: Seq<TaskV>) -> Seq<TaskV>
    decreases s.len(),
{
    if s.len() == 0 {
        s
    } else {
        spec_insert_sorted(o, s.last(), spec_sort(o, s.drop_last()))
    }
}

/// The projection: filter in cache order, then sort stably.
pub open spec fn spec_projection(
    s: Seq<TaskV>,
    show_done: bool,
    tag: Option<Seq<char>>,
    prio: Option<Priority>,
    o: SortOrder,
) -> Seq<TaskV> {
    spec_sort(o, spec_visible_seq(s, show_done, tag, prio))
}

/// A sequence ordered by the sort keys.
pub open spec fn spec_sorted_run(o: SortOrder, s: Seq<TaskV>) -> bool {
    forall|i: int, j: int| 0 <= i < j < s.len() ==> spec_le(o, #[trigger] s[i], #[trigger] s[j])
}

/// Stable insertion keeps the sequence ordered, adds exactly the new task,
/// and keeps every common lower bound.
pub proof fn lemma_insert_sorted_props(o: SortOrder, x: TaskV, s: Seq<TaskV>)
    requires
        spec_sorted_run(o, s),
    ensures
        spec_sorted_run(o, spec_insert_sorted(o, x, s)),
        spec_insert_sorted(o, x, s).to_multiset() == s.to_multiset().insert(x),
        forall|b: TaskV|
            spec_le(o, b, x) && (forall|k: int| 0 <= k < s.len() ==> spec_le(o, b, #[trigger] s[k]))
                ==> (forall|k: int|
                0 <= k < spec_insert_sorted(o, x, s).len() ==> spec_le(
                    o,
                    b,
                    #[trigger] spec_insert_sorted(o, x, s)[k],
                )),
    decreases s.len(),
{
    broadcast use vstd::seq_lib::group_to_multiset_ensures;

    let r = spec_insert_sorted(o, x, s);
    if s.len() == 0 {
        assert(r =~= Seq::empty().push(x));
        assert(Seq::<TaskV>::empty().to_multiset() =~= Multiset::empty());
        assert(r.to_multiset() =~= s.to_multiset().insert(x));
    } else if spec_le(o, s[0], x) {
        let rest = s.drop_first();
        assert(spec_sorted_run(o, rest)) by {
            assert(forall|i: int, j: int|
                0 <= i < j < rest.len() ==> rest[i] == s[i + 1] && rest[j] == s[j + 1]);
        }
        lemma_insert_sorted_props(o, x, rest);
        let r2 = spec_insert_sorted(o, x, rest);
        assert(r =~= seq![s[0]] + r2);
        // the head is a lower bound of everything inserted after it
        assert(forall|k: int| 0 <= k < rest.len() ==> spec_le(o, s[0], #[trigger] rest[k])) by {
            assert(forall|k: int| 0 <= k < rest.len() ==> rest[k] == s[k + 1]);
        }
        assert(forall|k: int| 0 <= k < r2.len() ==> spec_le(o, s[0], #[trigger] r2[k]));
        assert(spec_sorted_run(o, r)) by {
            assert(forall|i: int, j: int|
                1 <= i < j < r.len() ==> r[i] == r2[i - 1] && r[j] == r2[j - 1]);
        }
        assert(r.to_multiset() == s.to_multiset().insert(x)) by {
            assert(r =~= r2.insert(0, s[0]));
            assert(s =~= rest.insert(0, s[0]));
            lemma_insert_front_to_multiset(s[0], r2);
            lemma_insert_front_to_multiset(s[0], rest);
            assert(r.to_multiset() =~= rest.to_multiset().insert(x).insert(s[0]));
            assert(s.to_multiset().insert(x) =~= rest.to_multiset().insert(s[0]).insert(x));
        }
        assert forall|b: TaskV|
            spec_le(o, b, x) && (forall|k: int|
                0 <= k < s.len() ==> spec_le(o, b, #[trigger] s[k])) implies (forall|k: int|
            0 <= k < r.len() ==> spec_le(o, b, #[trigger] r[k])) by {
            assert(forall|k: int| 0 <= k < rest.len() ==> spec_le(o, b, #[trigger] rest[k])) by {
                assert(forall|k: int| 0 <= k < rest.len() ==> rest[k] == s[k + 1]);
            }
            assert(forall|k: int| 0 <= k < r2.len() ==> spec_le(o, b, #[trigger] r2[k]));
            assert(forall|k: int| 1 <= k < r.len() ==> r[k] == r2[k - 1]);
            assert(spec_le(o, b, r[0]));
        }
    } else {
        assert(r =~= seq![x] + s);
        lemma_le_total(o, s[0], x);
        assert(spec_le(o, x, s[0]));
        assert(forall|k: int| 0 <= k < s.len() ==> spec_le(o, x, #[trigger] s[k])) by {
            assert forall|k: int| 0 <= k < s.len() implies spec_le(o, x, #[trigger] s[k]) by {
                if k > 0 {
                    lemma_le_trans(o, x, s[0], s[k]);
                }
            }
        }
        assert(spec_sorted_run(o, r)) by {
            assert(forall|i: int, j: int|
                1 <= i < j < r.len() ==> r[i] == s[i - 1] && r[j] == s[j - 1]);
        }
        assert(r.to_multiset() == s.to_multiset().insert(x)) by {
            assert(r =~= s.insert(0, x));
            lemma_insert_front_to_multiset(x, s);
        }
    }
}

/// Putting an element in front adds it to the multiset.
proof fn lemma_insert_front_to_multiset(x: TaskV, s: Seq<TaskV>)
    ensures
        s.insert(0, x).to_multiset() == s.to_multiset().insert(x),
    decreases s.len(),
{
    broadcast use vstd::seq_lib::group_to_multiset_ensures;

    let r = s.insert(0, x);
    if s.len() == 0 {
        assert(r =~= Seq::empty().push(x));
        assert(Seq::<TaskV>::empty().to_multiset() =~= Multiset::empty());
        assert(r.to_multiset() =~= s.to_multiset().insert(x));
    } else {
        let s0 = s.drop_last();
        lemma_insert_front_to_multiset(x, s0);
        assert(r =~= s0.insert(0, x).push(s.last()));
        assert(s =~= s0.push(s.last()));
        assert(r.to_multiset() =~= s0.to_multiset().insert(x).insert(s.last()));
        assert(s.to_multiset().insert(x) =~= s0.to_multiset().insert(s.last()).insert(x));
    }
}

/// The sort law: the projection's order really sorts its rows, and sorting
/// neither adds, drops nor duplicates a task.
pub proof fn lemma_sort_props(o: SortOrder, s: Seq<TaskV>)
    ensures
        spec_sorted_run(o, spec_sort(o, s)),
        spec_sort(o, s).to_multiset() == s.to_multiset(),
    decreases s.len(),
{
    broadcast use vstd::seq_lib::group_to_multiset_ensures;

    if s.len() > 0 {
        let dl = s.drop_last();
        lemma_sort_props(o, dl);
        lemma_insert_sorted_props(o, s.last(), spec_sort(o, dl));
        assert(s =~= dl.push(s.last()));
    }
}

/// The projection is ordered by the active sort keys and holds exactly the
/// visible tasks, none dropped and none duplicated.
pub proof fn lemma_projection_props(
    s: Seq<TaskV>,
    show_done: bool,
    tag: Option<Seq<char>>,
    prio: Option<Priority>,
    o: SortOrder,
)
    ensures
        spec_sorted_run(o, spec_projection(s, show_done, tag, prio, o)),
        spec_projection(s, show_done, tag, prio, o).to_multiset() == spec_visible_seq(
            s,
            show_done,
            tag,
            prio,
        ).to_multiset(),
{
    lemma_sort_props(o, spec_visible_seq(s, show_done, tag, prio));
}

/// Inserting at the first position whose element is greater yields the
/// stable insertion.
proof fn lemma_insert_at(o: SortOrder, x: TaskV, s: Seq<TaskV>, i: int)
    requires
        0 <= i <= s.len(),
        forall|j: int| 0 <= j < i ==> spec_le(o, #[trigger] s[j], x),
        i < s.len() ==> !spec_le(o, s[i], x),
    ensures
        spec_insert_sorted(o, x, s) == s.subrange(0, i) + seq![x] + s.subrange(i, s.len() as int),
    decreases i,
{
    if s.len() == 0 {
        assert(spec_insert_sorted(o, x, s) =~= s.subrange(0, 0) + seq![x] + s.subrange(0, 0));
    } else if i == 0 {
        assert(spec_insert_sorted(o, x, s) =~= s.subrange(0, 0) + seq![x] + s.subrange(
            0,
            s.len() as int,
        ));
    } else {
        let t = s.drop_first();
        assert(spec_le(o, s[0], x));
        assert(forall|j: int| 0 <= j < i - 1 ==> spec_le(o, #[trigger] t[j], x)) by {
            assert(forall|j: int| 0 <= j < i - 1 ==> t[j] == s[j + 1]);
        }
        lemma_insert_at(o, x, t, i - 1);
        assert(seq![s[0]] + (t.subrange(0, i - 1) + seq![x] + t.subrange(i - 1, t.len() as int))
            =~= s.subrange(0, i) + seq![x] + s.subrange(i, s.len() as int));
    }
}

/// The exec comparison mirroring `spec_le`.
fn le_tasks(o: SortOrder, a: &Task, b: &Task) -> (r: bool)
    ensures
        r == spec_le(o, a@, b@),
{
    if a.is_done != b.is_done {
        !a.is_done
    } else {
        match o {
            SortOrder::Limit => match (a.limit, b.limit) {
                (Option::None, Option::None) => true,
                (Option::None, Option::Some(_)) => false,
                (Option::Some(_), Option::None) => true,
                (Option::Some(x), Option::Some(y)) => x <= y,
            },
            SortOrder::Priority => a.priority.to_int() >= b.priority.to_int(),
            SortOrder::Id => a.id <= b.id,
        }
    }
}

/// Inserts a task into an already sorted vector, keeping equal tasks in
/// arrival order.
fn insert_sorted(o: SortOrder, v: &mut Vec<Task>, x: Task)
    ensures
        task_views(final(v)@) == spec_insert_sorted(o, x@, task_views(old(v)@)),
{
    let ghost s = task_views(old(v)@);
    let n = v.len();
    let mut i: usize = 0;
    while i < n && le_tasks(o, &v[i], &x)
        invariant
            v == old(v),
            n == v@.len(),
            s == task_views(v@),
            i <= n,
            forall|j: int| 0 <= j < i ==> spec_le(o, #[trigger] s[j], x@),
        decreases n - i,
    {
        i = i + 1;
    }
    proof {
        lemma_insert_at(o, x@, s, i as int);
    }
    v.insert(i, x);
    proof {
        assert(task_views(v@) =~= s.subrange(0, i as int) + seq![x@] + s.subrange(
            i as int,
            s.len() as int,
        ));
    }
}

/// Whether a task passes the current filters.
fn is_visible(
    t: &Task,
    show_done: bool,
    tag: &Option<String>,
    prio: &Option<Priority>,
) -> (r: bool)
    ensures
        r == spec_visible(t@, show_done, view_of_tag(*tag), *prio),
{
    if !show_done && t.is_done {
        return false;
    }
    match prio {
        Some(p) => {
            if t.priority != *p {
                return false;
            }
        },
        None => {},
    }
    match tag {
        None => true,
        Some(f) => {
            let fv = chars_of(f.as_str());
            let mut i: usize = 0;
            while i < t.tags.len()
                invariant
                    fv@ == f@,
                    view_of_tag(*tag) == Some(f@),
                    show_done || !t@.is_done,
                    match *prio {
                        Some(p) => t@.priority == p,
                        None => true,
                    },
                    i <= t.tags@.len(),
                    forall|j: int|
                        0 <= j < i ==> !spec_contains_seq(
                            spec_lower_seq(#[trigger] t@.tags[j]),
                            spec_lower_seq(f@),
                        ),
                decreases t.tags@.len() - i,
            {
                let tv = chars_of(t.tags[i].as_str());
                if contains_ci(&tv, &fv) {
                    proof {
                        assert(t@.tags[i as int] == t.tags@[i as int]@);
                        assert(spec_tag_visible(t@, Some(f@))) by {
                            assert(0 <= i < t@.tags.len() && spec_contains_seq(
                                spec_lower_seq(t@.tags[i as int]),
                                spec_lower_seq(f@),
                            ));
                        }
                    }
                    return true;
                }
                proof {
                    assert(t@.tags[i as int] == t.tags@[i as int]@);
                }
                i = i + 1;
            }
            proof {
                assert(!spec_tag_visible(t@, Some(f@)));
            }
            false
        },
    }
}

/// The view of an optional tag filter.
pub open spec fn view_of_tag(t: Option<String>) -> Option<Seq<char>> {
    match t {
        Some(s) => Some(s@),
        None => None,
    }
}

/// Computes the projection of a cache under the given filters and order.
pub fn compute_projection(
    tasks: &Vec<Task>,
    show_done: bool,
    tag: &Option<String>,
    prio: &Option<Priority>,
    o: SortOrder,
) -> (r: Vec<Task>)
    ensures
        task_views(r@) == spec_projection(
            task_views(tasks@),
            show_done,
            view_of_tag(*tag),
            *prio,
            o,
        ),
{
    let ghost all = task_views(tasks@);
    let ghost tagv = view_of_tag(*tag);
    let mut r: Vec<Task> = Vec::new();
    let mut i: usize = 0;
    proof {
        assert(all.subrange(0, 0) =~= Seq::<TaskV>::empty());
        assert(task_views(r@) =~= Seq::<TaskV>::empty());
    }
    while i < tasks.len()
        invariant
            all == task_views(tasks@),
            tagv == view_of_tag(*tag),
            i <= tasks@.len(),
            task_views(r@) == spec_sort(
                o,
                spec_visible_seq(all.subrange(0, i as int), show_done, tagv, *prio),
            ),
        decreases tasks@.len() - i,
    {
        proof {
            let pre = all.subrange(0, i as int);
            let cur = all.subrange(0, i + 1);
            assert(cur.drop_last() =~= pre);
            assert(cur.last() == all[i as int]);
            assert(all[i as int] == tasks@[i as int]@);
        }
        if is_visible(&tasks[i], show_done, tag, prio) {
            let ghost vis = spec_visible_seq(all.subrange(0, i as int), show_done, tagv, *prio);
            proof {
                let vis2 = spec_visible_seq(all.subrange(0, i + 1), show_done, tagv, *prio);
                assert(vis2 == vis.push(all[i as int]));
                assert(vis2.drop_last() =~= vis);
                assert(vis2.last() == all[i as int]);
            }
            insert_sorted(o, &mut r, tasks[i].clone());
        }
        i = i + 1;
    }
    proof {
        assert(all.subrange(0, all.len() as int) =~= all);
    }
    r
}

/// Position of the first task with this id.
pub open spec fn spec_find_id(s: Seq<TaskV>, id: int) -> Option<int>
    decreases s.len(),
{
    if s.len() == 0 {
        None
    } else if s[0].id == id {
        Some(0)
    } else {
        match spec_find_id(s.drop_first(), id) {
            Some(i) => Some(i + 1),
            None => None,
        }
    }
}

pub proof fn lemma_find_id(s: Seq<TaskV>, id: int)
    ensures
        match spec_find_id(s, id) {
            Some(i) => 0 <= i < s.len() && s[i].id == id && forall|j: int|
                0 <= j < i ==> (#[trigger] s[j]).id != id,
            None => forall|j: int| 0 <= j < s.len() ==> (#[trigger] s[j]).id != id,
        },
    decreases s.len(),
{
    if s.len() > 0 && s[0].id != id {
        let t = s.drop_first();
        lemma_find_id(t, id);
        match spec_find_id(t, id) {
            Some(i) => {
                assert(s[i + 1] == t[i]);
                assert forall|j: int| 0 <= j < i + 1 implies (#[trigger] s[j]).id != id by {
                    if j > 0 {
                        assert(t[j - 1].id != id);
                    }
                }
            },
            None => {
                assert forall|j: int| 0 <= j < s.len() implies (#[trigger] s[j]).id != id by {
                    if j > 0 {
                        assert(t[j - 1].id != id);
                    }
                }
            },
        }
    }
}

/// Finds the first task with this id.
fn find_id_position(v: &Vec<Task>, id: i64) -> (r: Option<usize>)
    ensures
        match r {
            Some(p) => p < v@.len() && spec_find_id(task_views(v@), id as int) == Some(p as int),
            None => spec_find_id(task_views(v@), id as int) is None,
        },
{
    let ghost s = task_views(v@);
    let mut j: usize = 0;
    while j < v.len()
        invariant
            s == task_views(v@),
            j <= v@.len(),
            forall|k: int| 0 <= k < j ==> (#[trigger] s[k]).id != id,
        decreases v@.len() - j,
    {
        if v[j].id == id {
            proof {
                lemma_find_id(s, id as int);
                assert(s[j as int].id == id);
                match spec_find_id(s, id as int) {
                    Some(i) => {
                        if i < j {
                            assert(s[i].id != id);
                            assert(false);
                        }
                        if i > j {
                            assert(s[j as int].id != id);
                            assert(false);
                        }
                    },
                    None => {
                        assert(s[j as int].id != id);
                        assert(false);
                    },
                }
            }
            return Some(j);
        }
        j = j + 1;
    }
    proof {
        lemma_find_id(s, id as int);
        match spec_find_id(s, id as int) {
            Some(i) => {
                assert(s[i].id != id);
                assert(false);
            },
            None => {},
        }
    }
    None
}

/// Where the cursor lands after the projection changes: follow the selected
/// task's id, else clamp the old index, else the first row, else nowhere.
pub open spec fn spec_cursor_after(
    old_sel: Option<int>,
    oldf: Seq<TaskV>,
    newf: Seq<TaskV>,
) -> Option<int> {
    match old_sel {
        Some(i) => {
            let id = oldf[i].id;
            match spec_find_id(newf, id) {
                Some(j) => Some(j),
                None => if newf.len() == 0 {
                    None
                } else if i < newf.len() {
                    Some(i)
                } else {
                    Some(newf.len() - 1)
                },
            }
        },
        None => if newf.len() == 0 {
            None
        } else {
            Some(0int)
        },
    }
}

/// The interactive screen's whole state: the cached tasks, their projection,
/// the cursor, the active mode and the entry form.
pub struct App {
    pub tasks: Vec<Task>,
    pub filtered_tasks: Vec<Task>,
    pub selected: Option<usize>,
    pub input_mode: InputMode,
    pub input_buffer: String,
    pub popup_data: PopupData,
    pub show_done: bool,
    pub tag_filter: Option<String>,
    pub priority_filter: Option<Priority>,
    pub sort_order: SortOrder,
}

impl App {
    /// The projection the current cache and options denote.
    pub open spec fn spec_proj(self) -> Seq<TaskV> {
        spec_projection(
            task_views(self.tasks@),
            self.show_done,
            view_of_tag(self.tag_filter),
            self.priority_filter,
            self.sort_order,
        )
    }

    /// The cursor as a mathematical value.
    pub open spec fn sel_view(self) -> Option<int> {
        match self.selected {
            Some(i) => Some(i as int),
            None => None,
        }
    }

    /// The cursor points inside the current projection.
    pub open spec fn cursor_ok(self) -> bool {
        match self.selected {
            Some(i) => i < self.filtered_tasks@.len(),
            None => true,
        }
    }

    /// Well-formed: the stored projection is the one the options denote, and
    /// the cursor points at a row exactly when there is one.
    pub open spec fn wf(self) -> bool {
        &&& task_views(self.filtered_tasks@) == self.spec_proj()
        &&& match self.selected {
            Some(i) => i < self.filtered_tasks@.len(),
            None => self.filtered_tasks@.len() == 0,
        }
    }

    /// The display options and the entry state, side by side.
    pub open spec fn same_options(self, o: App) -> bool {
        &&& self.show_done == o.show_done
        &&& self.tag_filter == o.tag_filter
        &&& self.priority_filter == o.priority_filter
        &&& self.sort_order == o.sort_order
    }

    pub open spec fn same_entry(self, o: App) -> bool {
        &&& self.input_mode == o.input_mode
        &&& self.input_buffer == o.input_buffer
        &&& self.popup_data == o.popup_data
    }

    /// Recomputes the projection and relocates the cursor: by the selected
    /// task's id first, then by clamping, then to the first row.
    pub fn update_filtered_tasks(&mut self)
        requires
            old(self).cursor_ok(),
        ensures
            final(self).tasks@ == old(self).tasks@,
            final(self).same_options(*old(self)),
            final(self).same_entry(*old(self)),
            task_views(final(self).filtered_tasks@) == old(self).spec_proj(),
            final(self).sel_view() == spec_cursor_after(
                old(self).sel_view(),
                task_views(old(self).filtered_tasks@),
                old(self).spec_proj(),
            ),
            final(self).wf(),
    {
        let new_filtered = compute_projection(
            &self.tasks,
            self.show_done,
            &self.tag_filter,
            &self.priority_filter,
            self.sort_order,
        );
        let new_sel: Option<usize> = match self.selected {
            Some(i) => {
                let id = self.filtered_tasks[i].id;
                proof {
                    assert(task_views(self.filtered_tasks@)[i as int].id == id);
                }
                match find_id_position(&new_filtered, id) {
                    Some(j) => Some(j),
                    None => {
                        if new_filtered.len() == 0 {
                            None
                        } else if i < new_filtered.len() {
                            Some(i)
                        } else {
                            Some(new_filtered.len() - 1)
                        }
                    },
                }
            },
            None => {
                if new_filtered.len() == 0 {
                    None
                } else {
                    Some(0)
                }
            },
        };
        self.filtered_tasks = new_filtered;
        self.selected = new_sel;
    }

    /// A fresh screen over a cache: nothing hidden, no filters, sorted by
    /// due instant, cursor on the first row.
    pub fn new(tasks: Vec<Task>) -> (r: App)
        ensures
            r.tasks@ == tasks@,
            r.input_mode is Normal,
            r.input_buffer@ == Seq::<char>::empty(),
            r.show_done == false,
            r.tag_filter is None,
            r.priority_filter is None,
            r.sort_order == SortOrder::Limit,
            r.sel_view() == if r.filtered_tasks@.len() == 0 {
                Option::<int>::None
            } else {
                Some(0int)
            },
            r.wf(),
    {
        let mut app = App {
            tasks,
            filtered_tasks: Vec::new(),
            selected: None,
            input_mode: InputMode::Normal,
            input_buffer: String::new(),
            popup_data: PopupData::default(),
            show_done: false,
            tag_filter: None,
            priority_filter: None,
            sort_order: SortOrder::Limit,
        };
        app.update_filtered_tasks();
        app
    }

    /// Replaces the cache with a fresh load and recomputes everything.
    pub fn refresh_tasks(&mut self, tasks: Vec<Task>)
        requires
            old(self).cursor_ok(),
        ensures
            final(self).tasks@ == tasks@,
            final(self).same_options(*old(self)),
            final(self).same_entry(*old(self)),
            final(self).sel_view() == spec_cursor_after(
                old(self).sel_view(),
                task_views(old(self).filtered_tasks@),
                final(self).spec_proj(),
            ),
            final(self).wf(),
    {
        self.tasks = tasks;
        self.update_filtered_tasks();
    }

    /// Shows or hides completed tasks.
    pub fn toggle_done_visibility(&mut self)
        requires
            old(self).wf(),
        ensures
            final(self).tasks@ == old(self).tasks@,
            final(self).show_done == !old(self).show_done,
            final(self).tag_filter == old(self).tag_filter,
            final(self).priority_filter == old(self).priority_filter,
            final(self).sort_order == old(self).sort_order,
            final(self).same_entry(*old(self)),
            final(self).sel_view() == spec_cursor_after(
                old(self).sel_view(),
                task_views(old(self).filtered_tasks@),
                final(self).spec_proj(),
            ),
            final(self).wf(),
    {
        self.show_done = !self.show_done;
        self.update_filtered_tasks();
    }

    /// Sets both filters at once and recomputes.
    pub fn set_filter(&mut self, tag: Option<String>, priority: Option<Priority>)
        requires
            old(self).wf(),
        ensures
            final(self).tasks@ == old(self).tasks@,
            final(self).show_done == old(self).show_done,
            final(self).tag_filter == tag,
            final(self).priority_filter == priority,
            final(self).sort_order == old(self).sort_order,
            final(self).same_entry(*old(self)),
            final(self).sel_view() == spec_cursor_after(
                old(self).sel_view(),
                task_views(old(self).filtered_tasks@),
                final(self).spec_proj(),
            ),
            final(self).wf(),
    {
        self.tag_filter = tag;
        self.priority_filter = priority;
        self.update_filtered_tasks();
    }

    /// Sets the sort mode and recomputes.
    pub fn set_sort(&mut self, order: SortOrder)
        requires
            old(self).wf(),
        ensures
            final(self).tasks@ == old(self).tasks@,
            final(self).show_done == old(self).show_done,
            final(self).tag_filter == old(self).tag_filter,
            final(self).priority_filter == old(self).priority_filter,
            final(self).sort_order == order,
            final(self).same_entry(*old(self)),
            final(self).sel_view() == spec_cursor_after(
                old(self).sel_view(),
                task_views(old(self).filtered_tasks@),
                final(self).spec_proj(),
            ),
            final(self).wf(),
    {
        self.sort_order = order;
        self.update_filtered_tasks();
    }

    /// The sort mode after this one, in the fixed cycle.
    pub open spec fn spec_next_order(o: SortOrder) -> SortOrder {
        match o {
            SortOrder::Limit => SortOrder::Priority,
            SortOrder::Priority => SortOrder::Id,
            SortOrder::Id => SortOrder::Limit,
        }
    }

    /// Steps to the next sort mode and recomputes.
    pub fn cycle_sort_order(&mut self)
        requires
            old(self).wf(),
        ensures
            final(self).tasks@ == old(self).tasks@,
            final(self).show_done == old(self).show_done,
            final(self).tag_filter == old(self).tag_filter,
            final(self).priority_filter == old(self).priority_filter,
            final(self).sort_order == Self::spec_next_order(old(self).sort_order),
            final(self).same_entry(*old(self)),
            final(self).sel_view() == spec_cursor_after(
                old(self).sel_view(),
                task_views(old(self).filtered_tasks@),
                final(self).spec_proj(),
            ),
            final(self).wf(),
    {
        let next_order = match self.sort_order {
            SortOrder::Limit => SortOrder::Priority,
            SortOrder::Priority => SortOrder::Id,
            SortOrder::Id => SortOrder::Limit,
        };
        self.set_sort(next_order);
    }

    /// Moves the cursor one row down, wrapping past the end; a no-op on an
    /// empty projection.
    pub fn next(&mut self)
        requires
            old(self).wf(),
        ensures
            final(self).wf(),
            final(self).tasks@ == old(self).tasks@,
            final(self).filtered_tasks@ == old(self).filtered_tasks@,
            final(self).same_options(*old(self)),
            final(self).same_entry(*old(self)),
            old(self).filtered_tasks@.len() == 0 ==> final(self).selected == old(self).selected,
            old(self).filtered_tasks@.len() > 0 ==> final(self).sel_view() == Some(
                (old(self).sel_view().unwrap() + 1) % old(self).filtered_tasks@.len() as int,
            ),
    {
        if self.filtered_tasks.len() == 0 {
            return ;
        }
        let len = self.filtered_tasks.len();
        let i = match self.selected {
            Some(i) => {
                if i >= len - 1 {
                    0
                } else {
                    i + 1
                }
            },
            None => 0,
        };
        proof {
            let oi = old(self).sel_view().unwrap();
            if oi == len - 1 {
                vstd::arithmetic::div_mod::lemma_mod_self_0(len as int);
            } else {
                vstd::arithmetic::div_mod::lemma_small_mod((oi + 1) as nat, len as nat);
            }
        }
        self.selected = Some(i);
    }

    /// Moves the cursor one row up, wrapping past the start; a no-op on an
    /// empty projection.
    pub fn previous(&mut self)
        requires
            old(self).wf(),
        ensures
            final(self).wf(),
            final(self).tasks@ == old(self).tasks@,
            final(self).filtered_tasks@ == old(self).filtered_tasks@,
            final(self).same_options(*old(self)),
            final(self).same_entry(*old(self)),
            old(self).filtered_tasks@.len() == 0 ==> final(self).selected == old(self).selected,
            old(self).filtered_tasks@.len() > 0 ==> final(self).sel_view() == Some(
                (old(self).sel_view().unwrap() + old(self).filtered_tasks@.len() - 1)
                    % old(self).filtered_tasks@.len() as int,
            ),
    {
        if self.filtered_tasks.len() == 0 {
            return ;
        }
        let len = self.filtered_tasks.len();
        let i = match self.selected {
            Some(i) => {
                if i == 0 {
                    len - 1
                } else {
                    i - 1
                }
            },
            None => 0,
        };
        proof {
            let oi = old(self).sel_view().unwrap();
            if oi == 0 {
                vstd::arithmetic::div_mod::lemma_small_mod((len - 1) as nat, len as nat);
            } else {
                vstd::arithmetic::div_mod::lemma_mod_multiples_vanish(1, oi - 1, len as int);
                vstd::arithmetic::div_mod::lemma_small_mod((oi - 1) as nat, len as nat);
            }
        }
        self.selected = Some(i);
    }

    /// A task with its completion flag flipped.
    pub open spec fn spec_flip(t: TaskV) -> TaskV {
        TaskV { is_done: !t.is_done, ..t }
    }

    /// Flips the completion flag of the selected task in the cache, hands
    /// back a copy to persist, and recomputes the projection.
    pub fn toggle_status(&mut self) -> (r: Option<Task>)
        requires
            old(self).wf(),
        ensures
            final(self).wf(),
            final(self).same_options(*old(self)),
            final(self).same_entry(*old(self)),
            match old(self).selected {
                None => {
                    &&& final(self).tasks@ == old(self).tasks@
                    &&& final(self).filtered_tasks@ == old(self).filtered_tasks@
                    &&& final(self).selected == old(self).selected
                    &&& r is None
                },
                Some(i) => {
                    let id = task_views(old(self).filtered_tasks@)[i as int].id;
                    &&& match spec_find_id(task_views(old(self).tasks@), id) {
                        Some(k) => {
                            &&& task_views(final(self).tasks@) == task_views(
                                old(self).tasks@,
                            ).update(k, Self::spec_flip(task_views(old(self).tasks@)[k]))
                            &&& r is Some
                            &&& r.unwrap()@ == Self::spec_flip(task_views(old(self).tasks@)[k])
                        },
                        None => {
                            &&& final(self).tasks@ == old(self).tasks@
                            &&& r is None
                        },
                    }
                    &&& task_views(final(self).filtered_tasks@) == final(self).spec_proj()
                    &&& final(self).sel_view() == spec_cursor_after(
                        old(self).sel_view(),
                        task_views(old(self).filtered_tasks@),
                        final(self).spec_proj(),
                    )
                },
            },
    {
        match self.selected {
            None => None,
            Some(i) => {
                let id = self.filtered_tasks[i].id;
                proof {
                    assert(task_views(self.filtered_tasks@)[i as int].id == id);
                }
                match find_id_position(&self.tasks, id) {
                    Some(k) => {
                        let mut nt = self.tasks[k].clone();
                        nt.is_done = !nt.is_done;
                        let out = nt.clone();
                        proof {
                            assert(nt@ == Self::spec_flip(task_views(old(self).tasks@)[k as int]));
                        }
                        self.tasks[k] = nt;
                        proof {
                            assert(task_views(self.tasks@) =~= task_views(
                                old(self).tasks@,
                            ).update(
                                k as int,
                                Self::spec_flip(task_views(old(self).tasks@)[k as int]),
                            ));
                        }
                        self.update_filtered_tasks();
                        Some(out)
                    },
                    None => {
                        self.update_filtered_tasks();
                        None
                    },
                }
            },
        }
    }
}

/// The cursor moved one row down with wrap-around; everything else as it
/// was.
pub open spec fn spec_nav_next(pre: App, post: App) -> bool {
    &&& post.tasks@ == pre.tasks@
    &&& post.filtered_tasks@ == pre.filtered_tasks@
    &&& post.same_options(pre)
    &&& post.same_entry(pre)
    &&& (pre.filtered_tasks@.len() == 0 ==> post.selected == pre.selected)
    &&& (pre.filtered_tasks@.len() > 0 ==> post.sel_view() == Some(
        (pre.sel_view().unwrap() + 1) % pre.filtered_tasks@.len() as int,
    ))
}

/// The cursor moved one row up with wrap-around.
pub open spec fn spec_nav_prev(pre: App, post: App) -> bool {
    &&& post.tasks@ == pre.tasks@
    &&& post.filtered_tasks@ == pre.filtered_tasks@
    &&& post.same_options(pre)
    &&& post.same_entry(pre)
    &&& (pre.filtered_tasks@.len() == 0 ==> post.selected == pre.selected)
    &&& (pre.filtered_tasks@.len() > 0 ==> post.sel_view() == Some(
        (pre.sel_view().unwrap() + pre.filtered_tasks@.len() - 1)
            % pre.filtered_tasks@.len() as int,
    ))
}

/// The cursor index after `k` single steps down through a projection of
/// `len` rows.
pub open spec fn spec_step_down(i: int, len: int, k: nat) -> int
    decreases k,
{
    if k == 0 {
        i
    } else {
        (spec_step_down(i, len, (k - 1) as nat) + 1) % len
    }
}

proof fn lemma_step_down_mod(i: int, len: int, k: nat)
    requires
        0 <= i < len,
    ensures
        spec_step_down(i, len, k) == (i + k) % len,
    decreases k,
{
    if k == 0 {
        vstd::arithmetic::div_mod::lemma_small_mod(i as nat, len as nat);
    } else {
        lemma_step_down_mod(i, len, (k - 1) as nat);
        vstd::arithmetic::div_mod::lemma_mod_self_0(len);
        vstd::arithmetic::div_mod::lemma_mod_twice(i + k - 1, len);
        vstd::arithmetic::div_mod::lemma_add_mod_noop(i + k - 1, 1, len);
        if len == 1 {
            vstd::arithmetic::div_mod::lemma_mod_self_0(1);
            vstd::arithmetic::div_mod::lemma_mod_multiples_vanish(i + k, 0, 1);
        } else {
            vstd::arithmetic::div_mod::lemma_small_mod(1nat, len as nat);
            assert((1int) % len == 1);
        }
    }
}

/// Wrap-around law: on a projection of `len` rows, moving the cursor down
/// one row at a time `len` times returns it to where it started.  Each step
/// is the move `next` makes.
pub proof fn lemma_cursor_wraps_around(i: int, len: int)
    requires
        0 <= i < len,
    ensures
        spec_step_down(i, len, len as nat) == i,
{
    lemma_step_down_mod(i, len, len as nat);
    vstd::arithmetic::div_mod::lemma_mod_multiples_vanish(1, i, len);
    vstd::arithmetic::div_mod::lemma_small_mod(i as nat, len as nat);
}

proof fn lemma_step_chain(states: Seq<App>, k: int)
    requires
        states.len() >= 1,
        states[0].wf(),
        states[0].filtered_tasks@.len() > 0,
        forall|i: int|
            0 <= i < states.len() - 1 ==> spec_nav_next(#[trigger] states[i], states[i + 1]),
        0 <= k < states.len(),
    ensures
        states[k].filtered_tasks@ == states[0].filtered_tasks@,
        states[k].sel_view() == Some(
            spec_step_down(
                states[0].sel_view().unwrap(),
                states[0].filtered_tasks@.len() as int,
                k as nat,
            ),
        ),
    decreases k,
{
    let len = states[0].filtered_tasks@.len() as int;
    let i0 = states[0].sel_view().unwrap();
    if k == 0 {
        vstd::arithmetic::div_mod::lemma_small_mod(i0 as nat, len as nat);
        assert(spec_step_down(i0, len, 0) == i0);
        assert(states[0].selected is Some);
        assert(states[0].sel_view() == Some(i0));
    } else {
        lemma_step_chain(states, k - 1);
        assert(spec_nav_next(states[k - 1], states[k]));
        lemma_step_down_mod(i0, len, (k - 1) as nat);
        assert(states[k].sel_view() == Some(
            (spec_step_down(i0, len, (k - 1) as nat) + 1) % len,
        ));
    }
}

/// Wrap-around law over whole screens: starting from any well-formed screen
/// with a non-empty projection, a chain of single downward moves as long as
/// the projection ends exactly where it began.
pub proof fn lemma_cursor_wraps_around_screen(states: Seq<App>)
    requires
        states[0].wf(),
        states[0].filtered_tasks@.len() > 0,
        states.len() == states[0].filtered_tasks@.len() + 1,
        forall|i: int|
            0 <= i < states.len() - 1 ==> spec_nav_next(#[trigger] states[i], states[i + 1]),
    ensures
        states.last().selected == states[0].selected,
{
    let len = states[0].filtered_tasks@.len() as int;
    let i0 = states[0].sel_view().unwrap();
    lemma_step_chain(states, len);
    lemma_cursor_wraps_around(i0, len);
    assert(states.last().sel_view() == Some(i0));
    assert(states[0].sel_view() == Some(i0));
}

/// Toggling show-completed twice restores the exact same projection
/// contents.  `a` is any well-formed screen, `b` the screen after one
/// toggle, `c` the screen after another: `c` shows the very rows `a` showed,
/// whatever the cursor did meanwhile.
pub proof fn lemma_show_done_round_trip(a: App, b: App, c: App)
    requires
        a.wf(),
        b.wf(),
        c.wf(),
        b.tasks@ == a.tasks@,
        b.show_done == !a.show_done,
        b.tag_filter == a.tag_filter,
        b.priority_filter == a.priority_filter,
        b.sort_order == a.sort_order,
        c.tasks@ == b.tasks@,
        c.show_done == !b.show_done,
        c.tag_filter == b.tag_filter,
        c.priority_filter == b.priority_filter,
        c.sort_order == b.sort_order,
    ensures
        task_views(c.filtered_tasks@) == task_views(a.filtered_tasks@),
{
    assert(c.spec_proj() == a.spec_proj());
}

/// The urgency band of a due instant: overdue, within a day, within three
/// days, or later; no due instant contributes nothing.
pub open spec fn spec_urgency(limit: Option<int>, now: int) -> int {
    match limit {
        None => 0,
        Some(l) => if l < now {
            50
        } else if l - now < 86400 {
            40
        } else if l - now < 259200 {
            20
        } else {
            0
        },
    }
}

/// The suggestion score: ten points per priority rank plus the urgency band.
pub open spec fn spec_score(t: TaskV, now: int) -> int {
    t.priority.spec_int() * 10 + spec_urgency(t.limit, now)
}

/// Index of the best suggestion: the first unfinished task whose score no
/// later unfinished task strictly beats.
pub open spec fn spec_best(s: Seq<TaskV>, now: int) -> Option<int>
    decreases s.len(),
{
    if s.len() == 0 {
        None
    } else {
        let rest = spec_best(s.drop_last(), now);
        let i = s.len() - 1;
        if s[i as int].is_done {
            rest
        } else {
            match rest {
                None => Some(i as int),
                Some(j) => if spec_score(s[i as int], now) > spec_score(s[j], now) {
                    Some(i as int)
                } else {
                    Some(j)
                },
            }
        }
    }
}

/// The suggestion index is a real index of an unfinished task.
pub proof fn lemma_best_in_range(s: Seq<TaskV>, now: int)
    ensures
        match spec_best(s, now) {
            Some(j) => 0 <= j < s.len() && !s[j].is_done,
            None => true,
        },
    decreases s.len(),
{
    if s.len() > 0 {
        lemma_best_in_range(s.drop_last(), now);
    }
}

/// The suggestion score of a task against the current instant.
pub fn score_of(t: &Task, now: u64) -> (r: u64)
    ensures
        r == spec_score(t@, now as int),
{
    let p = (t.priority.to_int() as u64) * 10;
    let u: u64 = match t.limit {
        Some(l) => {
            if l < now {
                50
            } else if l - now < 86400 {
                40
            } else if l - now < 259200 {
                20
            } else {
                0
            }
        },
        None => 0,
    };
    p + u
}

/// The id of the task the scorer suggests: the first unfinished task of
/// maximal score in cache order, or nothing when every task is done.
pub fn best_suggestion(tasks: &Vec<Task>, now: u64) -> (r: Option<i64>)
    ensures
        match spec_best(task_views(tasks@), now as int) {
            Some(j) => r == Some(tasks@[j].id),
            None => r is None,
        },
{
    let ghost s = task_views(tasks@);
    let mut best_idx: Option<usize> = None;
    let mut best_score: u64 = 0;
    let mut i: usize = 0;
    proof {
        assert(s.subrange(0, 0) =~= Seq::<TaskV>::empty());
    }
    while i < tasks.len()
        invariant
            s == task_views(tasks@),
            i <= tasks@.len(),
            match spec_best(s.subrange(0, i as int), now as int) {
                Some(j) => best_idx == Some(j as usize) && 0 <= j < i && best_score == spec_score(
                    s[j],
                    now as int,
                ),
                None => best_idx is None,
            },
        decreases tasks@.len() - i,
    {
        proof {
            let pre = s.subrange(0, i as int);
            let cur = s.subrange(0, i + 1);
            assert(cur.drop_last() =~= pre);
            assert(cur.last() == s[i as int]);
            assert(s[i as int] == tasks@[i as int]@);
        }
        if !tasks[i].is_done {
            let sc = score_of(&tasks[i], now);
            match best_idx {
                None => {
                    best_idx = Some(i);
                    best_score = sc;
                },
                Some(_) => {
                    if sc > best_score {
                        best_idx = Some(i);
                        best_score = sc;
                    }
                },
            }
        }
        i = i + 1;
    }
    proof {
        assert(s.subrange(0, s.len() as int) =~= s);
    }
    match best_idx {
        Some(b) => Some(tasks[b].id),
        None => None,
    }
}

/// How a suggestion moves the cursor: to the suggested task's first row in
/// the projection, or nowhere when it is filtered out or nothing is
/// suggested.
pub open spec fn spec_jumped(pre: App, sel2: Option<int>, now: int) -> bool {
    match spec_best(task_views(pre.tasks@), now) {
        None => sel2 == pre.sel_view(),
        Some(j) => match spec_find_id(
            task_views(pre.filtered_tasks@),
            task_views(pre.tasks@)[j].id,
        ) {
            Some(p) => sel2 == Some(p),
            None => sel2 == pre.sel_view(),
        },
    }
}

impl App {
    /// Moves the cursor to the scorer's suggestion against the clock's
    /// current instant; data never changes.  `best_suggestion` carries the
    /// exact scoring.
    pub fn jump_to_suggestion(&mut self)
        requires
            old(self).wf(),
        ensures
            final(self).wf(),
            final(self).tasks@ == old(self).tasks@,
            final(self).filtered_tasks@ == old(self).filtered_tasks@,
            final(self).same_options(*old(self)),
            final(self).same_entry(*old(self)),
            (exists|now: int| now >= 0 && spec_jumped(*old(self), final(self).sel_view(), now))
                || final(self).selected == old(self).selected,
    {
        let p = crate::clock::now_utc_parts();
        match crate::clock::civil_of_parts(p) {
            Some(c) => {
                let now = crate::calendar::instant_of_civil(c);
                match best_suggestion(&self.tasks, now) {
                    Some(id) => {
                        match find_id_position(&self.filtered_tasks, id) {
                            Some(pos) => {
                                self.selected = Some(pos);
                            },
                            None => {},
                        }
                    },
                    None => {},
                }
                proof {
                    let pre = *old(self);
                    lemma_best_in_range(task_views(pre.tasks@), now as int);
                    match spec_best(task_views(pre.tasks@), now as int) {
                        None => {},
                        Some(j) => {
                            assert(task_views(pre.tasks@)[j] == pre.tasks@[j]@);
                        },
                    }
                    assert(spec_jumped(pre, self.sel_view(), now as int));
                }
            },
            None => {},
        }
    }
}

} // verus!
