//! The task data model: priorities and tasks, with their mathematical views.

use vstd::prelude::*;

verus! {

/// The mathematical value of a task: every field as a plain mathematical
/// object.  Contracts throughout the library speak of these views.
pub ghost struct TaskV {
    pub id: int,
    pub title: Seq<char>,
    pub is_done: bool,
    pub limit: Option<int>,
    pub description: Option<Seq<char>>,
    pub priority: Priority,
    pub tags: Seq<Seq<char>>,
    pub dependencies: Seq<int>,
}

/// One task, as cached in memory.  The due instant (`limit`) counts seconds
/// since 0000-01-01 00:00 UTC.
pub struct Task {
    pub id: i64,
    pub title: String,
    pub is_done: bool,
    pub limit: Option<u64>,
    pub description: Option<String>,
    pub priority: Priority,
    pub tags: Vec<String>,
    pub dependencies: Vec<i64>,
}

impl View for Task {
    type V = TaskV;

    open spec fn view(&self) -> TaskV {
        TaskV {
            id: self.id as int,
            title: self.title@,
            is_done: self.is_done,
            limit: match self.limit {
                Some(l) => Some(l as int),
                None => None,
            },
            description: match self.description {
                Some(d) => Some(d@),
                None => None,
            },
            priority: self.priority,
            tags: self.tags@.map_values(|t: String| t@),
            dependencies: self.dependencies@.map_values(|d: i64| d as int),
        }
    }
}

/// The views of a cached task list.
pub open spec fn task_views(s: Seq<Task>) -> Seq<TaskV> {
    s.map_values(|t: Task| t@)
}

fn clone_strings(v: &Vec<String>) -> (r: Vec<String>)
    ensures
        r@ == v@,
{
    let mut r: Vec<String> = Vec::new();
    let mut i: usize = 0;
    while i < v.len()
        invariant
            i <= v@.len(),
            r@ == v@.subrange(0, i as int),
        decreases v@.len() - i,
    {
        r.push(v[i].clone());
        proof {
            assert(r@ =~= v@.subrange(0, i + 1));
        }
        i = i + 1;
    }
    proof {
        assert(r@ =~= v@);
    }
    r
}

fn clone_ids(v: &Vec<i64>) -> (r: Vec<i64>)
    ensures
        r@ == v@,
{
    let mut r: Vec<i64> = Vec::new();
    let mut i: usize = 0;
    while i < v.len()
        invariant
            i <= v@.len(),
            r@ == v@.subrange(0, i as int),
        decreases v@.len() - i,
    {
        r.push(v[i]);
        proof {
            assert(r@ =~= v@.subrange(0, i + 1));
        }
        i = i + 1;
    }
    proof {
        assert(r@ =~= v@);
    }
    r
}

impl Clone for Task {
    /// A copy with the same view.
    fn clone(&self) -> (r: Self)
        ensures
            r@ == self@,
    {
        Task {
            id: self.id,
            title: self.title.clone(),
            is_done: self.is_done,
            limit: self.limit,
            description: match &self.description {
                Some(d) => Some(d.clone()),
                None => None,
            },
            priority: self.priority,
            tags: clone_strings(&self.tags),
            dependencies: clone_ids(&self.dependencies),
        }
    }
}

/// Whether some dependency of `t` names a cached task that is not done.
pub open spec fn spec_has_incomplete_deps(t: TaskV, all: Seq<TaskV>) -> bool {
    exists|i: int, j: int|
        0 <= i < t.dependencies.len() && 0 <= j < all.len() && #[trigger] all[j].id
            == #[trigger] t.dependencies[i] && !all[j].is_done
}

/// Whether some dependency of `task` names a cached task that is not done.
pub fn has_incomplete_dependencies(task: &Task, all: &Vec<Task>) -> (r: bool)
    ensures
        r == spec_has_incomplete_deps(task@, task_views(all@)),
{
    let ghost tv = task@;
    let ghost allv = task_views(all@);
    let mut i: usize = 0;
    while i < task.dependencies.len()
        invariant
            tv == task@,
            allv == task_views(all@),
            i <= task.dependencies@.len(),
            forall|a: int, b: int|
                0 <= a < i && 0 <= b < allv.len() ==> !(#[trigger] allv[b].id
                    == #[trigger] tv.dependencies[a] && !allv[b].is_done),
        decreases task.dependencies@.len() - i,
    {
        let dep = task.dependencies[i];
        let mut j: usize = 0;
        while j < all.len()
            invariant
                tv == task@,
                allv == task_views(all@),
                i < task.dependencies@.len(),
                dep == task.dependencies@[i as int],
                j <= all@.len(),
                forall|b: int|
                    0 <= b < j ==> !(#[trigger] allv[b].id == tv.dependencies[i as int]
                        && !allv[b].is_done),
            decreases all@.len() - j,
        {
            if all[j].id == dep && !all[j].is_done {
                proof {
                    assert(allv[j as int].id == tv.dependencies[i as int] && !allv[
                        j as int
                    ].is_done);
                }
                return true;
            }
            j = j + 1;
        }
        i = i + 1;
    }
    false
}


/// Importance level of a task.
#[derive(Clone, Copy, Debug, PartialEq, Eq, Structural)]
pub enum Priority {
    High,
    Medium,
    Low,
    Unset,
}

impl Priority {
    /// Numeric rank of the priority, as stored and as compared when sorting.
    pub fn to_int(&self) -> (r: i32)
        ensures
            r == self.spec_int(),
    {
        match self {
            Priority::High => 3,
            Priority::Medium => 2,
            Priority::Low => 1,
            Priority::Unset => 0,
        }
    }

    /// Inverse of `to_int`; unknown ranks collapse to `Unset`.
    pub fn from_int(i: i32) -> (r: Self)
        ensures
            r == Self::spec_from_int(i),
            r.spec_int() == if 1 <= i <= 3 { i as int } else { 0 },
    {
        match i {
            3 => Priority::High,
            2 => Priority::Medium,
            1 => Priority::Low,
            _ => Priority::Unset,
        }
    }

    /// Three-character marker shown in task listings.
    pub fn to_symbol(&self) -> (r: &'static str)
        ensures
            r@ == self.spec_symbol(),
    {
        proof {
            reveal_strlit("!!!");
            reveal_strlit("!! ");
            reveal_strlit("!  ");
            reveal_strlit("   ");
        }
        match self {
            Priority::High => "!!!",
            Priority::Medium => "!! ",
            Priority::Low => "!  ",
            Priority::Unset => "   ",
        }
    }

    pub open spec fn spec_int(self) -> int {
        match self {
            Priority::High => 3,
            Priority::Medium => 2,
            Priority::Low => 1,
            Priority::Unset => 0,
        }
    }

    pub open spec fn spec_from_int(i: i32) -> Self {
        if i == 3 {
            Priority::High
        } else if i == 2 {
            Priority::Medium
        } else if i == 1 {
            Priority::Low
        } else {
            Priority::Unset
        }
    }

    pub open spec fn spec_symbol(self) -> Seq<char> {
        match self {
            Priority::High => seq!['!', '!', '!'],
            Priority::Medium => seq!['!', '!', ' '],
            Priority::Low => seq!['!', ' ', ' '],
            Priority::Unset => seq![' ', ' ', ' '],
        }
    }
}


impl Priority {
    /// The plain name of the priority.
    pub open spec fn spec_name(self) -> Seq<char> {
        match self {
            Priority::High => "High"@,
            Priority::Medium => "Medium"@,
            Priority::Low => "Low"@,
            Priority::Unset => "None"@,
        }
    }

    /// The plain name of the priority.
    pub fn name(&self) -> (r: &'static str)
        ensures
            r@ == self.spec_name(),
    {
        match self {
            Priority::High => "High",
            Priority::Medium => "Medium",
            Priority::Low => "Low",
            Priority::Unset => "None",
        }
    }

    /// The display name of the priority, as written in the edit form.
    pub open spec fn spec_label(self) -> Seq<char> {
        match self {
            Priority::High => "High"@,
            Priority::Medium => "Medium"@,
            Priority::Low => "Low"@,
            Priority::Unset => " "@,
        }
    }

    /// The display name of the priority, as written in the edit form.
    pub fn label(&self) -> (r: &'static str)
        ensures
            r@ == self.spec_label(),
    {
        match self {
            Priority::High => "High",
            Priority::Medium => "Medium",
            Priority::Low => "Low",
            Priority::Unset => " ",
        }
    }
}

} // verus!
