//! The task store: a facade owning all persisted projects and tasks, with
//! create/read/update/delete operations, partial-update semantics, automatic
//! timestamp and completion bookkeeping, and the derived date-range views.
//!
//! Every operation that needs the current time or a fresh identifier exists
//! in two forms: a core form (suffixed `_with` or `_at`) that takes the time
//! or identifier as an argument and whose behaviour is pinned down exactly,
//! and a convenience form under the plain operation name that draws the time
//! from the system clock and the identifier from a random generator and
//! delegates to the core form.

use vstd::prelude::*;

use crate::models::{
    text_opt, time_opt, CreateProject, CreateTask, Project, ProjectView, StoreError, Task,
    TaskStats, TaskView, UpdateProject, UpdateTask,
};
use crate::timeline::{
    due_in_today, due_in_upcoming, in_today_window, in_upcoming_window, overdue_at,
    MAX_WINDOW_TIME,
};

verus! {

broadcast use
    vstd::seq_lib::group_filter_ensures,
    vstd::seq_lib::group_to_multiset_ensures,
    Seq::lemma_filter_push,
    Seq::lemma_push_map_commute,
;

/// Largest number of rows either table may hold: every count must fit the
/// `i32` fields of `TaskStats`.
pub const MAX_ROWS: usize = 0x7fff_ffff;

/// Mathematical view of the whole store.
#[verifier::ext_equal]
pub ghost struct StoreView {
    pub projects: Seq<ProjectView>,
    pub tasks: Seq<TaskView>,
}

/// The views of a sequence of projects.
pub open spec fn project_views(s: Seq<Project>) -> Seq<ProjectView> {
    s.map_values(|p: Project| p@)
}

/// The views of a sequence of tasks.
pub open spec fn task_views(s: Seq<Task>) -> Seq<TaskView> {
    s.map_values(|t: Task| t@)
}

/// Some project in `s` carries the identifier `id`.
pub open spec fn has_project_id(s: Seq<ProjectView>, id: Seq<char>) -> bool {
    exists|j: int| 0 <= j < s.len() && s[j].id == id
}

/// Some task in `s` carries the identifier `id`.
pub open spec fn has_task_id(s: Seq<TaskView>, id: Seq<char>) -> bool {
    exists|j: int| 0 <= j < s.len() && s[j].id == id
}

/// The completion bookkeeping of one task is coherent: `completed_at` is set
/// exactly while the task is completed.
pub open spec fn task_consistent(t: TaskView) -> bool {
    t.completed <==> t.completed_at is Some
}

/// Well-formedness of the store: identifiers are unique per table, every
/// row's update stamp is at or after its creation stamp, every task's
/// completion bookkeeping is coherent, and both tables are small enough that
/// their counts fit an `i32`.
pub open spec fn store_inv(s: StoreView) -> bool {
    &&& forall|i: int, j: int|
        0 <= i < j < s.projects.len() ==> s.projects[i].id != s.projects[j].id
    &&& forall|i: int, j: int| 0 <= i < j < s.tasks.len() ==> s.tasks[i].id != s.tasks[j].id
    &&& forall|i: int|
        0 <= i < s.projects.len() ==> (#[trigger] s.projects[i]).updated_at >= s.projects[i].created_at
    &&& forall|i: int|
        0 <= i < s.tasks.len() ==> task_consistent(#[trigger] s.tasks[i]) && s.tasks[i].updated_at
            >= s.tasks[i].created_at
    &&& s.projects.len() <= 0x7fff_ffff
    &&& s.tasks.len() <= 0x7fff_ffff
}

/// The project a creation request builds at time `now` under identifier `id`.
pub open spec fn made_project(data: CreateProject, id: Seq<char>, now: int) -> ProjectView {
    ProjectView {
        id: id,
        name: data.name@,
        description: text_opt(data.description),
        color: data.color@,
        created_at: now,
        updated_at: now,
    }
}

/// The task a creation request builds at time `now` under identifier `id`:
/// never completed, with the creation and update stamps equal.
pub open spec fn made_task(data: CreateTask, id: Seq<char>, now: int) -> TaskView {
    TaskView {
        id: id,
        title: data.title@,
        description: text_opt(data.description),
        project_id: text_opt(data.project_id),
        status: data.status,
        priority: data.priority,
        due_date: time_opt(data.due_date),
        completed: false,
        completed_at: None,
        created_at: now,
        updated_at: now,
    }
}

/// The project that results from applying a partial update at time `now`:
/// each supplied field overwrites the stored one, each absent field is left
/// untouched, and the update stamp is set to `now` unconditionally — clamped
/// to the creation stamp, so that `updated_at >= created_at` survives even a
/// clock that jumped backwards.
pub open spec fn apply_project_update(p: ProjectView, u: UpdateProject, now: int) -> ProjectView {
    ProjectView {
        id: p.id,
        name: match u.name {
            Some(n) => n@,
            None => p.name,
        },
        description: match u.description {
            Some(d) => Some(d@),
            None => p.description,
        },
        color: match u.color {
            Some(c) => c@,
            None => p.color,
        },
        created_at: p.created_at,
        updated_at: if now >= p.created_at {
            now
        } else {
            p.created_at
        },
    }
}

/// The task that results from applying a partial update at time `now`. A
/// supplied `completed` drives the `completed_at` bookkeeping: on a rise to
/// `true` the completion stamp is set to `now` unless one is already present,
/// and on `false` it is cleared; an absent `completed` leaves both untouched.
/// The update stamp is set to `now`, clamped to the creation stamp.
pub open spec fn apply_task_update(t: TaskView, u: UpdateTask, now: int) -> TaskView {
    TaskView {
        id: t.id,
        title: match u.title {
            Some(n) => n@,
            None => t.title,
        },
        description: match u.description {
            Some(d) => Some(d@),
            None => t.description,
        },
        project_id: match u.project_id {
            Some(p) => Some(p@),
            None => t.project_id,
        },
        status: match u.status {
            Some(s) => s,
            None => t.status,
        },
        priority: match u.priority {
            Some(p) => p,
            None => t.priority,
        },
        due_date: match u.due_date {
            Some(d) => Some(d as int),
            None => t.due_date,
        },
        completed: match u.completed {
            Some(c) => c,
            None => t.completed,
        },
        completed_at: match u.completed {
            Some(c) => if c {
                if t.completed_at is Some {
                    t.completed_at
                } else {
                    Some(now)
                }
            } else {
                None
            },
            None => t.completed_at,
        },
        created_at: t.created_at,
        updated_at: if now >= t.created_at {
            now
        } else {
            t.created_at
        },
    }
}

/// The task that results from supplying only `completed` in a partial update
/// at time `now`: the completion bookkeeping and the update stamp (clamped
/// to the creation stamp) change, every other field is untouched.
pub open spec fn completion_update(t: TaskView, completed: bool, now: int) -> TaskView {
    TaskView {
        completed: completed,
        completed_at: if completed {
            if t.completed_at is Some {
                t.completed_at
            } else {
                Some(now)
            }
        } else {
            None
        },
        updated_at: if now >= t.created_at {
            now
        } else {
            t.created_at
        },
        ..t
    }
}

/// Every element of a filtered sequence is an element of the original.
pub(crate) proof fn lemma_filter_members<A>(s: Seq<A>, pred: spec_fn(A) -> bool)
    ensures
        forall|m: int|
            0 <= m < s.filter(pred).len() ==> s.contains(#[trigger] s.filter(pred)[m]),
{
    assert forall|m: int| 0 <= m < s.filter(pred).len() implies s.contains(
        s.filter(pred)[m],
    ) by {
        let x = s.filter(pred)[m];
        assert(s.filter(pred).contains(x));
        s.lemma_filter_contains_rev(pred, x);
    }
}

/// Filtering preserves pairwise distinctness of a key.
proof fn lemma_filter_distinct_by_key<A>(
    s: Seq<A>,
    pred: spec_fn(A) -> bool,
    key: spec_fn(A) -> Seq<char>,
)
    requires
        forall|i: int, j: int| 0 <= i < j < s.len() ==> key(s[i]) != key(s[j]),
    ensures
        forall|i: int, j: int|
            0 <= i < j < s.filter(pred).len() ==> key(s.filter(pred)[i]) != key(
                s.filter(pred)[j],
            ),
    decreases s.len(),
{
    reveal(Seq::filter);
    if s.len() > 0 {
        let r = s.drop_last();
        lemma_filter_distinct_by_key(r, pred, key);
        lemma_filter_members(r, pred);
        if pred(s.last()) {
            assert forall|m: int| 0 <= m < r.filter(pred).len() implies key(r.filter(pred)[m])
                != key(s.last()) by {
                let x = r.filter(pred)[m];
                let i = choose|i: int| 0 <= i < r.len() && r[i] == x;
                assert(key(s[i]) != key(s[s.len() - 1]));
            }
        }
    }
}

/// Projects listed newest first: creation stamps never increase.
pub open spec fn sorted_newest_first_projects(s: Seq<ProjectView>) -> bool {
    forall|i: int, j: int| 0 <= i < j < s.len() ==> s[i].created_at >= s[j].created_at
}

/// Tasks listed newest first: creation stamps never increase.
pub open spec fn sorted_newest_first_tasks(s: Seq<TaskView>) -> bool {
    forall|i: int, j: int| 0 <= i < j < s.len() ==> s[i].created_at >= s[j].created_at
}

/// The key the due-date orderings sort by; a task without a due date counts
/// as the epoch (the derived views only ever sort tasks that have one).
pub open spec fn due_key(t: TaskView) -> int {
    match t.due_date {
        Some(d) => d,
        None => 0,
    }
}

/// Tasks listed soonest due first: due keys never decrease.
pub open spec fn sorted_by_due(s: Seq<TaskView>) -> bool {
    forall|i: int, j: int| 0 <= i < j < s.len() ==> due_key(s[i]) <= due_key(s[j])
}

/// The task is due within the calendar day of `now`.
pub open spec fn due_today_task(t: TaskView, now: int) -> bool {
    match t.due_date {
        Some(d) => in_today_window(d, now),
        None => false,
    }
}

/// The task is due within the seven full days after the day of `now`.
pub open spec fn due_upcoming_task(t: TaskView, now: int) -> bool {
    match t.due_date {
        Some(d) => in_upcoming_window(d, now),
        None => false,
    }
}

/// The task is overdue at `now`: due strictly in the past and not completed.
pub open spec fn overdue_task(t: TaskView, now: int) -> bool {
    match t.due_date {
        Some(d) => overdue_at(d, now) && !t.completed,
        None => false,
    }
}

/// `out` is a correct "today" listing of store `s` at time `now`: the tasks
/// due within the calendar day of `now`, soonest due first.
pub open spec fn today_listing(s: StoreView, now: int, out: Seq<TaskView>) -> bool {
    &&& out.to_multiset() == s.tasks.filter(|t: TaskView| due_today_task(t, now)).to_multiset()
    &&& sorted_by_due(out)
}

/// `out` is a correct "upcoming" listing of store `s` at time `now`: the
/// tasks due within the seven full days after the day of `now`, soonest due
/// first.
pub open spec fn upcoming_listing(s: StoreView, now: int, out: Seq<TaskView>) -> bool {
    &&& out.to_multiset() == s.tasks.filter(|t: TaskView| due_upcoming_task(t, now)).to_multiset()
    &&& sorted_by_due(out)
}

/// `r` is a correct statistics snapshot of store `s` at time `now`.
pub open spec fn stats_snapshot(s: StoreView, now: int, r: TaskStats) -> bool {
    &&& r.total_tasks == s.tasks.len()
    &&& r.completed_tasks == s.tasks.filter(|t: TaskView| t.completed).len()
    &&& r.pending_tasks == r.total_tasks - r.completed_tasks
    &&& r.today_tasks == s.tasks.filter(|t: TaskView| due_today_task(t, now)).len()
    &&& r.overdue_tasks == s.tasks.filter(|t: TaskView| overdue_task(t, now)).len()
}

/// Sorts projects in place, newest creation stamp first.
#[verifier::loop_isolation(false)]
fn sort_projects_newest_first(v: &mut Vec<Project>)
    ensures
        project_views(final(v)@).to_multiset() == project_views(old(v)@).to_multiset(),
        sorted_newest_first_projects(project_views(final(v)@)),
{
    let ghost orig = project_views(old(v)@);
    let n = v.len();
    let mut i: usize = 1;
    while i < n
        invariant
            1 <= i,
            n == v.len(),
            project_views(v@).to_multiset() == orig.to_multiset(),
            forall|p: int, q: int| 0 <= p < q < i ==> v@[p]@.created_at >= v@[q]@.created_at,
        decreases n - i,
    {
        let mut j: usize = i;
        while j > 0 && v[j].created_at > v[j - 1].created_at
            invariant
                j <= i < n == v.len(),
                project_views(v@).to_multiset() == orig.to_multiset(),
                forall|p: int, q: int|
                    0 <= p < q <= i && q != j ==> v@[p]@.created_at >= v@[q]@.created_at,
            decreases j,
        {
            let ghost w = project_views(v@);
            let a = v[j - 1].duplicate();
            let b = v[j].duplicate();
            v[j - 1] = b;
            v[j] = a;
            proof {
                assert(project_views(v@) =~= w.update(j - 1, w[j as int]).update(
                    j as int,
                    w[j - 1],
                ));
                assert(project_views(v@).to_multiset() =~= w.to_multiset());
            }
            j -= 1;
        }
        i += 1;
    }
}

/// Sorts tasks in place, newest creation stamp first.
#[verifier::loop_isolation(false)]
fn sort_tasks_newest_first(v: &mut Vec<Task>)
    ensures
        task_views(final(v)@).to_multiset() == task_views(old(v)@).to_multiset(),
        sorted_newest_first_tasks(task_views(final(v)@)),
{
    let ghost orig = task_views(old(v)@);
    let n = v.len();
    let mut i: usize = 1;
    while i < n
        invariant
            1 <= i,
            n == v.len(),
            task_views(v@).to_multiset() == orig.to_multiset(),
            forall|p: int, q: int| 0 <= p < q < i ==> v@[p]@.created_at >= v@[q]@.created_at,
        decreases n - i,
    {
        let mut j: usize = i;
        while j > 0 && v[j].created_at > v[j - 1].created_at
            invariant
                j <= i < n == v.len(),
                task_views(v@).to_multiset() == orig.to_multiset(),
                forall|p: int, q: int|
                    0 <= p < q <= i && q != j ==> v@[p]@.created_at >= v@[q]@.created_at,
            decreases j,
        {
            let ghost w = task_views(v@);
            let a = v[j - 1].duplicate();
            let b = v[j].duplicate();
            v[j - 1] = b;
            v[j] = a;
            proof {
                assert(task_views(v@) =~= w.update(j - 1, w[j as int]).update(
                    j as int,
                    w[j - 1],
                ));
                assert(task_views(v@).to_multiset() =~= w.to_multiset());
            }
            j -= 1;
        }
        i += 1;
    }
}

/// The due-date key of a task; tasks without one count as the epoch.
fn task_due_key(t: &Task) -> (r: i64)
    ensures
        r == due_key(t@),
{
    match &t.due_date {
        Some(d) => *d,
        None => 0,
    }
}

/// Sorts tasks in place, soonest due first.
#[verifier::loop_isolation(false)]
fn sort_tasks_due_first(v: &mut Vec<Task>)
    ensures
        task_views(final(v)@).to_multiset() == task_views(old(v)@).to_multiset(),
        sorted_by_due(task_views(final(v)@)),
{
    let ghost orig = task_views(old(v)@);
    let n = v.len();
    let mut i: usize = 1;
    while i < n
        invariant
            1 <= i,
            n == v.len(),
            task_views(v@).to_multiset() == orig.to_multiset(),
            forall|p: int, q: int| 0 <= p < q < i ==> due_key(v@[p]@) <= due_key(v@[q]@),
        decreases n - i,
    {
        let mut j: usize = i;
        while j > 0 && task_due_key(&v[j]) < task_due_key(&v[j - 1])
            invariant
                j <= i < n == v.len(),
                task_views(v@).to_multiset() == orig.to_multiset(),
                forall|p: int, q: int|
                    0 <= p < q <= i && q != j ==> due_key(v@[p]@) <= due_key(v@[q]@),
            decreases j,
        {
            let ghost w = task_views(v@);
            let a = v[j - 1].duplicate();
            let b = v[j].duplicate();
            v[j - 1] = b;
            v[j] = a;
            proof {
                assert(task_views(v@) =~= w.update(j - 1, w[j as int]).update(
                    j as int,
                    w[j - 1],
                ));
                assert(task_views(v@).to_multiset() =~= w.to_multiset());
            }
            j -= 1;
        }
        i += 1;
    }
}

/// The facade over the two tables. All access goes through its methods;
/// every read hands out independent copies.
pub struct Database {
    projects: Vec<Project>,
    tasks: Vec<Task>,
}

impl View for Database {
    type V = StoreView;

    closed spec fn view(&self) -> StoreView {
        StoreView { projects: project_views(self.projects@), tasks: task_views(self.tasks@) }
    }
}

impl Database {
    /// The store's well-formedness; established by `new` and preserved by
    /// every operation.
    pub open spec fn wf(&self) -> bool {
        store_inv(self@)
    }

    /// Opens a fresh, empty store.
    pub fn new() -> (r: Result<Database, StoreError>)
        ensures
            r is Ok,
            match r {
                Ok(d) => d.wf() && d@.projects =~= Seq::<ProjectView>::empty() && d@.tasks
                    =~= Seq::<TaskView>::empty(),
                Err(_) => false,
            },
    {
        let d = Database { projects: Vec::new(), tasks: Vec::new() };
        proof {
            assert(d@.projects =~= Seq::<ProjectView>::empty());
            assert(d@.tasks =~= Seq::<TaskView>::empty());
        }
        Ok(d)
    }

    /// The position of the project carrying `id`, if any.
    fn find_project(&self, id: &String) -> (r: Option<usize>)
        ensures
            match r {
                Some(i) => i < self@.projects.len() && self@.projects[i as int].id == id@,
                None => !has_project_id(self@.projects, id@),
            },
    {
        let n = self.projects.len();
        let mut i: usize = 0;
        while i < n
            invariant
                i <= n == self.projects.len(),
                forall|j: int| 0 <= j < i ==> self@.projects[j].id != id@,
            decreases n - i,
        {
            if self.projects[i].id.eq(id) {
                return Some(i);
            }
            i += 1;
        }
        None
    }

    /// The position of the task carrying `id`, if any.
    fn find_task(&self, id: &String) -> (r: Option<usize>)
        ensures
            match r {
                Some(i) => i < self@.tasks.len() && self@.tasks[i as int].id == id@,
                None => !has_task_id(self@.tasks, id@),
            },
    {
        let n = self.tasks.len();
        let mut i: usize = 0;
        while i < n
            invariant
                i <= n == self.tasks.len(),
                forall|j: int| 0 <= j < i ==> self@.tasks[j].id != id@,
            decreases n - i,
        {
            if self.tasks[i].id.eq(id) {
                return Some(i);
            }
            i += 1;
        }
        None
    }

    /// Creates a project under the given identifier, stamping both timestamps
    /// with `now`. Succeeds exactly when the identifier is new to the table
    /// and the table is not full; on failure the store is unchanged.
    pub fn create_project_with(&mut self, data: CreateProject, id: String, now: i64) -> (r:
        Result<Project, StoreError>)
        requires
            old(self).wf(),
        ensures
            final(self).wf(),
            final(self)@.tasks == old(self)@.tasks,
            r is Ok <==> (!has_project_id(old(self)@.projects, id@) && old(
                self,
            )@.projects.len() < 0x7fff_ffff),
            match r {
                Ok(p) => p@ == made_project(data, id@, now as int) && final(self)@.projects == old(
                    self,
                )@.projects.push(p@),
                Err(e) => e == StoreError::ConstraintViolation && final(self)@ == old(self)@,
            },
    {
        if self.projects.len() >= MAX_ROWS {
            return Err(StoreError::ConstraintViolation);
        }
        match self.find_project(&id) {
            Some(_) => Err(StoreError::ConstraintViolation),
            None => {
                let p = Project {
                    id: id,
                    name: data.name,
                    description: data.description,
                    color: data.color,
                    created_at: now,
                    updated_at: now,
                };
                let copy = p.duplicate();
                self.projects.push(p);
                proof {
                    assert(final(self)@.projects =~= old(self)@.projects.push(copy@));
                }
                Ok(copy)
            },
        }
    }

    /// Creates a task under the given identifier: `completed` defaults to
    /// `false` with no completion stamp, and both timestamps are `now`.
    /// Succeeds exactly when the identifier is new to the table and the table
    /// is not full; on failure the store is unchanged.
    pub fn create_task_with(&mut self, data: CreateTask, id: String, now: i64) -> (r: Result<
        Task,
        StoreError,
    >)
        requires
            old(self).wf(),
        ensures
            final(self).wf(),
            final(self)@.projects == old(self)@.projects,
            r is Ok <==> (!has_task_id(old(self)@.tasks, id@) && old(self)@.tasks.len()
                < 0x7fff_ffff),
            match r {
                Ok(t) => t@ == made_task(data, id@, now as int) && final(self)@.tasks == old(
                    self,
                )@.tasks.push(t@),
                Err(e) => e == StoreError::ConstraintViolation && final(self)@ == old(self)@,
            },
    {
        if self.tasks.len() >= MAX_ROWS {
            return Err(StoreError::ConstraintViolation);
        }
        match self.find_task(&id) {
            Some(_) => Err(StoreError::ConstraintViolation),
            None => {
                let t = Task {
                    id: id,
                    title: data.title,
                    description: data.description,
                    project_id: data.project_id,
                    status: data.status,
                    priority: data.priority,
                    due_date: data.due_date,
                    completed: false,
                    completed_at: None,
                    created_at: now,
                    updated_at: now,
                };
                let copy = t.duplicate();
                self.tasks.push(t);
                proof {
                    assert(final(self)@.tasks =~= old(self)@.tasks.push(copy@));
                }
                Ok(copy)
            },
        }
    }

    /// Applies a partial update to the project carrying `data.id`, stamping
    /// `updated_at = now` unconditionally (clamped to the creation stamp).
    /// Succeeds exactly when that project exists; otherwise reports
    /// `NotFound` and leaves the store unchanged.
    pub fn update_project_at(&mut self, data: UpdateProject, now: i64) -> (r: Result<
        Project,
        StoreError,
    >)
        requires
            old(self).wf(),
        ensures
            final(self).wf(),
            final(self)@.tasks == old(self)@.tasks,
            r is Ok <==> has_project_id(old(self)@.projects, data.id@),
            match r {
                Ok(p) => exists|j: int|
                    0 <= j < old(self)@.projects.len() && (#[trigger] old(
                        self,
                    )@.projects[j]).id == data.id@ && p@ == apply_project_update(
                        old(self)@.projects[j],
                        data,
                        now as int,
                    ) && final(self)@.projects == old(self)@.projects.update(j, p@),
                Err(e) => e == StoreError::NotFound && final(self)@ == old(self)@,
            },
    {
        match self.find_project(&data.id) {
            None => Err(StoreError::NotFound),
            Some(i) => {
                let ghost j = i as int;
                let cur = self.projects[i].duplicate();
                let stamp: i64 = if now >= cur.created_at {
                    now
                } else {
                    cur.created_at
                };
                let p = Project {
                    id: cur.id,
                    name: match data.name {
                        Some(n) => n,
                        None => cur.name,
                    },
                    description: match data.description {
                        Some(d) => Some(d),
                        None => cur.description,
                    },
                    color: match data.color {
                        Some(c) => c,
                        None => cur.color,
                    },
                    created_at: cur.created_at,
                    updated_at: stamp,
                };
                let copy = p.duplicate();
                self.projects[i] = p;
                proof {
                    assert(final(self)@.projects =~= old(self)@.projects.update(j, copy@));
                }
                Ok(copy)
            },
        }
    }

    /// Applies a partial update to the task carrying `data.id`, with the
    /// automatic `completed_at` bookkeeping and `updated_at = now` (clamped
    /// to the creation stamp). Succeeds
    /// exactly when that task exists; otherwise reports `NotFound` and leaves
    /// the store unchanged.
    pub fn update_task_at(&mut self, data: UpdateTask, now: i64) -> (r: Result<Task, StoreError>)
        requires
            old(self).wf(),
        ensures
            final(self).wf(),
            final(self)@.projects == old(self)@.projects,
            r is Ok <==> has_task_id(old(self)@.tasks, data.id@),
            match r {
                Ok(t) => exists|j: int|
                    0 <= j < old(self)@.tasks.len() && (#[trigger] old(self)@.tasks[j]).id
                        == data.id@ && t@ == apply_task_update(
                        old(self)@.tasks[j],
                        data,
                        now as int,
                    ) && final(self)@.tasks == old(self)@.tasks.update(j, t@),
                Err(e) => e == StoreError::NotFound && final(self)@ == old(self)@,
            },
    {
        match self.find_task(&data.id) {
            None => Err(StoreError::NotFound),
            Some(i) => {
                let ghost j = i as int;
                let cur = self.tasks[i].duplicate();
                let stamp: i64 = if now >= cur.created_at {
                    now
                } else {
                    cur.created_at
                };
                let mut completed = cur.completed;
                let mut completed_at = cur.completed_at;
                if let Some(c) = data.completed {
                    completed = c;
                    if c {
                        if completed_at.is_none() {
                            completed_at = Some(now);
                        }
                    } else {
                        completed_at = None;
                    }
                }
                let t = Task {
                    id: cur.id,
                    title: match data.title {
                        Some(n) => n,
                        None => cur.title,
                    },
                    description: match data.description {
                        Some(d) => Some(d),
                        None => cur.description,
                    },
                    project_id: match data.project_id {
                        Some(p) => Some(p),
                        None => cur.project_id,
                    },
                    status: match data.status {
                        Some(s) => s,
                        None => cur.status,
                    },
                    priority: match data.priority {
                        Some(p) => p,
                        None => cur.priority,
                    },
                    due_date: match data.due_date {
                        Some(d) => Some(d),
                        None => cur.due_date,
                    },
                    completed: completed,
                    completed_at: completed_at,
                    created_at: cur.created_at,
                    updated_at: stamp,
                };
                let copy = t.duplicate();
                self.tasks[i] = t;
                proof {
                    assert(final(self)@.tasks =~= old(self)@.tasks.update(j, copy@));
                }
                Ok(copy)
            },
        }
    }

    /// Sets or clears a task's completion through the same partial-update
    /// path as `update_task_at`, supplying only the `completed` field. Only
    /// the completion bookkeeping and the update stamp (clamped to the
    /// creation stamp) change.
    pub fn mark_task_complete_at(&mut self, id: String, completed: bool, now: i64) -> (r: Result<
        Task,
        StoreError,
    >)
        requires
            old(self).wf(),
        ensures
            final(self).wf(),
            final(self)@.projects == old(self)@.projects,
            r is Ok <==> has_task_id(old(self)@.tasks, id@),
            match r {
                Ok(t) => exists|j: int|
                    0 <= j < old(self)@.tasks.len() && (#[trigger] old(self)@.tasks[j]).id == id@
                        && t@ == completion_update(old(self)@.tasks[j], completed, now as int)
                        && final(self)@.tasks == old(self)@.tasks.update(j, t@),
                Err(e) => e == StoreError::NotFound && final(self)@ == old(self)@,
            },
    {
        let data = UpdateTask {
            id: id,
            title: None,
            description: None,
            project_id: None,
            status: None,
            priority: None,
            due_date: None,
            completed: Some(completed),
        };
        self.update_task_at(data, now)
    }

    /// Deletes all tasks belonging to the project carrying `id`, then the
    /// project itself; the remaining rows keep their order. Idempotent:
    /// deleting an absent identifier succeeds and removes nothing.
    #[verifier::loop_isolation(false)]
    pub fn delete_project(&mut self, id: &String) -> (r: Result<(), StoreError>)
        requires
            old(self).wf(),
        ensures
            final(self).wf(),
            r is Ok,
            final(self)@.tasks == old(self)@.tasks.filter(
                |t: TaskView| t.project_id != Some(id@),
            ),
            final(self)@.projects == old(self)@.projects.filter(|p: ProjectView| p.id != id@),
    {
        let ghost tpred = |t: TaskView| t.project_id != Some(id@);
        let ghost old_tasks = self@.tasks;
        let n = self.tasks.len();
        let mut kept: Vec<Task> = Vec::new();
        let mut k: usize = 0;
        while k < n
            invariant
                k <= n == self.tasks.len(),
                task_views(self.tasks@) == old_tasks,
                task_views(kept@) == old_tasks.take(k as int).filter(tpred),
            decreases n - k,
        {
            let keep = match &self.tasks[k].project_id {
                Some(p) => !p.eq(id),
                None => true,
            };
            proof {
                assert(old_tasks.take(k + 1 as int) =~= old_tasks.take(k as int).push(
                    old_tasks[k as int],
                ));
                assert(old_tasks[k as int] == self.tasks@[k as int]@);
                assert(keep == tpred(old_tasks[k as int]));
            }
            if keep {
                kept.push(self.tasks[k].duplicate());
            }
            k += 1;
        }
        proof {
            assert(old_tasks.take(n as int) =~= old_tasks);
            lemma_filter_members(old_tasks, tpred);
            lemma_filter_distinct_by_key(old_tasks, tpred, |t: TaskView| t.id);
        }
        self.tasks = kept;

        let ghost ppred = |p: ProjectView| p.id != id@;
        let ghost old_projects = self@.projects;
        let m = self.projects.len();
        let mut kept_p: Vec<Project> = Vec::new();
        let mut q: usize = 0;
        while q < m
            invariant
                q <= m == self.projects.len(),
                project_views(self.projects@) == old_projects,
                project_views(kept_p@) == old_projects.take(q as int).filter(ppred),
            decreases m - q,
        {
            let keep = !self.projects[q].id.eq(id);
            proof {
                assert(old_projects.take(q + 1 as int) =~= old_projects.take(q as int).push(
                    old_projects[q as int],
                ));
                assert(old_projects[q as int] == self.projects@[q as int]@);
                assert(keep == ppred(old_projects[q as int]));
            }
            if keep {
                kept_p.push(self.projects[q].duplicate());
            }
            q += 1;
        }
        proof {
            assert(old_projects.take(m as int) =~= old_projects);
            lemma_filter_members(old_projects, ppred);
            lemma_filter_distinct_by_key(old_projects, ppred, |p: ProjectView| p.id);
        }
        self.projects = kept_p;
        Ok(())
    }

    /// Deletes the task carrying `id`; the remaining rows keep their order.
    /// Idempotent: deleting an absent identifier succeeds and removes
    /// nothing.
    #[verifier::loop_isolation(false)]
    pub fn delete_task(&mut self, id: &String) -> (r: Result<(), StoreError>)
        requires
            old(self).wf(),
        ensures
            final(self).wf(),
            r is Ok,
            final(self)@.projects == old(self)@.projects,
            final(self)@.tasks == old(self)@.tasks.filter(|t: TaskView| t.id != id@),
    {
        let ghost tpred = |t: TaskView| t.id != id@;
        let ghost old_tasks = self@.tasks;
        let n = self.tasks.len();
        let mut kept: Vec<Task> = Vec::new();
        let mut k: usize = 0;
        while k < n
            invariant
                k <= n == self.tasks.len(),
                task_views(self.tasks@) == old_tasks,
                project_views(self.projects@) == old(self)@.projects,
                task_views(kept@) == old_tasks.take(k as int).filter(tpred),
            decreases n - k,
        {
            let keep = !self.tasks[k].id.eq(id);
            proof {
                assert(old_tasks.take(k + 1 as int) =~= old_tasks.take(k as int).push(
                    old_tasks[k as int],
                ));
                assert(old_tasks[k as int] == self.tasks@[k as int]@);
                assert(keep == tpred(old_tasks[k as int]));
            }
            if keep {
                kept.push(self.tasks[k].duplicate());
            }
            k += 1;
        }
        proof {
            assert(old_tasks.take(n as int) =~= old_tasks);
            lemma_filter_members(old_tasks, tpred);
            lemma_filter_distinct_by_key(old_tasks, tpred, |t: TaskView| t.id);
        }
        self.tasks = kept;
        Ok(())
    }

    /// Copies every project row.
    #[verifier::loop_isolation(false)]
    fn copy_projects(&self) -> (r: Vec<Project>)
        ensures
            project_views(r@) == self@.projects,
    {
        let n = self.projects.len();
        let mut out: Vec<Project> = Vec::new();
        let mut k: usize = 0;
        while k < n
            invariant
                k <= n,
                project_views(out@) == self@.projects.take(k as int),
            decreases n - k,
        {
            out.push(self.projects[k].duplicate());
            proof {
                assert(self@.projects.take(k + 1 as int) =~= self@.projects.take(k as int).push(
                    self@.projects[k as int],
                ));
            }
            k += 1;
        }
        proof {
            assert(self@.projects.take(n as int) =~= self@.projects);
        }
        out
    }

    /// Copies every task row.
    #[verifier::loop_isolation(false)]
    fn copy_tasks(&self) -> (r: Vec<Task>)
        ensures
            task_views(r@) == self@.tasks,
    {
        let n = self.tasks.len();
        let mut out: Vec<Task> = Vec::new();
        let mut k: usize = 0;
        while k < n
            invariant
                k <= n,
                task_views(out@) == self@.tasks.take(k as int),
            decreases n - k,
        {
            out.push(self.tasks[k].duplicate());
            proof {
                assert(self@.tasks.take(k + 1 as int) =~= self@.tasks.take(k as int).push(
                    self@.tasks[k as int],
                ));
            }
            k += 1;
        }
        proof {
            assert(self@.tasks.take(n as int) =~= self@.tasks);
        }
        out
    }

    /// Copies the task rows the chosen filter keeps.
    #[verifier::loop_isolation(false)]
    fn copy_tasks_where(&self, filter: TaskFilter, now: i64) -> (r: Vec<Task>)
        requires
            match filter {
                TaskFilter::DueToday | TaskFilter::DueUpcoming => 0 <= now <= MAX_WINDOW_TIME,
                _ => true,
            },
        ensures
            task_views(r@) == self@.tasks.filter(task_filter_pred(filter, now as int)),
    {
        let ghost pred = task_filter_pred(filter, now as int);
        let n = self.tasks.len();
        let mut out: Vec<Task> = Vec::new();
        let mut k: usize = 0;
        while k < n
            invariant
                k <= n,
                task_views(out@) == self@.tasks.take(k as int).filter(pred),
            decreases n - k,
        {
            let t = &self.tasks[k];
            let keep = match &filter {
                TaskFilter::InProject(id) => match &t.project_id {
                    Some(p) => p.eq(id),
                    None => false,
                },
                TaskFilter::DueToday => match &t.due_date {
                    Some(d) => due_in_today(*d, now),
                    None => false,
                },
                TaskFilter::DueUpcoming => match &t.due_date {
                    Some(d) => due_in_upcoming(*d, now),
                    None => false,
                },
            };
            proof {
                assert(self@.tasks.take(k + 1 as int) =~= self@.tasks.take(k as int).push(
                    self@.tasks[k as int],
                ));
                assert(self@.tasks[k as int] == self.tasks@[k as int]@);
                assert(keep == pred(self@.tasks[k as int]));
            }
            if keep {
                out.push(t.duplicate());
            }
            k += 1;
        }
        proof {
            assert(self@.tasks.take(n as int) =~= self@.tasks);
        }
        out
    }

    /// Lists all projects, newest first.
    pub fn get_projects(&self) -> (r: Result<Vec<Project>, StoreError>)
        ensures
            r is Ok,
            match r {
                Ok(v) => project_views(v@).to_multiset() == self@.projects.to_multiset()
                    && sorted_newest_first_projects(project_views(v@)),
                Err(_) => false,
            },
    {
        let mut out = self.copy_projects();
        sort_projects_newest_first(&mut out);
        Ok(out)
    }

    /// Lists all tasks, newest first.
    pub fn get_tasks(&self) -> (r: Result<Vec<Task>, StoreError>)
        ensures
            r is Ok,
            match r {
                Ok(v) => task_views(v@).to_multiset() == self@.tasks.to_multiset()
                    && sorted_newest_first_tasks(task_views(v@)),
                Err(_) => false,
            },
    {
        let mut out = self.copy_tasks();
        sort_tasks_newest_first(&mut out);
        Ok(out)
    }

    /// Lists the tasks belonging to one project, newest first. A project with
    /// no tasks — or an absent project — yields an empty listing, not an
    /// error.
    pub fn get_tasks_by_project(&self, project_id: &String) -> (r: Result<Vec<Task>, StoreError>)
        ensures
            r is Ok,
            match r {
                Ok(v) => task_views(v@).to_multiset() == self@.tasks.filter(
                    |t: TaskView| t.project_id == Some(project_id@),
                ).to_multiset() && sorted_newest_first_tasks(task_views(v@)),
                Err(_) => false,
            },
    {
        let f = TaskFilter::InProject(project_id.clone());
        let ghost gf = f;
        let mut out = self.copy_tasks_where(f, 0);
        sort_tasks_newest_first(&mut out);
        proof {
            let p2 = |t: TaskView| t.project_id == Some(project_id@);
            assert(task_filter_pred(gf, 0) =~= p2);
        }
        Ok(out)
    }

    /// Lists the tasks due within the calendar day of `now`, both boundaries
    /// included, soonest due first. Tasks without a due date are excluded.
    pub fn get_today_tasks_at(&self, now: i64) -> (r: Result<Vec<Task>, StoreError>)
        requires
            0 <= now <= MAX_WINDOW_TIME,
        ensures
            r is Ok,
            match r {
                Ok(v) => today_listing(self@, now as int, task_views(v@)),
                Err(_) => false,
            },
    {
        let f = TaskFilter::DueToday;
        let ghost gf = f;
        let mut out = self.copy_tasks_where(f, now);
        sort_tasks_due_first(&mut out);
        proof {
            let p2 = |t: TaskView| due_today_task(t, now as int);
            assert(task_filter_pred(gf, now as int) =~= p2);
        }
        Ok(out)
    }

    /// Lists the tasks due within the seven full days after the day of
    /// `now`, soonest due first. Tasks without a due date are excluded.
    pub fn get_upcoming_tasks_at(&self, now: i64) -> (r: Result<Vec<Task>, StoreError>)
        requires
            0 <= now <= MAX_WINDOW_TIME,
        ensures
            r is Ok,
            match r {
                Ok(v) => upcoming_listing(self@, now as int, task_views(v@)),
                Err(_) => false,
            },
    {
        let f = TaskFilter::DueUpcoming;
        let ghost gf = f;
        let mut out = self.copy_tasks_where(f, now);
        sort_tasks_due_first(&mut out);
        proof {
            let p2 = |t: TaskView| due_upcoming_task(t, now as int);
            assert(task_filter_pred(gf, now as int) =~= p2);
        }
        Ok(out)
    }

    /// A snapshot of the aggregate counts at time `now`: all tasks, the
    /// completed and pending ones, those due today, and the overdue ones
    /// (due strictly before `now` and not completed).
    #[verifier::loop_isolation(false)]
    pub fn get_task_stats_at(&self, now: i64) -> (r: Result<TaskStats, StoreError>)
        requires
            self.wf(),
            0 <= now <= MAX_WINDOW_TIME,
        ensures
            r is Ok,
            match r {
                Ok(s) => stats_snapshot(self@, now as int, s),
                Err(_) => false,
            },
    {
        let ghost cpred = |t: TaskView| t.completed;
        let ghost dpred = |t: TaskView| due_today_task(t, now as int);
        let ghost opred = |t: TaskView| overdue_task(t, now as int);
        let n = self.tasks.len();
        let mut completed_tasks: i32 = 0;
        let mut today_tasks: i32 = 0;
        let mut overdue_tasks: i32 = 0;
        let mut k: usize = 0;
        while k < n
            invariant
                k <= n,
                completed_tasks == self@.tasks.take(k as int).filter(cpred).len(),
                today_tasks == self@.tasks.take(k as int).filter(dpred).len(),
                overdue_tasks == self@.tasks.take(k as int).filter(opred).len(),
            decreases n - k,
        {
            let t = &self.tasks[k];
            proof {
                assert(self@.tasks.take(k + 1 as int) =~= self@.tasks.take(k as int).push(
                    self@.tasks[k as int],
                ));
                assert(self@.tasks[k as int] == self.tasks@[k as int]@);
                assert(self@.tasks.take(k as int).filter(cpred).len() <= k) by {
                    self@.tasks.take(k as int).lemma_filter_len(cpred);
                }
                assert(self@.tasks.take(k as int).filter(dpred).len() <= k) by {
                    self@.tasks.take(k as int).lemma_filter_len(dpred);
                }
                assert(self@.tasks.take(k as int).filter(opred).len() <= k) by {
                    self@.tasks.take(k as int).lemma_filter_len(opred);
                }
            }
            if t.completed {
                completed_tasks += 1;
            }
            let today = match &t.due_date {
                Some(d) => due_in_today(*d, now),
                None => false,
            };
            if today {
                today_tasks += 1;
            }
            let over = match &t.due_date {
                Some(d) => *d < now && !t.completed,
                None => false,
            };
            if over {
                overdue_tasks += 1;
            }
            k += 1;
        }
        proof {
            assert(self@.tasks.take(n as int) =~= self@.tasks);
        }
        let total_tasks = n as i32;
        Ok(
            TaskStats {
                total_tasks,
                completed_tasks,
                pending_tasks: total_tasks - completed_tasks,
                today_tasks,
                overdue_tasks,
            },
        )
    }

    /// Creates a project from the given fields under a freshly generated
    /// identifier, stamping both timestamps with the current clock reading.
    /// The result carries the supplied fields unchanged, with its creation
    /// and update stamps equal, and is appended to the project table.
    /// Success is owed whenever the table is below capacity and no stored
    /// identifier has the generated form's 36-character length (so no
    /// collision is possible); a full table always fails.
    pub fn create_project(&mut self, data: CreateProject) -> (r: Result<Project, StoreError>)
        requires
            old(self).wf(),
        ensures
            final(self).wf(),
            final(self)@.tasks == old(self)@.tasks,
            old(self)@.projects.len() < 0x7fff_ffff && (forall|j: int|
                0 <= j < old(self)@.projects.len() ==> (#[trigger] old(
                    self,
                )@.projects[j]).id.len() != 36) ==> r is Ok,
            old(self)@.projects.len() >= 0x7fff_ffff ==> r is Err,
            match r {
                Ok(p) => {
                    &&& p@.name == data.name@
                    &&& p@.description == text_opt(data.description)
                    &&& p@.color == data.color@
                    &&& p@.created_at == p@.updated_at
                    &&& !has_project_id(old(self)@.projects, p@.id)
                    &&& final(self)@.projects == old(self)@.projects.push(p@)
                },
                Err(e) => e == StoreError::ConstraintViolation && final(self)@ == old(self)@,
            },
    {
        let id = fresh_id();
        let now = current_time();
        proof {
            assert(!has_project_id(old(self)@.projects, id@) || exists|j: int|
                0 <= j < old(self)@.projects.len() && (#[trigger] old(
                    self,
                )@.projects[j]).id.len() == 36) by {
                if has_project_id(old(self)@.projects, id@) {
                    let j = choose|j: int|
                        0 <= j < old(self)@.projects.len() && old(self)@.projects[j].id == id@;
                    assert(old(self)@.projects[j].id.len() == 36);
                }
            }
        }
        self.create_project_with(data, id, now)
    }

    /// Creates a task from the given fields under a freshly generated
    /// identifier: never completed, both timestamps stamped with the current
    /// clock reading, appended to the task table. Success is owed whenever
    /// the table is below capacity and no stored identifier has the generated
    /// form's 36-character length (so no collision is possible); a full table
    /// always fails.
    pub fn create_task(&mut self, data: CreateTask) -> (r: Result<Task, StoreError>)
        requires
            old(self).wf(),
        ensures
            final(self).wf(),
            final(self)@.projects == old(self)@.projects,
            old(self)@.tasks.len() < 0x7fff_ffff && (forall|j: int|
                0 <= j < old(self)@.tasks.len() ==> (#[trigger] old(self)@.tasks[j]).id.len()
                    != 36) ==> r is Ok,
            old(self)@.tasks.len() >= 0x7fff_ffff ==> r is Err,
            match r {
                Ok(t) => {
                    &&& t@.title == data.title@
                    &&& t@.description == text_opt(data.description)
                    &&& t@.project_id == text_opt(data.project_id)
                    &&& t@.status == data.status
                    &&& t@.priority == data.priority
                    &&& t@.due_date == time_opt(data.due_date)
                    &&& !t@.completed
                    &&& t@.completed_at is None
                    &&& t@.created_at == t@.updated_at
                    &&& !has_task_id(old(self)@.tasks, t@.id)
                    &&& final(self)@.tasks == old(self)@.tasks.push(t@)
                },
                Err(e) => e == StoreError::ConstraintViolation && final(self)@ == old(self)@,
            },
    {
        let id = fresh_id();
        let now = current_time();
        proof {
            assert(!has_task_id(old(self)@.tasks, id@) || exists|j: int|
                0 <= j < old(self)@.tasks.len() && (#[trigger] old(self)@.tasks[j]).id.len()
                    == 36) by {
                if has_task_id(old(self)@.tasks, id@) {
                    let j = choose|j: int|
                        0 <= j < old(self)@.tasks.len() && old(self)@.tasks[j].id == id@;
                    assert(old(self)@.tasks[j].id.len() == 36);
                }
            }
        }
        self.create_task_with(data, id, now)
    }

    /// Applies a partial update to the project carrying `data.id`, stamping
    /// `updated_at` with the current clock reading (clamped to the creation
    /// stamp). Succeeds exactly when that project exists.
    pub fn update_project(&mut self, data: UpdateProject) -> (r: Result<Project, StoreError>)
        requires
            old(self).wf(),
        ensures
            final(self).wf(),
            final(self)@.tasks == old(self)@.tasks,
            r is Ok <==> has_project_id(old(self)@.projects, data.id@),
            match r {
                Ok(p) => exists|j: int, now: int|
                    0 <= j < old(self)@.projects.len() && old(self)@.projects[j].id == data.id@
                        && p@ == #[trigger] apply_project_update(
                        old(self)@.projects[j],
                        data,
                        now,
                    ) && final(self)@.projects == old(self)@.projects.update(j, p@),
                Err(e) => e == StoreError::NotFound && final(self)@ == old(self)@,
            },
    {
        let now = current_time();
        self.update_project_at(data, now)
    }

    /// Applies a partial update to the task carrying `data.id`, with the
    /// automatic `completed_at` bookkeeping, stamping `updated_at` with the
    /// current clock reading (clamped to the creation stamp). Succeeds
    /// exactly when that task exists.
    pub fn update_task(&mut self, data: UpdateTask) -> (r: Result<Task, StoreError>)
        requires
            old(self).wf(),
        ensures
            final(self).wf(),
            final(self)@.projects == old(self)@.projects,
            r is Ok <==> has_task_id(old(self)@.tasks, data.id@),
            match r {
                Ok(t) => exists|j: int, now: int|
                    0 <= j < old(self)@.tasks.len() && old(self)@.tasks[j].id == data.id@ && t@
                        == #[trigger] apply_task_update(old(self)@.tasks[j], data, now)
                        && final(self)@.tasks == old(self)@.tasks.update(j, t@),
                Err(e) => e == StoreError::NotFound && final(self)@ == old(self)@,
            },
    {
        let now = current_time();
        self.update_task_at(data, now)
    }

    /// Sets or clears a task's completion through the same partial-update
    /// path as `update_task`, supplying only the `completed` field and the
    /// current clock reading.
    pub fn mark_task_complete(&mut self, id: String, completed: bool) -> (r: Result<
        Task,
        StoreError,
    >)
        requires
            old(self).wf(),
        ensures
            final(self).wf(),
            final(self)@.projects == old(self)@.projects,
            r is Ok <==> has_task_id(old(self)@.tasks, id@),
            match r {
                Ok(t) => exists|j: int, now: int|
                    0 <= j < old(self)@.tasks.len() && old(self)@.tasks[j].id == id@ && t@
                        == #[trigger] completion_update(old(self)@.tasks[j], completed, now)
                        && final(self)@.tasks == old(self)@.tasks.update(j, t@),
                Err(e) => e == StoreError::NotFound && final(self)@ == old(self)@,
            },
    {
        let now = current_time();
        self.mark_task_complete_at(id, completed, now)
    }

    /// Lists the tasks due today by the current clock reading, soonest due
    /// first. A clock outside the representable window is reported as a
    /// constraint violation.
    pub fn get_today_tasks(&self) -> (r: Result<Vec<Task>, StoreError>)
        ensures
            match r {
                Ok(v) => exists|now: int|
                    0 <= now && #[trigger] today_listing(self@, now, task_views(v@)),
                Err(e) => e == StoreError::ConstraintViolation,
            },
    {
        let now = current_time();
        if now < 0 || now > MAX_WINDOW_TIME {
            return Err(StoreError::ConstraintViolation);
        }
        self.get_today_tasks_at(now)
    }

    /// Lists the tasks due in the seven full days after today by the current
    /// clock reading, soonest due first. A clock outside the representable
    /// window is reported as a constraint violation.
    pub fn get_upcoming_tasks(&self) -> (r: Result<Vec<Task>, StoreError>)
        ensures
            match r {
                Ok(v) => exists|now: int|
                    0 <= now && #[trigger] upcoming_listing(self@, now, task_views(v@)),
                Err(e) => e == StoreError::ConstraintViolation,
            },
    {
        let now = current_time();
        if now < 0 || now > MAX_WINDOW_TIME {
            return Err(StoreError::ConstraintViolation);
        }
        self.get_upcoming_tasks_at(now)
    }

    /// A snapshot of the aggregate counts at the current clock reading. A
    /// clock outside the representable window is reported as a constraint
    /// violation.
    pub fn get_task_stats(&self) -> (r: Result<TaskStats, StoreError>)
        requires
            self.wf(),
        ensures
            match r {
                Ok(s) => exists|now: int| 0 <= now && #[trigger] stats_snapshot(self@, now, s),
                Err(e) => e == StoreError::ConstraintViolation,
            },
    {
        let now = current_time();
        if now < 0 || now > MAX_WINDOW_TIME {
            return Err(StoreError::ConstraintViolation);
        }
        self.get_task_stats_at(now)
    }

}

/// Relies on `uuid::Uuid::new_v4` for a random version-4 identifier and on
/// its `Display` form, which renders the 36-character hyphenated text.
/// Nothing is assumed beyond the length: the value is random.
#[verifier::external_body]
fn fresh_id() -> (r: String)
    ensures
        r@.len() == 36,
{
    uuid::Uuid::new_v4().to_string()
}

/// Relies on `chrono::Utc::now` and `chrono::DateTime::timestamp_millis`
/// for the current UTC time in milliseconds since the Unix epoch. Nothing is
/// assumed of the value.
#[verifier::external_body]
fn current_time() -> i64 {
    chrono::Utc::now().timestamp_millis()
}

/// Which task rows a copying read keeps.
enum TaskFilter {
    /// Tasks belonging to the given project.
    InProject(String),
    /// Tasks due within the calendar day of the query time.
    DueToday,
    /// Tasks due within the seven full days after that day.
    DueUpcoming,
}

/// The predicate a `TaskFilter` stands for at query time `now`.
spec fn task_filter_pred(filter: TaskFilter, now: int) -> spec_fn(TaskView) -> bool {
    match filter {
        TaskFilter::InProject(id) => |t: TaskView| t.project_id == Some(id@),
        TaskFilter::DueToday => |t: TaskView| due_today_task(t, now),
        TaskFilter::DueUpcoming => |t: TaskView| due_upcoming_task(t, now),
    }
}

} // verus!
