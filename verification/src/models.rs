//! The entities of the tracker — projects and tasks — together with the typed
//! inputs of the store operations, the aggregate statistics record, and the
//! store's error kinds.
//!
//! Each executable type has a mathematical view (`ProjectView`, `TaskView`,
//! ...) over sequences of characters and unbounded integers; every contract in
//! this crate is stated over those views. Timestamps are UTC, in
//! milliseconds since the Unix epoch (sub-second precision).

use vstd::prelude::*;

verus! {

/// Lifecycle state of a task.
#[derive(Clone, Copy, Debug, PartialEq, Eq, Structural)]
pub enum TaskStatus {
    Todo,
    InProgress,
    Done,
}

/// Importance of a task.
#[derive(Clone, Copy, Debug, PartialEq, Eq, Structural)]
pub enum TaskPriority {
    Low,
    Medium,
    High,
}

/// The text under which a status is persisted.
pub open spec fn status_text(s: TaskStatus) -> Seq<char> {
    match s {
        TaskStatus::Todo => "todo"@,
        TaskStatus::InProgress => "in_progress"@,
        TaskStatus::Done => "done"@,
    }
}

/// The status a persisted text decodes to. Unrecognized text falls back to
/// the default variant `Todo` rather than failing.
pub open spec fn status_of_text(t: Seq<char>) -> TaskStatus {
    if t == "in_progress"@ {
        TaskStatus::InProgress
    } else if t == "done"@ {
        TaskStatus::Done
    } else {
        TaskStatus::Todo
    }
}

/// The text under which a priority is persisted.
pub open spec fn priority_text(p: TaskPriority) -> Seq<char> {
    match p {
        TaskPriority::Low => "low"@,
        TaskPriority::Medium => "medium"@,
        TaskPriority::High => "high"@,
    }
}

/// The priority a persisted text decodes to. Unrecognized text falls back to
/// the default variant `Low` rather than failing.
pub open spec fn priority_of_text(t: Seq<char>) -> TaskPriority {
    if t == "medium"@ {
        TaskPriority::Medium
    } else if t == "high"@ {
        TaskPriority::High
    } else {
        TaskPriority::Low
    }
}

/// Encodes a status as its persisted text.
pub fn status_to_text(s: TaskStatus) -> (r: String)
    ensures
        r@ == status_text(s),
{
    match s {
        TaskStatus::Todo => "todo".to_owned(),
        TaskStatus::InProgress => "in_progress".to_owned(),
        TaskStatus::Done => "done".to_owned(),
    }
}

/// Decodes persisted text into a status, leniently: unrecognized text maps to
/// `Todo`.
pub fn status_from_text(t: &String) -> (r: TaskStatus)
    ensures
        r == status_of_text(t@),
{
    if t.eq(&"in_progress".to_owned()) {
        TaskStatus::InProgress
    } else if t.eq(&"done".to_owned()) {
        TaskStatus::Done
    } else {
        TaskStatus::Todo
    }
}

/// Encodes a priority as its persisted text.
pub fn priority_to_text(p: TaskPriority) -> (r: String)
    ensures
        r@ == priority_text(p),
{
    match p {
        TaskPriority::Low => "low".to_owned(),
        TaskPriority::Medium => "medium".to_owned(),
        TaskPriority::High => "high".to_owned(),
    }
}

/// Decodes persisted text into a priority, leniently: unrecognized text maps
/// to `Low`.
pub fn priority_from_text(t: &String) -> (r: TaskPriority)
    ensures
        r == priority_of_text(t@),
{
    if t.eq(&"medium".to_owned()) {
        TaskPriority::Medium
    } else if t.eq(&"high".to_owned()) {
        TaskPriority::High
    } else {
        TaskPriority::Low
    }
}

/// The view of an optional text field.
pub open spec fn text_opt(o: Option<String>) -> Option<Seq<char>> {
    match o {
        Some(s) => Some(s@),
        None => None,
    }
}

/// Copies an optional text field.
pub fn clone_text_opt(o: &Option<String>) -> (r: Option<String>)
    ensures
        text_opt(r) == text_opt(*o),
{
    match o {
        Some(s) => Some(s.clone()),
        None => None,
    }
}

/// A named grouping that tasks may optionally belong to.
#[derive(Clone, Debug)]
pub struct Project {
    pub id: String,
    pub name: String,
    pub description: Option<String>,
    pub color: String,
    pub created_at: i64,
    pub updated_at: i64,
}

/// Mathematical view of a `Project`.
#[verifier::ext_equal]
pub ghost struct ProjectView {
    pub id: Seq<char>,
    pub name: Seq<char>,
    pub description: Option<Seq<char>>,
    pub color: Seq<char>,
    pub created_at: int,
    pub updated_at: int,
}

impl View for Project {
    type V = ProjectView;

    open spec fn view(&self) -> ProjectView {
        ProjectView {
            id: self.id@,
            name: self.name@,
            description: text_opt(self.description),
            color: self.color@,
            created_at: self.created_at as int,
            updated_at: self.updated_at as int,
        }
    }
}

impl Project {
    /// An independent copy, field-equal to the original.
    pub fn duplicate(&self) -> (r: Project)
        ensures
            r@ == self@,
    {
        Project {
            id: self.id.clone(),
            name: self.name.clone(),
            description: clone_text_opt(&self.description),
            color: self.color.clone(),
            created_at: self.created_at,
            updated_at: self.updated_at,
        }
    }
}

/// A unit of work with status, priority, optional due date, and completion
/// state.
#[derive(Clone, Debug)]
pub struct Task {
    pub id: String,
    pub title: String,
    pub description: Option<String>,
    pub project_id: Option<String>,
    pub status: TaskStatus,
    pub priority: TaskPriority,
    pub due_date: Option<i64>,
    pub completed: bool,
    pub completed_at: Option<i64>,
    pub created_at: i64,
    pub updated_at: i64,
}

/// Mathematical view of a `Task`.
#[verifier::ext_equal]
pub ghost struct TaskView {
    pub id: Seq<char>,
    pub title: Seq<char>,
    pub description: Option<Seq<char>>,
    pub project_id: Option<Seq<char>>,
    pub status: TaskStatus,
    pub priority: TaskPriority,
    pub due_date: Option<int>,
    pub completed: bool,
    pub completed_at: Option<int>,
    pub created_at: int,
    pub updated_at: int,
}

/// The view of an optional timestamp field.
pub open spec fn time_opt(o: Option<i64>) -> Option<int> {
    match o {
        Some(t) => Some(t as int),
        None => None,
    }
}

impl View for Task {
    type V = TaskView;

    open spec fn view(&self) -> TaskView {
        TaskView {
            id: self.id@,
            title: self.title@,
            description: text_opt(self.description),
            project_id: text_opt(self.project_id),
            status: self.status,
            priority: self.priority,
            due_date: time_opt(self.due_date),
            completed: self.completed,
            completed_at: time_opt(self.completed_at),
            created_at: self.created_at as int,
            updated_at: self.updated_at as int,
        }
    }
}

impl Task {
    /// An independent copy, field-equal to the original.
    pub fn duplicate(&self) -> (r: Task)
        ensures
            r@ == self@,
    {
        Task {
            id: self.id.clone(),
            title: self.title.clone(),
            description: clone_text_opt(&self.description),
            project_id: clone_text_opt(&self.project_id),
            status: self.status,
            priority: self.priority,
            due_date: self.due_date,
            completed: self.completed,
            completed_at: self.completed_at,
            created_at: self.created_at,
            updated_at: self.updated_at,
        }
    }
}

/// Input of project creation.
#[derive(Clone, Debug)]
pub struct CreateProject {
    pub name: String,
    pub description: Option<String>,
    pub color: String,
}

/// Input of a partial project update. A field left `None` is not supplied and
/// keeps its stored value; a field supplied `Some` overwrites it, even with an
/// empty text.
#[derive(Clone, Debug)]
pub struct UpdateProject {
    pub id: String,
    pub name: Option<String>,
    pub description: Option<String>,
    pub color: Option<String>,
}

/// Input of task creation.
#[derive(Clone, Debug)]
pub struct CreateTask {
    pub title: String,
    pub description: Option<String>,
    pub project_id: Option<String>,
    pub status: TaskStatus,
    pub priority: TaskPriority,
    pub due_date: Option<i64>,
}

/// Input of a partial task update, with the same presence/absence semantics
/// as `UpdateProject`. `completed` drives the automatic `completed_at`
/// bookkeeping; `completed_at` itself is never settable by the caller.
#[derive(Clone, Debug)]
pub struct UpdateTask {
    pub id: String,
    pub title: Option<String>,
    pub description: Option<String>,
    pub project_id: Option<String>,
    pub status: Option<TaskStatus>,
    pub priority: Option<TaskPriority>,
    pub due_date: Option<i64>,
    pub completed: Option<bool>,
}

/// Aggregate counts over the task table, as of one moment.
#[derive(Clone, Copy, Debug, PartialEq, Eq, Structural)]
pub struct TaskStats {
    pub total_tasks: i32,
    pub completed_tasks: i32,
    pub pending_tasks: i32,
    pub today_tasks: i32,
    pub overdue_tasks: i32,
}

/// The kinds of failure a store operation can report.
#[derive(Clone, Copy, Debug, PartialEq, Eq, Structural)]
pub enum StoreError {
    /// The target of an update does not exist.
    NotFound,
    /// The store rejected a write (for instance a duplicate identifier).
    ConstraintViolation,
    /// The backing store could not be opened.
    InitializationFailure,
    /// The store-wide mutual-exclusion guard could not be acquired.
    LockContention,
}

} // verus!
