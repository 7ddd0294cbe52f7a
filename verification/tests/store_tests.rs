use promanager::models::{
    CreateProject, CreateTask, StoreError, TaskPriority, TaskStatus, UpdateProject, UpdateTask,
};
use promanager::store::Database;

fn project_input(name: &str, color: &str) -> CreateProject {
    CreateProject { name: name.to_string(), description: None, color: color.to_string() }
}

fn task_input(title: &str) -> CreateTask {
    CreateTask {
        title: title.to_string(),
        description: None,
        project_id: None,
        status: TaskStatus::Todo,
        priority: TaskPriority::Medium,
        due_date: None,
    }
}

fn no_task_update(id: &str) -> UpdateTask {
    UpdateTask {
        id: id.to_string(),
        title: None,
        description: None,
        project_id: None,
        status: None,
        priority: None,
        due_date: None,
        completed: None,
    }
}

#[test]
fn create_then_list_yields_single_equal_project() {
    let mut db = Database::new().unwrap();
    let created = db
        .create_project_with(
            CreateProject {
                name: "inbox".to_string(),
                description: Some("catch-all".to_string()),
                color: "#ff0000".to_string(),
            },
            "p-1".to_string(),
            100,
        )
        .unwrap();
    assert_eq!(created.id, "p-1");
    assert_eq!(created.name, "inbox");
    assert_eq!(created.description.as_deref(), Some("catch-all"));
    assert_eq!(created.color, "#ff0000");
    assert_eq!(created.created_at, created.updated_at);

    let listed = db.get_projects().unwrap();
    assert_eq!(listed.len(), 1);
    assert_eq!(listed[0].id, created.id);
    assert_eq!(listed[0].name, created.name);
    assert_eq!(listed[0].description, created.description);
    assert_eq!(listed[0].color, created.color);
    assert_eq!(listed[0].created_at, created.created_at);
    assert_eq!(listed[0].updated_at, created.updated_at);
}

#[test]
fn color_only_update_touches_color_and_stamp_alone() {
    let mut db = Database::new().unwrap();
    let created = db
        .create_project_with(
            CreateProject {
                name: "inbox".to_string(),
                description: Some("catch-all".to_string()),
                color: "#ff0000".to_string(),
            },
            "p-1".to_string(),
            100,
        )
        .unwrap();
    let updated = db
        .update_project_at(
            UpdateProject {
                id: "p-1".to_string(),
                name: None,
                description: None,
                color: Some("#00ff00".to_string()),
            },
            250,
        )
        .unwrap();
    assert_eq!(updated.color, "#00ff00");
    assert_eq!(updated.updated_at, 250);
    assert!(updated.updated_at > created.updated_at);
    assert_eq!(updated.name, "inbox");
    assert_eq!(updated.description.as_deref(), Some("catch-all"));
    assert_eq!(updated.created_at, 100);
}

#[test]
fn supplied_empty_description_clears_while_absent_preserves() {
    let mut db = Database::new().unwrap();
    db.create_project_with(
        CreateProject {
            name: "inbox".to_string(),
            description: Some("keep me".to_string()),
            color: "#ff0000".to_string(),
        },
        "p-1".to_string(),
        100,
    )
    .unwrap();

    let untouched = db
        .update_project_at(
            UpdateProject {
                id: "p-1".to_string(),
                name: Some("renamed".to_string()),
                description: None,
                color: None,
            },
            150,
        )
        .unwrap();
    assert_eq!(untouched.description.as_deref(), Some("keep me"));

    let cleared = db
        .update_project_at(
            UpdateProject {
                id: "p-1".to_string(),
                name: None,
                description: Some(String::new()),
                color: None,
            },
            200,
        )
        .unwrap();
    assert_eq!(cleared.description.as_deref(), Some(""));
}

#[test]
fn update_with_stale_clock_clamps_stamp_to_creation() {
    let mut db = Database::new().unwrap();
    db.create_project_with(project_input("inbox", "#ff0000"), "p-1".to_string(), 100).unwrap();
    let updated = db
        .update_project_at(
            UpdateProject {
                id: "p-1".to_string(),
                name: None,
                description: None,
                color: Some("#00ff00".to_string()),
            },
            40,
        )
        .unwrap();
    assert_eq!(updated.created_at, 100);
    assert_eq!(updated.updated_at, 100);
    assert_eq!(updated.color, "#00ff00");
}

#[test]
fn update_absent_project_reports_not_found() {
    let mut db = Database::new().unwrap();
    let r = db.update_project_at(
        UpdateProject { id: "ghost".to_string(), name: None, description: None, color: None },
        10,
    );
    assert!(matches!(r, Err(StoreError::NotFound)));
}

#[test]
fn create_duplicate_identifier_reports_constraint_violation() {
    let mut db = Database::new().unwrap();
    db.create_project_with(project_input("a", "#111111"), "same".to_string(), 1).unwrap();
    let r = db.create_project_with(project_input("b", "#222222"), "same".to_string(), 2);
    assert!(matches!(r, Err(StoreError::ConstraintViolation)));
    assert_eq!(db.get_projects().unwrap().len(), 1);
}

#[test]
fn delete_project_cascades_and_is_idempotent() {
    let mut db = Database::new().unwrap();
    db.create_project_with(project_input("work", "#123456"), "p-1".to_string(), 10).unwrap();
    let mut in_project = task_input("one");
    in_project.project_id = Some("p-1".to_string());
    db.create_task_with(in_project, "t-1".to_string(), 11).unwrap();
    let mut second = task_input("two");
    second.project_id = Some("p-1".to_string());
    db.create_task_with(second, "t-2".to_string(), 12).unwrap();
    db.create_task_with(task_input("loose"), "t-3".to_string(), 13).unwrap();

    db.delete_project(&"p-1".to_string()).unwrap();
    assert_eq!(db.get_tasks_by_project(&"p-1".to_string()).unwrap().len(), 0);
    assert_eq!(db.get_projects().unwrap().len(), 0);
    assert_eq!(db.get_tasks().unwrap().len(), 1);

    let again = db.delete_project(&"p-1".to_string());
    assert!(again.is_ok());
    assert_eq!(db.get_tasks().unwrap().len(), 1);
}

#[test]
fn delete_task_removes_single_row_and_is_idempotent() {
    let mut db = Database::new().unwrap();
    db.create_task_with(task_input("a"), "t-1".to_string(), 1).unwrap();
    db.create_task_with(task_input("b"), "t-2".to_string(), 2).unwrap();
    db.delete_task(&"t-1".to_string()).unwrap();
    let left = db.get_tasks().unwrap();
    assert_eq!(left.len(), 1);
    assert_eq!(left[0].id, "t-2");
    db.delete_task(&"t-1".to_string()).unwrap();
    assert_eq!(db.get_tasks().unwrap().len(), 1);
}

#[test]
fn completion_bookkeeping_sets_keeps_and_clears_stamp() {
    let mut db = Database::new().unwrap();
    let created = db.create_task_with(task_input("chore"), "t-1".to_string(), 10).unwrap();
    assert!(!created.completed);
    assert_eq!(created.completed_at, None);

    let first = db.mark_task_complete_at("t-1".to_string(), true, 20).unwrap();
    assert!(first.completed);
    assert_eq!(first.completed_at, Some(20));

    let second = db.mark_task_complete_at("t-1".to_string(), true, 30).unwrap();
    assert!(second.completed);
    assert_eq!(second.completed_at, Some(20));
    assert_eq!(second.updated_at, 30);

    let third = db.mark_task_complete_at("t-1".to_string(), false, 40).unwrap();
    assert!(!third.completed);
    assert_eq!(third.completed_at, None);
}

#[test]
fn update_task_applies_only_supplied_fields() {
    let mut db = Database::new().unwrap();
    let mut data = task_input("draft");
    data.description = Some("first".to_string());
    data.due_date = Some(500);
    db.create_task_with(data, "t-1".to_string(), 10).unwrap();

    let mut upd = no_task_update("t-1");
    upd.status = Some(TaskStatus::InProgress);
    upd.priority = Some(TaskPriority::High);
    let t = db.update_task_at(upd, 20).unwrap();
    assert_eq!(t.title, "draft");
    assert_eq!(t.description.as_deref(), Some("first"));
    assert_eq!(t.status, TaskStatus::InProgress);
    assert_eq!(t.priority, TaskPriority::High);
    assert_eq!(t.due_date, Some(500));
    assert!(!t.completed);
    assert_eq!(t.created_at, 10);
    assert_eq!(t.updated_at, 20);
}

#[test]
fn update_absent_task_reports_not_found() {
    let mut db = Database::new().unwrap();
    let r = db.update_task_at(no_task_update("ghost"), 10);
    assert!(matches!(r, Err(StoreError::NotFound)));
}

#[test]
fn task_round_trip_preserves_every_input_field() {
    let mut db = Database::new().unwrap();
    let created = db
        .create_task_with(
            CreateTask {
                title: "write report".to_string(),
                description: Some("quarterly".to_string()),
                project_id: Some("p-9".to_string()),
                status: TaskStatus::Done,
                priority: TaskPriority::High,
                due_date: Some(777),
            },
            "t-1".to_string(),
            42,
        )
        .unwrap();
    let listed = db.get_tasks().unwrap();
    assert_eq!(listed.len(), 1);
    let t = &listed[0];
    assert_eq!(t.id, "t-1");
    assert_eq!(t.title, "write report");
    assert_eq!(t.description.as_deref(), Some("quarterly"));
    assert_eq!(t.project_id.as_deref(), Some("p-9"));
    assert_eq!(t.status, TaskStatus::Done);
    assert_eq!(t.priority, TaskPriority::High);
    assert_eq!(t.due_date, Some(777));
    assert!(!t.completed);
    assert_eq!(t.completed_at, None);
    assert_eq!(t.created_at, 42);
    assert_eq!(t.updated_at, 42);
    assert_eq!(created.id, t.id);
}

#[test]
fn listings_come_newest_first() {
    let mut db = Database::new().unwrap();
    db.create_project_with(project_input("oldest", "#111111"), "p-1".to_string(), 100).unwrap();
    db.create_project_with(project_input("middle", "#222222"), "p-2".to_string(), 200).unwrap();
    db.create_project_with(project_input("newest", "#333333"), "p-3".to_string(), 300).unwrap();
    let projects = db.get_projects().unwrap();
    let names: Vec<&str> = projects.iter().map(|p| p.name.as_str()).collect();
    assert_eq!(names, vec!["newest", "middle", "oldest"]);

    db.create_task_with(task_input("early"), "t-1".to_string(), 10).unwrap();
    db.create_task_with(task_input("late"), "t-2".to_string(), 20).unwrap();
    let tasks = db.get_tasks().unwrap();
    assert_eq!(tasks[0].title, "late");
    assert_eq!(tasks[1].title, "early");
}

#[test]
fn tasks_by_project_filters_and_orders() {
    let mut db = Database::new().unwrap();
    let mut a = task_input("a");
    a.project_id = Some("p-1".to_string());
    let mut b = task_input("b");
    b.project_id = Some("p-2".to_string());
    let mut c = task_input("c");
    c.project_id = Some("p-1".to_string());
    db.create_task_with(a, "t-1".to_string(), 10).unwrap();
    db.create_task_with(b, "t-2".to_string(), 20).unwrap();
    db.create_task_with(c, "t-3".to_string(), 30).unwrap();
    let ours = db.get_tasks_by_project(&"p-1".to_string()).unwrap();
    assert_eq!(ours.len(), 2);
    assert_eq!(ours[0].title, "c");
    assert_eq!(ours[1].title, "a");
    assert_eq!(db.get_tasks_by_project(&"missing".to_string()).unwrap().len(), 0);
}

#[test]
fn clock_backed_create_project_stamps_and_returns_fields() {
    let mut db = Database::new().unwrap();
    let p = db.create_project(project_input("live", "#abcdef")).unwrap();
    assert_eq!(p.name, "live");
    assert_eq!(p.color, "#abcdef");
    assert_eq!(p.created_at, p.updated_at);
    assert_eq!(p.id.len(), 36);
    let listed = db.get_projects().unwrap();
    assert_eq!(listed.len(), 1);
    assert_eq!(listed[0].id, p.id);
}

#[test]
fn clock_backed_task_operations_work_end_to_end() {
    let mut db = Database::new().unwrap();
    let t = db.create_task(task_input("live")).unwrap();
    assert!(!t.completed);
    assert_eq!(t.completed_at, None);
    let done = db.mark_task_complete(t.id.clone(), true).unwrap();
    assert!(done.completed);
    assert!(done.completed_at.is_some());
    let today = db.get_today_tasks().unwrap();
    assert_eq!(today.len(), 0);
    let upcoming = db.get_upcoming_tasks().unwrap();
    assert_eq!(upcoming.len(), 0);
    let stats = db.get_task_stats().unwrap();
    assert_eq!(stats.total_tasks, 1);
    assert_eq!(stats.completed_tasks, 1);
}
