use promanager::models::{CreateTask, TaskPriority, TaskStatus};
use promanager::store::Database;
use promanager::timeline::day_start_of;

const NOW: i64 = 1_000_000_000_000;
const DAY: i64 = 86_400_000;

fn due_task(title: &str, due: Option<i64>) -> CreateTask {
    CreateTask {
        title: title.to_string(),
        description: None,
        project_id: None,
        status: TaskStatus::Todo,
        priority: TaskPriority::Low,
        due_date: due,
    }
}

#[test]
fn day_start_truncates_to_midnight() {
    assert_eq!(day_start_of(0), 0);
    assert_eq!(day_start_of(DAY - 1), 0);
    assert_eq!(day_start_of(DAY), DAY);
    assert_eq!(day_start_of(NOW), NOW - NOW % DAY);
}

#[test]
fn window_boundaries_split_today_upcoming_and_neither() {
    let start = day_start_of(NOW);
    let mut db = Database::new().unwrap();
    db.create_task_with(due_task("midnight", Some(start)), "t-1".to_string(), 1).unwrap();
    db.create_task_with(due_task("last-second", Some(start + 86_399_000)), "t-2".to_string(), 2)
        .unwrap();
    db.create_task_with(
        due_task("tomorrow-early", Some(start + DAY + 1000)),
        "t-3".to_string(),
        3,
    )
    .unwrap();
    db.create_task_with(
        due_task("eighth-day", Some(start + 8 * DAY)),
        "t-4".to_string(),
        4,
    )
    .unwrap();
    db.create_task_with(due_task("dateless", None), "t-5".to_string(), 5).unwrap();

    let today = db.get_today_tasks_at(NOW).unwrap();
    let today_ids: Vec<&str> = today.iter().map(|t| t.id.as_str()).collect();
    assert_eq!(today_ids, vec!["t-1", "t-2"]);

    let upcoming = db.get_upcoming_tasks_at(NOW).unwrap();
    let upcoming_ids: Vec<&str> = upcoming.iter().map(|t| t.id.as_str()).collect();
    assert_eq!(upcoming_ids, vec!["t-3"]);
}

#[test]
fn upcoming_covers_exactly_seven_full_days() {
    let start = day_start_of(NOW);
    let mut db = Database::new().unwrap();
    db.create_task_with(due_task("tomorrow", Some(start + DAY)), "t-1".to_string(), 1).unwrap();
    db.create_task_with(
        due_task("seventh-day-end", Some(start + 8 * DAY - 1)),
        "t-2".to_string(),
        2,
    )
    .unwrap();
    db.create_task_with(due_task("today", Some(start + 100)), "t-3".to_string(), 3).unwrap();
    let upcoming = db.get_upcoming_tasks_at(NOW).unwrap();
    let ids: Vec<&str> = upcoming.iter().map(|t| t.id.as_str()).collect();
    assert_eq!(ids, vec!["t-1", "t-2"]);
}

#[test]
fn due_listings_come_soonest_first() {
    let start = day_start_of(NOW);
    let mut db = Database::new().unwrap();
    db.create_task_with(due_task("noon", Some(start + 12 * 3_600_000)), "t-1".to_string(), 1)
        .unwrap();
    db.create_task_with(due_task("dawn", Some(start + 6 * 3_600_000)), "t-2".to_string(), 2)
        .unwrap();
    db.create_task_with(due_task("dusk", Some(start + 18 * 3_600_000)), "t-3".to_string(), 3)
        .unwrap();
    let today = db.get_today_tasks_at(NOW).unwrap();
    let ids: Vec<&str> = today.iter().map(|t| t.id.as_str()).collect();
    assert_eq!(ids, vec!["t-2", "t-1", "t-3"]);
}

#[test]
fn stats_count_total_completed_pending_today_overdue() {
    let mut db = Database::new().unwrap();
    db.create_task_with(due_task("due-today", Some(NOW + 1000)), "t-1".to_string(), 1).unwrap();
    db.create_task_with(due_task("overdue", Some(NOW - DAY)), "t-2".to_string(), 2).unwrap();
    db.create_task_with(due_task("done-a", None), "t-3".to_string(), 3).unwrap();
    db.create_task_with(due_task("done-b", None), "t-4".to_string(), 4).unwrap();
    db.create_task_with(due_task("open", None), "t-5".to_string(), 5).unwrap();
    db.mark_task_complete_at("t-3".to_string(), true, 6).unwrap();
    db.mark_task_complete_at("t-4".to_string(), true, 7).unwrap();

    let stats = db.get_task_stats_at(NOW).unwrap();
    assert_eq!(stats.total_tasks, 5);
    assert_eq!(stats.completed_tasks, 2);
    assert_eq!(stats.pending_tasks, 3);
    assert_eq!(stats.today_tasks, 1);
    assert_eq!(stats.overdue_tasks, 1);
}

#[test]
fn completed_task_due_in_past_is_not_overdue() {
    let mut db = Database::new().unwrap();
    db.create_task_with(due_task("finished-late", Some(NOW - 500)), "t-1".to_string(), 1)
        .unwrap();
    db.mark_task_complete_at("t-1".to_string(), true, 2).unwrap();
    let stats = db.get_task_stats_at(NOW).unwrap();
    assert_eq!(stats.overdue_tasks, 0);
    assert_eq!(stats.completed_tasks, 1);
}

#[test]
fn stats_on_empty_store_are_all_zero() {
    let db = Database::new().unwrap();
    let stats = db.get_task_stats_at(NOW).unwrap();
    assert_eq!(stats.total_tasks, 0);
    assert_eq!(stats.completed_tasks, 0);
    assert_eq!(stats.pending_tasks, 0);
    assert_eq!(stats.today_tasks, 0);
    assert_eq!(stats.overdue_tasks, 0);
}
