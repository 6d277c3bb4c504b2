use carpem::date::{CivilDate, DateTime, TimeOfDay};
use carpem::event::Event;
use carpem::storage::{
    check_foreign_keys, custom_filter_query, filtered_tasks_query, stored_event_id, stored_tag_id, stored_task_id,
    table_creation_queries, tag_filter_needs_query, tag_filter_query, tracked_ids, DataBaseError,
};
use carpem::task::{Status, Tag, Task};

fn day() -> DateTime {
    DateTime {
        date: CivilDate { year: 2025, month: 1, day: 2 },
        time: TimeOfDay { hour: 0, minute: 0, second: 0, nanosecond: 0 },
    }
}

fn task(id: Option<i64>) -> Task {
    Task::new(id, "t", "d", 1, vec![], Status::Pending, day(), None, None, None, None)
}

#[test]
fn creates_only_missing_tables() {
    let all = table_creation_queries(&vec![]);
    assert_eq!(all.len(), 6);
    assert!(all[0].contains("CREATE TABLE tasks"));
    assert!(all[1].contains("CREATE TABLE events"));
    assert!(all[2].contains("CREATE TABLE tags"));
    assert!(all[3].contains("CREATE TABLE task_tags"));
    assert!(all[4].contains("DROP VIEW IF EXISTS task_view"));
    assert!(all[5].contains("CREATE VIEW task_view"));

    let some = table_creation_queries(&vec!["tags".to_string(), "tasks".to_string(), "other".to_string()]);
    assert_eq!(some.len(), 4);
    assert!(some[0].contains("CREATE TABLE events"));
    assert!(some[1].contains("CREATE TABLE task_tags"));

    let existing: Vec<String> =
        ["tasks", "events", "tags", "task_tags", "task_view"].iter().map(|s| s.to_string()).collect();
    assert!(table_creation_queries(&existing).is_empty());
}

#[test]
fn foreign_keys_must_be_on() {
    assert!(check_foreign_keys(1).is_ok());
    assert!(matches!(check_foreign_keys(0), Err(DataBaseError::ForeignKeyUpdateFailed(0))));
    assert!(matches!(check_foreign_keys(7), Err(DataBaseError::ForeignKeyUpdateFailed(7))));
}

#[test]
fn stored_ids() {
    assert_eq!(stored_task_id(&task(Some(4))).unwrap(), 4);
    match stored_task_id(&task(None)) {
        Err(DataBaseError::TaskIdMissing(t)) => assert_eq!(t, "t"),
        _ => panic!("expected a missing task id"),
    }
    assert_eq!(stored_tag_id(&Tag::new(Some(2), "x")).unwrap(), 2);
    match stored_tag_id(&Tag::new(None, "x")) {
        Err(DataBaseError::TagIdMissing(t)) => assert_eq!(t, "x"),
        _ => panic!("expected a missing tag id"),
    }
    let event = Event::new(None, "e", "", None, day(), None, None, vec![]);
    match stored_event_id(&event) {
        Err(DataBaseError::EventIdMissing(t)) => assert_eq!(t, "e"),
        _ => panic!("expected a missing event id"),
    }
    let event = Event::new(Some(9), "e", "", None, day(), None, None, vec![]);
    assert_eq!(stored_event_id(&event).unwrap(), 9);
}

#[test]
fn tracked_task_ids() {
    assert_eq!(tracked_ids(vec![Some(3), Some(1)]).unwrap(), vec![3, 1]);
    assert!(tracked_ids(vec![]).unwrap().is_empty());
    match tracked_ids(vec![Some(3), None, Some(2)]) {
        Err(DataBaseError::TaskIdMissing(t)) => assert_eq!(t, "NO NAME"),
        _ => panic!("expected a missing id"),
    }
}

#[test]
fn filter_queries() {
    let q = filtered_tasks_query(0, None);
    assert!(q.trim_end().ends_with("FROM task_view"));
    let q = filtered_tasks_query(3, None);
    assert!(q.contains("WHERE tag_id IN (?,?,?)"));
    assert!(q.ends_with("HAVING COUNT(DISTINCT tag_id) = ?)"));
    let q = filtered_tasks_query(1, Some("severity > 2"));
    assert!(q.contains("WHERE tag_id IN (?)"));
    assert!(q.ends_with(" AND (severity > 2);"));
    let q = filtered_tasks_query(0, Some("status = 'Done'"));
    assert!(q.ends_with("FROM task_view WHERE (status = 'Done');"));

    let q = tag_filter_query(2);
    assert!(q.contains("AND tag_id IN (?,?)"));
    assert!(q.ends_with("HAVING COUNT(DISTINCT tag_id) = ?);"));
    let q = custom_filter_query("title = 'x'");
    assert!(q.contains("SELECT 1 FROM tasks WHERE id = :id"));
    assert!(q.ends_with("AND (title = 'x'));"));

    assert!(!tag_filter_needs_query(&vec![]));
    assert!(tag_filter_needs_query(&vec![5]));
}
