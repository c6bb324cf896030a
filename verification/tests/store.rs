use osai_core::clock::CivilTime;
use osai_core::store::{
    record_of, records_for_store, task_from_record, tasks_from_store, TaskRecord,
};
use osai_core::task::Task;

fn record(when: &str, name: &str, notified: bool) -> TaskRecord {
    TaskRecord { when: when.to_string(), name: name.to_string(), notified }
}

#[test]
fn a_record_holds_the_canonical_due_time() {
    let mut task = Task::new(CivilTime::new(2025, 3, 9, 7, 5, 0).unwrap(), "a: b".to_string());
    assert_eq!(record_of(&task), record("2025-03-09:07:05", "a: b", false));
    task.notified = true;
    assert_eq!(record_of(&task), record("2025-03-09:07:05", "a: b", true));
}

#[test]
fn a_record_reads_back_as_its_task() {
    let task = task_from_record(&record("2025-03-09:07:05", " kept as is ", true)).unwrap();
    assert_eq!(task.when, CivilTime::new(2025, 3, 9, 7, 5, 0).unwrap());
    assert_eq!(task.name, " kept as is ");
    assert!(task.notified);
}

#[test]
fn a_record_without_a_valid_due_time_is_no_task() {
    for when in ["", "2025-03-09 07:05", "2025-02-30:07:05", "2025-03-09:07:05:00", "soon"] {
        assert!(task_from_record(&record(when, "x", false)).is_none());
    }
}

#[test]
fn an_absent_store_is_empty() {
    assert!(tasks_from_store(None).is_empty());
    assert!(tasks_from_store(Some(Vec::new())).is_empty());
}

#[test]
fn a_store_with_a_corrupt_record_is_empty() {
    let stored = vec![
        record("2025-03-09:07:05", "fine", false),
        record("2025-03-09 07:05", "old format", false),
        record("2025-03-10:07:05", "fine too", true),
    ];
    assert!(tasks_from_store(Some(stored)).is_empty());
}

#[test]
fn a_store_is_read_in_stored_order() {
    let stored = vec![
        record("2025-03-10:07:05", "second day", true),
        record("2025-03-09:07:05", "first day", false),
        record("2025-03-09:07:05", "first day", false),
    ];
    let tasks = tasks_from_store(Some(stored.clone()));
    assert_eq!(tasks.len(), 3);
    assert_eq!(tasks[0].name, "second day");
    assert!(tasks[0].notified);
    assert_eq!(tasks[1].when, CivilTime::new(2025, 3, 9, 7, 5, 0).unwrap());
    assert!(!tasks[2].notified);
    assert_eq!(records_for_store(&tasks), stored);
}

#[test]
fn what_is_written_is_read_back() {
    let tasks = vec![
        Task::new(CivilTime::new(0, 1, 1, 0, 0, 0).unwrap(), String::new()),
        Task::new(CivilTime::new(2024, 2, 29, 23, 59, 0).unwrap(), "leap: day".to_string()),
        Task::new(CivilTime::new(9999, 12, 31, 12, 30, 0).unwrap(), "遠い未来".to_string()),
    ];
    let back = tasks_from_store(Some(records_for_store(&tasks)));
    assert_eq!(back.len(), tasks.len());
    for (read, written) in back.iter().zip(tasks.iter()) {
        assert_eq!(read.when, written.when);
        assert_eq!(read.name, written.name);
        assert_eq!(read.notified, written.notified);
    }
}
