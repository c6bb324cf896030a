use osai_core::clock::CivilTime;
use osai_core::lyric::render;
use osai_core::notifier::NotifierError;
use osai_core::scheduler::{
    due_tasks, finish_cycle, is_delivered, is_due, Delivery, RenderError,
    NOTIFICATION_LEAD_SECONDS, POLL_INTERVAL_SECONDS,
};
use osai_core::store::{records_for_store, tasks_from_store};
use osai_core::task::{add_new_task, Task};

fn at(hour: u32, minute: u32, second: u32) -> CivilTime {
    CivilTime::new(2025, 11, 19, hour, minute, second).unwrap()
}

fn sent() -> Delivery {
    Delivery::Delivered
}

fn unwritten() -> Delivery {
    Delivery::RenderFailed(RenderError { cause: "disk full".to_string() })
}

fn unplayed() -> Delivery {
    Delivery::PlaybackFailed("no sound device".to_string())
}

fn task_at_eight(name: &str) -> Task {
    Task::new(at(8, 0, 0), name.to_string())
}

#[test]
fn lead_is_five_minutes_and_the_poll_interval_five_seconds() {
    assert_eq!(NOTIFICATION_LEAD_SECONDS, 300);
    assert_eq!(POLL_INTERVAL_SECONDS, 5);
}

#[test]
fn window_opens_five_minutes_before_and_closes_at_the_due_time() {
    let task = task_at_eight("wake up");
    assert!(!is_due(&task, &at(7, 54, 59)));
    assert!(is_due(&task, &at(7, 55, 0)));
    assert!(is_due(&task, &at(7, 57, 30)));
    assert!(is_due(&task, &at(7, 59, 59)));
    assert!(!is_due(&task, &at(8, 0, 0)));
    assert!(!is_due(&task, &at(8, 0, 1)));
    assert!(!is_due(&task, &at(0, 0, 0)));
    assert!(!is_due(&task, &at(23, 59, 59)));
}

#[test]
fn window_crosses_midnight_and_the_turn_of_the_year() {
    let task = Task::new(CivilTime::new(2026, 1, 1, 0, 2, 0).unwrap(), "fireworks".to_string());
    assert!(!is_due(&task, &CivilTime::new(2025, 12, 31, 23, 56, 59).unwrap()));
    assert!(is_due(&task, &CivilTime::new(2025, 12, 31, 23, 57, 0).unwrap()));
    assert!(is_due(&task, &CivilTime::new(2026, 1, 1, 0, 1, 59).unwrap()));
    assert!(!is_due(&task, &CivilTime::new(2026, 1, 1, 0, 2, 0).unwrap()));
    let leap = Task::new(CivilTime::new(2024, 3, 1, 0, 0, 0).unwrap(), "march".to_string());
    assert!(is_due(&leap, &CivilTime::new(2024, 2, 29, 23, 55, 0).unwrap()));
    assert!(!is_due(&leap, &CivilTime::new(2024, 2, 28, 23, 58, 0).unwrap()));
}

#[test]
fn a_notified_task_is_never_due() {
    let mut task = task_at_eight("wake up");
    task.notified = true;
    for now in [at(7, 54, 59), at(7, 55, 0), at(7, 58, 0), at(7, 59, 59), at(8, 0, 0)] {
        assert!(!is_due(&task, &now));
        assert!(due_tasks(&vec![task.clone()], &now).is_empty());
    }
}

#[test]
fn checking_twice_fires_once() {
    let now = at(7, 56, 0);
    let tasks = vec![task_at_eight("wake up")];
    assert_eq!(due_tasks(&tasks, &now).len(), 1);
    let first = finish_cycle(tasks, &now, &vec![sent()]);
    assert!(first.needs_save);
    assert!(first.tasks[0].notified);
    assert!(due_tasks(&first.tasks, &now).is_empty());
    let later = at(7, 56, 5);
    assert!(due_tasks(&first.tasks, &later).is_empty());
    let second = finish_cycle(first.tasks, &later, &vec![sent()]);
    assert!(!second.needs_save);
    assert!(second.tasks[0].notified);
}

#[test]
fn a_late_task_is_skipped_for_good() {
    let tasks = vec![task_at_eight("missed")];
    let mut tasks = tasks;
    for now in [at(8, 0, 0), at(8, 0, 5), at(9, 30, 0), at(23, 59, 59)] {
        assert!(due_tasks(&tasks, &now).is_empty());
        let result = finish_cycle(tasks, &now, &vec![sent(), sent()]);
        assert!(!result.needs_save);
        assert!(!result.tasks[0].notified);
        tasks = result.tasks;
    }
}

#[test]
fn due_tasks_come_in_list_order_with_name_and_label() {
    let now = at(7, 58, 0);
    let mut fired = task_at_eight("already");
    fired.notified = true;
    let tasks = vec![
        Task::new(at(9, 0, 0), "too early".to_string()),
        task_at_eight("first"),
        fired,
        Task::new(at(7, 58, 0), "just over".to_string()),
        Task::new(at(8, 2, 0), "second".to_string()),
        Task::new(at(8, 3, 0), "edge".to_string()),
        Task::new(at(8, 4, 0), "not yet".to_string()),
    ];
    let notes = due_tasks(&tasks, &now);
    assert_eq!(notes.len(), 3);
    assert_eq!(notes[0].index, 1);
    assert_eq!(notes[0].task_name, "first");
    assert_eq!(notes[0].time_label, "08時00分");
    assert_eq!(notes[1].index, 4);
    assert_eq!(notes[1].task_name, "second");
    assert_eq!(notes[1].time_label, "08時02分");
    assert_eq!(notes[2].index, 5);
    assert_eq!(notes[2].task_name, "edge");
    assert_eq!(notes[2].time_label, "08時03分");
}

#[test]
fn only_delivered_notifications_mark_their_task() {
    let now = at(7, 58, 0);
    let tasks = vec![
        task_at_eight("a"),
        Task::new(at(9, 0, 0), "b".to_string()),
        Task::new(at(8, 1, 0), "c".to_string()),
        Task::new(at(8, 2, 0), "d".to_string()),
    ];
    let result = finish_cycle(tasks, &now, &vec![unwritten(), sent(), unplayed()]);
    assert!(result.needs_save);
    let flags: Vec<bool> = result.tasks.iter().map(|t| t.notified).collect();
    assert_eq!(flags, vec![false, false, true, false]);
    let names: Vec<&str> = result.tasks.iter().map(|t| t.name.as_str()).collect();
    assert_eq!(names, vec!["a", "b", "c", "d"]);
    assert_eq!(result.tasks[2].when, at(8, 1, 0));
    let retry = due_tasks(&result.tasks, &at(7, 58, 5));
    let indices: Vec<usize> = retry.iter().map(|n| n.index).collect();
    assert_eq!(indices, vec![0, 3]);
}

#[test]
fn a_due_task_without_an_outcome_stays_unnotified() {
    let now = at(7, 58, 0);
    let tasks = vec![task_at_eight("a"), task_at_eight("b"), task_at_eight("c")];
    let result = finish_cycle(tasks, &now, &vec![sent()]);
    assert!(result.needs_save);
    let flags: Vec<bool> = result.tasks.iter().map(|t| t.notified).collect();
    assert_eq!(flags, vec![true, false, false]);
    let none = finish_cycle(result.tasks, &now, &Vec::new());
    assert!(!none.needs_save);
}

#[test]
fn a_cycle_without_flips_needs_no_save_and_changes_nothing() {
    let now = at(7, 58, 0);
    let mut fired = task_at_eight("done");
    fired.notified = true;
    let tasks = vec![fired, Task::new(at(12, 0, 0), "noon".to_string()), task_at_eight("failing")];
    let before = records_for_store(&tasks);
    let result = finish_cycle(tasks, &now, &vec![unplayed()]);
    assert!(!result.needs_save);
    assert_eq!(records_for_store(&result.tasks), before);
    let empty = finish_cycle(Vec::new(), &now, &vec![sent()]);
    assert!(!empty.needs_save);
    assert!(empty.tasks.is_empty());
}

#[test]
fn a_flag_never_reverts() {
    let mut fired = task_at_eight("done");
    fired.notified = true;
    let mut tasks = vec![fired];
    for now in [at(7, 50, 0), at(7, 58, 0), at(8, 0, 0), at(9, 0, 0)] {
        for outcomes in [Vec::new(), vec![unwritten()], vec![sent()]] {
            let result = finish_cycle(tasks, &now, &outcomes);
            assert!(result.tasks[0].notified);
            assert!(!result.needs_save);
            tasks = result.tasks;
        }
    }
}

#[test]
fn one_cycle_from_store_to_store() {
    let now = at(7, 57, 0);
    let added = add_new_task("2025-11-19:08:00:stand-up: weekly").unwrap();
    let stored = records_for_store(&vec![added]);
    assert!(!stored[0].notified);

    let tasks = tasks_from_store(Some(stored));
    let notes = due_tasks(&tasks, &now);
    assert_eq!(notes.len(), 1);
    let line = render(
        &notes[0].task_name,
        &notes[0].time_label,
        Err(NotifierError::Exhausted("connection refused".to_string())),
    );
    assert_eq!(
        line,
        "08時00分にstand-up: weeklyがあります。5分前です。起きるです。,5,5,5,5,5,5,5,5,5,5,5,5,5,5"
    );
    assert_eq!(line.matches(',').count(), 14);

    let result = finish_cycle(tasks, &now, &vec![sent()]);
    assert!(result.needs_save);
    let reloaded = tasks_from_store(Some(records_for_store(&result.tasks)));
    assert_eq!(reloaded.len(), 1);
    assert!(reloaded[0].notified);
    assert_eq!(reloaded[0].name, "stand-up: weekly");
    assert_eq!(reloaded[0].when, at(8, 0, 0));
    assert!(due_tasks(&reloaded, &at(7, 57, 5)).is_empty());
}

#[test]
fn only_a_delivered_notification_counts() {
    assert!(is_delivered(&sent()));
    assert!(!is_delivered(&unwritten()));
    assert!(!is_delivered(&unplayed()));
}

#[test]
fn a_failed_rendering_or_playback_is_tried_again_inside_the_window() {
    let mut tasks = vec![task_at_eight("wake up")];
    for (now, outcome) in [(at(7, 55, 0), unwritten()), (at(7, 55, 5), unplayed())] {
        assert_eq!(due_tasks(&tasks, &now).len(), 1);
        let result = finish_cycle(tasks, &now, &vec![outcome]);
        assert!(!result.needs_save);
        assert!(!result.tasks[0].notified);
        tasks = result.tasks;
    }
    let result = finish_cycle(tasks, &at(7, 55, 10), &vec![sent()]);
    assert!(result.needs_save);
    assert!(result.tasks[0].notified);
}

#[test]
fn a_failure_that_outlasts_the_window_is_never_made_up_for() {
    let tasks = vec![task_at_eight("wake up")];
    let result = finish_cycle(tasks, &at(7, 59, 58), &vec![unwritten()]);
    assert!(!result.tasks[0].notified);
    assert!(due_tasks(&result.tasks, &at(8, 0, 3)).is_empty());
    let after = finish_cycle(result.tasks, &at(8, 0, 3), &vec![sent()]);
    assert!(!after.needs_save);
    assert!(!after.tasks[0].notified);
}
