//! The task store, without its file: how tasks are written as records, and
//! what a stored list of records means as a list of tasks.
//!
//! A record is what the persisted file holds for one task; its due time is
//! the canonical text `YYYY-MM-DD:HH:MM`. The caller reads and writes the
//! file and turns its bytes into records and back.

use vstd::prelude::*;
use crate::clock::{
    lemma_canonical_then_parse, lemma_parse_then_canonical, parse_canonical_spec, CivilTime,
};
use crate::task::{all_wf, Task, TaskView};
use crate::text::chars_of;

verus! {

/// One task as the persisted file holds it.
#[derive(Debug, PartialEq, Eq)]
pub struct TaskRecord {
    /// The due time as `YYYY-MM-DD:HH:MM`.
    pub when: String,
    pub name: String,
    pub notified: bool,
}

impl Clone for TaskRecord {
    fn clone(&self) -> (copy: Self)
        ensures
            copy == *self,
    {
        TaskRecord { when: self.when.clone(), name: self.name.clone(), notified: self.notified }
    }
}

/// The task that a record stands for, if its due time is a canonical text of
/// a real moment.
pub open spec fn task_of_record(record: TaskRecord) -> Option<TaskView> {
    match parse_canonical_spec(record.when@) {
        Some(when) => Some(TaskView { when, name: record.name@, notified: record.notified }),
        None => None,
    }
}

/// Whether `record` is the record of `task`.
pub open spec fn is_record_of(record: TaskRecord, task: Task) -> bool {
    &&& record.when@ == task.when.canonical_text()
    &&& record.name@ == task.name@
    &&& record.notified == task.notified
}

/// Whether every record of the list stands for a task.
pub open spec fn all_readable(records: Seq<TaskRecord>) -> bool {
    forall|i: int| 0 <= i < records.len() ==> (#[trigger] task_of_record(records[i])) is Some
}

/// Whether `tasks` are, one by one and in order, the tasks of `records`.
pub open spec fn tasks_match(tasks: Seq<Task>, records: Seq<TaskRecord>) -> bool {
    &&& tasks.len() == records.len()
    &&& forall|i: int|
        0 <= i < tasks.len() ==> task_of_record(records[i]) == Some((#[trigger] tasks[i])@)
}

/// Whether `records` are, one by one and in order, the records of `tasks`.
pub open spec fn records_match(records: Seq<TaskRecord>, tasks: Seq<Task>) -> bool {
    &&& records.len() == tasks.len()
    &&& forall|i: int| 0 <= i < records.len() ==> is_record_of(#[trigger] records[i], tasks[i])
}

/// Writes a task as a record.
pub fn record_of(task: &Task) -> (record: TaskRecord)
    requires
        task.wf(),
    ensures
        is_record_of(record, *task),
{
    TaskRecord { when: task.when.canonical(), name: task.name.clone(), notified: task.notified }
}

/// Reads a record as a task.
pub fn task_from_record(record: &TaskRecord) -> (task: Option<Task>)
    ensures
        task matches Some(t) ==> task_of_record(*record) == Some(t@) && t.wf(),
        task is None ==> task_of_record(*record) is None,
{
    let stamp = chars_of(record.when.as_str());
    match CivilTime::parse_canonical(&stamp) {
        Some(when) => {
            proof {
                lemma_parse_then_canonical(stamp@);
            }
            Some(Task { when, name: record.name.clone(), notified: record.notified })
        },
        None => None,
    }
}

/// The records under which `tasks` are persisted: one per task, in order.
pub fn records_for_store(tasks: &Vec<Task>) -> (records: Vec<TaskRecord>)
    requires
        all_wf(tasks@),
    ensures
        records_match(records@, tasks@),
{
    let mut records: Vec<TaskRecord> = Vec::new();
    let mut i: usize = 0;
    while i < tasks.len()
        invariant
            i <= tasks.len(),
            all_wf(tasks@),
            records.len() == i,
            forall|j: int| 0 <= j < i ==> is_record_of(#[trigger] records[j], tasks@[j]),
        decreases tasks.len() - i,
    {
        records.push(record_of(&tasks[i]));
        i = i + 1;
    }
    records
}

/// The task list that the store holds.
///
/// `stored` is `None` when there is no file or when it could not be read as
/// a list of records. An absent or unreadable store, and one in which some
/// record has no valid due time, count as empty: a corrupt store never
/// stops the scheduler. Otherwise the list holds the task of every record,
/// in stored order.
pub fn tasks_from_store(stored: Option<Vec<TaskRecord>>) -> (tasks: Vec<Task>)
    ensures
        all_wf(tasks@),
        stored is None ==> tasks@.len() == 0,
        stored matches Some(records) ==> (if all_readable(records@) {
            tasks_match(tasks@, records@)
        } else {
            tasks@.len() == 0
        }),
{
    let records = match stored {
        Some(records) => records,
        None => { return Vec::new(); },
    };
    let mut tasks: Vec<Task> = Vec::new();
    let mut i: usize = 0;
    while i < records.len()
        invariant
            stored == Some(records),
            i <= records.len(),
            tasks.len() == i,
            all_wf(tasks@),
            forall|j: int|
                0 <= j < i ==> task_of_record(records@[j]) == Some((#[trigger] tasks[j])@),
        decreases records.len() - i,
    {
        match task_from_record(&records[i]) {
            Some(task) => {
                tasks.push(task);
            },
            None => {
                assert(task_of_record(records@[i as int]) is None);
                return Vec::new();
            },
        }
        i = i + 1;
    }
    assert forall|j: int| 0 <= j < records.len() implies (#[trigger] task_of_record(
        records@[j],
    )) is Some by {
        assert(task_of_record(records@[j]) == Some(tasks[j]@));
    }
    tasks
}

/// What is written is read back unchanged: the records of well-formed tasks
/// are all readable, and they stand for these very tasks.
pub proof fn lemma_store_round_trip(tasks: Seq<Task>, records: Seq<TaskRecord>)
    requires
        all_wf(tasks),
        records_match(records, tasks),
    ensures
        all_readable(records),
        tasks_match(tasks, records),
{
    assert forall|i: int| 0 <= i < records.len() implies task_of_record(records[i]) == Some(
        (#[trigger] tasks[i])@,
    ) by {
        assert(tasks[i].wf());
        assert(is_record_of(records[i], tasks[i]));
        lemma_canonical_then_parse(tasks[i].when);
    }
    assert forall|i: int| 0 <= i < records.len() implies (#[trigger] task_of_record(
        records[i],
    )) is Some by {
        assert(task_of_record(records[i]) == Some(tasks[i]@));
    }
}

} // verus!
