//! The decisions of one polling cycle: which tasks are inside their
//! notification window, and what the task list is once the outcomes of their
//! notifications are known.
//!
//! The cycle itself (reload, sleep, the notification pipeline) is run by the
//! caller. It hands this module the freshly loaded list and the current time,
//! fires the notifications that [`due_tasks`] names, and passes their
//! outcomes to [`finish_cycle`], which marks the tasks and says whether the
//! list has to be written back.

use vstd::prelude::*;
use crate::clock::{
    is_before, lemma_seconds_bounds, lemma_seconds_follow_the_calendar, CivilTime,
};
use crate::task::{all_wf, Task};

verus! {

/// How long before its due time a task becomes eligible, in seconds.
pub const NOTIFICATION_LEAD_SECONDS: i64 = 300;

/// The pause between two polling cycles, in seconds.
pub const POLL_INTERVAL_SECONDS: u64 = 5;

/// The notification window `[when - lead, when)`, on the scale of seconds.
pub open spec fn in_window(now: int, when: int, lead: int) -> bool {
    when - lead <= now < when
}

/// A task is due at `now` when it has not fired and `now` lies in its window.
pub open spec fn is_due_spec(task: Task, now: CivilTime) -> bool {
    !task.notified && in_window(now.seconds(), task.when.seconds(), NOTIFICATION_LEAD_SECONDS as int)
}

/// The positions, in ascending order, of the tasks among the first `count`
/// that are due at `now`.
pub open spec fn due_indices(tasks: Seq<Task>, now: CivilTime, count: int) -> Seq<int>
    decreases count,
{
    if count <= 0 {
        Seq::<int>::empty()
    } else if is_due_spec(tasks[count - 1], now) {
        due_indices(tasks, now, count - 1).push(count - 1)
    } else {
        due_indices(tasks, now, count - 1)
    }
}

/// The place of the task at `index` among the due tasks: how many due tasks
/// stand before it.
pub open spec fn due_rank(tasks: Seq<Task>, now: CivilTime, index: int) -> int {
    due_indices(tasks, now, index).len() as int
}

/// Whether the task at `index` fires in a cycle at `now` in which the
/// notifications had the outcomes `delivered`, one per due task in order. A
/// due task without an outcome counts as not delivered.
pub open spec fn fires(tasks: Seq<Task>, now: CivilTime, delivered: Seq<bool>, index: int) -> bool {
    &&& is_due_spec(tasks[index], now)
    &&& due_rank(tasks, now, index) < delivered.len()
    &&& delivered[due_rank(tasks, now, index)]
}

/// The task at `index` after the cycle: marked if it fired, untouched if not.
pub open spec fn task_after(tasks: Seq<Task>, now: CivilTime, delivered: Seq<bool>, index: int) -> Task {
    if fires(tasks, now, delivered, index) {
        Task { when: tasks[index].when, name: tasks[index].name, notified: true }
    } else {
        tasks[index]
    }
}

/// The task list after the cycle.
pub open spec fn tasks_after(tasks: Seq<Task>, now: CivilTime, delivered: Seq<bool>) -> Seq<Task> {
    Seq::new(tasks.len(), |i: int| task_after(tasks, now, delivered, i))
}

/// Whether any task among the first `count` fires in the cycle.
pub open spec fn any_fires(tasks: Seq<Task>, now: CivilTime, delivered: Seq<bool>, count: int) -> bool {
    exists|i: int| 0 <= i < count && #[trigger] fires(tasks, now, delivered, i)
}

/// Tests whether a task is due.
pub fn is_due(task: &Task, now: &CivilTime) -> (due: bool)
    requires
        task.wf(),
        now.is_valid(),
    ensures
        due == is_due_spec(*task, *now),
{
    if task.notified {
        return false;
    }
    let when = task.when.unix_seconds();
    let current = now.unix_seconds();
    proof {
        lemma_seconds_bounds(task.when);
        lemma_seconds_bounds(*now);
    }
    when - NOTIFICATION_LEAD_SECONDS <= current && current < when
}

/// What the caller has to announce for one due task.
#[derive(Debug)]
pub struct Notification {
    /// The position of the task in the list.
    pub index: usize,
    /// The name of the task.
    pub task_name: String,
    /// The time of day at which it is due, as the announcement names it.
    pub time_label: String,
}

/// Whether `note` is the notification of the task at `index` of `tasks`.
pub open spec fn notifies(note: Notification, tasks: Seq<Task>, index: int) -> bool {
    &&& note.index == index
    &&& note.task_name@ == tasks[index].name@
    &&& note.time_label@ == tasks[index].when.label_text()
}

/// Selects the tasks that are due at `now`, in list order.
///
/// The result names exactly the tasks that have not fired and whose window
/// `[when - 5 min, when)` holds `now`: none twice, none left out.
pub fn due_tasks(tasks: &Vec<Task>, now: &CivilTime) -> (notes: Vec<Notification>)
    requires
        all_wf(tasks@),
        now.is_valid(),
    ensures
        notes.len() == due_indices(tasks@, *now, tasks.len() as int).len(),
        forall|k: int|
            0 <= k < notes.len() ==> notifies(
                #[trigger] notes[k],
                tasks@,
                due_indices(tasks@, *now, tasks.len() as int)[k],
            ),
{
    let mut notes: Vec<Notification> = Vec::new();
    let mut i: usize = 0;
    while i < tasks.len()
        invariant
            i <= tasks.len(),
            all_wf(tasks@),
            now.is_valid(),
            notes.len() == due_indices(tasks@, *now, i as int).len(),
            forall|k: int|
                0 <= k < notes.len() ==> notifies(
                    #[trigger] notes[k],
                    tasks@,
                    due_indices(tasks@, *now, i as int)[k],
                ),
        decreases tasks.len() - i,
    {
        let task = &tasks[i];
        if is_due(task, now) {
            let note = Notification {
                index: i,
                task_name: task.name.clone(),
                time_label: task.when.time_label(),
            };
            notes.push(note);
        }
        i = i + 1;
    }
    notes
}

/// Why the hand-off file of a notification could not be produced.
#[derive(Debug, PartialEq, Eq)]
pub struct RenderError {
    /// Why the write failed.
    pub cause: String,
}

/// How the notification of one due task went.
#[derive(Debug, PartialEq, Eq)]
pub enum Delivery {
    /// The hand-off file was written and the playback succeeded.
    Delivered,
    /// The hand-off file could not be written; nothing was played.
    RenderFailed(RenderError),
    /// The hand-off file was written, but the playback failed.
    PlaybackFailed(String),
}

/// For each notification, whether it went out: only a delivered one counts.
pub open spec fn delivered_flags(outcomes: Seq<Delivery>) -> Seq<bool> {
    Seq::new(outcomes.len(), |k: int| outcomes[k] is Delivered)
}

/// What a polling cycle leaves behind.
#[derive(Debug)]
pub struct CycleResult {
    /// The task list, with the tasks that fired marked as notified.
    pub tasks: Vec<Task>,
    /// Whether any flag changed, so that the list has to be written back.
    pub needs_save: bool,
}

/// Closes a polling cycle.
///
/// `outcomes` holds, for each due task in list order, how its notification
/// went. A task is marked as notified exactly if it was due at `now` and its
/// notification was delivered; a failed rendering or playback leaves it
/// unmarked, to be tried again by the next cycle that finds it in its window.
/// Every other task, and everything but the flag, stays as it was. The list
/// needs saving exactly if a task was marked.
pub fn finish_cycle(tasks: Vec<Task>, now: &CivilTime, outcomes: &Vec<Delivery>) -> (result:
    CycleResult)
    requires
        all_wf(tasks@),
        now.is_valid(),
    ensures
        result.tasks@ == tasks_after(tasks@, *now, delivered_flags(outcomes@)),
        result.needs_save == any_fires(
            tasks@,
            *now,
            delivered_flags(outcomes@),
            tasks.len() as int,
        ),
        all_wf(result.tasks@),
{
    let ghost before = tasks@;
    let ghost delivered = delivered_flags(outcomes@);
    let mut tasks = tasks;
    let mut needs_save = false;
    let mut rank: usize = 0;
    let mut i: usize = 0;
    while i < tasks.len()
        invariant
            i <= tasks.len(),
            tasks.len() == before.len(),
            all_wf(before),
            all_wf(tasks@),
            now.is_valid(),
            delivered == delivered_flags(outcomes@),
            rank == due_rank(before, *now, i as int),
            rank <= i,
            needs_save == any_fires(before, *now, delivered, i as int),
            forall|j: int| 0 <= j < i ==> tasks@[j] == task_after(before, *now, delivered, j),
            forall|j: int| i <= j < tasks.len() ==> tasks@[j] == before[j],
        decreases tasks.len() - i,
    {
        let due = is_due(&tasks[i], now);
        if due {
            if rank < outcomes.len() && is_delivered(&outcomes[rank]) {
                let marked = Task {
                    when: tasks[i].when,
                    name: tasks[i].name.clone(),
                    notified: true,
                };
                tasks.set(i, marked);
                needs_save = true;
                assert(fires(before, *now, delivered, i as int));
            }
            rank = rank + 1;
        }
        assert(!fires(before, *now, delivered, i as int) ==> forall|j: int|
            0 <= j < i + 1 && fires(before, *now, delivered, j) ==> j < i);
        i = i + 1;
    }
    assert(tasks@ =~= tasks_after(before, *now, delivered));
    CycleResult { tasks, needs_save }
}

/// Tests whether a notification went out.
pub fn is_delivered(outcome: &Delivery) -> (yes: bool)
    ensures
        yes == (*outcome is Delivered),
{
    match outcome {
        Delivery::Delivered => true,
        _ => false,
    }
}

/// A task that has fired is never due again, whatever the time.
pub proof fn lemma_notified_is_never_due(task: Task, now: CivilTime)
    requires
        task.notified,
    ensures
        !is_due_spec(task, now),
{
}

/// A cycle only ever sets the flag: a task that had fired before the cycle
/// is left exactly as it was, and so is every task that does not fire in it.
pub proof fn lemma_flag_never_reverts(
    tasks: Seq<Task>,
    now: CivilTime,
    delivered: Seq<bool>,
    index: int,
)
    requires
        0 <= index < tasks.len(),
    ensures
        tasks[index].notified ==> tasks_after(tasks, now, delivered)[index] == tasks[index],
        tasks_after(tasks, now, delivered)[index].notified == (tasks[index].notified || fires(
            tasks,
            now,
            delivered,
            index,
        )),
        tasks_after(tasks, now, delivered)[index].when == tasks[index].when,
        tasks_after(tasks, now, delivered)[index].name == tasks[index].name,
{
}

/// Checking the window a second time never fires a task again: once a task
/// is notified, by this cycle or before it, no later cycle finds it due or
/// changes it, whenever that cycle runs and whatever its outcomes are.
pub proof fn lemma_second_check_fires_nothing(
    tasks: Seq<Task>,
    now: CivilTime,
    delivered: Seq<bool>,
    later: CivilTime,
    delivered_later: Seq<bool>,
    index: int,
)
    requires
        0 <= index < tasks.len(),
        tasks_after(tasks, now, delivered)[index].notified,
    ensures
        !is_due_spec(tasks_after(tasks, now, delivered)[index], later),
        !fires(tasks_after(tasks, now, delivered), later, delivered_later, index),
        tasks_after(tasks_after(tasks, now, delivered), later, delivered_later)[index]
            == tasks_after(tasks, now, delivered)[index],
{
}

/// A task whose due time has come or passed when it is first seen is skipped
/// for good: it is not due then, the cycle leaves it as it is, and it is not
/// due at any later time either.
pub proof fn lemma_late_task_is_skipped(
    tasks: Seq<Task>,
    now: CivilTime,
    delivered: Seq<bool>,
    later: CivilTime,
    index: int,
)
    requires
        0 <= index < tasks.len(),
        now.seconds() >= tasks[index].when.seconds(),
        later.seconds() >= now.seconds(),
    ensures
        !is_due_spec(tasks[index], now),
        !fires(tasks, now, delivered, index),
        tasks_after(tasks, now, delivered)[index] == tasks[index],
        !is_due_spec(tasks_after(tasks, now, delivered)[index], later),
{
}

/// A cycle in which no task fires leaves the list as it was loaded, so that
/// nothing has to be written.
pub proof fn lemma_quiet_cycle_changes_nothing(tasks: Seq<Task>, now: CivilTime, delivered: Seq<bool>)
    requires
        !any_fires(tasks, now, delivered, tasks.len() as int),
    ensures
        tasks_after(tasks, now, delivered) == tasks,
{
    assert forall|i: int| 0 <= i < tasks.len() implies task_after(tasks, now, delivered, i)
        == tasks[i] by {
        assert(!fires(tasks, now, delivered, i));
    }
    assert(tasks_after(tasks, now, delivered) =~= tasks);
}

/// The due tasks are named in ascending order of position, each is due, and
/// each due task is named.
pub proof fn lemma_due_indices(tasks: Seq<Task>, now: CivilTime, count: int)
    requires
        0 <= count <= tasks.len(),
    ensures
        forall|k: int|
            0 <= k < due_indices(tasks, now, count).len() ==> 0 <= #[trigger] due_indices(
                tasks,
                now,
                count,
            )[k] < count && is_due_spec(tasks[due_indices(tasks, now, count)[k]], now),
        forall|k: int, l: int|
            0 <= k < l < due_indices(tasks, now, count).len() ==> due_indices(tasks, now, count)[k]
                < due_indices(tasks, now, count)[l],
        forall|i: int|
            0 <= i < count && is_due_spec(#[trigger] tasks[i], now) ==> due_indices(
                tasks,
                now,
                count,
            ).contains(i),
    decreases count,
{
    if count > 0 {
        lemma_due_indices(tasks, now, count - 1);
        let shorter = due_indices(tasks, now, count - 1);
        let all = due_indices(tasks, now, count);
        if is_due_spec(tasks[count - 1], now) {
            assert(all[all.len() - 1] == count - 1);
        }
        assert forall|i: int| 0 <= i < count && is_due_spec(#[trigger] tasks[i], now) implies all.contains(
            i,
        ) by {
            if i < count - 1 {
                let k = choose|k: int| 0 <= k < shorter.len() && shorter[k] == i;
                assert(all[k] == i);
            } else {
                assert(all[all.len() - 1] == i);
            }
        }
    }
}

/// The window read off the clock: for a task that is due on the day of
/// `now`, the task is due exactly from five minutes before its due time of
/// day until just before it.
pub proof fn lemma_window_within_a_day(task: Task, now: CivilTime)
    requires
        task.when.year == now.year,
        task.when.month == now.month,
        task.when.day == now.day,
    ensures
        is_due_spec(task, now) <==> !task.notified && in_window(
            now.hour * 3600 + now.minute * 60 + now.second,
            task.when.hour * 3600 + task.when.minute * 60 + task.when.second,
            NOTIFICATION_LEAD_SECONDS as int,
        ),
{
}

/// In terms of the calendar: a task whose due time is not after `now` is not
/// due at `now`.
pub proof fn lemma_due_time_reached_means_not_due(task: Task, now: CivilTime)
    requires
        task.when.is_valid(),
        now.is_valid(),
        !is_before(now, task.when),
    ensures
        !is_due_spec(task, now),
{
    lemma_seconds_follow_the_calendar(now, task.when);
}

} // verus!
