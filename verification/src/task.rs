//! Scheduled tasks: the task value, the parser of the `task` command and the
//! listing that the `show_tasks` command prints.

use vstd::prelude::*;
use vstd::string::StringExecFns;
use crate::clock::{
    date_shape, lemma_parse_then_canonical, parse_canonical_spec, CivilTime, CANONICAL_LEN,
};
use crate::text::{
    char_is_digit, chars_of, decimal_text, find_char, find_char_from, is_digit, lemma_find_char,
    push_decimal, trim_range, trimmed_range,
};

verus! {

/// A scheduled task.
#[derive(Debug)]
pub struct Task {
    /// When the task is due, on a full minute of local wall-clock time.
    pub when: CivilTime,
    /// Free-form label; it may hold colons.
    pub name: String,
    /// Whether the notification has fired.
    pub notified: bool,
}

/// A task as a mathematical value.
pub ghost struct TaskView {
    pub when: CivilTime,
    pub name: Seq<char>,
    pub notified: bool,
}

impl View for Task {
    type V = TaskView;

    open spec fn view(&self) -> TaskView {
        TaskView { when: self.when, name: self.name@, notified: self.notified }
    }
}

impl Clone for Task {
    fn clone(&self) -> (copy: Self)
        ensures
            copy == *self,
    {
        Task { when: self.when, name: self.name.clone(), notified: self.notified }
    }
}

impl Task {
    /// A task's due time is a real moment on a full minute.
    pub open spec fn wf(&self) -> bool {
        self.when.is_minute()
    }

    /// Makes a task that has not fired yet.
    pub fn new(when: CivilTime, name: String) -> (task: Task)
        ensures
            task == (Task { when, name, notified: false }),
    {
        Task { when, name, notified: false }
    }

    /// Tests the invariant of a task that came from outside the library.
    pub fn check_wf(&self) -> (ok: bool)
        ensures
            ok == self.wf(),
    {
        self.when.second == 0 && self.when.check_valid()
    }
}

/// Whether every task of the list is well formed.
pub open spec fn all_wf(tasks: Seq<Task>) -> bool {
    forall|i: int| 0 <= i < tasks.len() ==> (#[trigger] tasks[i]).wf()
}

/// Why a `task` command was refused.
#[derive(Clone, Copy, Debug, PartialEq, Eq, Structural)]
pub enum ParseError {
    /// Fewer than four colon-separated fields.
    MissingFields,
    /// The first field is not of the form `YYYY-MM-DD`.
    MalformedDate,
    /// The second or third field is not of the form `HH` or `MM`.
    MalformedTime,
    /// The fields have the right form, but the calendar or the clock has no
    /// such moment.
    NoSuchMoment,
}

impl ParseError {
    /// The text that tells the operator which format is expected.
    pub open spec fn message_text(&self) -> Seq<char> {
        match self {
            ParseError::MissingFields => "Task format must be <date>:<time>:<name> (e.g., 2025-11-18:14:30:ミーティング)"@,
            ParseError::MalformedDate => "Invalid date format. Use YYYY-MM-DD:HH:MM."@,
            ParseError::MalformedTime => "Invalid time format. Use YYYY-MM-DD:HH:MM."@,
            ParseError::NoSuchMoment => "Invalid date/time format. Use YYYY-MM-DD:HH:MM."@,
        }
    }

    /// The text that tells the operator which format is expected.
    pub fn message(&self) -> (text: String)
        ensures
            text@ == self.message_text(),
    {
        match self {
            ParseError::MissingFields => String::from_str(
                "Task format must be <date>:<time>:<name> (e.g., 2025-11-18:14:30:ミーティング)",
            ),
            ParseError::MalformedDate => String::from_str("Invalid date format. Use YYYY-MM-DD:HH:MM."),
            ParseError::MalformedTime => String::from_str("Invalid time format. Use YYYY-MM-DD:HH:MM."),
            ParseError::NoSuchMoment => String::from_str(
                "Invalid date/time format. Use YYYY-MM-DD:HH:MM.",
            ),
        }
    }
}

/// The index of the first colon of `raw`: the end of the date field.
pub open spec fn date_end(raw: Seq<char>) -> int {
    find_char(raw, ':', 0)
}

/// The index of the second colon of `raw`: the end of the hour field.
pub open spec fn hour_end(raw: Seq<char>) -> int {
    find_char(raw, ':', date_end(raw) + 1)
}

/// The index of the third colon of `raw`: the end of the minute field. All
/// that follows it is the name, colons included.
pub open spec fn minute_end(raw: Seq<char>) -> int {
    find_char(raw, ':', hour_end(raw) + 1)
}

/// Whether `raw` has the four fields: a date, an hour, a minute and a name,
/// that is, at least three colons.
pub open spec fn has_four_fields(raw: Seq<char>) -> bool {
    minute_end(raw) < raw.len()
}

/// Whether the date field has the form `YYYY-MM-DD`.
pub open spec fn date_well_formed(raw: Seq<char>) -> bool {
    date_end(raw) == 10 && date_shape(raw)
}

/// Whether, after a well-formed date, the hour and the minute field each are
/// two digits.
pub open spec fn time_well_formed(raw: Seq<char>) -> bool {
    &&& hour_end(raw) == 13
    &&& minute_end(raw) == 16
    &&& is_digit(raw[11]) && is_digit(raw[12])
    &&& is_digit(raw[14]) && is_digit(raw[15])
}

/// What the `task` command means: the task that `raw` describes, or the
/// reason why it describes none.
///
/// The text before the third colon must be a canonical `YYYY-MM-DD:HH:MM`;
/// the text after it, with leading and trailing white space removed, is the
/// name.
pub open spec fn parse_task_spec(raw: Seq<char>) -> Result<TaskView, ParseError> {
    if !has_four_fields(raw) {
        Err(ParseError::MissingFields)
    } else if !date_well_formed(raw) {
        Err(ParseError::MalformedDate)
    } else if !time_well_formed(raw) {
        Err(ParseError::MalformedTime)
    } else {
        match parse_canonical_spec(raw.subrange(0, CANONICAL_LEN as int)) {
            None => Err(ParseError::NoSuchMoment),
            Some(when) => Ok(
                TaskView {
                    when,
                    name: trimmed_range(raw, CANONICAL_LEN as int + 1, raw.len() as int),
                    notified: false,
                },
            ),
        }
    }
}

/// Tests whether `chars` begins with a date of the shape `dddd-dd-dd`.
fn has_date_shape(chars: &Vec<char>) -> (yes: bool)
    ensures
        yes == date_shape(chars@),
{
    chars.len() >= 10 && char_is_digit(chars[0]) && char_is_digit(chars[1]) && char_is_digit(
        chars[2],
    ) && char_is_digit(chars[3]) && chars[4] == '-' && char_is_digit(chars[5]) && char_is_digit(
        chars[6],
    ) && chars[7] == '-' && char_is_digit(chars[8]) && char_is_digit(chars[9])
}

/// Reads a `task` command: `YYYY-MM-DD:HH:MM:<name>`.
///
/// The result is exactly what [`parse_task_spec`] says of the text: the task,
/// not yet notified, or the first reason for which the text is refused.
pub fn add_new_task(args: &str) -> (parsed: Result<Task, ParseError>)
    ensures
        parsed matches Ok(task) ==> parse_task_spec(args@) == Ok::<TaskView, ParseError>(task@)
            && task.wf() && !task.notified,
        parsed matches Err(error) ==> parse_task_spec(args@) == Err::<TaskView, ParseError>(error),
{
    let chars = chars_of(args);
    let n = chars.len();
    let first = find_char_from(&chars, ':', 0);
    proof {
        lemma_find_char(chars@, ':', 0);
        lemma_find_char(chars@, ':', first as int + 1);
        lemma_find_char(chars@, ':', hour_end(chars@) + 1);
    }
    if first >= n {
        return Err(ParseError::MissingFields);
    }
    let second = find_char_from(&chars, ':', first + 1);
    if second >= n {
        return Err(ParseError::MissingFields);
    }
    let third = find_char_from(&chars, ':', second + 1);
    if third >= n {
        return Err(ParseError::MissingFields);
    }
    if first != 10 || !has_date_shape(&chars) {
        return Err(ParseError::MalformedDate);
    }
    if second != 13 || third != 16 || !char_is_digit(chars[11]) || !char_is_digit(chars[12])
        || !char_is_digit(chars[14]) || !char_is_digit(chars[15]) {
        return Err(ParseError::MalformedTime);
    }
    let mut stamp: Vec<char> = Vec::new();
    let mut i: usize = 0;
    while i < CANONICAL_LEN
        invariant
            i <= CANONICAL_LEN <= chars.len(),
            stamp@ == chars@.subrange(0, i as int),
        decreases CANONICAL_LEN - i,
    {
        stamp.push(chars[i]);
        i = i + 1;
        assert(stamp@ =~= chars@.subrange(0, i as int));
    }
    match CivilTime::parse_canonical(&stamp) {
        None => Err(ParseError::NoSuchMoment),
        Some(when) => {
            let name = trim_range(&chars, CANONICAL_LEN + 1, n);
            Ok(Task { when, name, notified: false })
        },
    }
}

/// Re-serialising the due time of a parsed task gives back, character for
/// character, the `YYYY-MM-DD:HH:MM` with which the text began.
pub proof fn lemma_parse_round_trip(raw: Seq<char>)
    requires
        parse_task_spec(raw) is Ok,
    ensures
        raw.len() > CANONICAL_LEN,
        parse_task_spec(raw)->Ok_0.when.is_minute(),
        parse_task_spec(raw)->Ok_0.when.canonical_text() == raw.subrange(0, CANONICAL_LEN as int),
{
    lemma_parse_then_canonical(raw.subrange(0, CANONICAL_LEN as int));
}

/// How the listing marks a task that has fired, and one that has not.
pub open spec fn status_text(notified: bool) -> Seq<char> {
    if notified {
        "[DONE]"@
    } else {
        "[PENDING]"@
    }
}

/// The line of the listing for the task at `index`: its number, counted from
/// one, its due time, its name and its status.
pub open spec fn task_line(index: int, task: Task) -> Seq<char> {
    decimal_text((index + 1) as nat) + ". "@ + task.when.canonical_text() + " | "@ + task.name@
        + " "@ + status_text(task.notified) + "\n"@
}

/// The lines of the listing for the first `count` tasks.
pub open spec fn task_lines(tasks: Seq<Task>, count: int) -> Seq<char>
    decreases count,
{
    if count <= 0 {
        Seq::<char>::empty()
    } else {
        task_lines(tasks, count - 1) + task_line(count - 1, tasks[count - 1])
    }
}

/// The listing of `tasks`.
pub open spec fn display_text(tasks: Seq<Task>) -> Seq<char> {
    if tasks.len() == 0 {
        "No scheduled tasks."@
    } else {
        "--- Scheduled Tasks ---\n"@ + task_lines(tasks, tasks.len() as int)
            + "-----------------------"@
    }
}

/// Lists the tasks in stored order, one numbered line each between a header
/// and a footer; a fixed sentence if there is none.
pub fn display_tasks(tasks: Vec<Task>) -> (output: String)
    requires
        all_wf(tasks@),
    ensures
        output@ == display_text(tasks@),
{
    if tasks.len() == 0 {
        return String::from_str("No scheduled tasks.");
    }
    let mut output = String::from_str("--- Scheduled Tasks ---\n");
    let mut i: usize = 0;
    while i < tasks.len()
        invariant
            i <= tasks.len(),
            all_wf(tasks@),
            output@ == "--- Scheduled Tasks ---\n"@ + task_lines(tasks@, i as int),
        decreases tasks.len() - i,
    {
        let ghost before = output@;
        let task = &tasks[i];
        push_decimal(&mut output, (i + 1) as u64);
        output.append(". ");
        let when = task.when.canonical();
        output.append(when.as_str());
        output.append(" | ");
        output.append(task.name.as_str());
        output.append(" ");
        if task.notified {
            output.append("[DONE]");
        } else {
            output.append("[PENDING]");
        }
        output.append("\n");
        assert(output@ =~= before + task_line(i as int, tasks@[i as int]));
        i = i + 1;
        assert(output@ =~= "--- Scheduled Tasks ---\n"@ + task_lines(tasks@, i as int));
    }
    output.append("-----------------------");
    output
}

} // verus!
