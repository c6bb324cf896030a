//! Rendering of a notification: the prompt for the text-generation service,
//! the sentence that stands in when the service gives no text, and the line
//! that is handed to the voice synthesis.

use vstd::prelude::*;
use vstd::string::StringExecFns;
use crate::notifier::NotifierError;
use crate::text::{decimal_text, push_decimal};

verus! {

/// The number of synthesis parameters that follow the text of a line.
pub const PARAMETER_COUNT: usize = 14;

/// The prompt that asks the service to announce a task.
pub open spec fn prompt_text(task_name: Seq<char>, time_label: Seq<char>) -> Seq<char> {
    "タスク: "@ + task_name + " が"@ + time_label
        + "にあります。このタスクの内容を要約し、実行5分前であることを含めて、私に親切に教えてください。"@
}

/// The sentence that announces a task when the service gave no text.
pub open spec fn fallback_text(task_name: Seq<char>, time_label: Seq<char>) -> Seq<char> {
    time_label + "に"@ + task_name + "があります。5分前です。起きるです。"@
}

/// The text of the announcement: the text of the service where it gave one,
/// the fallback sentence otherwise.
pub open spec fn announcement_text(
    generated: Option<Seq<char>>,
    task_name: Seq<char>,
    time_label: Seq<char>,
) -> Seq<char> {
    match generated {
        Some(text) => text,
        None => fallback_text(task_name, time_label),
    }
}

/// The first `count` parameters as decimal numerals with commas between them.
pub open spec fn parameters_text(parameters: Seq<u8>, count: int) -> Seq<char>
    decreases count,
{
    if count <= 0 {
        Seq::<char>::empty()
    } else if count == 1 {
        decimal_text(parameters[0] as nat)
    } else {
        parameters_text(parameters, count - 1) + ","@ + decimal_text(parameters[count - 1] as nat)
    }
}

/// The hand-off line: the text, a comma, and the parameters.
pub open spec fn line_text(text: Seq<char>, parameters: Seq<u8>) -> Seq<char> {
    text + ","@ + parameters_text(parameters, parameters.len() as int)
}

/// The parameters that every announcement is synthesised with.
pub open spec fn standard_parameters() -> Seq<u8> {
    Seq::new(PARAMETER_COUNT as nat, |i: int| 5u8)
}

/// What the hand-off file holds for a task, given what the service returned.
pub open spec fn render_text(
    generated: Option<Seq<char>>,
    task_name: Seq<char>,
    time_label: Seq<char>,
) -> Seq<char> {
    line_text(announcement_text(generated, task_name, time_label), standard_parameters())
}

/// The text of a successful answer of the service, none for a failure.
pub open spec fn generated_text(outcome: Result<String, NotifierError>) -> Option<Seq<char>> {
    match outcome {
        Ok(text) => Some(text@),
        Err(_) => None,
    }
}

/// Builds the prompt that embeds the name of the task and its time label.
pub fn build_prompt(task_name: &str, time_label: &str) -> (prompt: String)
    ensures
        prompt@ == prompt_text(task_name@, time_label@),
{
    let mut prompt = String::from_str("タスク: ");
    prompt.append(task_name);
    prompt.append(" が");
    prompt.append(time_label);
    prompt.append(
        "にあります。このタスクの内容を要約し、実行5分前であることを含めて、私に親切に教えてください。",
    );
    prompt
}

/// Builds the fallback sentence from the name of the task and its time label
/// alone.
pub fn fallback(task_name: &str, time_label: &str) -> (sentence: String)
    ensures
        sentence@ == fallback_text(task_name@, time_label@),
{
    let mut sentence = String::from_str(time_label);
    sentence.append("に");
    sentence.append(task_name);
    sentence.append("があります。5分前です。起きるです。");
    sentence
}

/// Chooses the text of the announcement: the text of the service verbatim,
/// or the fallback sentence after any failure of the service.
pub fn choose_text(outcome: Result<String, NotifierError>, task_name: &str, time_label: &str) -> (text:
    String)
    ensures
        text@ == announcement_text(generated_text(outcome), task_name@, time_label@),
{
    match outcome {
        Ok(text) => text,
        Err(_) => fallback(task_name, time_label),
    }
}

/// The standard synthesis parameters.
pub fn emotion_parameters() -> (parameters: [u8; 14])
    ensures
        parameters@ == standard_parameters(),
{
    let parameters: [u8; 14] = [5, 5, 5, 5, 5, 5, 5, 5, 5, 5, 5, 5, 5, 5];
    assert(parameters@ =~= standard_parameters());
    parameters
}

/// Builds the hand-off line for `text` and its fourteen parameters.
pub fn lyric_line(text: &str, parameters: &[u8; 14]) -> (line: String)
    ensures
        line@ == line_text(text@, parameters@),
{
    let mut line = String::from_str(text);
    line.append(",");
    let ghost head = line@;
    let mut i: usize = 0;
    assert(line@ =~= head + parameters_text(parameters@, 0));
    while i < 14
        invariant
            i <= 14,
            parameters@.len() == 14,
            line@ == head + parameters_text(parameters@, i as int),
        decreases 14 - i,
    {
        if i > 0 {
            line.append(",");
        }
        push_decimal(&mut line, parameters[i] as u64);
        i = i + 1;
        assert(line@ =~= head + parameters_text(parameters@, i as int));
    }
    line
}

/// The content of the hand-off file for `text` and the parameters `vec14`:
/// the single line `<text>,<14 parameters>`, with nothing after it. It takes
/// the place of whatever the file held.
pub fn create_lyric(text: &str, vec14: [u8; 14]) -> (line: String)
    ensures
        line@ == line_text(text@, vec14@),
{
    lyric_line(text, &vec14)
}

/// Renders the announcement of a task: what is to be written to the
/// hand-off file, replacing what it held.
///
/// `outcome` is what the text-generation client returned for the prompt of
/// [`build_prompt`]. Its text is used verbatim. Whatever its error, the
/// fallback sentence takes the place of the text, so that a failing service
/// never holds up a due announcement.
pub fn render(task_name: &str, time_label: &str, outcome: Result<String, NotifierError>) -> (line:
    String)
    ensures
        line@ == render_text(generated_text(outcome), task_name@, time_label@),
{
    let text = choose_text(outcome, task_name, time_label);
    let parameters = emotion_parameters();
    lyric_line(text.as_str(), &parameters)
}

/// The fallback sentence holds the time label and the name of the task
/// verbatim: it begins with the label, and the name follows after one
/// character.
pub proof fn lemma_fallback_holds_label_and_name(task_name: Seq<char>, time_label: Seq<char>)
    ensures
        fallback_text(task_name, time_label).subrange(0, time_label.len() as int) == time_label,
        fallback_text(task_name, time_label).subrange(
            time_label.len() as int + 1,
            time_label.len() as int + 1 + task_name.len() as int,
        ) == task_name,
{
    reveal_strlit("に");
    let sentence = fallback_text(task_name, time_label);
    assert(sentence.subrange(0, time_label.len() as int) =~= time_label);
    assert(sentence.subrange(
        time_label.len() as int + 1,
        time_label.len() as int + 1 + task_name.len() as int,
    ) =~= task_name);
}

/// After any failure of the service the announcement is the fallback
/// sentence, the same for every kind of failure.
pub proof fn lemma_failure_yields_fallback(
    error: NotifierError,
    task_name: Seq<char>,
    time_label: Seq<char>,
)
    ensures
        announcement_text(
            generated_text(Err::<String, NotifierError>(error)),
            task_name,
            time_label,
        ) == fallback_text(task_name, time_label),
{
}

} // verus!
