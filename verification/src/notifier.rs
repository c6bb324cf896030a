//! The client of the text-generation service, without its transport: what is
//! sent, how a reply is read, and what follows each attempt (deliver, give
//! up, or wait and try again).
//!
//! The caller performs the HTTP exchange and the waiting. After every attempt
//! it reports the outcome to [`after_attempt`] and does what the answer says.

use vstd::prelude::*;
use vstd::string::StringExecFns;
use crate::json::{candidate_path, candidate_text, json_text_in};
use crate::text::{decimal_text, push_decimal};

verus! {

/// The number of attempts after which the client gives up.
pub const MAX_ATTEMPTS: u32 = 3;

/// The endpoint of the text-generation service.
pub const API_URL: &'static str =
    "https://generativelanguage.googleapis.com/v1beta/models/gemini-2.5-flash-preview-09-2025:generateContent";

/// The instruction that steers the persona and the language of the service.
pub const SYSTEM_INSTRUCTION: &'static str =
    "Act as a helpful and friendly small AI assistant. Respond concisely and clearly in Japanese.";

/// Why the client returned no text.
#[derive(Debug, PartialEq, Eq)]
pub enum NotifierError {
    /// No credential is configured; nothing was sent.
    MissingCredential,
    /// The service answered with success, but the answer holds no text.
    MalformedResponse,
    /// Every attempt failed; the field holds the status or the cause of the
    /// last failure.
    Exhausted(String),
}

/// A [`NotifierError`] as a mathematical value.
pub ghost enum NotifierErrorView {
    MissingCredential,
    MalformedResponse,
    Exhausted(Seq<char>),
}

impl View for NotifierError {
    type V = NotifierErrorView;

    open spec fn view(&self) -> NotifierErrorView {
        match self {
            NotifierError::MissingCredential => NotifierErrorView::MissingCredential,
            NotifierError::MalformedResponse => NotifierErrorView::MalformedResponse,
            NotifierError::Exhausted(cause) => NotifierErrorView::Exhausted(cause@),
        }
    }
}

impl NotifierErrorView {
    /// The text under which the error is logged.
    pub open spec fn message_text(self) -> Seq<char> {
        match self {
            NotifierErrorView::MissingCredential => "API credential is not configured."@,
            NotifierErrorView::MalformedResponse => "API response format error: missing text content."@,
            NotifierErrorView::Exhausted(cause) => cause,
        }
    }
}

impl NotifierError {
    /// The text under which the error is logged.
    pub fn message(&self) -> (text: String)
        ensures
            text@ == self@.message_text(),
    {
        match self {
            NotifierError::MissingCredential => String::from_str("API credential is not configured."),
            NotifierError::MalformedResponse => String::from_str(
                "API response format error: missing text content.",
            ),
            NotifierError::Exhausted(cause) => cause.clone(),
        }
    }
}

/// What one attempt sends to the service.
#[derive(Debug, PartialEq, Eq)]
pub struct Request {
    /// The endpoint, with the credential as its `key` parameter.
    pub url: String,
    /// The text that the service is asked to answer.
    pub query: String,
    /// The fixed system instruction.
    pub system_instruction: String,
    /// Whether the service may ground its answer in a web search.
    pub web_grounding: bool,
}

/// The address of the endpoint for a given credential.
pub open spec fn request_url(credential: Seq<char>) -> Seq<char> {
    API_URL@ + "?key="@ + credential
}

/// Prepares the request for `query`, or fails at once when no credential is
/// configured.
pub fn prepare_request(credential: Option<&str>, query: &str) -> (prepared: Result<
    Request,
    NotifierError,
>)
    ensures
        credential is None ==> prepared == Err::<Request, NotifierError>(
            NotifierError::MissingCredential,
        ),
        credential matches Some(key) ==> (prepared matches Ok(request) && request.url@
            == request_url(key@) && request.query@ == query@ && request.system_instruction@
            == SYSTEM_INSTRUCTION@ && request.web_grounding),
{
    match credential {
        None => Err(NotifierError::MissingCredential),
        Some(key) => {
            let mut url = String::from_str(API_URL);
            url.append("?key=");
            url.append(key);
            Ok(
                Request {
                    url,
                    query: String::from_str(query),
                    system_instruction: String::from_str(SYSTEM_INSTRUCTION),
                    web_grounding: true,
                },
            )
        },
    }
}

/// The pause after the failed attempt number `attempt`, counted from zero:
/// two to the power of `attempt`, in seconds.
pub open spec fn backoff_seconds(attempt: nat) -> nat
    decreases attempt,
{
    if attempt == 0 {
        1
    } else {
        2 * backoff_seconds((attempt - 1) as nat)
    }
}

/// Computes the pause after the failed attempt number `attempt`.
pub fn backoff_delay(attempt: u32) -> (seconds: u64)
    requires
        attempt < 64,
    ensures
        seconds == backoff_seconds(attempt as nat),
{
    let mut seconds: u64 = 1;
    let mut i: u32 = 0;
    assert(1u64 << 0u64 == 1u64) by (bit_vector);
    while i < attempt
        invariant
            i <= attempt < 64,
            seconds == backoff_seconds(i as nat),
            seconds == 1u64 << (i as u64),
        decreases attempt - i,
    {
        let shift: u64 = i as u64;
        assert(shift < 63 ==> (1u64 << shift) <= 0x4000_0000_0000_0000u64 && 1u64 << ((shift
            + 1) as u64) == 2 * (1u64 << shift)) by (bit_vector);
        seconds = seconds * 2;
        i = i + 1;
    }
    seconds
}

/// What the transport reports of one attempt.
#[derive(Debug, PartialEq, Eq)]
pub enum AttemptOutcome {
    /// The service answered with an HTTP success; the field holds the body,
    /// and is empty where the body could not be read.
    Answered(String),
    /// The service answered with another HTTP status.
    Rejected(u16),
    /// No answer arrived; the field holds the cause.
    Unreachable(String),
}

/// What one attempt came to, once the body of a successful answer is read.
pub ghost enum Attempt {
    /// A successful answer that holds this text.
    Text(Seq<char>),
    /// A successful answer without a text.
    NoText,
    /// Another HTTP status.
    Rejected(int),
    /// No answer.
    Unreachable(Seq<char>),
}

/// What the client does after an attempt.
#[derive(Debug, PartialEq, Eq)]
pub enum NextStep {
    /// Return this text.
    Deliver(String),
    /// Return this error.
    Fail(NotifierError),
    /// Wait, then make the attempt with the given number.
    Retry { delay_seconds: u64, attempt: u32 },
}

/// A [`NextStep`] as a mathematical value.
pub ghost enum NextStepView {
    Deliver(Seq<char>),
    Fail(NotifierErrorView),
    Retry { delay_seconds: int, attempt: int },
}

impl View for NextStep {
    type V = NextStepView;

    open spec fn view(&self) -> NextStepView {
        match self {
            NextStep::Deliver(text) => NextStepView::Deliver(text@),
            NextStep::Fail(error) => NextStepView::Fail(error@),
            NextStep::Retry { delay_seconds, attempt } => NextStepView::Retry {
                delay_seconds: *delay_seconds as int,
                attempt: *attempt as int,
            },
        }
    }
}

/// How the last rejection is reported when the attempts are used up.
pub open spec fn rejection_text(status: int) -> Seq<char> {
    "Gemini API failed after 3 attempts. Status: "@ + decimal_text(status as nat)
}

/// The rule of the client. A text is delivered. A successful answer without
/// a text is a terminal error and is not retried. Any other failure is
/// retried after `2^attempt` seconds, unless it was the last of the
/// [`MAX_ATTEMPTS`] attempts: then the client gives up with the status or
/// the cause of that failure.
pub open spec fn decide_spec(attempt: int, outcome: Attempt) -> NextStepView {
    match outcome {
        Attempt::Text(text) => NextStepView::Deliver(text),
        Attempt::NoText => NextStepView::Fail(NotifierErrorView::MalformedResponse),
        Attempt::Rejected(status) => if attempt + 1 < MAX_ATTEMPTS {
            NextStepView::Retry {
                delay_seconds: backoff_seconds(attempt as nat) as int,
                attempt: attempt + 1,
            }
        } else {
            NextStepView::Fail(NotifierErrorView::Exhausted(rejection_text(status)))
        },
        Attempt::Unreachable(cause) => if attempt + 1 < MAX_ATTEMPTS {
            NextStepView::Retry {
                delay_seconds: backoff_seconds(attempt as nat) as int,
                attempt: attempt + 1,
            }
        } else {
            NextStepView::Fail(NotifierErrorView::Exhausted(cause))
        },
    }
}

/// What an outcome comes to when the text of a successful answer is `text`.
pub open spec fn attempt_of(outcome: AttemptOutcome, text: Option<Seq<char>>) -> Attempt {
    match outcome {
        AttemptOutcome::Answered(_) => match text {
            Some(t) => Attempt::Text(t),
            None => Attempt::NoText,
        },
        AttemptOutcome::Rejected(status) => Attempt::Rejected(status as int),
        AttemptOutcome::Unreachable(cause) => Attempt::Unreachable(cause@),
    }
}

/// The text that a body holds for the client: the string at
/// `candidates[0].content.parts[0].text` of the JSON document, if the body is
/// one and has a string there.
pub open spec fn body_text(body: Seq<char>) -> Option<Seq<char>> {
    json_text_in(body, candidate_path())
}

/// The text of a successful answer, if the outcome is one.
pub open spec fn outcome_text(outcome: AttemptOutcome) -> Option<Seq<char>> {
    match outcome {
        AttemptOutcome::Answered(body) => body_text(body@),
        _ => None,
    }
}

/// Decides what follows the attempt number `attempt` (counted from zero),
/// given its outcome and, for a successful answer, the text that was found in
/// its body.
pub fn decide(attempt: u32, outcome: AttemptOutcome, text: Option<String>) -> (step: NextStep)
    ensures
        step@ == decide_spec(
            attempt as int,
            attempt_of(
                outcome,
                match text {
                    Some(t) => Some(t@),
                    None => None,
                },
            ),
        ),
{
    match outcome {
        AttemptOutcome::Answered(_) => match text {
            Some(t) => NextStep::Deliver(t),
            None => NextStep::Fail(NotifierError::MalformedResponse),
        },
        AttemptOutcome::Rejected(status) => {
            if attempt < MAX_ATTEMPTS - 1 {
                NextStep::Retry { delay_seconds: backoff_delay(attempt), attempt: attempt + 1 }
            } else {
                let mut cause = String::from_str("Gemini API failed after 3 attempts. Status: ");
                push_decimal(&mut cause, status as u64);
                NextStep::Fail(NotifierError::Exhausted(cause))
            }
        },
        AttemptOutcome::Unreachable(cause) => {
            if attempt < MAX_ATTEMPTS - 1 {
                NextStep::Retry { delay_seconds: backoff_delay(attempt), attempt: attempt + 1 }
            } else {
                NextStep::Fail(NotifierError::Exhausted(cause))
            }
        },
    }
}

/// Reads the outcome of the attempt number `attempt` and decides what
/// follows.
///
/// The body of a successful answer is searched for its text; the decision is
/// [`decide_spec`] of what was found.
pub fn after_attempt(attempt: u32, outcome: AttemptOutcome) -> (step: NextStep)
    ensures
        step@ == decide_spec(attempt as int, attempt_of(outcome, outcome_text(outcome))),
{
    let text = match &outcome {
        AttemptOutcome::Answered(body) => candidate_text(body.as_str()),
        _ => None,
    };
    decide(attempt, outcome, text)
}

/// How a call of the client ends, and the pauses it makes on the way.
pub ghost struct Run {
    /// The text or the error that the call returns; `None` while the call is
    /// still under way.
    pub outcome: Option<Result<Seq<char>, NotifierErrorView>>,
    /// The pauses between the attempts, in seconds, in order.
    pub pauses: Seq<int>,
}

/// The run of the client from the attempt number `attempt` on, when the
/// attempts come to `attempts[attempt]`, `attempts[attempt + 1]`, ...: each
/// attempt is followed by what [`decide_spec`] says.
pub open spec fn run_spec(attempts: Seq<Attempt>, attempt: int) -> Run
    decreases attempts.len() - attempt,
{
    if attempt < 0 || attempt >= attempts.len() {
        Run { outcome: None, pauses: Seq::<int>::empty() }
    } else {
        match decide_spec(attempt, attempts[attempt]) {
            NextStepView::Deliver(text) => Run {
                outcome: Some(Ok(text)),
                pauses: Seq::<int>::empty(),
            },
            NextStepView::Fail(error) => Run {
                outcome: Some(Err(error)),
                pauses: Seq::<int>::empty(),
            },
            NextStepView::Retry { delay_seconds, attempt: _ } => {
                let rest = run_spec(attempts, attempt + 1);
                Run { outcome: rest.outcome, pauses: seq![delay_seconds] + rest.pauses }
            },
        }
    }
}

impl Attempt {
    /// Whether the attempt failed in a way that is retried.
    pub open spec fn is_failure(self) -> bool {
        self is Rejected || self is Unreachable
    }

    /// The status or the cause that is reported when the attempts are used
    /// up with this failure.
    pub open spec fn cause_text(self) -> Seq<char> {
        match self {
            Attempt::Rejected(status) => rejection_text(status),
            Attempt::Unreachable(cause) => cause,
            _ => Seq::<char>::empty(),
        }
    }
}

/// A client whose first two attempts fail and whose third succeeds returns
/// the text of the third and pauses exactly twice, for one second and then
/// for two.
pub proof fn lemma_third_attempt_succeeds(first: Attempt, second: Attempt, text: Seq<char>)
    requires
        first.is_failure(),
        second.is_failure(),
    ensures
        run_spec(seq![first, second, Attempt::Text(text)], 0) == (Run {
            outcome: Some(Ok(text)),
            pauses: seq![1int, 2int],
        }),
{
    let attempts = seq![first, second, Attempt::Text(text)];
    reveal_with_fuel(run_spec, 4);
    reveal_with_fuel(backoff_seconds, 3);
    assert(run_spec(attempts, 2).pauses =~= Seq::<int>::empty());
    assert(run_spec(attempts, 1).pauses =~= seq![2int]);
    assert(run_spec(attempts, 0).pauses =~= seq![1int, 2int]);
}

/// A client whose three attempts all fail gives up with the status or the
/// cause of the third failure, after pauses of one and of two seconds, and
/// makes no fourth attempt, whatever a fourth attempt would have brought.
pub proof fn lemma_three_failures_exhaust(attempts: Seq<Attempt>)
    requires
        attempts.len() >= 3,
        attempts[0].is_failure(),
        attempts[1].is_failure(),
        attempts[2].is_failure(),
    ensures
        run_spec(attempts, 0) == (Run {
            outcome: Some(Err(NotifierErrorView::Exhausted(attempts[2].cause_text()))),
            pauses: seq![1int, 2int],
        }),
{
    reveal_with_fuel(run_spec, 4);
    reveal_with_fuel(backoff_seconds, 3);
    assert(run_spec(attempts, 2).pauses =~= Seq::<int>::empty());
    assert(run_spec(attempts, 1).pauses =~= seq![2int]);
    assert(run_spec(attempts, 0).pauses =~= seq![1int, 2int]);
}

/// A successful answer without a text ends the call at once: it is not
/// retried, at whatever attempt it comes.
pub proof fn lemma_malformed_is_terminal(attempt: int)
    ensures
        decide_spec(attempt, Attempt::NoText) == NextStepView::Fail(
            NotifierErrorView::MalformedResponse,
        ),
{
}

/// Whatever the attempts come to, the client makes at most
/// [`MAX_ATTEMPTS`] of them: it pauses at most twice, and once three
/// attempts have been reported the call has ended.
pub proof fn lemma_at_most_three_attempts(attempts: Seq<Attempt>)
    ensures
        run_spec(attempts, 0).pauses.len() <= 2,
        attempts.len() >= 3 ==> run_spec(attempts, 0).outcome is Some,
        attempts.len() >= 3 ==> run_spec(attempts, 0) == run_spec(attempts.take(3), 0),
{
    reveal_with_fuel(run_spec, 4);
    if attempts.len() >= 3 {
        let first = attempts.take(3);
        assert(first[0] == attempts[0] && first[1] == attempts[1] && first[2] == attempts[2]);
        assert(run_spec(attempts, 2) == run_spec(first, 2));
        assert(run_spec(attempts, 1) == run_spec(first, 1));
    }
}

} // verus!
