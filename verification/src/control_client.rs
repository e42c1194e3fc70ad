//! Client half of `mantle set`, `mantle toggle` and `mantle call`: what an answer from the running
//! supervisor means to the one who asked.

use vstd::prelude::*;

use crate::json::{self, Json};
use crate::text;

verus! {

/// Seconds a command waits for an answer. Expiring says that the outcome is unknown, never that
/// nothing happened.
pub const CALL_TIMEOUT: u64 = 5;

/// What a config answered: why it failed, or the value it returned as compact JSON.
#[derive(Debug, Clone, PartialEq, Eq)]
pub enum CallOutcome {
    Failed(String),
    Returned(String),
}

/// What the supervisor sent back.
#[derive(Debug, Clone, PartialEq, Eq)]
pub enum Answer {
    Result(CallOutcome),
    /// No answer came in time.
    Late,
    /// Some other frame, as it reads.
    Other(String),
}

/// The outcome of a request, or why there is none.
pub fn answer_outcome(name: &str, answer: Answer) -> (outcome: Result<CallOutcome, String>)
    ensures
        match answer {
            Answer::Result(result) => outcome == Ok::<CallOutcome, String>(result),
            Answer::Late => outcome matches Err(message) && message@ == "the shell did not answer `"@ + name@
                + "` within 5s; it may still have run"@,
            Answer::Other(frame) => outcome matches Err(message) && message@ == "the shell answered `"@ + name@
                + "` with "@ + frame@ + " instead of a result"@,
        },
{
    match answer {
        Answer::Result(result) => Ok(result),
        Answer::Late => Err(
            "the shell did not answer `".to_owned().concat(name).concat("` within 5s; it may still have run"),
        ),
        Answer::Other(frame) => Err(
            "the shell answered `".to_owned().concat(name).concat("` with ").concat(frame.as_str()).concat(
                " instead of a result",
            ),
        ),
    }
}

/// The error of a supervisor that cannot be reached.
pub fn unreachable_text(path: &str, reason: &str) -> (message: String)
    ensures
        message@ == "cannot reach the shell at "@ + path@ + ": "@ + reason@ + " (is mantle running?)"@,
{
    "cannot reach the shell at ".to_owned().concat(path).concat(": ").concat(reason).concat(" (is mantle running?)")
}

/// The result of writing one state: the renderer's refusal, such as an undeclared name or a value
/// that does not fit, fails it.
pub fn send(name: &str, outcome: &CallOutcome) -> (result: Result<(), String>)
    ensures
        match outcome {
            CallOutcome::Failed(why) => result matches Err(message) && message@ == "state `"@ + name@ + "` refused: "@
                + why@,
            CallOutcome::Returned(_) => result is Ok,
        },
{
    match outcome {
        CallOutcome::Failed(why) => Err(
            "state `".to_owned().concat(name).concat("` refused: ").concat(why.as_str()),
        ),
        CallOutcome::Returned(_) => Ok(()),
    }
}

/// What is printed of a returned value, given its text and what it opens to. Nothing is printed for
/// nothing: an action run for its effect should not make a keybind's shell noisy. A bare string
/// prints as itself, for a person at a terminal.
pub open spec fn printed_as(value: Seq<char>, level: Option<json::JsonView>) -> Option<Seq<char>> {
    match level {
        Some(json::JsonView::Null) => None,
        Some(json::JsonView::Text(text)) => Some(text),
        _ => Some(value),
    }
}

/// What is printed of a value that opens to `level`.
pub fn printed(value: &str, level: Option<Json>) -> (line: Option<String>)
    ensures
        text::optional(line) == printed_as(
            value@,
            match level {
                Some(level) => Some(level@),
                None => None,
            },
        ),
{
    match level {
        Some(Json::Null) => None,
        Some(Json::Text(text)) => Some(text),
        _ => Some(value.to_owned()),
    }
}

/// The result of a call: the line to print, if any, or why it failed.
pub fn call(name: &str, outcome: &CallOutcome) -> (result: Result<Option<String>, String>)
    ensures
        match outcome {
            CallOutcome::Failed(why) => result matches Err(message) && message@ == "`"@ + name@ + "` failed: "@ + why@,
            CallOutcome::Returned(value) => result matches Ok(line) && text::optional(line) == printed_as(
                value@,
                json::json_level(value@),
            ),
        },
{
    match outcome {
        CallOutcome::Failed(why) => Err("`".to_owned().concat(name).concat("` failed: ").concat(why.as_str())),
        CallOutcome::Returned(value) => Ok(printed(value.as_str(), json::read_json(value.as_str()))),
    }
}

/// A call prints what came back: nothing for `null`, a text without its quotes, and anything else as
/// it is.
pub proof fn a_result_is_printed_as_it_reads(value: Seq<char>, level: Option<json::JsonView>, text: Seq<char>)
    ensures
        printed_as(value, Some(json::JsonView::Null)) is None,
        printed_as(value, Some(json::JsonView::Text(text))) == Some(text),
        printed_as(value, level) is None <==> level == Some(json::JsonView::Null),
        !(level matches Some(json::JsonView::Text(_))) && level != Some(json::JsonView::Null) ==> printed_as(
            value,
            level,
        ) == Some(value),
{
}

} // verus!
