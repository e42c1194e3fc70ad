use supervisor::action::{given_arguments, unit_variant};
use supervisor::control_client::{answer_outcome, call, send, unreachable_text, Answer, CallOutcome};

#[test]
fn an_answer_that_did_not_come_says_the_outcome_is_unknown() {
    let returned = CallOutcome::Returned("1".to_string());
    assert_eq!(answer_outcome("open", Answer::Result(returned.clone())), Ok(returned));
    assert_eq!(
        answer_outcome("open", Answer::Late),
        Err("the shell did not answer `open` within 5s; it may still have run".to_string())
    );
    assert_eq!(
        answer_outcome("open", Answer::Other("Hello".to_string())),
        Err("the shell answered `open` with Hello instead of a result".to_string())
    );
    assert_eq!(
        unreachable_text("/run/x.sock", "refused"),
        "cannot reach the shell at /run/x.sock: refused (is mantle running?)"
    );
}

#[test]
fn a_call_prints_text_bare_and_nothing_for_null() {
    let returned = |value: &str| CallOutcome::Returned(value.to_string());
    assert_eq!(call("rec", &returned("null")), Ok(None));
    assert_eq!(call("rec", &returned("\"on\"")), Ok(Some("on".to_string())));
    assert_eq!(call("rec", &returned("{\"a\":1}")), Ok(Some("{\"a\":1}".to_string())));
    assert_eq!(call("rec", &CallOutcome::Failed("nil".to_string())), Err("`rec` failed: nil".to_string()));
}

#[test]
fn a_refused_write_is_an_error() {
    assert_eq!(send("open", &CallOutcome::Returned("null".to_string())), Ok(()));
    assert_eq!(
        send("open", &CallOutcome::Failed("no such state".to_string())),
        Err("state `open` refused: no such state".to_string())
    );
}

/// Lua omits a trailing `nil`, and a `nil` it does send arrives as `null`.
#[test]
fn trailing_nulls_are_omitted_arguments() {
    let words = |list: &[&str]| list.iter().map(|word| word.to_string()).collect::<Vec<String>>();
    assert_eq!(given_arguments(words(&["null"])), words(&[]));
    assert_eq!(given_arguments(words(&["\"Home\"", "null", "true", "null"])), words(&["\"Home\"", "null", "true"]));
    assert_eq!(unit_variant(0), Ok(()));
    assert_eq!(unit_variant(1), Err("invalid length 1, expected no arguments".to_string()));
}
