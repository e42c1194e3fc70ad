use supervisor::capabilities::lock::state::PamOutcome;
use supervisor::pam_worker::{
    authenticate_uid, authenticate_via_helper, conversation_outcome, drive_helper, exchange_over, exchange_step,
    helper_opening, outcome_for_error,
    pam_service_in, read_frame, relayed_answer, relayed_prompt, reported, username_for, worker_env, write_frame,
    ExchangeStep, FrameRead, HelperEnd, HelperStep, PamMessage, ReportOnDrop, WorkerEnd, SELF_EXE,
};

const MAX: u32 = 1024;

/// Without a stack, keep the console-login service. Naming `mantle` would select
/// `/etc/pam.d/other`, `pam_deny` on stock Arch, and reject the correct password.
#[test]
fn without_an_installed_stack_the_service_falls_back_to_login() {
    assert_eq!(pam_service_in(false, false), "login");
}

#[test]
fn an_installed_stack_is_preferred_over_the_console_login_one() {
    assert_eq!(pam_service_in(true, false), "mantle");
}

#[test]
fn a_stack_installed_to_the_vendor_directory_is_found_without_an_admin_override() {
    assert_eq!(pam_service_in(false, true), "mantle");
}

/// An unreadable PAM directory is "not installed", not a panic; this runs in the unlock worker.
#[test]
fn a_missing_pam_config_directory_falls_back_rather_than_failing() {
    assert_eq!(pam_service_in(false, false), "login");
}

#[test]
fn outcome_for_error_maps_max_tries() {
    assert_eq!(outcome_for_error("MaxTries"), PamOutcome::MaxTries);
}

#[test]
fn outcome_for_error_maps_authentication_error_to_auth_failed() {
    assert_eq!(outcome_for_error("AuthenticationError"), PamOutcome::AuthFailed);
}

#[test]
fn outcome_for_error_maps_an_arbitrary_other_variant_to_pam_error() {
    assert_eq!(outcome_for_error("SystemError"), PamOutcome::PamError("SystemError".to_string()));
}

#[test]
fn a_conversation_succeeds_only_whole() {
    let ok = || Ok(());
    let failed = |code: &str| Err(code.to_string());
    assert_eq!(conversation_outcome(&ok(), &ok(), &ok()), PamOutcome::Success);
    assert_eq!(conversation_outcome(&ok(), &ok(), &failed("MaxTries")), PamOutcome::MaxTries);
    assert_eq!(conversation_outcome(&ok(), &failed("AuthenticationError"), &ok()), PamOutcome::AuthFailed);
    assert_eq!(
        conversation_outcome(&failed("no module"), &ok(), &ok()),
        PamOutcome::StartFailed("no module".to_string())
    );
}

/// 4-byte big-endian length, then the payload.
#[test]
fn exchange_over_reads_back_the_worker_s_final_outcome_frame() {
    let payload = b"{\"Outcome\":\"Success\"}".to_vec();
    let mut frame = vec![0, 0, 0, 21];
    frame.extend_from_slice(&payload);
    assert_eq!(write_frame(&payload, MAX), Ok(frame.clone()));
    assert_eq!(read_frame(&frame, MAX), FrameRead::Payload(payload, 25));
    assert_eq!(
        exchange_step(Ok(PamMessage::Outcome(PamOutcome::Success))),
        ExchangeStep::Done(PamOutcome::Success)
    );
    assert_eq!(read_frame(&vec![0, 0, 0], MAX), FrameRead::Partial(1));
    assert_eq!(read_frame(&vec![0, 0, 0, 2, 7], MAX), FrameRead::Partial(1));
    assert_eq!(read_frame(&vec![0, 0, 1, 2], MAX), FrameRead::Partial(258));
}

#[test]
fn a_frame_over_the_limit_is_refused_both_ways() {
    assert_eq!(write_frame(&vec![0; 3], 2), Err("frame length 3 exceeds the limit".to_string()));
    assert_eq!(
        read_frame(&vec![0xff, 0xff, 0xff, 0xff, 1], MAX),
        FrameRead::TooLong("frame length 4294967295 exceeds the limit".to_string())
    );
}

#[test]
fn a_worker_that_dies_without_answering_reports_how_it_died() {
    let end = |signal, code| Ok(WorkerEnd { signal, code, status: "unusual".to_string() });
    for (reaped, expected) in [
        (end(None, Some(3)), "exited with status 3"),
        (end(Some(11), None), "was killed by signal 11"),
        (end(None, None), "ended in a way no exit status describes: unusual"),
        (Err("no child".to_string()), "could not be reaped, so how it died is unknown: no child"),
    ] {
        let message = exchange_over(Some(Err("early eof".to_string())), &reaped).unwrap_err();
        assert_eq!(message, format!("early eof; the worker {expected}"));
    }
    assert_eq!(exchange_over(Some(Ok(PamOutcome::AuthFailed)), &end(None, Some(0))), Ok(PamOutcome::AuthFailed));
}

#[test]
fn exchange_messages_answers_every_prompt_with_the_secret_until_outcome() {
    for (text, echo) in [("Password:", false), ("One-time code:", true)] {
        assert_eq!(exchange_step(Ok(PamMessage::Prompt { text: text.to_string(), echo })), ExchangeStep::Answer);
    }
    assert_eq!(
        exchange_step(Ok(PamMessage::Response { secret: b"hunter2".to_vec() })),
        ExchangeStep::Fail("the worker sent a Response, which is the Supervisor's to send".to_string())
    );
    assert_eq!(exchange_step(Err("early eof".to_string())), ExchangeStep::Fail("early eof".to_string()));
}

#[test]
fn drive_helper_writes_the_opening_lines_in_order_then_answers_the_prompt() {
    assert_eq!(helper_opening("alice", "cookie-1"), "alice\ncookie-1\n");
    assert_eq!(drive_helper(Some("PAM_PROMPT_ECHO_OFF Password: ")), HelperStep::Answer);
    assert_eq!(drive_helper(Some("SUCCESS")), HelperStep::Verdict(PamOutcome::Success));
    assert_eq!(drive_helper(Some("FAILURE")), HelperStep::Verdict(PamOutcome::AuthFailed));
    assert_eq!(drive_helper(Some("PAM_TEXT_INFO hello")), HelperStep::Note);
    assert_eq!(drive_helper(None), HelperStep::Fail("the helper closed without a verdict".to_string()));
}

#[test]
fn relay_conversation_relays_a_masked_prompt_but_refuses_an_echo_on_one() {
    assert_eq!(
        relayed_prompt("Password:", false),
        Some(PamMessage::Prompt { text: "Password:".to_string(), echo: false })
    );
    assert_eq!(
        relayed_answer(Some(PamMessage::Response { secret: b"hunter2".to_vec() })),
        Some(b"hunter2".to_vec())
    );
    assert_eq!(relayed_prompt("One-time code:", true), None, "an echo-on prompt has no safe answer to relay");
    assert_eq!(relayed_answer(Some(PamMessage::Outcome(PamOutcome::Success))), None);
    assert_eq!(relayed_answer(None), None);
}

#[test]
fn report_on_drop_sends_a_fallback_outcome_when_dropped_before_reporting() {
    let mut guard = ReportOnDrop::new(7u64);
    let (acquisition, outcome) =
        guard.dropped().expect("a fallback outcome must be sent when the guard is dropped before reporting");
    assert!(matches!(outcome, PamOutcome::PamError(_)));
    assert_eq!(acquisition, 7, "and it must be tagged with the lock it was started for");
}

#[test]
fn report_on_drop_does_not_double_send_once_the_real_outcome_already_went_out() {
    let mut guard = ReportOnDrop::new(7u64);
    assert_eq!(guard.report(PamOutcome::Success), Some((7, PamOutcome::Success)));
    assert_eq!(
        guard.dropped(),
        None,
        "the drop guard must not also send its fallback once the real outcome already went out"
    );
}

#[test]
fn a_worker_that_could_not_start_is_no_attempt() {
    assert_eq!(reported(Ok(PamOutcome::AuthFailed)), PamOutcome::AuthFailed);
    assert_eq!(reported(Err("no fork".to_string())), PamOutcome::StartFailed("no fork".to_string()));
    assert_eq!(username_for(1000, Ok(Some("alice".to_string()))), Ok("alice".to_string()));
    assert_eq!(username_for(1000, Ok(None)), Err("uid 1000 has no passwd entry".to_string()));
    assert_eq!(
        username_for(1000, Err("EIO".to_string())),
        Err("failed to resolve uid 1000: EIO".to_string())
    );
    assert_eq!(worker_env("alice").len(), 2);
    assert_eq!(SELF_EXE, "/proc/self/exe");
}

#[test]
fn exchange_over_times_out_and_still_reaps_a_worker_that_never_responds() {
    let reaped = Ok(WorkerEnd { signal: Some(15), code: None, status: String::new() });
    assert_eq!(
        exchange_over(None, &reaped),
        Err("pam worker did not respond within the timeout; the worker was killed by signal 15".to_string())
    );
}

#[test]
fn a_failure_before_a_verdict_says_where_it_broke() {
    assert_eq!(authenticate_uid(Ok(PamOutcome::Success)), Ok(PamOutcome::Success));
    assert_eq!(authenticate_uid(Err("early eof".to_string())), Err("pam worker failed: early eof".to_string()));
    assert_eq!(authenticate_via_helper(HelperEnd::Exchange(Ok(PamOutcome::AuthFailed))), Ok(PamOutcome::AuthFailed));
    assert_eq!(
        authenticate_via_helper(HelperEnd::Exchange(Err("EOF".to_string()))),
        Err("polkit helper exchange failed: EOF".to_string())
    );
    assert_eq!(
        authenticate_via_helper(HelperEnd::Unreachable("refused".to_string())),
        Err("could not connect to /run/polkit/agent-helper.socket: refused".to_string())
    );
    assert_eq!(
        authenticate_via_helper(HelperEnd::Late),
        Err("the polkit helper did not respond within the timeout".to_string())
    );
}
