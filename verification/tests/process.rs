use supervisor::process::lines::{BoundedLines, MAX_LINE_BYTES};
use supervisor::process::registry::{
    dispatch, exit_answer, process_run_args, report_process_output_line, spawn_and_register_process, stream_label,
    LiveProcesses,
    ProcessExited, ProcessOutputLine, ProcessStep, ProcessStream,
};

/// The lines of an output that comes in these reads.
fn lines_of_reads(reads: &[&[u8]]) -> Vec<String> {
    let mut reader = BoundedLines::new("test".to_string());
    let mut out = Vec::new();
    for read in reads {
        out.extend(reader.feed(&read.to_vec()));
    }
    out.extend(reader.finish());
    out
}

fn lines_of(input: &[u8]) -> Vec<String> {
    lines_of_reads(&[input])
}

#[test]
fn ordinary_lines_come_back_split_and_without_their_newlines() {
    assert_eq!(lines_of(b"one\ntwo\nthree\n"), vec!["one", "two", "three"]);
}

#[test]
fn a_final_line_without_a_newline_is_still_delivered() {
    assert_eq!(lines_of(b"first\nno trailing newline"), vec!["first", "no trailing newline"]);
}

#[test]
fn a_child_that_never_writes_a_newline_is_cut_at_the_cap_not_buffered_forever() {
    let flood = vec![b'x'; MAX_LINE_BYTES * 3];
    let lines = lines_of(&flood);
    assert_eq!(lines.len(), 1, "one unterminated line, however long, is one line");
    assert_eq!(lines[0].len(), MAX_LINE_BYTES);
}

#[test]
fn the_line_after_an_over_long_one_starts_clean() {
    let mut input = vec![b'x'; MAX_LINE_BYTES + 500];
    input.extend_from_slice(b"\nshort\n");
    let lines = lines_of(&input);
    assert_eq!(lines.len(), 2);
    assert_eq!(lines[0].len(), MAX_LINE_BYTES, "the head is kept and the tail dropped");
    assert_eq!(lines[1], "short", "the dropped tail must not bleed into the next line");
}

#[test]
fn invalid_utf8_is_replaced_rather_than_ending_the_stream() {
    let lines = lines_of(b"ok\n\xff\nafter\n");
    assert_eq!(lines.len(), 3);
    assert_eq!(lines[0], "ok");
    assert_eq!(lines[1], "\u{fffd}");
    assert_eq!(lines[2], "after");
}

#[test]
fn a_cancelled_read_keeps_the_bytes_it_had_already_taken() {
    assert_eq!(lines_of_reads(&[b"partial", b" rest\n"]), vec!["partial rest"]);
}

#[test]
fn a_cancelled_discard_resumes_and_does_not_eat_the_next_line() {
    let flood = vec![b'x'; MAX_LINE_BYTES + 64];
    let lines = lines_of_reads(&[&flood, b"\nkeep me\n"]);
    assert_eq!(lines.len(), 2);
    assert_eq!(lines[0].len(), MAX_LINE_BYTES);
    assert_eq!(lines[1], "keep me", "the line after the over-long one must survive");
}

#[test]
fn empty_output_is_no_lines_at_all() {
    assert!(lines_of(b"").is_empty());
}

#[test]
fn a_runaway_child_is_reported_once() {
    let mut reader = BoundedLines::new("stdout of 7".to_string());
    assert_eq!(reader.warning(), None);
    reader.feed(&vec![b'x'; MAX_LINE_BYTES + 1]);
    assert_eq!(
        reader.warning(),
        Some(
            "stdout of 7: a line exceeded 65536 bytes and was truncated; further truncations on this stream are not reported"
                .to_string()
        )
    );
    assert_eq!(reader.warning(), None);
}

/// Each undecodable byte becomes a replacement character of three bytes, so the text is what is
/// held to the cap.
#[test]
fn a_line_of_undecodable_bytes_is_held_to_the_cap_as_text() {
    let mut input = vec![0xff_u8; MAX_LINE_BYTES];
    input.extend_from_slice(b"\nafter\n");
    let lines = lines_of(&input);
    assert_eq!(lines.len(), 2);
    assert!(lines[0].len() <= MAX_LINE_BYTES, "{} bytes", lines[0].len());
    assert_eq!(lines[0], "\u{fffd}".repeat(MAX_LINE_BYTES / 3));
    assert_eq!(lines[1], "after");
}

#[test]
fn an_over_long_line_that_ends_within_one_read_is_reported_too() {
    let mut reader = BoundedLines::new("stderr of 8".to_string());
    let mut input = vec![b'x'; MAX_LINE_BYTES + 1];
    input.extend_from_slice(b"\nshort\n");
    let lines = reader.feed(&input);
    assert_eq!(lines.len(), 2);
    assert_eq!(lines[1], "short");
    assert!(reader.warning().is_some_and(|warning| warning.starts_with("stderr of 8: ")));
    assert_eq!(reader.warning(), None);
    reader.feed(&input);
    assert_eq!(reader.warning(), None, "once per stream");
}

#[test]
fn a_line_at_the_cap_is_whole_and_unreported() {
    let mut reader = BoundedLines::new("stdout of 9".to_string());
    let mut input = vec![b'x'; MAX_LINE_BYTES];
    input.push(b'\n');
    assert_eq!(reader.feed(&input)[0].len(), MAX_LINE_BYTES);
    assert_eq!(reader.warning(), None);
    assert_eq!(reader.finish(), None);
}

fn values(list: &[&str]) -> Vec<String> {
    list.iter().map(|value| value.to_string()).collect()
}

#[test]
fn process_run_args_parses_cmd_and_args_from_arguments() {
    let arguments = values(&["\"echo\"", "[\"hello\",\"world\"]"]);
    assert_eq!(
        process_run_args(&arguments),
        Some(("echo".to_string(), vec!["hello".to_string(), "world".to_string()]))
    );
}

#[test]
fn process_run_args_rejects_a_malformed_shape() {
    assert_eq!(process_run_args(&values(&[])), None, "missing both elements");
    assert_eq!(process_run_args(&values(&["1", "[]"])), None, "cmd is not a string");
    assert_eq!(process_run_args(&values(&["\"echo\"", "\"not-an-array\""])), None, "args is not an array");
    assert_eq!(process_run_args(&values(&["\"echo\"", "[1,2]"])), None, "args contains non-strings");
}

#[test]
fn a_malformed_run_is_answered_and_a_malformed_detach_is_not() {
    let good = values(&["\"echo\"", "[\"hi\"]"]);
    let bad = values(&["1"]);
    let (cmd, args) = ("echo".to_string(), vec!["hi".to_string()]);
    assert_eq!(dispatch("run", &good), ProcessStep::Run { cmd: cmd.clone(), args: args.clone() });
    assert_eq!(dispatch("detach", &good), ProcessStep::Detach { cmd, args });
    assert_eq!(dispatch("run", &bad), ProcessStep::AnswerExited);
    assert_eq!(dispatch("detach", &bad), ProcessStep::Ignore);
    assert_eq!(dispatch("kill", &values(&[])), ProcessStep::Kill);
    assert_eq!(dispatch("dance", &values(&[])), ProcessStep::Ignore);
}

#[test]
fn spawn_and_register_process_registers_a_successful_spawn_and_returns_piped_handles() {
    let mut processes: LiveProcesses<&str> = LiveProcesses::new();
    assert_eq!(spawn_and_register_process(&mut processes, 1, 7, Some("child")), None);
    assert!(processes.contains(1, 7));
}

#[test]
fn spawn_and_register_process_registers_nothing_on_a_spawn_failure() {
    let mut processes: LiveProcesses<&str> = LiveProcesses::new();
    assert_eq!(
        spawn_and_register_process(&mut processes, 1, 7, None),
        Some(ProcessExited { id: 7, code: None })
    );
    assert!(!processes.contains(1, 7));
}

#[test]
fn stream_process_output_forwards_both_streams_then_the_real_exit_code_arrives_via_wait() {
    assert_eq!(
        report_process_output_line(9, ProcessStream::Stdout, Ok(Some("out1".to_string()))),
        (Some(ProcessOutputLine { id: 9, stream: ProcessStream::Stdout, line: "out1".to_string() }), false)
    );
    assert_eq!(
        report_process_output_line(9, ProcessStream::Stderr, Ok(Some("err1".to_string()))),
        (Some(ProcessOutputLine { id: 9, stream: ProcessStream::Stderr, line: "err1".to_string() }), false)
    );
    assert_eq!(report_process_output_line(9, ProcessStream::Stdout, Ok(None)), (None, true));
    assert_eq!(report_process_output_line(9, ProcessStream::Stdout, Err("EIO".to_string())), (None, true));
    assert_eq!(exit_answer(9, Ok(Some(3))), ProcessExited { id: 9, code: Some(3) });
}

#[test]
fn taking_an_unregistered_id_returns_none() {
    let mut processes: LiveProcesses<&str> = LiveProcesses::new();
    assert!(processes.remove(1, 1).is_none());
}

#[test]
fn wait_and_report_exit_sends_the_real_exit_code_back_to_the_generation_that_spawned_it() {
    assert_eq!(exit_answer(9, Ok(Some(7))), ProcessExited { id: 9, code: Some(7) });
    assert_eq!(exit_answer(9, Err("no child".to_string())), ProcessExited { id: 9, code: None });
}

#[test]
fn kill_registered_process_reaps_and_reports_a_signal_death() {
    let mut processes: LiveProcesses<&str> = LiveProcesses::new();
    spawn_and_register_process(&mut processes, 1, 3, Some("child"));
    assert_eq!(processes.remove(1, 3), Some("child"));
    assert!(!processes.contains(1, 3));
    assert_eq!(exit_answer(3, Ok(None)).code, None, "a SIGTERM/SIGKILL death has no exit code");
}

#[test]
fn reaping_one_generation_reaps_only_the_matching_generations_entries() {
    let mut processes: LiveProcesses<&str> = LiveProcesses::new();
    spawn_and_register_process(&mut processes, 1, 1, Some("first"));
    spawn_and_register_process(&mut processes, 2, 1, Some("second"));

    assert_eq!(processes.reap(Some(1)), vec![(1, 1, "first")]);

    assert!(!processes.contains(1, 1), "generation 1's process must be reaped and removed");
    assert!(processes.contains(2, 1), "generation 2's process must be untouched");
}

#[test]
fn reaping_without_a_generation_reaps_every_generations_entries() {
    let mut processes: LiveProcesses<&str> = LiveProcesses::new();
    spawn_and_register_process(&mut processes, 1, 1, Some("first"));
    spawn_and_register_process(&mut processes, 2, 1, Some("second"));

    assert_eq!(processes.reap(None).len(), 2);
    assert!(!processes.contains(1, 1) && !processes.contains(2, 1));
}

#[test]
fn a_reused_id_hands_the_old_child_back() {
    let mut processes: LiveProcesses<&str> = LiveProcesses::new();
    assert_eq!(processes.insert(1, 1, "first"), None);
    assert_eq!(processes.insert(1, 1, "second"), Some("first"));
    assert_eq!(processes.remove(1, 1), Some("second"));
}

#[test]
fn a_stream_is_named_after_its_process() {
    assert_eq!(stream_label(9, 2, ProcessStream::Stdout), "process 9 (generation 2) stdout");
    assert_eq!(stream_label(9, 2, ProcessStream::Stderr), "process 9 (generation 2) stderr");
}
