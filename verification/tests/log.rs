use supervisor::log::{
    capture, last_run_note, no_lock, no_log, paint, paintable, pump, Capture, Follow, Onward, PrintStep,
};

fn lines(onward: Onward) -> Vec<String> {
    match onward {
        Onward::Painted(lines) => lines.iter().map(|line| paintable(line).unwrap()).collect(),
        Onward::Plain => panic!("not painted"),
    }
}

#[test]
fn a_teed_descriptor_keeps_the_log_plain_and_paints_what_it_replaced() {
    let line = "08:00:00 WARN  tray: the item went away\n";
    let bytes = line.as_bytes().to_vec();

    // The log takes the bytes as they come; the terminal gets the line to paint.
    assert_eq!(lines(pump(&bytes, true, &mut Vec::new())), [line]);
    assert_eq!(pump(&bytes, false, &mut Vec::new()), Onward::Plain);
}

#[test]
fn a_line_split_across_two_reads_is_painted_once_it_is_whole() {
    let (head, tail) = ("08:00:00 INFO  idle: notif", "y is live\n");
    let mut pending = Vec::new();

    assert!(lines(pump(&head.as_bytes().to_vec(), true, &mut pending)).is_empty(), "half a line cannot be painted");
    assert_eq!(lines(pump(&tail.as_bytes().to_vec(), true, &mut pending)), [format!("{head}{tail}")]);
    assert!(pending.is_empty());
}

#[test]
fn one_read_of_many_lines_paints_each_and_keeps_the_unfinished_tail() {
    let mut pending = Vec::new();

    let whole = paint(&b"a\nb\nc".to_vec(), &mut pending);

    assert_eq!(whole, vec![b"a\n".to_vec(), b"b\n".to_vec()]);
    assert_eq!(pending, b"c");
}

#[test]
fn a_line_that_is_no_text_is_passed_on_unpainted() {
    assert_eq!(paintable(&b"ok\n".to_vec()), Some("ok\n".to_string()));
    assert_eq!(paintable(&vec![0xff, b'\n']), None);
}

#[test]
fn a_follow_ends_when_its_supervisor_drops_the_lock() {
    let mut reader = Follow::new(true);
    assert_eq!(reader.shown(), PrintStep::Ask);
    assert!(reader.asked(true), "a live writer is waited for");
    assert_eq!(reader.shown(), PrintStep::Ask);
    assert!(!reader.asked(false), "one more look, at once");
    assert_eq!(reader.shown(), PrintStep::Finish);
    assert_eq!(Follow::new(false).shown(), PrintStep::Finish);
}

#[test]
fn a_stream_to_nowhere_becomes_the_log() {
    assert_eq!(capture(true), Capture::Redirect);
    assert_eq!(capture(false), Capture::Tee);
}

#[test]
fn a_dead_runs_output_is_introduced() {
    assert_eq!(last_run_note("/i/shell.log", true), None);
    assert_eq!(
        last_run_note("/i/shell.log", false),
        Some("no shell is writing /i/shell.log; this is the last run's output".to_string())
    );
    assert_eq!(no_log("/i/shell.log", "ENOENT"), "no log at /i/shell.log: ENOENT");
    assert_eq!(no_lock("/i", "ENOENT"), "/i has no lock, so its shell died starting: ENOENT");
}
