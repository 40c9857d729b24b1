//! The bash tool: what is kept, streamed and reported of a command.
use mo_worker::journal::JournalEventKind;
use mo_worker::output::OUTPUT_CAP;
use mo_worker::tools::bash::{
    active_bash_pgid, bash, bash_ended, check_command, exit_output, partial_output,
    set_active_bash_pgid, ActiveBash, BashEnd, BashOutput, CHUNK_SIZE, DEFAULT_TIMEOUT_SECS,
    DELTA_STREAM_CAP,
};

/// Feeds both streams of a command in chunks; returns what was streamed.
fn feed(output: &mut BashOutput, from_stdout: bool, bytes: &[u8]) -> String {
    let mut streamed = String::new();
    for chunk in bytes.chunks(CHUNK_SIZE) {
        if let Some(event) = output.on_chunk(from_stdout, &chunk.to_vec(), "call_1") {
            match event {
                JournalEventKind::ToolOutputDelta { id, name, output } => {
                    assert_eq!(id, "call_1");
                    assert_eq!(name, "bash");
                    streamed.push_str(&output);
                }
                other => panic!("expected a delta, got: {other:?}"),
            }
        }
    }
    streamed
}

fn reports_exit_code() {
    let mut output = BashOutput::new();
    feed(&mut output, true, b"hello\n");
    let out = bash("echo hello && exit 3", &output, &BashEnd::Exited(Some(3))).unwrap();
    assert!(out.contains("hello"), "got: {out}");
    assert!(out.contains("exit code: 3"), "got: {out}");
    assert_eq!(out, "exit code: 3\nhello\n");
}

fn reports_stderr() {
    let mut output = BashOutput::new();
    feed(&mut output, false, b"boom\n");
    let out = bash("echo boom 1>&2", &output, &BashEnd::Exited(Some(0))).unwrap();
    assert!(out.contains("boom"), "got: {out}");
    assert_eq!(out, "exit code: 0\n[stderr]\nboom\n");
}

fn streams_chunks() {
    let mut output = BashOutput::new();
    let mut joined = feed(&mut output, true, b"one\ntwo\n");
    joined.push_str(&feed(&mut output, false, b"boom"));
    let out = bash("printf", &output, &BashEnd::Exited(Some(0))).unwrap();
    assert!(out.contains("one"), "got: {out}");
    assert!(out.contains("boom"), "got: {out}");
    assert!(joined.contains("one"), "streamed: {joined}");
    assert!(joined.contains("two"), "streamed: {joined}");
    assert!(joined.contains("boom"), "streamed: {joined}");
}

fn times_out() {
    let err = bash("sleep 30", &BashOutput::new(), &BashEnd::TimedOut { secs: 1 }).unwrap_err();
    assert!(err.contains("timed out"));
    assert!(err.starts_with("command timed out after 1s: sleep 30\n"), "got: {err}");
}

fn reports_partial_output() {
    let mut output = BashOutput::new();
    feed(&mut output, true, b"downloading deps...\n");
    let err = bash("sleep 30", &output, &BashEnd::TimedOut { secs: 1 }).unwrap_err();
    assert!(err.contains("timed out"), "got: {err}");
    assert!(err.contains("downloading deps..."), "partial output missing: {err}");
}

fn hints_at_buffering() {
    let err = bash("sleep 30", &BashOutput::new(), &BashEnd::TimedOut { secs: 1 }).unwrap_err();
    assert!(err.contains("timed out"), "got: {err}");
    assert!(err.contains("no output was received"), "missing buffering hint: {err}");
}

fn caps_the_retained_output() {
    let total = OUTPUT_CAP + 256 * 1024;
    let mut output = BashOutput::new();
    let streamed = feed(&mut output, true, &vec![b'x'; total]).len();
    assert!(streamed >= total, "streamed only {streamed} of {total}");
    let out = bash("head", &output, &BashEnd::Exited(Some(0))).unwrap();
    assert!(out.len() < OUTPUT_CAP + 2048, "result too big: {}", out.len());
    assert!(out.contains("output truncated"), "missing truncation note");
}

fn caps_the_delta_stream() {
    let total = DELTA_STREAM_CAP + 1024 * 1024;
    let mut output = BashOutput::new();
    let text = feed(&mut output, true, &vec![b'x'; total]);
    assert_eq!(text.matches("output capped at 10 MB").count(), 1);
    let streamed = text.len();
    assert!(streamed < DELTA_STREAM_CAP + 4096, "delta stream not capped: {streamed} bytes");
    assert!(streamed >= DELTA_STREAM_CAP, "delta stream stopped early: {streamed} bytes");
    let out = bash("head", &output, &BashEnd::Exited(Some(0))).unwrap();
    assert!(out.len() < 2 * 1024 * 1024, "result too big: {}", out.len());
}

#[test]
fn bash_tests_runs_command_and_reports_exit_code() {
    reports_exit_code();
}

#[test]
fn bash_tests_captures_stderr() {
    reports_stderr();
}

#[test]
fn bash_tests_streams_output_chunks_live() {
    streams_chunks();
}

#[test]
fn bash_tests_times_out_and_kills() {
    times_out();
}

#[test]
fn bash_tests_timeout_reports_partial_output() {
    reports_partial_output();
}

#[test]
fn bash_tests_timeout_with_no_output_hints_at_buffering() {
    hints_at_buffering();
}

#[test]
fn bash_tests_full_output_streams_while_retained_is_capped() {
    caps_the_retained_output();
}

#[test]
fn bash_tests_delta_stream_is_capped_with_marker() {
    caps_the_delta_stream();
}

#[test]
fn bash_runs_command_and_reports_exit_code() {
    reports_exit_code();
}

#[test]
fn bash_captures_stderr() {
    reports_stderr();
}

#[test]
fn bash_streams_output_chunks_live() {
    streams_chunks();
}

#[test]
fn bash_times_out_and_kills() {
    times_out();
}

#[test]
fn bash_timeout_reports_partial_output() {
    reports_partial_output();
}

#[test]
fn bash_timeout_with_no_output_hints_at_buffering() {
    hints_at_buffering();
}

#[test]
fn bash_full_output_streams_while_retained_is_capped() {
    caps_the_retained_output();
}

#[test]
fn bash_delta_stream_is_capped_with_marker() {
    caps_the_delta_stream();
}

#[test]
fn every_end_has_its_report() {
    let none = BashOutput::new();
    assert_eq!(bash("  ", &none, &BashEnd::Exited(Some(0))).unwrap_err(), "command must not be empty");
    assert_eq!(check_command("ls"), Ok(()));
    assert!(check_command("\t").is_err());
    assert!(bash("ls", &none, &BashEnd::SpawnFailed("no sh".into())).unwrap_err().contains("no sh"));
    assert!(bash("ls", &none, &BashEnd::WaitFailed("lost".into())).unwrap_err().contains("lost"));
    let signalled = bash("ls", &none, &BashEnd::Exited(None)).unwrap();
    assert_eq!(signalled, exit_output(None, "", None));
    assert_eq!(signalled, "exit code: -1\n");
    assert_eq!(DEFAULT_TIMEOUT_SECS, 120);
}

#[test]
fn partial_output_shows_both_streams() {
    let text = partial_output("out \n", "err", false);
    assert_eq!(text, "[partial output]\nout\n[partial stderr]\nerr\n");
    let text = partial_output("out", "", true);
    assert!(text.contains("capped at 1 MB"), "got: {text}");
}

#[test]
fn invalid_bytes_become_replacement_characters() {
    let mut output = BashOutput::new();
    let streamed = feed(&mut output, true, b"a\xffb");
    assert_eq!(streamed, "a\u{fffd}b");
    let out = bash("cat", &output, &BashEnd::Exited(Some(0))).unwrap();
    assert!(out.contains("a\u{fffd}b"), "got: {out}");
}

#[test]
fn only_the_beginning_is_kept() {
    let mut output = BashOutput::new();
    feed(&mut output, true, &vec![b'a'; OUTPUT_CAP - 1]);
    assert!(!output.truncated);
    feed(&mut output, true, b"bc");
    assert!(output.truncated);
    assert_eq!(output.stdout.len(), OUTPUT_CAP);
    assert_eq!(output.stdout[OUTPUT_CAP - 1], b'b');
    assert!(output.stderr.is_empty());
}

#[test]
fn the_active_group_is_remembered() {
    let mut active = ActiveBash { pgid: None };
    assert_eq!(active_bash_pgid(&active), None);
    set_active_bash_pgid(&mut active, Some(42));
    assert_eq!(active_bash_pgid(&active), Some(42));
    set_active_bash_pgid(&mut active, None);
    assert_eq!(active_bash_pgid(&active), None);
    // The end of a command clears it.
    set_active_bash_pgid(&mut active, Some(7));
    bash_ended(&mut active);
    assert_eq!(active_bash_pgid(&active), None);
}

#[test]
fn valid_text_is_reported_as_it_is() {
    let mut output = BashOutput::new();
    assert_eq!(feed(&mut output, true, "größe 馍\n".as_bytes()), "größe 馍\n");
    assert_eq!(feed(&mut output, false, "é\n".as_bytes()), "é\n");
    assert_eq!(
        bash("x", &output, &BashEnd::Exited(Some(0))).unwrap(),
        "exit code: 0\ngröße 馍\n[stderr]\né\n"
    );
    assert_eq!(
        bash("x", &output, &BashEnd::TimedOut { secs: 2 }).unwrap_err(),
        "command timed out after 2s: x\n[partial output]\ngröße 馍\n[partial stderr]\né\n"
    );
}
