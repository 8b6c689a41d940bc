use microsandbox::engines::create_engine;
use microsandbox::reactor::{reactor_dispatch, Cmd, EngineHandle};
use microsandbox::repl::{
    collect_lines, eval_responses, is_marker_line, make_marker, node_payload,
    node_prompt_artifact, python_payload, timeout_message, Language, Resp, Stream,
};

#[test]
fn marker_has_protocol_shape() {
    let m = make_marker();
    assert_eq!(m.len(), 24);
    assert!(m.starts_with("eoe_"));
    assert!(m[4..].chars().all(|c| c.is_ascii_alphanumeric()));
    // Two draws almost surely differ; equality would mean the randomness is
    // not reaching the marker.
    let m2 = make_marker();
    assert_ne!(m, m2);
}

#[test]
fn python_payload_appends_marker_print() {
    let p = python_payload("x=10".to_string(), "eoe_testmarker");
    assert_eq!(p, "x=10\n\nprint('eoe_testmarker')\n");
    // Code that already ends in a newline gets no extra terminator.
    let q = python_payload("x=10\n".to_string(), "eoe_testmarker");
    assert_eq!(q, "x=10\n\nprint('eoe_testmarker')\n");
}

#[test]
fn node_payload_appends_marker_log() {
    let p = node_payload("console.log('ok')".to_string(), "eoe_m");
    assert_eq!(p, "console.log('ok')\n\nconsole.log('eoe_m')\n");
}

#[test]
fn marker_line_is_detected_after_trimming() {
    assert!(is_marker_line("  eoe_m12345  ", "eoe_m12345"));
    assert!(is_marker_line("eoe_m12345", "eoe_m12345"));
    assert!(!is_marker_line("eoe_m12345 tail", "eoe_m12345"));
    assert!(!is_marker_line("output", "eoe_m12345"));
}

#[test]
fn node_prompt_artifacts_are_recognized() {
    assert!(node_prompt_artifact("> "));
    assert!(node_prompt_artifact(".. more"));
    assert!(node_prompt_artifact("   "));
    assert!(!node_prompt_artifact("ok"));
}

#[test]
fn completed_eval_ends_with_done_and_hides_marker() {
    // Exactly one terminal message per id, it is last, and the marker never
    // appears in forwarded output.
    let lines = vec![
        "15".to_string(),
        "more".to_string(),
        "eoe_marker0123456789".to_string(),
    ];
    let resps = eval_responses("a", "eoe_marker0123456789", &lines, false, 0);
    assert_eq!(resps.len(), 3);
    let terminal_count = resps
        .iter()
        .filter(|r| matches!(r, Resp::Done { .. } | Resp::Error { .. }))
        .count();
    assert_eq!(terminal_count, 1);
    assert!(matches!(resps.last().unwrap(), Resp::Done { id } if id == "a"));
    for r in &resps[..2] {
        match r {
            Resp::OutputLine { id, stream, text } => {
                assert_eq!(id, "a");
                assert_eq!(*stream, Stream::Stdout);
                assert!(!text.contains("eoe_marker0123456789"));
            }
            other => panic!("unexpected message before the terminal: {:?}", terminal_kind(other)),
        }
    }
}

fn terminal_kind(r: &Resp) -> &'static str {
    match r {
        Resp::OutputLine { .. } => "line",
        Resp::Done { .. } => "done",
        Resp::Error { .. } => "error",
    }
}

#[test]
fn timed_out_eval_ends_with_error_not_done() {
    // An infinite loop with a timeout of one second: the terminal message is
    // an error whose text names the timeout, and there is no Done.
    let lines = vec!["spinning".to_string()];
    let resps = eval_responses("loop", "eoe_neverprinted00000", &lines, true, 1);
    assert_eq!(resps.len(), 2);
    assert!(!resps.iter().any(|r| matches!(r, Resp::Done { .. })));
    match resps.last().unwrap() {
        Resp::Error { id, message } => {
            assert_eq!(id, "loop");
            assert!(message.contains("timed out"));
            assert_eq!(message, "Execution timed out after 1 seconds");
        }
        _ => panic!("expected an error terminal"),
    }
}

#[test]
fn timeout_message_names_the_seconds() {
    assert_eq!(timeout_message(2), "Execution timed out after 2 seconds");
    assert!(timeout_message(2).contains("timed out after 2 seconds"));
    assert_eq!(timeout_message(60), "Execution timed out after 60 seconds");
}

#[test]
fn collect_lines_stops_at_done() {
    let resps = vec![
        Resp::OutputLine { id: "a".to_string(), stream: Stream::Stdout, text: "ok".to_string() },
        Resp::Done { id: "a".to_string() },
        Resp::OutputLine { id: "b".to_string(), stream: Stream::Stdout, text: "late".to_string() },
    ];
    let lines = collect_lines(&resps);
    assert_eq!(lines.len(), 1);
    assert_eq!(lines[0].text, "ok");
    assert_eq!(lines[0].stream, Stream::Stdout);
}

#[test]
fn collect_lines_renders_error_terminal() {
    let resps = vec![
        Resp::Error { id: "a".to_string(), message: "boom".to_string() },
    ];
    let lines = collect_lines(&resps);
    assert_eq!(lines.len(), 1);
    assert_eq!(lines[0].stream, Stream::Stderr);
    assert_eq!(lines[0].text, "Error: boom");
}

#[test]
fn engine_forwards_output_and_suppresses_marker() {
    let mut e = create_engine(Language::Python);
    e.initialize();
    let marker = e.begin_eval("a");
    let fwd = e.observe_stdout_line("15");
    match fwd {
        Some(Resp::OutputLine { id, stream, text }) => {
            assert_eq!(id, "a");
            assert_eq!(stream, Stream::Stdout);
            assert_eq!(text, "15");
        }
        _ => panic!("expected the line to be forwarded"),
    }
    let done = e.observe_stdout_line(&marker);
    assert!(matches!(done, Some(Resp::Done { id }) if id == "a"));
    // A second marker line yields nothing further: one terminal per eval.
    let again = e.observe_stdout_line(&marker);
    assert!(again.is_none());
    let nothing_more = e.finish_eval(0);
    assert!(nothing_more.is_none());
}

#[test]
fn node_engine_drops_prompt_lines() {
    // A single eval of `console.log('ok')`: the forwarded output is exactly
    // `ok`; prompt artifacts starting with `>` are never forwarded.
    let mut e = create_engine(Language::Node);
    e.initialize();
    let marker = e.begin_eval("n1");
    assert!(e.observe_stdout_line("> ").is_none());
    let fwd = e.observe_stdout_line("ok");
    assert!(matches!(fwd, Some(Resp::OutputLine { text, .. }) if text == "ok"));
    assert!(e.observe_stdout_line(".. ").is_none());
    let done = e.observe_stdout_line(&marker);
    assert!(matches!(done, Some(Resp::Done { .. })));
}

#[test]
fn engine_timeout_then_next_eval_still_works() {
    // An eval that never prints its marker times out with an error; the
    // session stays usable and the next eval completes.
    let mut e = create_engine(Language::Python);
    e.initialize();
    let _marker = e.begin_eval("t1");
    assert!(e.observe_stdout_line("spinning").is_some());
    let err = e.finish_eval(2);
    match err {
        Some(Resp::Error { id, message }) => {
            assert_eq!(id, "t1");
            assert!(message.contains("timed out after 2 seconds"));
        }
        _ => panic!("expected a timeout error terminal"),
    }
    let marker2 = e.begin_eval("t2");
    let fwd = e.observe_stdout_line("1");
    assert!(matches!(fwd, Some(Resp::OutputLine { text, .. }) if text == "1"));
    assert!(matches!(e.observe_stdout_line(&marker2), Some(Resp::Done { .. })));
}

#[test]
fn reactor_dispatches_per_language_in_arrival_order() {
    let cmds = vec![
        Cmd::Eval { id: "p1".to_string(), code: "x=1".to_string(), language: Language::Python },
        Cmd::Eval { id: "n1".to_string(), code: "y".to_string(), language: Language::Node },
        Cmd::Eval { id: "p2".to_string(), code: "x".to_string(), language: Language::Python },
        Cmd::Shutdown,
        Cmd::Eval { id: "p3".to_string(), code: "z".to_string(), language: Language::Python },
    ];
    let plan = reactor_dispatch(&cmds);
    let ids: Vec<&str> = plan.iter().map(|d| d.id.as_str()).collect();
    assert_eq!(ids, vec!["p1", "n1", "p2"]);
    let python_ids: Vec<&str> = plan
        .iter()
        .filter(|d| d.language == Language::Python)
        .map(|d| d.id.as_str())
        .collect();
    assert_eq!(python_ids, vec!["p1", "p2"]);
}

#[test]
fn engine_handle_refuses_eval_after_shutdown() {
    let mut h = EngineHandle::new();
    assert!(h.eval("x=1".to_string(), Language::Python, "a".to_string()).is_ok());
    h.shutdown();
    assert!(h.eval("x=2".to_string(), Language::Python, "b".to_string()).is_err());
}

#[test]
fn execution_ids_are_fresh() {
    let a = microsandbox::reactor::new_execution_id();
    let b = microsandbox::reactor::new_execution_id();
    assert_eq!(a.len(), 36);
    assert_ne!(a, b);
}

#[test]
fn execution_collects_output_and_status() {
    // A stateful pair of evals at the result level: the second eval's
    // response has status completed and output exactly `15\n`.
    let raw = vec!["15".to_string(), "eoe_abcdefghij0123456789".to_string()];
    let exec = microsandbox::repl::run_execution(
        "b",
        Language::Python,
        "eoe_abcdefghij0123456789",
        &raw,
        false,
        0,
    );
    assert_eq!(exec.id, "b");
    assert_eq!(exec.status_label(), "completed");
    assert!(!exec.has_error());
    assert_eq!(exec.stream_text(Stream::Stdout), "15\n");
    assert_eq!(exec.stream_text(Stream::Stderr), "");
}

#[test]
fn execution_timeout_has_timeout_status() {
    let raw = vec!["partial".to_string()];
    let exec = microsandbox::repl::run_execution(
        "t",
        Language::Python,
        "eoe_abcdefghij0123456789",
        &raw,
        true,
        2,
    );
    assert_eq!(exec.status_label(), "timeout");
    assert!(exec.has_error());
    assert_eq!(exec.stream_text(Stream::Stdout), "partial\n");
}
