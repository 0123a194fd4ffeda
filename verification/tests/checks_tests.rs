use forge_engine::checks::{
    check_result_from_outcome, format_process_error, parse_phase_checks, CheckSpecValue,
    ProcessOutcome, RunnablePhaseCheck,
};

fn entry(
    id: Option<&str>,
    title: Option<&str>,
    command: Option<&str>,
    timeout_sec: Option<u64>,
) -> CheckSpecValue {
    CheckSpecValue::Entry {
        id: id.map(|s| s.to_string()),
        title: title.map(|s| s.to_string()),
        command: command.map(|s| s.to_string()),
        timeout_sec,
    }
}

#[test]
fn a_bare_command_string_gets_a_numbered_id_and_the_default_timeout() {
    let checks = vec![
        CheckSpecValue::Text("cargo test".to_string()),
        CheckSpecValue::Text("  cargo build  ".to_string()),
    ];
    let parsed = parse_phase_checks(&checks);
    assert_eq!(parsed.len(), 2);
    let first = parsed[0].as_ref().unwrap();
    assert_eq!(first.id, "check-1");
    assert_eq!(first.title, "check-1");
    assert_eq!(first.command, "cargo test");
    assert_eq!(first.timeout_seconds, 600);
    let second = parsed[1].as_ref().unwrap();
    assert_eq!(second.id, "check-2");
    assert_eq!(second.command, "cargo build");
}

#[test]
fn an_empty_command_fails_with_exit_code_two_without_a_process() {
    let checks = vec![
        CheckSpecValue::Text("   ".to_string()),
        CheckSpecValue::Other,
        entry(Some("lint"), Some("Lint"), None, None),
        entry(Some("fmt"), None, Some("  "), Some(30)),
    ];
    let parsed = parse_phase_checks(&checks);
    assert_eq!(parsed.len(), 4);

    let empty = parsed[0].as_ref().unwrap_err();
    assert_eq!(empty.id, "check-1");
    assert_eq!(empty.exit_code, 2);
    assert_eq!(empty.duration_ms, 0);
    assert_eq!(empty.stderr, "Phase check command is empty.");
    assert!(!empty.timed_out);

    let other = parsed[1].as_ref().unwrap_err();
    assert_eq!(other.id, "check-2");
    assert_eq!(other.exit_code, 2);
    assert_eq!(other.stderr, "Invalid phase check entry: expected string or object.");

    let no_command = parsed[2].as_ref().unwrap_err();
    assert_eq!(no_command.id, "lint");
    assert_eq!(no_command.title, "Lint");
    assert_eq!(no_command.exit_code, 2);
    assert_eq!(
        no_command.stderr,
        "Phase check object is missing a non-empty command field."
    );

    let blank_command = parsed[3].as_ref().unwrap_err();
    assert_eq!(blank_command.id, "fmt");
    assert_eq!(blank_command.title, "fmt");
    assert_eq!(blank_command.exit_code, 2);
}

#[test]
fn a_structured_entry_keeps_its_fields_and_falls_back_where_blank() {
    let checks = vec![
        entry(Some(" unit "), Some(" Unit tests "), Some(" cargo test "), Some(90)),
        entry(None, None, Some("true"), Some(0)),
        entry(Some("  "), Some(""), Some("true"), None),
    ];
    let parsed = parse_phase_checks(&checks);

    let full = parsed[0].as_ref().unwrap();
    assert_eq!(full.id, "unit");
    assert_eq!(full.title, "Unit tests");
    assert_eq!(full.command, "cargo test");
    assert_eq!(full.timeout_seconds, 90);

    let defaulted = parsed[1].as_ref().unwrap();
    assert_eq!(defaulted.id, "check-2");
    assert_eq!(defaulted.title, "check-2");
    assert_eq!(defaulted.timeout_seconds, 600);

    let blank_id = parsed[2].as_ref().unwrap();
    assert_eq!(blank_id.id, "check-3");
    assert_eq!(blank_id.title, "check-3");
}

fn runnable() -> RunnablePhaseCheck {
    RunnablePhaseCheck {
        id: "unit".to_string(),
        title: "Unit tests".to_string(),
        command: "cargo test".to_string(),
        timeout_seconds: 45,
    }
}

#[test]
fn a_completed_check_reports_its_exit_code_and_output() {
    let r = check_result_from_outcome(
        &runnable(),
        ProcessOutcome::Completed {
            exit_code: Some(3),
            stdout: "out".to_string(),
            stderr: "err".to_string(),
        },
        12,
    );
    assert_eq!(r.id, "unit");
    assert_eq!(r.title, "Unit tests");
    assert_eq!(r.exit_code, 3);
    assert_eq!(r.duration_ms, 12);
    assert_eq!(r.stdout, "out");
    assert_eq!(r.stderr, "err");
    assert!(!r.timed_out);

    let killed = check_result_from_outcome(
        &runnable(),
        ProcessOutcome::Completed {
            exit_code: None,
            stdout: String::new(),
            stderr: String::new(),
        },
        1,
    );
    assert_eq!(killed.exit_code, -1);
}

#[test]
fn a_timed_out_check_reports_exit_code_124() {
    let r = check_result_from_outcome(&runnable(), ProcessOutcome::TimedOut, 45000);
    assert_eq!(r.exit_code, 124);
    assert!(r.timed_out);
    assert_eq!(r.stderr, "Phase check timed out after 45s.");
}

#[test]
fn a_spawn_failure_reports_the_diagnostic() {
    let r = check_result_from_outcome(
        &runnable(),
        ProcessOutcome::SpawnFailed { message: "no such file".to_string() },
        2,
    );
    assert_eq!(r.exit_code, -1);
    assert!(!r.timed_out);
    assert_eq!(r.stderr, "Failed to run phase check command: no such file");
}

#[test]
fn process_errors_prefer_stderr_then_stdout() {
    assert_eq!(format_process_error("out", " err \n"), "err");
    assert_eq!(format_process_error(" out ", "  "), "out");
    assert_eq!(format_process_error("  ", ""), "Process failed.");
}
