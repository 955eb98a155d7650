use mars::api::ExitCode;
use mars::apply::ApplyResult;
use mars::cli::{
    check_opened, check_test_command, follow_request, ipc_to_cli_error, is_stale_socket_error,
    is_valid_profile_name, profile_path, report_apply, report_devices, report_plan,
    report_validation, validate_profile_name, CliError, ConnectionErrorKind, DaemonRequest,
    IpcError, ResponseKind,
};
use mars::commands::{
    plan_command, report_response, CommandFacts, CommandPlan, Commands, DaemonResponse,
};
use mars::launcher::{
    after_launch, after_ping, begin_wait, daemon_launch_candidates, first_launch,
    normalized_ping_timeout, ping_retries, EnsureOutcome, EnsureRun, EnsureStep, LaunchStep,
    PingOutcome, PingWait,
};
use mars::logs::{compute_log_delta, LogResponse};
use mars::matching::DeviceInventory;
use mars::plan::ApplyPlan;

fn lines(values: &[&str]) -> Vec<String> {
    values.iter().map(|value| (*value).to_string()).collect()
}

#[test]
fn accepts_valid_profile_names() {
    assert!(is_valid_profile_name("demo"));
    assert!(is_valid_profile_name("demo-1"));
    assert!(is_valid_profile_name("A_1"));
}

#[test]
fn rejects_invalid_profile_names() {
    assert!(!is_valid_profile_name("../x"));
    assert!(!is_valid_profile_name("a/b"));
    assert!(!is_valid_profile_name(".."));
    assert!(!is_valid_profile_name(""));
    assert!(!is_valid_profile_name(" demo"));
}

#[test]
fn stale_socket_detection_covers_connect_errors_only() {
    let not_found = IpcError::Io {
        kind: ConnectionErrorKind::NotFound,
        shown: "missing".to_string(),
    };
    assert!(is_stale_socket_error(&not_found));

    let refused = IpcError::Io {
        kind: ConnectionErrorKind::ConnectionRefused,
        shown: "refused".to_string(),
    };
    assert!(is_stale_socket_error(&refused));

    let timed_out = IpcError::Timeout;
    assert!(!is_stale_socket_error(&timed_out));
}

#[test]
fn log_delta_returns_all_lines_on_first_snapshot() {
    let current = lines(&["one", "two"]);
    assert_eq!(compute_log_delta(&Vec::new(), &current), current);
}

#[test]
fn log_delta_returns_only_new_lines_on_append() {
    let previous = lines(&["one", "two"]);
    let current = lines(&["one", "two", "three", "four"]);
    assert_eq!(
        compute_log_delta(&previous, &current),
        lines(&["three", "four"])
    );
}

#[test]
fn log_delta_returns_full_snapshot_on_truncation() {
    let previous = lines(&["one", "two", "three", "four"]);
    let current = lines(&["new-one", "new-two"]);
    assert_eq!(compute_log_delta(&previous, &current), current);
}

#[test]
fn log_delta_returns_no_lines_when_snapshot_unchanged() {
    let previous = lines(&["one", "two"]);
    let current = lines(&["one", "two"]);
    assert!(compute_log_delta(&previous, &current).is_empty());
}

#[test]
fn log_delta_finds_the_largest_overlap_of_a_moving_window() {
    let previous = lines(&["a", "b", "b"]);
    let current = lines(&["b", "b", "c"]);
    assert_eq!(compute_log_delta(&previous, &current), lines(&["c"]));
    let strange = lines(&["x", "y", "z"]);
    assert_eq!(compute_log_delta(&previous, &strange), strange);
}

#[test]
fn long_and_blank_names_are_refused() {
    let longest = "a".repeat(64);
    assert!(is_valid_profile_name(&longest));
    assert!(!is_valid_profile_name(&"a".repeat(65)));
    assert!(!is_valid_profile_name("d\u{e9}mo"));
    assert!(!is_valid_profile_name("-demo"));
    let blank = validate_profile_name(" \t").expect_err("blank");
    assert_eq!(blank.message(), "profile name cannot be empty");
    let bad = validate_profile_name("a b").expect_err("bad");
    assert_eq!(
        bad.message(),
        "invalid profile name: must match [a-zA-Z0-9][a-zA-Z0-9-_]{0,63}"
    );
    assert_eq!(bad.exit_code(), ExitCode::InvalidInput);
    assert_eq!(
        profile_path("demo", Some("/profiles")),
        Ok("/profiles/demo.yaml".to_string())
    );
    assert_eq!(
        profile_path("demo", None).expect_err("no home").message(),
        "cannot determine home directory"
    );
}

#[test]
fn errors_say_what_failed_and_how_to_end() {
    assert_eq!(
        CliError::Io("x".to_string()).message(),
        "io error: x"
    );
    assert_eq!(
        CliError::Serde("x".to_string()).message(),
        "serialization error: x"
    );
    assert_eq!(CliError::Yaml("x".to_string()).message(), "yaml error: x");
    assert_eq!(
        CliError::Yaml("x".to_string()).exit_code(),
        ExitCode::DaemonCommunication
    );
    let daemon = ipc_to_cli_error(IpcError::DaemonError {
        message: "no".to_string(),
        exit_code: Some(ExitCode::MissingExternal),
    });
    assert_eq!(daemon.exit_code(), ExitCode::MissingExternal);
    let other = ipc_to_cli_error(IpcError::Other {
        shown: "odd".to_string(),
    });
    assert_eq!(other.message(), "odd");
    assert_eq!(other.exit_code(), ExitCode::DaemonCommunication);
}

fn facts(exists: bool) -> CommandFacts {
    CommandFacts {
        template_known: true,
        profile_directory: Some("/profiles".to_string()),
        profile_exists: exists,
    }
}

#[test]
fn commands_ask_the_daemon() {
    let apply = Commands::Apply {
        profile_name: "demo".to_string(),
        dry_run: true,
        no_delete: false,
        timeout: 77,
    };
    let plan = plan_command(apply, false, &facts(true)).expect("plan");
    let CommandPlan::Ask {
        request: DaemonRequest::Apply(request),
        timeout_ms,
        expected,
    } = plan
    else {
        panic!("apply asks");
    };
    assert_eq!(request.profile_path, "/profiles/demo.yaml");
    assert!(request.dry_run);
    assert!(!request.no_delete);
    assert_eq!(request.timeout_ms, 77);
    assert_eq!(timeout_ms, 77);
    assert_eq!(expected, ResponseKind::Apply);

    let status = plan_command(Commands::Status, true, &facts(false)).expect("plan");
    assert!(matches!(
        status,
        CommandPlan::Ask {
            request: DaemonRequest::Status,
            timeout_ms: 5_000,
            expected: ResponseKind::Status
        }
    ));
    let follow = plan_command(Commands::Logs { follow: true }, false, &facts(false));
    assert!(matches!(follow, Ok(CommandPlan::Follow { .. })));
    assert_eq!(follow_request(Some(9)).cursor, Some(9));
    assert_eq!(follow_request(None).limit, Some(200));
}

#[test]
fn commands_refuse_what_they_cannot_do() {
    let create = |template_known: bool, exists: bool, force: bool| {
        plan_command(
            Commands::Create {
                profile_name: "demo".to_string(),
                template: "odd".to_string(),
                force,
            },
            false,
            &CommandFacts {
                template_known,
                profile_directory: Some("/profiles".to_string()),
                profile_exists: exists,
            },
        )
    };
    assert_eq!(
        create(false, false, false).expect_err("template").message(),
        "unsupported template 'odd'"
    );
    assert_eq!(
        create(true, true, false).expect_err("exists").message(),
        "profile already exists: '/profiles/demo.yaml' (use --force to overwrite)"
    );
    assert!(matches!(
        create(true, true, true),
        Ok(CommandPlan::WriteProfile { path }) if path == "/profiles/demo.yaml"
    ));
    let open = |print_path: bool, exists: bool| {
        plan_command(
            Commands::Open {
                profile_name: "demo".to_string(),
                editor: Some("Ed".to_string()),
                print_path,
            },
            false,
            &facts(exists),
        )
    };
    assert_eq!(
        open(false, false).expect_err("missing").message(),
        "profile not found: '/profiles/demo.yaml'"
    );
    assert!(matches!(open(true, true), Ok(CommandPlan::PrintPath { .. })));
    assert!(matches!(
        open(false, true),
        Ok(CommandPlan::OpenProfile { arguments, .. })
            if arguments == lines(&["-a", "Ed", "/profiles/demo.yaml"])
    ));
    assert_eq!(
        plan_command(Commands::Logs { follow: true }, true, &facts(false))
            .expect_err("json")
            .message(),
        "logs --follow does not support --json output"
    );
    assert_eq!(
        check_test_command(false, true, false)
            .expect_err("route")
            .message(),
        "`--mic` and `--speaker` require `mars test --route`"
    );
    assert!(check_test_command(true, true, true).is_ok());
    assert_eq!(
        check_opened("/p", false).expect_err("open").message(),
        "failed to open profile: '/p'"
    );
}

fn result(applied: bool, errors: &[&str]) -> ApplyResult {
    ApplyResult {
        applied,
        plan: ApplyPlan {
            changes: Vec::new(),
            warnings: Vec::new(),
        },
        warnings: lines(&["w"]),
        errors: lines(errors),
    }
}

#[test]
fn answers_are_reported() {
    assert_eq!(
        report_apply(&result(true, &[])),
        (
            "apply succeeded (changes: 0, warnings: 1, errors: 0)".to_string(),
            ExitCode::Success
        )
    );
    assert_eq!(
        report_apply(&result(false, &["e"])),
        (
            "apply dry-run (changes: 0, warnings: 1, errors: 1)".to_string(),
            ExitCode::ApplyFailed
        )
    );
    assert_eq!(
        report_validation(false, &lines(&["a", "b"])),
        (
            "profile is invalid: a; b".to_string(),
            ExitCode::InvalidInput
        )
    );
    assert_eq!(
        report_plan(&result(true, &[]).plan),
        "plan generated: 0 changes"
    );
    assert_eq!(
        report_devices(&DeviceInventory {
            inputs: Vec::new(),
            outputs: Vec::new()
        }),
        "inputs=0 outputs=0"
    );
    let logs = DaemonResponse::Logs(LogResponse {
        lines: lines(&["x", "y"]),
        next_cursor: 4,
    });
    assert_eq!(
        report_response(ResponseKind::Logs, &logs),
        Ok(("x\ny".to_string(), ExitCode::Success))
    );
    assert_eq!(
        report_response(ResponseKind::Status, &logs)
            .expect_err("kind")
            .message(),
        "unexpected daemon response for status"
    );
}

fn io(kind: ConnectionErrorKind) -> IpcError {
    IpcError::Io {
        kind,
        shown: "cannot connect".to_string(),
    }
}

#[test]
fn waiting_ends_with_an_answer_or_the_last_error() {
    assert_eq!(normalized_ping_timeout(0), 200);
    assert_eq!(normalized_ping_timeout(50), 50);
    assert_eq!(normalized_ping_timeout(5_000), 200);
    assert!(matches!(
        begin_wait(0),
        PingWait::GaveUp {
            error: IpcError::Timeout
        }
    ));
    let wait = after_ping(begin_wait(2), PingOutcome::Unexpected);
    assert!(matches!(wait, PingWait::Ask { left: 1, .. }));
    let wait = after_ping(wait, PingOutcome::Failed(IpcError::Timeout));
    assert!(matches!(
        wait,
        PingWait::GaveUp {
            error: IpcError::Timeout
        }
    ));
    let reached = after_ping(begin_wait(3), PingOutcome::Pong);
    assert!(matches!(reached, PingWait::Reached));
    assert_eq!(ping_retries(EnsureStep::WaitInitially), 5);
    assert_eq!(ping_retries(EnsureStep::WaitAfterLaunch), 50);
}

#[test]
fn the_ways_to_start_the_daemon_are_tried_in_order() {
    let candidates = daemon_launch_candidates(
        Some("/own/marsd".to_string()),
        None,
        true,
        Some("/sources".to_string()),
    );
    let programs: Vec<&str> = candidates
        .iter()
        .map(|candidate| candidate.program.as_str())
        .collect();
    assert_eq!(
        programs,
        vec!["/own/marsd", "/usr/local/bin/marsd", "marsd", "cargo"]
    );
    assert_eq!(candidates[0].args, lines(&["--serve"]));
    assert_eq!(candidates[3].cwd.as_deref(), Some("/sources"));
    assert_eq!(candidates[3].args.len(), 7);
    assert_eq!(first_launch(&candidates), LaunchStep::Try { index: 0 });
    assert_eq!(
        after_launch(&candidates, 0, Err("no".to_string())),
        LaunchStep::Try { index: 1 }
    );
    assert_eq!(after_launch(&candidates, 1, Ok(())), LaunchStep::Launched);
    assert_eq!(
        after_launch(&candidates, 3, Err("no".to_string())),
        LaunchStep::Failed {
            error: "failed to start marsd with 'cargo': no".to_string()
        }
    );
    assert!(matches!(
        first_launch(&Vec::new()),
        LaunchStep::Failed { .. }
    ));
}

#[test]
fn a_stale_socket_is_removed_once() {
    let mut run = EnsureRun::begin();
    run.advance(
        EnsureOutcome::NotReached {
            error: IpcError::Timeout,
            socket_exists: true,
        },
        "/s",
    );
    assert_eq!(run.step, EnsureStep::Launch);
    run.advance(EnsureOutcome::Done, "/s");
    assert_eq!(run.step, EnsureStep::WaitAfterLaunch);
    run.advance(
        EnsureOutcome::NotReached {
            error: io(ConnectionErrorKind::ConnectionRefused),
            socket_exists: true,
        },
        "/s",
    );
    assert_eq!(run.step, EnsureStep::RemoveSocket);
    run.advance(EnsureOutcome::Done, "/s");
    run.advance(EnsureOutcome::Done, "/s");
    assert_eq!(run.step, EnsureStep::WaitAfterCleanup);
    run.advance(
        EnsureOutcome::NotReached {
            error: io(ConnectionErrorKind::NotFound),
            socket_exists: true,
        },
        "/s",
    );
    assert_eq!(run.step, EnsureStep::Failed);
    assert_eq!(
        run.failure.expect("failure").message(),
        "failed to reach marsd after stale socket cleanup: cannot connect; initial ping error: request timed out"
    );
}

#[test]
fn a_daemon_that_cannot_be_reached_is_reported() {
    let mut run = EnsureRun::begin();
    run.advance(
        EnsureOutcome::NotReached {
            error: io(ConnectionErrorKind::NotFound),
            socket_exists: false,
        },
        "/s",
    );
    run.advance(EnsureOutcome::Done, "/s");
    run.advance(
        EnsureOutcome::NotReached {
            error: IpcError::Timeout,
            socket_exists: true,
        },
        "/s",
    );
    assert_eq!(run.step, EnsureStep::Failed);
    let failure = run.failure.expect("failure");
    assert_eq!(
        failure.message(),
        "failed to reach marsd after launch: request timed out; initial ping error: cannot connect"
    );
    assert_eq!(failure.exit_code(), ExitCode::DaemonCommunication);

    let mut running = EnsureRun::begin();
    running.advance(EnsureOutcome::Done, "/s");
    assert_eq!(running.step, EnsureStep::Running);
}

#[test]
fn processes_are_asked_for_and_counted() {
    let plan = plan_command(Commands::Processes, true, &facts(false)).expect("plan");
    assert!(matches!(
        plan,
        CommandPlan::Ask {
            request: DaemonRequest::Processes,
            timeout_ms: 5_000,
            expected: ResponseKind::Processes,
        }
    ));
    let (text, code) = report_response(
        ResponseKind::Processes,
        &DaemonResponse::Processes(Vec::new()),
    )
    .expect("report");
    assert_eq!(text, "processes=0");
    assert_eq!(code, ExitCode::Success);
    let other = report_response(ResponseKind::Processes, &DaemonResponse::Pong)
        .expect_err("another answer");
    assert_eq!(
        other.message(),
        "unexpected daemon response for processes"
    );
}
