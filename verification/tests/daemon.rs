use mars::api::{coreaudio_to_api_error, ApiError, ExitCode};
use mars::apply::{failure_response, rollback_error, success_answer, ApplyRequest, ApplyRun, ApplyStep};
use mars::au_host::{AuPluginApi, PluginHostHealth, PluginHostInstanceStatus};
use mars::daemon::{
    idle_plugin_runtime, profile_error, require_externals, DoctorFindings, EngineChoice,
    LiveRuntime, MarsDaemon,
};
use mars::devices::DeviceDescriptor;
use mars::driver::{
    is_driver_compatible, ConfigurationSummary, DriverStatusSummary, RuntimeStats,
};
use mars::external_io::{ExternalRuntimeCounters, ExternalRuntimeStatus};
use mars::graph::build_routing_graph;
use mars::logs::LogRequest;
use mars::matching::DeviceInventory;
use mars::number::Real32;
use mars::plan::{ApplyPlan, PlanChangeKind};
use mars::processors::{plugin_runtime_status, PluginHostRuntimeStatus};
use mars::profile::{
    AutoOrU32, DeviceMatch, ExternalInput, NodeKind, Pipe, Profile, VirtualInputDevice,
    VirtualOutputDevice,
};
use mars::render_loop::RenderMetrics;
use mars::sink_runtime::{
    SinkRuntimeHealth, SinkRuntimeKind, SinkRuntimeSinkStatus, SinkRuntimeStatus,
};
use mars::streams::CoreAudioError;

fn number(value: f32) -> Real32 {
    Real32::from_bits(value.to_bits())
}

fn daemon() -> MarsDaemon {
    MarsDaemon::new("/tmp/marsd.log".to_string())
}

fn findings() -> DoctorFindings {
    DoctorFindings {
        driver_installed: true,
        driver_loaded: true,
        driver: DriverStatusSummary {
            generation: 3,
            request_count: 4,
            perform_count: 4,
            applied_device_count: 2,
            pending_change: false,
        },
        driver_version: Some("1.2.0".to_string()),
        daemon_version: "1.4.0".to_string(),
        assume_microphone: false,
        microphone_permission: Some(true),
    }
}

#[test]
fn lib_driver_compatibility_requires_install_and_load() {
    assert!(!is_driver_compatible(false, false, Some("0.1.0"), "0.1.0"));
    assert!(!is_driver_compatible(false, true, Some("0.1.0"), "0.1.0"));
    assert!(!is_driver_compatible(true, false, Some("0.1.0"), "0.1.0"));
    assert!(!is_driver_compatible(true, true, None, "0.1.0"));
    assert!(!is_driver_compatible(true, true, Some("2.1.0"), "1.4.0"));
    assert!(is_driver_compatible(true, true, Some("1.2.0"), "1.4.0"));
}

#[test]
fn tests_driver_compatibility_requires_install_and_load() {
    assert!(!is_driver_compatible(false, false, Some("0.1.0"), "0.1.0"));
    assert!(!is_driver_compatible(false, true, Some("0.1.0"), "0.1.0"));
    assert!(!is_driver_compatible(true, false, Some("0.1.0"), "0.1.0"));
    assert!(!is_driver_compatible(true, true, None, "0.1.0"));
    assert!(!is_driver_compatible(true, true, Some("2.1.0"), "1.4.0"));
    assert!(is_driver_compatible(true, true, Some("1.2.0"), "1.4.0"));
}

#[test]
fn lib_apply_deadline_zero_disables_timeout() {
    let deadline = MarsDaemon::apply_deadline(0, 1_000);
    assert!(MarsDaemon::ensure_within_deadline(deadline, u64::MAX, "any-stage").is_ok());
}

#[test]
fn lib_apply_deadline_reports_stage_timeout() {
    let deadline = MarsDaemon::apply_deadline(1, 1_000);
    let error = MarsDaemon::ensure_within_deadline(deadline, 1_005, "driver-stage")
        .expect_err("timed out");
    assert!(error.message.contains("driver-stage"));
}

#[test]
fn tests_apply_deadline_zero_disables_timeout() {
    let deadline = MarsDaemon::apply_deadline(0, 1_000);
    assert!(MarsDaemon::ensure_within_deadline(deadline, u64::MAX, "any-stage").is_ok());
}

#[test]
fn tests_apply_deadline_reports_stage_timeout() {
    let deadline = MarsDaemon::apply_deadline(1, 1_000);
    let error = MarsDaemon::ensure_within_deadline(deadline, 1_005, "driver-stage")
        .expect_err("timed out");
    assert!(error.message.contains("driver-stage"));
}

#[test]
fn logs_cursor_returns_incremental_lines() {
    let mut log = "one\ntwo\nthree\n".to_string();
    let daemon = daemon();

    let initial = daemon
        .logs_internal(
            Ok(log.clone()),
            &LogRequest {
                follow: false,
                cursor: None,
                limit: Some(2),
            },
        )
        .expect("initial logs");
    assert_eq!(initial.lines, vec!["two".to_string(), "three".to_string()]);

    log.push_str("four\n");
    log.push_str("five\n");

    let delta = daemon
        .logs_internal(
            Ok(log.clone()),
            &LogRequest {
                follow: true,
                cursor: Some(initial.next_cursor),
                limit: None,
            },
        )
        .expect("delta logs");
    assert_eq!(delta.lines, vec!["four".to_string(), "five".to_string()]);
    assert!(delta.next_cursor > initial.next_cursor);
}

#[test]
fn logs_cursor_beyond_file_len_falls_back_to_tail() {
    let log = "a\nb\nc\nd\n".to_string();
    let daemon = daemon();

    let result = daemon
        .logs_internal(
            Ok(log.clone()),
            &LogRequest {
                follow: false,
                cursor: Some(9_999),
                limit: Some(2),
            },
        )
        .expect("fallback logs");
    assert_eq!(result.lines, vec!["c".to_string(), "d".to_string()]);

    assert_eq!(result.next_cursor, log.len() as u64);
}

#[test]
fn log_places_are_counted_in_bytes() {
    let daemon = daemon();
    let request = |cursor: Option<u64>| LogRequest {
        follow: true,
        cursor,
        limit: None,
    };
    let first = daemon
        .logs_internal(Ok("h\u{e9}llo \u{1F600}\r\n".to_string()), &request(None))
        .expect("logs");
    assert_eq!(first.lines, vec!["h\u{e9}llo \u{1F600}".to_string()]);
    assert_eq!(first.next_cursor, 13);
    let next = daemon
        .logs_internal(
            Ok("h\u{e9}llo \u{1F600}\r\nbye".to_string()),
            &request(Some(first.next_cursor)),
        )
        .expect("logs");
    assert_eq!(next.lines, vec!["bye".to_string()]);
    let error = daemon
        .logs_internal(Err("gone".to_string()), &request(None))
        .expect_err("no log");
    assert_eq!(error.message, "failed to read log file /tmp/marsd.log: gone");
    assert_eq!(error.exit_code, ExitCode::InvalidInput);
}

#[test]
fn doctor_report_includes_sink_runtime_health_summary() {
    let mut daemon = daemon();
    {
        let state = &mut daemon.state;
        state.sink_runtime = SinkRuntimeStatus {
            queue_capacity: 64,
            queued_batches: 1,
            dropped_batches: 2,
            dropped_samples: 512,
            write_errors: 3,
            active_file_sinks: 1,
            active_stream_sinks: 1,
            sinks: vec![
                SinkRuntimeSinkStatus {
                    id: "record-main".to_string(),
                    source: "mix".to_string(),
                    kind: SinkRuntimeKind::File,
                    health: SinkRuntimeHealth::Degraded,
                    written_frames: 1024,
                    dropped_batches: 1,
                    last_error: Some("disk slow".to_string()),
                },
                SinkRuntimeSinkStatus {
                    id: "stream-main".to_string(),
                    source: "mix".to_string(),
                    kind: SinkRuntimeKind::Stream,
                    health: SinkRuntimeHealth::Failed,
                    written_frames: 0,
                    dropped_batches: 2,
                    last_error: Some("disconnected".to_string()),
                },
            ],
        };
    }

    let report = daemon.doctor_report_internal(findings());
    assert_eq!(report.sink_active, 2);
    assert_eq!(report.sink_degraded, 1);
    assert_eq!(report.sink_failed, 1);
    assert_eq!(report.sink_write_errors, 3);
    assert!(
        report
            .notes
            .iter()
            .any(|note| note.contains("sink runtime health"))
    );
}

#[test]
fn doctor_report_includes_plugin_runtime_health_summary() {
    let mut daemon = daemon();
    {
        let state = &mut daemon.state;
        state.plugin_runtime = PluginHostRuntimeStatus {
            active_instances: 1,
            failed_instances: 1,
            timeout_count: 2,
            error_count: 3,
            restart_count: 4,
            instances: vec![
                PluginHostInstanceStatus {
                    id: "au-main".to_string(),
                    api: AuPluginApi::Auv2,
                    health: PluginHostHealth::Healthy,
                    loaded: true,
                    host_pid: Some(101),
                    process_calls: 50,
                    timeout_count: 0,
                    error_count: 0,
                    restart_count: 0,
                    last_error: None,
                },
                PluginHostInstanceStatus {
                    id: "au-failed".to_string(),
                    api: AuPluginApi::Auv3,
                    health: PluginHostHealth::Failed,
                    loaded: false,
                    host_pid: None,
                    process_calls: 12,
                    timeout_count: 2,
                    error_count: 3,
                    restart_count: 4,
                    last_error: Some("plugin host crashed".to_string()),
                },
            ],
        };
    }

    let report = daemon.doctor_report_internal(findings());
    assert_eq!(report.plugin_active, 1);
    assert_eq!(report.plugin_failed, 1);
    assert_eq!(report.plugin_timeouts, 2);
    assert_eq!(report.plugin_errors, 3);
    assert_eq!(report.plugin_restarts, 4);
    assert!(
        report
            .notes
            .iter()
            .any(|note| note.contains("plugin runtime health"))
    );
}

#[test]
fn a_healthy_daemon_has_no_notes() {
    let report = daemon().doctor_report_internal(findings());
    assert!(report.notes.is_empty(), "{:?}", report.notes);
    assert!(report.driver_installed);
    assert!(report.driver_compatible);
    assert!(report.daemon_reachable);
    assert!(report.microphone_permission_ok);
    assert_eq!(report.mic_permission_source, "tcc");
}

#[test]
fn what_is_wrong_is_noted_in_order() {
    let mut wrong = findings();
    wrong.driver_loaded = false;
    wrong.microphone_permission = None;
    wrong.driver.pending_change = true;
    wrong.driver_version = Some("2.0 \"beta\"".to_string());
    let report = daemon().doctor_report_internal(wrong);
    assert_eq!(
        report.notes,
        vec![
            "mars.driver is installed but not loaded by coreaudiod; run: sudo killall -9 coreaudiod".to_string(),
            "microphone permission is not granted or could not be verified; check System Settings > Privacy & Security > Microphone".to_string(),
            "driver/daemon version mismatch: driver=Some(\"2.0 \\\"beta\\\"\"), daemon=1.4.0".to_string(),
            "driver has a pending configuration change".to_string(),
        ]
    );
    assert_eq!(report.mic_permission_source, "unknown");
    assert!(!report.driver_compatible);

    let mut missing = findings();
    missing.driver_installed = false;
    missing.assume_microphone = true;
    missing.driver_version = None;
    let report = daemon().doctor_report_internal(missing);
    assert_eq!(
        report.notes,
        vec![
            "driver not found at /Library/Audio/Plug-Ins/HAL/mars.driver".to_string(),
            "driver/daemon version mismatch: driver=None, daemon=1.4.0".to_string(),
        ]
    );
    assert_eq!(report.mic_permission_source, "env_override");
}

fn profile() -> Profile {
    let mut profile = Profile::default();
    profile.audio.sample_rate = AutoOrU32::Value(44_100);
    profile.audio.buffer_frames = 64;
    profile.virtual_devices.outputs.push(VirtualOutputDevice {
        id: "app".to_string(),
        name: "App".to_string(),
        channels: Some(2),
        uid: None,
        hidden: false,
    });
    profile.virtual_devices.inputs.push(VirtualInputDevice {
        id: "mix".to_string(),
        name: "Mix".to_string(),
        channels: Some(2),
        uid: None,
        mix: None,
    });
    profile.pipes.push(Pipe {
        from: "app".to_string(),
        to: "mix".to_string(),
        enabled: true,
        gain_db: number(0.0),
        mute: false,
        pan: number(0.0),
        delay_ms: number(0.0),
    });
    profile
}

fn device(id: &str, managed: bool) -> DeviceDescriptor {
    DeviceDescriptor {
        id: id.to_string(),
        name: id.to_string(),
        uid: id.to_string(),
        kind: NodeKind::VirtualOutput,
        channels: 2,
        managed,
    }
}

fn applied() -> MarsDaemon {
    let mut daemon = daemon();
    let graph = build_routing_graph(&profile()).expect("graph");
    let before = daemon.activate(
        "/tmp/demo.yaml".to_string(),
        profile(),
        graph,
        vec![device("app", true), device("mic", false)],
    );
    assert!(before.current_profile.is_none());
    assert!(before.rendered().is_none());
    daemon
}

#[test]
fn the_status_tells_of_what_is_applied() {
    let mut daemon = applied();
    daemon.state.counters.underrun_count = 1;
    let status = daemon.status_internal(None, None, None, "now".to_string());
    assert!(status.running);
    assert_eq!(status.current_profile.as_deref(), Some("/tmp/demo.yaml"));
    assert_eq!(status.sample_rate, 44_100);
    assert_eq!(status.buffer_frames, 64);
    assert_eq!(status.graph_pipe_count, 1);
    assert_eq!(status.devices.len(), 2);
    assert_eq!(status.counters.underrun_count, 1);
    assert_eq!(status.driver.generation, 0);
    assert_eq!(status.updated_at, "now");

    let live = LiveRuntime {
        metrics: RenderMetrics {
            deadline_miss_count: 5,
            last_cycle_ns: 6,
            max_cycle_ns: 7,
        },
        external_counters: ExternalRuntimeCounters {
            underrun_count: 10,
            overrun_count: 20,
            xrun_count: u64::MAX,
        },
        external_runtime: ExternalRuntimeStatus {
            connected_inputs: 1,
            connected_outputs: 0,
            degraded_inputs: 0,
            degraded_outputs: 0,
            restart_attempts: 0,
            stream_errors: Vec::new(),
        },
        sink_runtime: SinkRuntimeStatus {
            queue_capacity: 8,
            queued_batches: 0,
            dropped_batches: 0,
            dropped_samples: 0,
            write_errors: 0,
            active_file_sinks: 1,
            active_stream_sinks: 0,
            sinks: Vec::new(),
        },
        plugin_runtime: idle_plugin_runtime(),
    };
    let summary = ConfigurationSummary {
        current_generation: 9,
        request_count: 2,
        perform_count: 1,
        applied_device_count: 2,
        pending: true,
    };
    let stats = RuntimeStats {
        underrun_count: 100,
        overrun_count: 200,
        xrun_count: 300,
        last_callback_ns: 400,
    };
    let status =
        daemon.status_internal(Some(summary), Some(stats), Some(live), "later".to_string());
    assert_eq!(status.counters.underrun_count, 110);
    assert_eq!(status.counters.overrun_count, 220);
    assert_eq!(status.counters.xrun_count, u64::MAX);
    assert_eq!(status.counters.last_callback_ns, 400);
    assert_eq!(status.counters.deadline_miss_count, 5);
    assert_eq!(status.counters.max_cycle_ns, 7);
    assert_eq!(status.driver.generation, 9);
    assert!(status.driver.pending_change);
    assert_eq!(status.external_runtime.connected_inputs, 1);
    assert_eq!(status.sink_runtime.queue_capacity, 8);
}

#[test]
fn clearing_removes_managed_devices_unless_they_are_kept() {
    let mut daemon = applied();
    let before = daemon.begin_clear(false);
    let result = daemon.finish_clear(before, false, Ok(())).expect("cleared");
    assert!(result.applied);
    assert_eq!(result.plan.changes.len(), 1);
    assert_eq!(result.plan.changes[0].kind, PlanChangeKind::UpdateGraph);
    assert_eq!(
        result.plan.changes[0].details,
        "engine stopped, managed devices removed"
    );
    assert!(daemon.state.current_profile.is_none());
    assert!(daemon.state.engine.is_none());
    assert_eq!(daemon.state.devices.len(), 1);
    assert_eq!(daemon.state.devices[0].id, "mic");

    let mut daemon = applied();
    let before = daemon.begin_clear(true);
    let result = daemon.finish_clear(before, true, Ok(())).expect("cleared");
    assert_eq!(result.plan.changes[0].details, "engine stopped, devices kept");
    assert_eq!(daemon.state.devices.len(), 2);
}

#[test]
fn a_failed_clear_is_rolled_back() {
    let mut daemon = applied();
    let before = daemon.begin_clear(false);
    let error = daemon
        .finish_clear(before, false, Err("driver gone".to_string()))
        .expect_err("failed");
    assert_eq!(error.message, "clear failed and rolled back: driver gone");
    assert_eq!(error.exit_code, ExitCode::DriverUnavailable);
    assert!(daemon.state.current_profile.is_some());
    assert_eq!(daemon.state.devices.len(), 2);
}

fn request(dry_run: bool, timeout_ms: u64) -> ApplyRequest {
    ApplyRequest {
        profile_path: "/tmp/demo.yaml".to_string(),
        no_delete: false,
        dry_run,
        timeout_ms,
    }
}

#[test]
fn a_transaction_goes_through_all_stages() {
    let mut run = ApplyRun::begin(&request(false, 0), 0);
    let mut stages = Vec::new();
    while run.step != ApplyStep::Succeed && run.step != ApplyStep::Fail {
        stages.push(run.step);
        run.advance(Ok(()), 1_000_000);
    }
    assert_eq!(run.step, ApplyStep::Succeed);
    assert_eq!(
        stages,
        vec![
            ApplyStep::LoadProfile,
            ApplyStep::Plan,
            ApplyStep::ResolveExternals,
            ApplyStep::CaptureDriver,
            ApplyStep::CheckDriver,
            ApplyStep::StopRuntime,
            ApplyStep::StageDriver,
            ApplyStep::Activate,
            ApplyStep::SyncRuntime,
            ApplyStep::CheckReadiness,
        ]
    );
}

#[test]
fn a_dry_run_ends_with_the_plan() {
    let mut run = ApplyRun::begin(&request(true, 0), 0);
    run.advance(Ok(()), 0);
    run.advance(Ok(()), 0);
    assert_eq!(run.step, ApplyStep::Succeed);
    let plan = ApplyPlan {
        changes: Vec::new(),
        warnings: vec!["careful".to_string()],
    };
    let result = success_answer(run.dry_run, plan);
    assert!(!result.applied);
    assert!(result.warnings.is_empty());
    assert_eq!(result.plan.warnings.len(), 1);
    let real = success_answer(
        false,
        ApplyPlan {
            changes: Vec::new(),
            warnings: vec!["careful".to_string()],
        },
    );
    assert!(real.applied);
    assert_eq!(real.warnings, vec!["careful".to_string()]);
}

#[test]
fn an_early_failure_needs_no_rollback() {
    let mut run = ApplyRun::begin(&request(false, 50), 100);
    run.advance(Ok(()), 151);
    assert_eq!(run.step, ApplyStep::Fail);
    let failure = run.failure.expect("failure");
    assert_eq!(
        failure.message,
        "apply timeout exceeded during stage: plan"
    );
    assert_eq!(failure.exit_code, ExitCode::ApplyFailed);
}

#[test]
fn a_late_failure_is_rolled_back_and_restores_the_state() {
    let mut daemon = applied();
    let mut run = ApplyRun::begin(&request(false, 0), 0);
    while run.step != ApplyStep::Activate {
        run.advance(Ok(()), 0);
    }
    let saved = daemon.activate(
        "/tmp/other.yaml".to_string(),
        Profile::default(),
        build_routing_graph(&Profile::default()).expect("graph"),
        Vec::new(),
    );
    run.advance(Ok(()), 0);
    assert_eq!(run.step, ApplyStep::SyncRuntime);
    run.advance(
        Err(ApiError::new("no sound".to_string(), ExitCode::ApplyFailed)),
        0,
    );
    assert_eq!(run.step, ApplyStep::RollBackStop);
    run.advance(Ok(()), 0);
    assert_eq!(run.step, ApplyStep::RollBackDriver);
    run.advance(
        Err(ApiError::new("stuck".to_string(), ExitCode::ApplyFailed)),
        0,
    );
    assert_eq!(run.step, ApplyStep::RollBackState);
    let (graph, settings) = saved.rendered().expect("what was rendered");
    assert_eq!(graph.edges.len(), 1);
    assert_eq!(settings.sample_rate, 44_100);
    assert_eq!(settings.buffer_frames, 64);
    daemon.restore(Some(saved));
    run.advance(Ok(()), 0);
    assert_eq!(run.step, ApplyStep::RollBackRuntime);
    run.advance(
        Err(ApiError::new("silent".to_string(), ExitCode::ApplyFailed)),
        0,
    );
    assert_eq!(run.step, ApplyStep::Fail);
    let failed_at = run.failed_at.expect("failed stage");
    let error = failure_response(failed_at, run.failure.expect("failure"), &run.issues);
    let plain = failure_response(
        ApplyStep::Plan,
        ApiError::new("no plan".to_string(), ExitCode::InvalidInput),
        &Vec::new(),
    );
    assert_eq!(plain.message, "no plan");
    assert_eq!(
        error.message,
        "apply failed and rollback encountered issues: no sound; driver rollback failed: stuck; render runtime rollback failed: silent"
    );
    assert_eq!(
        daemon.state.current_profile_path.as_deref(),
        Some("/tmp/demo.yaml")
    );
    assert_eq!(daemon.state.devices.len(), 2);

    let clean = rollback_error(
        ApiError::new("no sound".to_string(), ExitCode::DriverUnavailable),
        &Vec::new(),
    );
    assert_eq!(clean.message, "apply failed and rolled back: no sound");
    assert_eq!(clean.exit_code, ExitCode::DriverUnavailable);
}

#[test]
fn planning_needs_the_external_devices() {
    let daemon = applied();
    let empty = || DeviceInventory {
        inputs: Vec::new(),
        outputs: Vec::new(),
    };
    let plan = daemon
        .plan_internal(false, &profile(), vec!["old".to_string()], Ok(empty()))
        .expect("plan");
    assert_eq!(plan.changes[0].kind, PlanChangeKind::NoOp);
    assert_eq!(plan.warnings, vec!["old".to_string()]);

    let mut wanting = profile();
    wanting.external.inputs.push(ExternalInput {
        id: "mic".to_string(),
        criteria: DeviceMatch {
            uid: Some("gone".to_string()),
            ..DeviceMatch::default()
        },
        channels: None,
    });
    let error = daemon
        .plan_internal(false, &wanting, Vec::new(), Ok(empty()))
        .expect_err("missing");
    assert_eq!(error.exit_code, ExitCode::MissingExternal);
    assert!(error.message.starts_with("missing external devices: "));
    assert!(require_externals(&wanting, &empty()).is_err());

    let refused = coreaudio_to_api_error(&CoreAudioError::Host("no host".to_string()), "");
    assert!(refused.message.starts_with("coreaudio operation failed: "));
    let error = daemon
        .plan_internal(false, &profile(), Vec::new(), Err(refused))
        .expect_err("refused");
    assert_eq!(error.exit_code, ExitCode::ApplyFailed);
    assert_eq!(profile_error("bad").exit_code, ExitCode::InvalidInput);
}

#[test]
fn the_engine_is_kept_where_only_routes_change() {
    let fresh = daemon();
    assert_eq!(fresh.engine_choice(&profile()), EngineChoice::Fresh);
    let mut daemon = applied();
    let mut next = profile();
    next.pipes.clear();
    assert_eq!(daemon.engine_choice(&next), EngineChoice::Reuse);
    next.audio.buffer_frames = 128;
    assert_eq!(daemon.engine_choice(&next), EngineChoice::Fresh);

    let merged = daemon.effective_profile(true, Profile::default());
    assert_eq!(merged.virtual_devices.outputs.len(), 1);
    let plain = daemon.effective_profile(false, Profile::default());
    assert!(plain.virtual_devices.outputs.is_empty());
    daemon.commit(Some(ExternalRuntimeStatus {
        connected_inputs: 3,
        connected_outputs: 0,
        degraded_inputs: 0,
        degraded_outputs: 0,
        restart_attempts: 0,
        stream_errors: Vec::new(),
    }));
    assert_eq!(daemon.state.external_runtime.connected_inputs, 3);
}

#[test]
fn plugin_hosts_are_summed_up() {
    let instance = |id: &str, health: PluginHostHealth, loaded: bool| PluginHostInstanceStatus {
        id: id.to_string(),
        api: AuPluginApi::Auv2,
        health,
        loaded,
        host_pid: None,
        process_calls: 1,
        timeout_count: 2,
        error_count: u64::MAX,
        restart_count: 3,
        last_error: None,
    };
    let status = plugin_runtime_status(vec![
        instance("a", PluginHostHealth::Healthy, true),
        instance("b", PluginHostHealth::Failed, true),
        instance("c", PluginHostHealth::Degraded, false),
    ]);
    assert_eq!(status.active_instances, 1);
    assert_eq!(status.failed_instances, 1);
    assert_eq!(status.timeout_count, 6);
    assert_eq!(status.error_count, u64::MAX);
    assert_eq!(status.restart_count, 9);
}
