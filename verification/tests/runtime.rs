use mars::au_host::{
    check_handshake, choose_output, drain_latest_result, expect_ack, make_socket_path,
    map_io_timeout, plugin_host_command, processed_samples, AuPluginApi, AuSubmitError,
    AuWorkerState, HostSessionError, IoErrorKind, PluginHostHealth, PluginHostResponse,
    SubmitOutcome, WorkerAction,
};
use mars::devices::DeviceDescriptor;
use mars::feedback::{feedback_risk_notes, path_exists_between_nodes};
use mars::graph::{build_routing_graph, RoutingGraph};
use mars::number::{clamp_pan, is_delay_allowed, Real32};
use mars::profile::{
    DeviceMatch, ExternalInput, ExternalOutput, NodeKind, Pipe, Profile, VirtualOutputDevice,
};
use mars::render::{render_restart_required, render_runtime_config_from_state, RenderRuntimeConfig};
use mars::render_loop::{
    check_external_readiness, external_endpoint_configs, needs_external_runtime, ring_spec,
    saturating_product, settle_source, silent_buffer, sink_samples, stream_name, sync_action, update_max_atomic,
    CycleState, RenderMetrics, RenderStep, RingDirection, RingRead, SyncAction,
};
use mars::string_map::StringMap;
use mars::text::{
    decimal_text, join_texts, numeral_text, parse_number, signed_decimal_text, split_lines,
    split_words, str_contains, str_less, trim_text,
};

fn number(value: f32) -> Real32 {
    Real32::from_bits(value.to_bits())
}

fn device(id: &str, uid: &str, kind: NodeKind) -> DeviceDescriptor {
    DeviceDescriptor {
        id: id.to_string(),
        name: id.to_string(),
        uid: uid.to_string(),
        kind,
        channels: 2,
        managed: true,
    }
}

fn config() -> RenderRuntimeConfig {
    let devices = vec![
        device("z", "uz", NodeKind::VirtualOutput),
        device("a", "ua", NodeKind::VirtualOutput),
        device("mix", "um", NodeKind::VirtualInput),
        device("mic", "uc", NodeKind::ExternalInput),
        device("bus", "ub", NodeKind::Bus),
    ];
    render_runtime_config_from_state(Some(&Profile::default()), &devices).expect("config")
}

#[test]
fn the_render_loop_runs_on_sorted_endpoints() {
    let config = config();
    assert_eq!(config.sample_rate, 48_000);
    assert_eq!(config.buffer_frames, 256);
    let ids: Vec<&str> = config
        .vout_sources
        .iter()
        .map(|endpoint| endpoint.node_id.as_str())
        .collect();
    assert_eq!(ids, vec!["a", "z"]);
    assert_eq!(config.vin_sinks.len(), 1);
    assert!(needs_external_runtime(&config));
    assert_eq!(external_endpoint_configs(&config.external_inputs)[0].uid, "uc");
    assert!(render_runtime_config_from_state(None, &Vec::new()).is_none());
    let spec = ring_spec(&config, &config.vin_sinks[0]);
    assert_eq!(spec.capacity_frames, 256 * 8);
    assert_eq!(stream_name(RingDirection::Vout, "u"), "mars.vout.u");
    assert_eq!(stream_name(RingDirection::Vin, "u"), "mars.vin.u");
}

#[test]
fn the_render_loop_is_started_kept_and_stopped() {
    let wanted = config();
    assert_eq!(
        sync_action(true, Some(&wanted), None),
        SyncAction::Start
    );
    assert_eq!(
        sync_action(true, Some(&wanted), Some(&config())),
        SyncAction::Keep
    );
    let mut other = config();
    other.buffer_frames = 1;
    assert_eq!(
        sync_action(true, Some(&wanted), Some(&other)),
        SyncAction::Start
    );
    assert_eq!(
        sync_action(false, Some(&wanted), Some(&other)),
        SyncAction::Stop
    );
    assert_eq!(sync_action(true, None, Some(&other)), SyncAction::Stop);
    assert_eq!(
        check_external_readiness("external runtime", 2, 1, 1, 1),
        Err(
            "external runtime readiness failed: expected inputs=2 outputs=1, got inputs=1 outputs=1"
                .to_string()
        )
    );
}

#[test]
fn a_cycle_reads_renders_and_writes() {
    let mut config = config();
    config.external_inputs.clear();
    let mut state = CycleState::new(&config, false);
    let mut step = state.first_step();
    let mut steps = Vec::new();
    while step != RenderStep::Finish {
        steps.push(step);
        step = state.advance(step, true);
    }
    assert_eq!(
        steps,
        vec![
            RenderStep::OpenSource(0),
            RenderStep::ReadSource(0),
            RenderStep::OpenSource(1),
            RenderStep::ReadSource(1),
            RenderStep::Render,
            RenderStep::OpenSink(0),
            RenderStep::WriteSink(0),
        ]
    );
    let next = state.first_step();
    assert_eq!(next, RenderStep::ReadSource(0));
}

#[test]
fn sources_are_silent_where_nothing_was_read() {
    let mut samples = vec![1, 2, 3, 4];
    settle_source(&mut samples, RingRead::Frames(1), 2);
    assert_eq!(samples, vec![1, 2, 0, 0]);
    settle_source(&mut samples, RingRead::Failed, 2);
    assert_eq!(samples, vec![0; 4]);
    assert_eq!(silent_buffer(2, 3), vec![0; 6]);
    let mut rendered = StringMap::new();
    rendered.insert("mix".to_string(), vec![5, 6]);
    assert_eq!(sink_samples(&rendered, "mix", 2, 3), vec![5, 6]);
    assert_eq!(sink_samples(&rendered, "tape", 2, 3), vec![0; 6]);
    assert_eq!(saturating_product(usize::MAX, 2), usize::MAX);
}

#[test]
fn late_cycles_miss_their_deadline() {
    let mut metrics = RenderMetrics::new();
    assert_eq!(metrics.finish_cycle(40, 100), 60);
    assert_eq!(metrics.deadline_miss_count, 0);
    assert_eq!(metrics.finish_cycle(140, 100), 0);
    assert_eq!(metrics.deadline_miss_count, 1);
    assert_eq!(metrics.finish_cycle(50, 100), 50);
    assert_eq!(metrics.last_cycle_ns, 50);
    assert_eq!(metrics.max_cycle_ns, 140);
    let mut cell = 3;
    update_max_atomic(&mut cell, 2);
    assert_eq!(cell, 3);
    update_max_atomic(&mut cell, 9);
    assert_eq!(cell, 9);
}

#[test]
fn a_changed_device_needs_another_loop() {
    let mut before = Profile::default();
    before.virtual_devices.outputs.push(VirtualOutputDevice {
        id: "app".to_string(),
        name: "App".to_string(),
        channels: Some(2),
        uid: None,
        hidden: false,
    });
    let mut after = before.clone();
    assert!(!render_restart_required(&before, &after));
    after.virtual_devices.outputs[0].name = "Other".to_string();
    assert!(!render_restart_required(&before, &after));
    after.virtual_devices.outputs[0].channels = Some(1);
    assert!(render_restart_required(&before, &after));
}

fn loop_graph() -> RoutingGraph {
    let mut profile = Profile::default();
    profile.external.inputs.push(ExternalInput {
        id: "mic".to_string(),
        criteria: DeviceMatch::default(),
        channels: None,
    });
    profile.external.outputs.push(ExternalOutput {
        id: "speaker".to_string(),
        criteria: DeviceMatch::default(),
        channels: None,
    });
    profile.pipes.push(Pipe {
        from: "mic".to_string(),
        to: "speaker".to_string(),
        enabled: true,
        gain_db: number(0.0),
        mute: false,
        pan: number(0.0),
        delay_ms: number(0.0),
    });
    build_routing_graph(&profile).expect("graph")
}

#[test]
fn audio_that_comes_back_to_its_device_is_noted() {
    let graph = loop_graph();
    let names = |name: &str| vec![name.to_string()];
    assert!(path_exists_between_nodes(
        &graph,
        &names("mic"),
        &names("speaker")
    ));
    assert!(!path_exists_between_nodes(
        &graph,
        &names("speaker"),
        &names("mic")
    ));
    assert!(path_exists_between_nodes(
        &graph,
        &names("x"),
        &names("x")
    ));
    let same = vec![
        device("mic", "headset", NodeKind::ExternalInput),
        device("speaker", "headset", NodeKind::ExternalOutput),
    ];
    assert_eq!(
        feedback_risk_notes(Some(&graph), &same),
        vec!["potential feedback risk detected: external input/output share uid 'headset' and graph routes input to output".to_string()]
    );
    let apart = vec![
        device("mic", "headset", NodeKind::ExternalInput),
        device("speaker", "screen", NodeKind::ExternalOutput),
    ];
    assert!(feedback_risk_notes(Some(&graph), &apart).is_empty());
    assert!(feedback_risk_notes(None, &same).is_empty());
}

#[test]
fn socket_path_respects_unix_length_limit() {
    let path = make_socket_path(
        "processor-with-long-id-and-extra-segments-that-would-overflow-standard-unix-path",
        4_294_967_295,
        u128::MAX,
    );
    assert!(path.len() <= 103);
    assert_eq!(
        make_socket_path("a b/c", 7, 255),
        "/tmp/marsph-7-a_b_c-ff.sock"
    );
}

#[test]
fn plugin_hosts_are_started_restarted_and_counted() {
    let mut worker = AuWorkerState::new(&"au".to_string(), AuPluginApi::Auv2);
    assert_eq!(worker.begin_request(), WorkerAction::StartSession);
    assert_eq!(
        worker.session_started(Err(HostSessionError::Io("missing".to_string()))),
        WorkerAction::ReturnUnchanged
    );
    assert_eq!(worker.status_snapshot().health, PluginHostHealth::Failed);
    assert_eq!(worker.begin_request(), WorkerAction::StartSession);
    assert_eq!(worker.session_started(Ok(7)), WorkerAction::Process);
    assert_eq!(
        worker.request_processed(Ok(7)),
        WorkerAction::ReturnProcessed
    );
    assert_eq!(worker.begin_request(), WorkerAction::Process);
    assert_eq!(
        worker.request_processed(Err(HostSessionError::Timeout("slow".to_string()))),
        WorkerAction::TerminateAndReturnUnchanged
    );
    let status = worker.status_snapshot();
    assert_eq!(status.health, PluginHostHealth::Degraded);
    assert_eq!(status.process_calls, 3);
    assert_eq!(status.timeout_count, 1);
    assert_eq!(status.error_count, 2);
    assert_eq!(status.restart_count, 1);
    assert_eq!(worker.begin_request(), WorkerAction::StartSession);
    assert!(matches!(
        worker.try_submit(SubmitOutcome::Full),
        Err(AuSubmitError::Full)
    ));
    assert!(worker.try_submit(SubmitOutcome::Taken).is_ok());
    assert!(matches!(
        worker.try_submit(SubmitOutcome::Disconnected),
        Err(AuSubmitError::Disconnected)
    ));
    assert_eq!(worker.status_snapshot().health, PluginHostHealth::Failed);
}

#[test]
fn answers_of_plugin_hosts_are_checked() {
    assert!(check_handshake(
        &PluginHostResponse::Handshake {
            protocol_version: 1
        },
        "handshake"
    )
    .is_ok());
    assert!(check_handshake(
        &PluginHostResponse::Handshake {
            protocol_version: 2
        },
        "handshake"
    )
    .is_err());
    assert!(expect_ack(&PluginHostResponse::Ack, "load", "ack").is_ok());
    let refused = expect_ack(
        &PluginHostResponse::Error {
            message: "no".to_string(),
        },
        "load",
        "error",
    )
    .expect_err("refused");
    assert_eq!(refused.message(), "plugin host load failed: no");
    assert_eq!(
        processed_samples(PluginHostResponse::Processed { samples: vec![1] }, "p").ok(),
        Some(vec![1])
    );
    assert!(map_io_timeout(IoErrorKind::TimedOut, "x").is_timeout());
    assert!(map_io_timeout(IoErrorKind::WouldBlock, "x").is_timeout());
    assert!(!map_io_timeout(IoErrorKind::Other, "x").is_timeout());
    assert_eq!(
        drain_latest_result(vec![vec![1], vec![2]]),
        Some(vec![2])
    );
    assert_eq!(drain_latest_result(Vec::new()), None);
    assert_eq!(choose_output(&vec![1, 2], Some(vec![3, 4])), vec![3, 4]);
    assert_eq!(choose_output(&vec![1, 2], None), vec![1, 2]);
}

#[test]
fn plugin_host_programs_come_from_three_places() {
    let own = plugin_host_command(" host ", &vec!["-x".to_string()], None, None);
    assert_eq!(own.program, "host");
    assert_eq!(own.args, vec!["-x".to_string()]);
    let environment = plugin_host_command(
        "",
        &vec!["ignored".to_string()],
        Some("env-host".to_string()),
        Some("a  b".to_string()),
    );
    assert_eq!(environment.program, "env-host");
    assert_eq!(environment.args, vec!["a".to_string(), "b".to_string()]);
    let usual = plugin_host_command("", &Vec::new(), None, None);
    assert_eq!(usual.program, "mars-plugin-host");
    assert!(usual.args.is_empty());
}

#[test]
fn maps_keep_their_keys_in_order() {
    let mut map = StringMap::new();
    for key in ["b", "a", "c", "b"] {
        map.insert(key.to_string(), key.len());
    }
    assert_eq!(map.len(), 3);
    assert_eq!(map.key_at(0), "a");
    assert_eq!(map.key_at(2), "c");
    map.remove("b");
    assert!(!map.contains_key("b"));
    assert_eq!(map.get("c"), Some(&1));
    assert!(str_less("a", "ab"));
    assert!(!str_less("b", "ab"));
}

#[test]
fn numbers_and_texts_are_written_and_read() {
    assert_eq!(decimal_text(0), "0");
    assert_eq!(decimal_text(u64::MAX), u64::MAX.to_string());
    assert_eq!(signed_decimal_text(i64::MIN), i64::MIN.to_string());
    assert_eq!(numeral_text(48_879, 16), "beef");
    assert_eq!(parse_number("007"), Some(7));
    assert_eq!(parse_number("+"), None);
    assert_eq!(parse_number("-1"), None);
    assert_eq!(split_words("  a\tb \n"), vec!["a".to_string(), "b".to_string()]);
    assert_eq!(trim_text("\u{3000}x "), "x");
    assert_eq!(
        split_lines("a\r\nb\n\nc", 0),
        "a\r\nb\n\nc".lines().map(ToString::to_string).collect::<Vec<_>>()
    );
    assert!(str_contains("haystack", "stack"));
    assert!(!str_contains("hay", "stack"));
    assert_eq!(
        join_texts(&vec!["a".to_string(), "b".to_string()], ", "),
        "a, b"
    );
    assert_eq!(join_texts(&Vec::new(), ", "), "");
}

#[test]
fn numbers_by_their_patterns_are_ordered_as_numbers() {
    assert!(number(-1.0).is_below(&number(0.5)));
    assert!(!number(f32::NAN).is_below(&number(0.5)));
    assert!(!number(0.0).is_below(&number(-0.0)));
    assert!(number(0.0) == number(-0.0));
    assert!(number(f32::NAN) != number(f32::NAN));
    assert!(!number(f32::INFINITY).is_finite());
    assert!(is_delay_allowed(&number(2_000.0)));
    assert!(!is_delay_allowed(&number(2_000.1)));
    assert!(!is_delay_allowed(&number(-0.1)));
    assert!(!is_delay_allowed(&number(f32::NAN)));
    assert_eq!(clamp_pan(number(-3.0)), number(-1.0));
    assert_eq!(clamp_pan(number(0.25)), number(0.25));
    assert_eq!(clamp_pan(number(9.0)), number(1.0));
}
