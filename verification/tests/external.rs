use std::collections::VecDeque;

use mars::external_io::{
    pop_samples, push_bounded_error_with_capacity, push_samples, EndpointKind, EndpointPhase,
    ExternalEndpointConfig, ExternalEndpointHealth,
};
use mars::external_runtime::{
    queue_capacity, reconnect_backoff, ExternalIoRuntime, RecoveryEvent,
};
use mars::number::Real32;
use mars::ring_probe::{RingEvent, RingRun, RingStep};
use mars::probe::{
    append_captured, build_output_timeline, check_loopback_request, check_monitor_request,
    check_ring_request, conclude_device_probe, conclude_probe, conclude_ring_probe, interleave_mono_signal, monitor_capture_samples, plan_capture, poll_probe,
    LoopbackProbeRequest, ProbePlayback, ProbePoll, RingProbe, VinRingLoopbackProbeRequest,
    VinRingMonitorRequest,
};
use mars::streams::{
    choose_stream, collect_details, default_device_info, detect_microphone_permission, device_info_from_device,
    find_device_by_uid, list_device_inventory, resolve_channel_count, sample_format_priority,
    select_stream_config, supported_channel_counts, unsupported_format, CoreAudioError, ProbedDevice, SampleFormat,
    StreamDirection, SupportedConfig,
};

fn average(a: u32, b: u32) -> u32 {
    ((f32::from_bits(a) + f32::from_bits(b)) * 0.5).to_bits()
}

fn bits(value: f32) -> u32 {
    value.to_bits()
}

fn endpoint(id: &str, channels: u16) -> ExternalEndpointConfig {
    ExternalEndpointConfig {
        node_id: id.to_string(),
        uid: format!("uid-{id}"),
        channels,
    }
}

#[test]
fn queues_keep_the_newest_samples() {
    let mut queue = VecDeque::new();
    assert!(!push_samples(&mut queue, &vec![1, 2, 3], 4));
    assert!(push_samples(&mut queue, &vec![4, 5, 6], 4));
    let mut out = vec![9; 5];
    assert!(pop_samples(&mut queue, &mut out));
    assert_eq!(out, vec![3, 4, 5, 6, 0]);
    assert!(!pop_samples(&mut queue, &mut Vec::new()));
}

#[test]
fn only_the_last_errors_are_kept() {
    let mut errors = VecDeque::new();
    for text in ["a", "b", "c"] {
        push_bounded_error_with_capacity(&mut errors, text.to_string(), 2);
    }
    assert_eq!(errors, VecDeque::from(vec!["b".to_string(), "c".to_string()]));
}

#[test]
fn retries_back_off_up_to_a_limit() {
    let waits: Vec<u64> = (0..12).map(|attempts| reconnect_backoff(attempts, 0)).collect();
    assert_eq!(waits[0], waits[1]);
    assert_eq!(waits[2], 2 * waits[1]);
    assert!(waits.windows(2).all(|pair| pair[0] <= pair[1]));
    assert_eq!(waits[10], waits[11]);
    assert_eq!(reconnect_backoff(u32::MAX, 0), waits[11]);
}

#[test]
fn external_inputs_are_converted_to_the_channels_of_their_nodes() {
    let mut runtime = ExternalIoRuntime::new(4);
    runtime.add_input(&endpoint("mono", 2), 1);
    runtime.add_input(&endpoint("stereo", 1), 2);
    runtime.accept_captured(0, &vec![bits(0.5), bits(0.25)]);
    runtime.accept_captured(1, &vec![bits(1.0), bits(0.0)]);
    let mut out = vec![0; 4];
    assert!(runtime.read_input_into("mono", &mut out, &average));
    assert_eq!(out, vec![bits(0.5), bits(0.5), bits(0.25), bits(0.25)]);
    let mut out = vec![0; 1];
    assert!(runtime.read_input_into("stereo", &mut out, &average));
    assert_eq!(out, vec![bits(0.5)]);
    assert!(!runtime.read_input_into("nobody", &mut out, &average));
    let snapshot = runtime.snapshot();
    assert_eq!(snapshot.status.connected_inputs, 2);
    assert_eq!(snapshot.counters.underrun_count, 0);
    assert_eq!(snapshot.input_endpoints[0].ingested_frames, 2);
}

#[test]
fn missing_input_is_silence_and_counted() {
    let mut runtime = ExternalIoRuntime::new(4);
    runtime.add_input(&endpoint("mic", 1), 1);
    runtime.accept_captured(0, &vec![bits(1.0)]);
    let mut out = vec![7; 2];
    assert!(runtime.read_input_into("mic", &mut out, &average));
    assert_eq!(out, vec![bits(1.0), 0]);
    let snapshot = runtime.snapshot();
    assert_eq!(snapshot.counters.underrun_count, 1);
    assert_eq!(snapshot.counters.xrun_count, 1);
    assert_eq!(snapshot.input_endpoints[0].underrun_count, 1);
}

#[test]
fn external_outputs_are_played_in_order() {
    let mut runtime = ExternalIoRuntime::new(4);
    runtime.add_output(&endpoint("out", 2), 2);
    assert!(runtime.write_output_from("out", &vec![1, 2, 3, 4], &average));
    assert!(!runtime.write_output_from("nobody", &vec![1], &average));
    let mut played = vec![0; 6];
    runtime.supply_playback(0, &mut played);
    assert_eq!(played, vec![1, 2, 3, 4, 0, 0]);
    assert_eq!(runtime.snapshot().counters.underrun_count, 1);
    assert_eq!(queue_capacity(4, 2), 16 * 4 * 2);
}

#[test]
fn a_failed_stream_is_retried_until_it_works() {
    let mut runtime = ExternalIoRuntime::new(4);
    runtime.add_input(&endpoint("mic", 1), 1);
    runtime.note_input_error(0, "unplugged");
    assert!(runtime.handle_event(
        RecoveryEvent::StreamError {
            kind: EndpointKind::Input,
            node_id: "mic".to_string(),
        },
        1_000,
        0,
    ));
    let snapshot = runtime.snapshot();
    assert_eq!(snapshot.status.connected_inputs, 0);
    assert_eq!(snapshot.status.degraded_inputs, 1);
    assert_eq!(
        snapshot.input_endpoints[0].health,
        ExternalEndpointHealth::Degraded
    );
    assert_eq!(runtime.next_input_retry(0, 1_000), None);
    let due = 1_000 + reconnect_backoff(0, 0);
    assert_eq!(runtime.next_input_retry(0, due), Some(0));
    runtime.finish_input_retry(0, Err("still gone".to_string()), due, 0);
    assert_eq!(runtime.next_input_retry(0, due), None);
    let again = due + reconnect_backoff(2, 0);
    assert_eq!(runtime.next_input_retry(0, again), Some(0));
    runtime.finish_input_retry(0, Ok(2), again, 0);
    let snapshot = runtime.snapshot();
    assert_eq!(snapshot.status.connected_inputs, 1);
    assert_eq!(snapshot.status.restart_attempts, 2);
    assert!(snapshot.input_endpoints[0]
        .error_ring
        .iter()
        .any(|text| text.contains("unplugged")));
    assert!(!runtime.handle_event(RecoveryEvent::StopRequested, 0, 0));
    assert!(runtime.handle_event(RecoveryEvent::Timeout, 0, 0));
    assert!(!runtime.handle_event(RecoveryEvent::Disconnected, 0, 0));
    assert!(EndpointPhase::Connected.is_connected());
    assert_eq!(
        EndpointPhase::Reconnecting.into_health(),
        ExternalEndpointHealth::Reconnecting
    );
}

fn config(channels: u16, low: u32, high: u32, format: SampleFormat) -> SupportedConfig {
    SupportedConfig {
        channels,
        min_sample_rate: low,
        max_sample_rate: high,
        format,
    }
}

#[test]
fn streams_prefer_floats() {
    let configs = vec![
        config(2, 44_100, 48_000, SampleFormat::Uint16),
        config(2, 44_100, 48_000, SampleFormat::Float),
        config(2, 44_100, 48_000, SampleFormat::Int16),
    ];
    let choice =
        select_stream_config(&configs, StreamDirection::Input, 2, 48_000).expect("choice");
    assert_eq!(choice.format, SampleFormat::Float);
    assert_eq!(choice.sample_rate, 48_000);
    assert_eq!(
        select_stream_config(&configs, StreamDirection::Input, 1, 48_000),
        Err("no supported input config for channels=1 sample_rate=48000".to_string())
    );
    assert_eq!(sample_format_priority(SampleFormat::Float), 0);
    assert_eq!(sample_format_priority(SampleFormat::Other), 3);
    assert_eq!(sample_format_priority(SampleFormat::Double), 3);
    assert_eq!(
        unsupported_format("mic", StreamDirection::Input, SampleFormat::Double),
        CoreAudioError::BuildInputStream {
            uid: "mic".to_string(),
            reason: "unsupported input sample format: F64".to_string(),
        }
    );
    assert_eq!(
        unsupported_format("out", StreamDirection::Output, SampleFormat::Int24),
        CoreAudioError::BuildOutputStream {
            uid: "out".to_string(),
            reason: "unsupported output sample format: I24".to_string(),
        }
    );
}

#[test]
fn channel_counts_are_found_among_the_supported_ones() {
    let configs = vec![
        config(4, 44_100, 48_000, SampleFormat::Float),
        config(2, 44_100, 48_000, SampleFormat::Float),
        config(8, 96_000, 96_000, SampleFormat::Float),
    ];
    let queried = Ok(configs);
    assert_eq!(
        resolve_channel_count("u", StreamDirection::Input, 48_000, &vec![1, 2, 4], &queried),
        Ok(2)
    );
    let error = resolve_channel_count("u", StreamDirection::Input, 48_000, &vec![1], &queried)
        .expect_err("unsupported");
    assert!(matches!(
        error,
        CoreAudioError::UnsupportedChannelCount { .. }
    ));
    assert_eq!(
        supported_channel_counts("u", StreamDirection::Input, 48_000, &queried),
        Ok(vec![2, 4])
    );
    let error = supported_channel_counts("u", StreamDirection::Output, 8_000, &queried)
        .expect_err("rate");
    assert_eq!(
        error.message(""),
        "no supported output stream config for uid 'u' at 8000 Hz"
    );
    let configs = queried.expect("configs");
    let (channels, rates) = collect_details(&configs, StreamDirection::Input);
    assert_eq!(channels, 8);
    assert_eq!(rates, vec![44_100, 48_000, 96_000]);
}

fn probed(name: Option<&str>, id: Result<&str, &str>) -> ProbedDevice {
    ProbedDevice {
        name: name.map(ToString::to_string),
        id: id.map(ToString::to_string).map_err(ToString::to_string),
        outputs: Err("no outputs".to_string()),
        inputs: Ok(vec![config(1, 48_000, 48_000, SampleFormat::Float)]),
    }
}

#[test]
fn devices_are_listed_with_their_names() {
    let devices = vec![probed(Some("Mic"), Ok("m")), probed(None, Ok("n"))];
    let inventory = list_device_inventory(&devices).expect("inventory");
    assert_eq!(inventory.inputs.len(), 2);
    assert!(inventory.outputs.is_empty());
    assert_eq!(inventory.inputs[1].name, "Unknown Device 1");
    assert_eq!(inventory.inputs[0].sample_rates, vec![48_000]);
    assert_eq!(find_device_by_uid(&devices, "n"), Ok(1));
    assert_eq!(
        find_device_by_uid(&devices, "x")
            .expect_err("missing")
            .message(""),
        "device not found for uid 'x'"
    );
    let broken = probed(Some("Odd"), Err("no id"));
    let error = device_info_from_device(&broken, StreamDirection::Input, 0, Ok(Vec::new()))
        .expect_err("id");
    assert_eq!(
        error.message(""),
        "failed to enumerate devices: failed to get stable id for 'Odd': no id"
    );
    assert_eq!(
        default_device_info(StreamDirection::Output, None, Ok(Vec::new()))
            .expect_err("none")
            .message(""),
        "no default output device is available"
    );
    let info = default_device_info(StreamDirection::Input, Some(&devices[0]), Ok(Vec::new()))
        .expect("info");
    assert_eq!(info.uid, "m");
}

#[test]
fn the_microphone_is_denied_in_whatever_case() {
    assert_eq!(detect_microphone_permission(None), None);
    assert_eq!(detect_microphone_permission(Some(Ok(()))), Some(true));
    assert_eq!(
        detect_microphone_permission(Some(Err("Access DENIED".to_string()))),
        Some(false)
    );
    assert_eq!(
        detect_microphone_permission(Some(Err("\u{212A}ernel: Not Authorized".to_string()))),
        Some(false)
    );
    assert_eq!(
        detect_microphone_permission(Some(Err("busy".to_string()))),
        None
    );
}

#[test]
fn probes_are_laid_out_and_captured() {
    assert_eq!(
        build_output_timeline(&vec![5, 6], 1, 2),
        vec![0, 5, 6, 0, 0]
    );
    assert_eq!(interleave_mono_signal(&vec![1, 2], 2), vec![1, 1, 2, 2]);
    let plan = plan_capture(100, 48_000, 2);
    assert_eq!(plan.target_capture_frames, 24_100);
    assert_eq!(plan.max_capture_samples, 48_200);
    let mut captured = vec![1];
    append_captured(&mut captured, &vec![2, 3, 4], 3);
    assert_eq!(captured, vec![1, 2, 3]);
    let mut playback = ProbePlayback::new(vec![1, 2, 3]);
    let mut out = vec![9; 2];
    playback.fill(&mut out);
    assert_eq!(out, vec![1, 2]);
    playback.fill(&mut out);
    assert_eq!(out, vec![3, 0]);
    assert!(playback.finished);
}

#[test]
fn probes_end_in_time_or_with_an_error() {
    assert!(matches!(
        poll_probe(None, false, 0, 1, false, 5),
        ProbePoll::Wait
    ));
    assert!(matches!(
        poll_probe(None, true, 1, 1, false, 5),
        ProbePoll::Done
    ));
    assert!(matches!(
        poll_probe(None, true, 0, 1, true, 5),
        ProbePoll::Failed(CoreAudioError::ProbeTimeout { timeout_ms: 5 })
    ));
    assert!(matches!(
        poll_probe(Some("x".to_string()), true, 1, 1, true, 5),
        ProbePoll::Failed(CoreAudioError::Probe { .. })
    ));
    let number = |value: f32| Real32::from_bits(value.to_bits());
    assert_eq!(conclude_probe(10, number(0.5), number(0.2), 12), Ok(-2));
    assert_eq!(conclude_device_probe(10, number(0.2), 12), Ok(-2));
    assert!(conclude_device_probe(10, number(0.15), 12).is_err());
    assert_eq!(conclude_ring_probe(10, number(0.15)), Ok(10));
    assert!(conclude_ring_probe(10, number(0.05)).is_err());
    let low = conclude_probe(10, number(0.1), number(0.2), 12).expect_err("low");
    assert_eq!(
        low.message("0.100"),
        "loopback probe did not find a reliable correlation peak (score=0.100)"
    );
}

#[test]
fn probe_requests_are_checked() {
    let mut request = LoopbackProbeRequest {
        output_uid: "o".to_string(),
        input_uid: "i".to_string(),
        sample_rate: 0,
        output_channels: 1,
        input_channels: 1,
        timeout_ms: 1,
    };
    assert_eq!(
        check_loopback_request(&request)
            .expect_err("rate")
            .message(""),
        "loopback probe failed: sample_rate must be > 0"
    );
    request.sample_rate = 1;
    assert!(check_loopback_request(&request).is_ok());
    request.input_channels = 0;
    assert!(check_loopback_request(&request).is_err());
    let ring = VinRingLoopbackProbeRequest {
        output_uid: "o".to_string(),
        vin_uid: "v".to_string(),
        sample_rate: 1,
        output_channels: 1,
        vin_channels: 1,
        buffer_frames: 0,
        timeout_ms: 1,
    };
    assert_eq!(
        check_ring_request(&ring).expect_err("frames").message(""),
        "loopback probe failed: buffer_frames must be > 0"
    );
    let monitor = VinRingMonitorRequest {
        vin_uid: "v".to_string(),
        sample_rate: 1,
        vin_channels: 0,
        buffer_frames: 1,
        timeout_ms: 1,
    };
    assert_eq!(
        check_monitor_request(&monitor)
            .expect_err("channels")
            .message(""),
        "loopback probe failed: sample_rate and vin_channels must be > 0"
    );
}

#[test]
fn ring_probes_write_and_read_whole_frames() {
    let mut probe = RingProbe {
        output: vec![1, 1, 2, 2, 3, 3],
        output_channels: 2,
        output_cursor: 0,
        chunk_frames: 2,
        vin_channels: 1,
        captured: Vec::new(),
        max_capture_samples: 3,
    };
    assert_eq!(probe.frames_to_write(0, 0, 8), Some(2));
    assert!(probe.note_written(2));
    assert_eq!(probe.frames_to_write(2, 0, 8), Some(1));
    probe.note_written(1);
    assert_eq!(probe.frames_to_write(3, 0, 8), None);
    assert!(probe.check_captured(3, 7).is_err());
    probe.accept_read(&vec![1, 2, 3], 3);
    assert!(probe.is_complete());
    assert!(probe.check_captured(3, 7).is_ok());
}

#[test]
fn ring_probes_write_where_there_is_room_and_read_what_comes() {
    let mut run = RingRun::begin(RingProbe {
        output: vec![1, 2, 3, 4],
        output_channels: 2,
        output_cursor: 0,
        chunk_frames: 1,
        vin_channels: 1,
        captured: Vec::new(),
        max_capture_samples: 3,
    });
    assert_eq!(run.step, RingStep::CheckTime);
    run.advance(RingEvent::Time { late: false });
    assert_eq!(run.step, RingStep::Inspect);
    run.advance(RingEvent::Inspected {
        write_idx: 8,
        read_idx: 0,
        capacity_frames: 8,
    });
    assert_eq!(run.step, RingStep::Read { samples: 3 });
    run.advance(RingEvent::Received {
        scratch: vec![0, 0, 0],
        frames: 0,
    });
    assert_eq!(run.step, RingStep::Pause);
    run.advance(RingEvent::Paused);
    run.advance(RingEvent::Time { late: false });
    run.advance(RingEvent::Inspected {
        write_idx: 8,
        read_idx: 4,
        capacity_frames: 8,
    });
    assert_eq!(run.step, RingStep::Write { frames: 1 });
    run.advance(RingEvent::Written { written: 1 });
    assert_eq!(run.probe.output_cursor, 2);
    run.advance(RingEvent::Received {
        scratch: vec![7, 8, 9],
        frames: 3,
    });
    assert_eq!(run.probe.captured, vec![7, 8, 9]);
    assert_eq!(run.step, RingStep::CheckTime);
    run.advance(RingEvent::Time { late: false });
    run.advance(RingEvent::Inspected {
        write_idx: 8,
        read_idx: 8,
        capacity_frames: 8,
    });
    run.advance(RingEvent::Written { written: 1 });
    assert_eq!(run.step, RingStep::Finish);
}

#[test]
fn late_ring_probes_read_once_more() {
    let mut run = RingRun::begin(RingProbe {
        output: vec![1],
        output_channels: 1,
        output_cursor: 0,
        chunk_frames: 4,
        vin_channels: 2,
        captured: Vec::new(),
        max_capture_samples: 5,
    });
    run.advance(RingEvent::Time { late: true });
    assert_eq!(run.step, RingStep::ReadRest { samples: 4 });
    run.advance(RingEvent::Received {
        scratch: vec![3, 4, 0, 0],
        frames: 1,
    });
    assert_eq!(run.step, RingStep::Finish);
    assert_eq!(run.probe.captured, vec![3, 4]);
    assert_eq!(monitor_capture_samples(48_000, 5_999, 2), 960_000);
    assert_eq!(monitor_capture_samples(8_000, 10, 1), 16_000);
}

#[test]
fn devices_that_cannot_be_asked_are_refused_with_the_reason() {
    let refused: Result<Vec<SupportedConfig>, String> = Err("device is gone".to_string());
    let error = choose_stream("u", StreamDirection::Input, 2, 48_000, &refused)
        .expect_err("no configurations");
    assert!(matches!(
        &error,
        CoreAudioError::BuildInputStream { uid, reason }
            if uid == "u" && reason == "device is gone"
    ));
    assert_eq!(
        supported_channel_counts("u", StreamDirection::Input, 48_000, &refused),
        Err(CoreAudioError::Enumerate("device is gone".to_string()))
    );
    assert!(matches!(
        resolve_channel_count("u", StreamDirection::Input, 48_000, &vec![2], &refused),
        Err(CoreAudioError::UnsupportedChannelCount { .. })
    ));
    let found = Ok(vec![config(2, 44_100, 48_000, SampleFormat::Int16)]);
    let choice = choose_stream("u", StreamDirection::Output, 2, 48_000, &found).expect("choice");
    assert_eq!(choice.format, SampleFormat::Int16);
    let error = choose_stream("u", StreamDirection::Output, 1, 48_000, &found).expect_err("mono");
    assert!(matches!(error, CoreAudioError::BuildOutputStream { .. }));
}
