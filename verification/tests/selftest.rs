use mars::api::ExitCode;
use mars::cli::CliError;
use mars::matching::{DeviceInventory, ExternalDeviceInfo};
use mars::number::{Real32, Real64};
use mars::probe::{LoopbackProbeResult, VinRingMonitorResult};
use mars::selftest::{
    build_internal_test_profile, build_route_test_profile, check_test_apply, coreaudio_uid,
    finish_internal_test, finish_route_test, format_dbfs, format_internal_latency_test_report,
    format_route_test_report, format_test_endpoint, internal_latency_test_context,
    internal_probe_request, preferred_test_channels, probe_report, restore_action, route_monitor_request,
    select_test_channels, select_test_devices, test_apply_request, test_profile_file_name,
    validate_test_audio_config, InternalLatencyTestReport, ProbeReport, RouteObservation,
    SelectedTestEndpoints, TestEndpointReport, TestRestore, TEST_MIC_ID, TEST_SPEAKER_ID,
    TEST_VIRTUAL_INPUT_ID, TEST_VIRTUAL_INPUT_UID, TEST_VIRTUAL_OUTPUT_ID,
    TEST_VIRTUAL_OUTPUT_UID,
};
use mars::apply::ApplyResult;
use mars::plan::ApplyPlan;
use mars::streams::{SampleFormat, StreamDirection, SupportedConfig};

fn device(uid: &str, name: &str, channels: u16) -> ExternalDeviceInfo {
    ExternalDeviceInfo {
        uid: uid.to_string(),
        name: name.to_string(),
        manufacturer: None,
        transport: None,
        channels,
        sample_rates: vec![48_000],
    }
}

fn number(value: f32) -> Real32 {
    Real32::from_bits(value.to_bits())
}

#[test]
fn internal_test_profile_is_direct_loopback_only() {
    let profile = build_internal_test_profile(48_000, 256);

    assert!(profile.external.inputs.is_empty());
    assert!(profile.external.outputs.is_empty());
    assert_eq!(
        profile.virtual_devices.outputs[0].id,
        TEST_VIRTUAL_OUTPUT_ID
    );
    assert_eq!(
        profile.virtual_devices.outputs[0].uid.as_deref(),
        Some(TEST_VIRTUAL_OUTPUT_UID)
    );
    assert_eq!(profile.virtual_devices.inputs[0].id, TEST_VIRTUAL_INPUT_ID);
    assert_eq!(
        profile.virtual_devices.inputs[0].uid.as_deref(),
        Some(TEST_VIRTUAL_INPUT_UID)
    );
    assert_eq!(profile.pipes.len(), 1);
    assert_eq!(profile.pipes[0].from, TEST_VIRTUAL_OUTPUT_ID);
    assert_eq!(profile.pipes[0].to, TEST_VIRTUAL_INPUT_ID);
}

#[test]
fn route_test_profile_uses_requested_mic_and_speaker() {
    let microphone = device("mic-uid", "Built-in Mic", 1);
    let speaker = device("speaker-uid", "Built-in Speakers", 2);
    let profile = build_route_test_profile(48_000, 256, &microphone, 1, &speaker, 2);

    assert_eq!(profile.external.inputs.len(), 1);
    assert_eq!(profile.external.inputs[0].id, TEST_MIC_ID);
    assert_eq!(
        profile.external.inputs[0].criteria.uid.as_deref(),
        Some("mic-uid")
    );
    assert_eq!(profile.external.outputs.len(), 1);
    assert_eq!(profile.external.outputs[0].id, TEST_SPEAKER_ID);
    assert_eq!(
        profile.external.outputs[0].criteria.uid.as_deref(),
        Some("speaker-uid")
    );
    assert_eq!(profile.pipes.len(), 2);
    assert_eq!(profile.pipes[0].from, TEST_VIRTUAL_OUTPUT_ID);
    assert_eq!(profile.pipes[0].to, TEST_SPEAKER_ID);
    assert_eq!(profile.pipes[1].from, TEST_MIC_ID);
    assert_eq!(profile.pipes[1].to, TEST_VIRTUAL_INPUT_ID);
}

fn probe(latency_frames: i64, latency_ms: f64, score: f32) -> LoopbackProbeResult {
    LoopbackProbeResult {
        latency_frames,
        latency_ms: Real64 {
            bits: latency_ms.to_bits(),
        },
        correlation_score: number(score),
        output_signal_frames: 7_200,
        captured_frames: 8_000,
    }
}

#[test]
fn probe_report_copies_probe_metrics() {
    let report = probe_report(probe(128, 2.666, 0.91));

    assert_eq!(report.latency_frames, 128);
    assert_eq!(report.output_signal_frames, 7_200);
    assert_eq!(report.captured_frames, 8_000);
    assert!(f32::from_bits(report.correlation_score.to_bits()) > 0.9);
}

#[test]
fn internal_latency_report_human_output_describes_test_context() {
    let report = InternalLatencyTestReport {
        context: internal_latency_test_context(),
        sample_rate: 48_000,
        buffer_frames: 256,
        virtual_system_output_uid: coreaudio_uid(TEST_VIRTUAL_OUTPUT_UID),
        virtual_capture_input_uid: coreaudio_uid(TEST_VIRTUAL_INPUT_UID),
        internal: ProbeReport {
            latency_frames: 2048,
            latency_ms: Real64 {
                bits: 42.666_f64.to_bits(),
            },
            correlation_score: number(1.0),
            output_signal_frames: 55_200,
            captured_frames: 46_848,
        },
        notes: vec!["example note".to_string()],
        restored_profile: Some("demo".to_string()),
    };
    let rendered = format_internal_latency_test_report(
        &report,
        &format!("{:.2}", f64::from_bits(report.internal.latency_ms.bits)),
        &format!(
            "{:.3}",
            f32::from_bits(report.internal.correlation_score.to_bits())
        ),
    );

    assert!(rendered.contains("Test: internal_latency"));
    assert!(rendered.contains("Input: Bus: Test System"));
    assert!(rendered.contains("Output: Mix: Test Capture"));
    assert!(
        rendered.contains("Path: virtual output ring -> daemon render loop -> virtual input ring")
    );
    assert!(rendered.contains("Result: latency=42.67ms frames=2048 correlation=1.000"));
    assert!(rendered.contains("Notes: example note"));
    assert!(rendered.contains("Restored profile: demo"));
    assert!(rendered.contains("Samples: probe_frames=55200 captured_frames=46848"));
    assert_eq!(rendered.lines().count(), 13);
}

#[test]
fn endpoints_are_shown_with_and_without_their_ids() {
    let mut endpoint = TestEndpointReport {
        kind: "bus".to_string(),
        logical_id: Some("x".to_string()),
        name: "X".to_string(),
        uid: "u".to_string(),
        channels: 2,
    };
    assert_eq!(
        format_test_endpoint(&endpoint),
        "X [bus id=x uid=u channels=2]"
    );
    endpoint.logical_id = None;
    assert_eq!(format_test_endpoint(&endpoint), "X [bus uid=u channels=2]");
    assert_eq!(format_dbfs(None, "1.0"), "-inf dBFS");
    assert_eq!(format_dbfs(Some(number(-1.0)), "-1.0"), "-1.0 dBFS");
    assert_eq!(test_profile_file_name(7, 123), "mars-test-7-123.yaml");
    assert_eq!(internal_probe_request(48_000, 2, 2, 64).timeout_ms, 4_000);
    assert_eq!(route_monitor_request(48_000, 1, 64).vin_channels, 1);
    assert!(!test_apply_request("/p").dry_run);
}

#[test]
fn weak_probes_are_noted() {
    let finish = |result: LoopbackProbeResult| {
        finish_internal_test(Ok(result), Ok(()), Ok(()), "/p", 48_000, 256, None)
            .expect("report")
            .notes
    };
    assert_eq!(finish(probe(10, 1.0, 0.9)).len(), 1);
    let weak = finish(probe(0, 1.0, 0.1));
    assert_eq!(weak.len(), 3);
    assert!(weak[1].starts_with("Correlation was weak"));
    assert!(weak[2].starts_with("Measured sample offset was 0 frames"));
    let negative = finish(probe(-5, 1.0, 0.9));
    assert!(negative[1].starts_with("Measured internal latency was not positive"));
}

fn failure(text: &str) -> CliError {
    CliError::WithExit {
        message: text.to_string(),
        exit_code: ExitCode::InvalidInput,
    }
}

#[test]
fn what_fails_in_a_test_is_reported() {
    let finish = |phase: Result<LoopbackProbeResult, CliError>,
                  restore: Result<(), CliError>,
                  cleanup: Result<(), String>| {
        finish_internal_test(phase, restore, cleanup, "/p", 48_000, 256, None)
            .expect_err("failure")
    };
    let cleanup = finish(Err(failure("a")), Err(failure("b")), Err("c".to_string()));
    assert_eq!(cleanup.message(), "test cleanup failed for '/p': c");
    let restore = finish(Ok(probe(1, 1.0, 1.0)), Err(failure("b")), Ok(()));
    assert_eq!(
        restore.message(),
        "test finished but restoring the previous profile failed: b"
    );
    assert_eq!(restore.exit_code(), ExitCode::ApplyFailed);
    let phase = finish(Err(failure("a")), Ok(()), Ok(()));
    assert_eq!(phase, failure("a"));
    let both = finish(Err(failure("a")), Err(failure("b")), Ok(()));
    assert_eq!(both.message(), "a; restore failed: b");
}

fn selected() -> SelectedTestEndpoints {
    SelectedTestEndpoints {
        microphone: device("m", "Mic", 1),
        speaker: device("s", "Speaker", 2),
        microphone_channels: 1,
        speaker_channels: 2,
    }
}

fn heard(peak: f32) -> RouteObservation {
    RouteObservation {
        connected_inputs: 1,
        connected_outputs: 0,
        monitor: VinRingMonitorResult {
            captured_frames: 99,
            peak: number(peak),
            rms: number(0.0),
        },
        peak_dbfs: number(20.0 * peak.log10()),
        rms_dbfs: number(f32::NEG_INFINITY),
        peak_text: format!("{peak:.3}"),
        rms_text: "0.000".to_string(),
    }
}

#[test]
fn a_route_is_tested_by_its_sound() {
    let finish = |peak: f32| {
        finish_route_test(
            Ok(heard(peak)),
            Ok(()),
            Ok(()),
            "/p",
            selected(),
            48_000,
            256,
            Some("before".to_string()),
        )
    };
    let report = finish(0.5).expect("report");
    assert!(report.capture_signal_detected);
    assert!(report.external_input_connected);
    assert!(!report.external_output_connected);
    assert_eq!(report.listen_ms, 5_000);
    assert_eq!(report.notes.len(), 1);
    assert!(report.rms_dbfs.is_none());
    assert!(report.peak_dbfs.is_some());
    let text = format_route_test_report(&report, "-6.0", "0.0");
    assert!(text.contains(
        "Result: signal_detected=true peak=-6.0 dBFS rms=-inf dBFS captured_frames=99"
    ));
    assert!(text.contains("Outputs: Speaker [external_output id=test-speaker uid=s channels=2] | "));
    assert!(text.contains("Restored profile: before"));
    assert_eq!(finish(0.01).expect("low").notes.len(), 2);
    let silence = finish(0.007).expect_err("silence");
    assert!(silence.message().starts_with(
        "route test did not observe enough microphone signal (peak=0.007, rms=0.000)\nselected microphone: Mic (m)\n"
    ));
    assert!(finish(f32::NAN).is_err());
}

fn inventory() -> DeviceInventory {
    DeviceInventory {
        inputs: vec![
            device("coreaudio:BuiltInMicrophoneDevice", "Built-in", 1),
            device("usb", "Twin", 1),
            device("usb2", "Twin", 1),
        ],
        outputs: vec![device("hdmi", "Screen", 2)],
    }
}

#[test]
fn devices_of_a_test_are_chosen() {
    let choose = |mic: Option<&str>, speaker: Option<&str>| {
        select_test_devices(
            mic,
            speaker,
            48_000,
            256,
            Ok(inventory()),
            Ok(device("default-mic", "Default", 1)),
            Ok(device("default-speaker", "Default", 2)),
        )
    };
    let (mic, speaker) = choose(None, None).expect("devices");
    assert_eq!(mic.uid, "coreaudio:BuiltInMicrophoneDevice");
    assert_eq!(speaker.uid, "default-speaker");
    let (mic, speaker) = choose(None, Some("Screen")).expect("devices");
    assert_eq!(mic.uid, "default-mic");
    assert_eq!(speaker.uid, "hdmi");
    assert_eq!(
        choose(Some("Twin"), None).expect_err("two").message(),
        "microphone selector 'Twin' is ambiguous; match by UID instead"
    );
    assert_eq!(
        choose(None, Some("Nobody")).expect_err("none").message(),
        "speaker 'Nobody' not found (use `mars devices --json` to inspect available UIDs)"
    );
    assert_eq!(
        validate_test_audio_config(0, 1).expect_err("rate").message(),
        "--sample-rate must be > 0"
    );
    assert_eq!(
        validate_test_audio_config(1, 0)
            .expect_err("frames")
            .message(),
        "--buffer-frames must be > 0"
    );
}

#[test]
fn channels_of_a_test_are_the_preferred_or_the_most() {
    let config = |channels: u16| SupportedConfig {
        channels,
        min_sample_rate: 44_100,
        max_sample_rate: 48_000,
        format: SampleFormat::Float,
    };
    let choose = |preferred: Vec<u16>, sample_rate: u32| {
        select_test_channels(
            "u",
            StreamDirection::Input,
            sample_rate,
            &preferred,
            &Ok(vec![config(6), config(2), config(4)]),
        )
    };
    assert_eq!(preferred_test_channels(StreamDirection::Input), vec![1, 2]);
    assert_eq!(preferred_test_channels(StreamDirection::Output), vec![2, 1]);
    assert_eq!(choose(vec![1, 2], 48_000), Ok(2));
    assert_eq!(choose(vec![1], 48_000), Ok(6));
    let refused = choose(vec![1], 96_000).expect_err("rate");
    assert_eq!(refused.exit_code(), ExitCode::InvalidInput);
    assert!(refused.message().contains("96000"));
}

#[test]
fn what_was_applied_is_brought_back() {
    assert_eq!(restore_action(None, false), Ok(TestRestore::Clear));
    assert_eq!(
        restore_action(Some("/p"), true),
        Ok(TestRestore::Apply {
            profile_path: "/p".to_string()
        })
    );
    assert_eq!(
        restore_action(Some("/p"), false)
            .expect_err("gone")
            .message(),
        "previous profile no longer exists: '/p'"
    );
    let result = ApplyResult {
        applied: true,
        plan: ApplyPlan {
            changes: Vec::new(),
            warnings: Vec::new(),
        },
        warnings: Vec::new(),
        errors: vec!["x".to_string(), "y".to_string()],
    };
    assert_eq!(
        check_test_apply(&result).expect_err("errors").message(),
        "test profile apply failed: x; y"
    );
}
