use std::sync::Mutex;

use mars::capture_runtime::{
    enrich_capture_runtime_with_external_inputs, list_capture_processes, mode_string, probe_capture_capability,
    resolve_process_selector, selector_string, CaptureRuntime, CaptureRuntimeHealth,
    CaptureRuntimeKind, CaptureRuntimeStatus, CaptureRuntimeTapStatus, TapBackend,
};
use mars::external_io::{ExternalEndpointHealth, ExternalInputEndpointSnapshot};
use mars::profile::{
    CaptureConfig, ProcessTap, ProcessTapSelector, Profile, SystemTap, SystemTapMode,
};
use mars::tap::{
    from_bridge_error, is_destroy_idempotent_status, sort_processes, AudioProcessInfo,
    CoreAudioTapController, DestroyEvent, DestroyStep, ProcessTapRequest, SystemTapRequest, SystemTapTarget, TapCapability,
    TapError, TapEvent, TapHandle, TapMuteBehavior, TapStep,
};

#[derive(Debug, Default)]
struct FakeTapBackend {
    processes: Vec<AudioProcessInfo>,
    created: Mutex<Vec<String>>,
    destroyed: Mutex<Vec<String>>,
}

impl TapBackend for FakeTapBackend {
    fn capability(&mut self) -> Result<TapCapability, String> {
        Ok(TapCapability {
            supported: true,
            reason: None,
        })
    }

    fn list_processes(&mut self) -> Result<Vec<AudioProcessInfo>, String> {
        Ok(self.processes.clone())
    }

    fn create_process_tap(&mut self, request: &ProcessTapRequest) -> Result<TapHandle, String> {
        self.created
            .lock()
            .expect("lock")
            .push(format!("process:{}", request.tap_name));
        Ok(TapHandle {
            tap_id: 10 + request.process_object_ids.len() as u32,
            tap_uid: format!("tap.process.{}", request.tap_name),
            aggregate_device_id: 100,
            aggregate_uid: request.aggregate_uid.clone(),
        })
    }

    fn create_system_tap(&mut self, request: &SystemTapRequest) -> Result<TapHandle, String> {
        self.created
            .lock()
            .expect("lock")
            .push(format!("system:{}", request.tap_name));
        Ok(TapHandle {
            tap_id: 20,
            tap_uid: format!("tap.system.{}", request.tap_name),
            aggregate_device_id: 200,
            aggregate_uid: request.aggregate_uid.clone(),
        })
    }

    fn destroy_tap(&mut self, handle: &TapHandle) -> Result<(), String> {
        self.destroyed
            .lock()
            .expect("lock")
            .push(handle.tap_uid.clone());
        Ok(())
    }
}

fn profile_with_captures() -> Profile {
    let mut profile = Profile::default();
    profile.captures = CaptureConfig {
        process_taps: vec![ProcessTap {
            id: "music".to_string(),
            selector: ProcessTapSelector::BundleId {
                bundle_id: "com.example.player".to_string(),
            },
            channels: Some(2),
        }],
        system_taps: vec![SystemTap {
            id: "system".to_string(),
            mode: SystemTapMode::AllOutput,
            channels: Some(2),
        }],
    };
    profile
}

#[test]
fn runtime_start_and_stop_tracks_active_taps() {
    let mut backend = FakeTapBackend {
        processes: vec![AudioProcessInfo {
            process_object_id: 42,
            pid: 1234,
            bundle_id: "com.example.player".to_string(),
            is_running: true,
            is_running_input: false,
            is_running_output: true,
        }],
        created: Mutex::new(Vec::new()),
        destroyed: Mutex::new(Vec::new()),
    };

    let runtime = CaptureRuntime::start_with_backend(&profile_with_captures(), &mut backend, 77)
        .expect("runtime start");
    let status = runtime.status();
    assert!(status.supported);
    assert_eq!(status.active_taps, 2);
    assert_eq!(status.failed_taps, 0);
    assert_eq!(status.discovered_processes, 1);

    runtime.stop(&mut backend);

    let destroyed = backend.destroyed.lock().expect("lock");
    assert_eq!(destroyed.len(), 2);
}

#[test]
fn runtime_start_fails_when_selector_has_no_matches() {
    let mut backend = FakeTapBackend {
        processes: vec![AudioProcessInfo {
            process_object_id: 7,
            pid: 999,
            bundle_id: "com.other.app".to_string(),
            is_running: true,
            is_running_input: false,
            is_running_output: true,
        }],
        created: Mutex::new(Vec::new()),
        destroyed: Mutex::new(Vec::new()),
    };

    let mut profile = Profile::default();
    profile.captures.process_taps.push(ProcessTap {
        id: "target".to_string(),
        selector: ProcessTapSelector::Pid { pid: 1234 },
        channels: Some(2),
    });

    let error = CaptureRuntime::start_with_backend(&profile, &mut backend, 77)
        .expect_err("selector should fail");
    assert!(error.contains("did not match any active CoreAudio process object"));
}

#[test]
fn bundle_selector_resolution_is_deterministic() {
    let processes = vec![
        AudioProcessInfo {
            process_object_id: 90,
            pid: 2000,
            bundle_id: "com.example.player".to_string(),
            is_running: true,
            is_running_input: false,
            is_running_output: true,
        },
        AudioProcessInfo {
            process_object_id: 11,
            pid: 1000,
            bundle_id: "com.example.player".to_string(),
            is_running: true,
            is_running_input: false,
            is_running_output: true,
        },
        AudioProcessInfo {
            process_object_id: 22,
            pid: 1000,
            bundle_id: "com.example.player".to_string(),
            is_running: true,
            is_running_input: false,
            is_running_output: true,
        },
    ];

    let matched = resolve_process_selector(
        &ProcessTapSelector::BundleId {
            bundle_id: "com.example.player".to_string(),
        },
        &processes,
    );
    let ordered = matched
        .iter()
        .map(|item| (item.pid, item.process_object_id))
        .collect::<Vec<_>>();
    assert_eq!(ordered, vec![(1000, 11), (1000, 22), (2000, 90)]);
}

#[test]
fn process_churn_soak_start_stop_keeps_create_destroy_balanced() {
    #[derive(Debug, Default)]
    struct ChurnBackend {
        processes: Mutex<Vec<AudioProcessInfo>>,
        next_id: Mutex<u32>,
        created: Mutex<u64>,
        destroyed: Mutex<u64>,
    }

    impl TapBackend for ChurnBackend {
        fn capability(&mut self) -> Result<TapCapability, String> {
            Ok(TapCapability {
                supported: true,
                reason: None,
            })
        }

        fn list_processes(&mut self) -> Result<Vec<AudioProcessInfo>, String> {
            Ok(self.processes.lock().expect("lock").clone())
        }

        fn create_process_tap(&mut self, request: &ProcessTapRequest) -> Result<TapHandle, String> {
            let mut next = self.next_id.lock().expect("lock");
            *next += 1;
            *self.created.lock().expect("lock") += 1;
            Ok(TapHandle {
                tap_id: *next,
                tap_uid: format!("tap.process.{}", request.tap_name),
                aggregate_device_id: 10_000 + *next,
                aggregate_uid: request.aggregate_uid.clone(),
            })
        }

        fn create_system_tap(&mut self, request: &SystemTapRequest) -> Result<TapHandle, String> {
            let mut next = self.next_id.lock().expect("lock");
            *next += 1;
            *self.created.lock().expect("lock") += 1;
            Ok(TapHandle {
                tap_id: *next,
                tap_uid: format!("tap.system.{}", request.tap_name),
                aggregate_device_id: 20_000 + *next,
                aggregate_uid: request.aggregate_uid.clone(),
            })
        }

        fn destroy_tap(&mut self, _handle: &TapHandle) -> Result<(), String> {
            *self.destroyed.lock().expect("lock") += 1;
            Ok(())
        }
    }

    let mut backend = ChurnBackend {
        processes: Mutex::new(Vec::new()),
        next_id: Mutex::new(100),
        created: Mutex::new(0),
        destroyed: Mutex::new(0),
    };

    let mut profile = Profile::default();
    profile.captures.process_taps.push(ProcessTap {
        id: "app".to_string(),
        selector: ProcessTapSelector::BundleId {
            bundle_id: "com.example.player".to_string(),
        },
        channels: Some(2),
    });
    profile.captures.system_taps.push(SystemTap {
        id: "system".to_string(),
        mode: SystemTapMode::AllOutput,
        channels: Some(2),
    });

    for iteration in 0..128_u32 {
        *backend.processes.lock().expect("lock") = vec![AudioProcessInfo {
            process_object_id: 10 + iteration,
            pid: 10_000 + iteration as i32,
            bundle_id: "com.example.player".to_string(),
            is_running: true,
            is_running_input: false,
            is_running_output: true,
        }];

        let runtime = CaptureRuntime::start_with_backend(&profile, &mut backend, 77)
            .expect("runtime start");
        runtime.stop(&mut backend);
    }

    let created = *backend.created.lock().expect("lock");
    let destroyed = *backend.destroyed.lock().expect("lock");
    assert_eq!(created, destroyed);
}

#[test]
fn idempotent_destroy_status_recognizes_known_coreaudio_codes() {
    assert!(is_destroy_idempotent_status(0x216F626A));
    assert!(is_destroy_idempotent_status(0x2164_6576));
    assert!(!is_destroy_idempotent_status(0));
    assert!(!is_destroy_idempotent_status(-1));
}

#[test]
fn capture_runtime_status_merges_live_external_input_metrics() {
    let status = CaptureRuntimeStatus {
        supported: true,
        discovered_processes: 1,
        active_taps: 1,
        failed_taps: 0,
        taps: vec![CaptureRuntimeTapStatus {
            id: "tap-app".to_string(),
            kind: CaptureRuntimeKind::ProcessTap,
            health: CaptureRuntimeHealth::Healthy,
            selector: "pid:3333".to_string(),
            tap_id: Some(42),
            aggregate_uid: Some("agg.tap-app".to_string()),
            aggregate_device_id: Some(77),
            matched_processes: 1,
            ingested_frames: 0,
            underrun_count: 0,
            overrun_count: 0,
            xrun_count: 0,
            restart_attempts: 0,
            error_ring: Vec::new(),
            last_error: None,
        }],
        errors: Vec::new(),
    };

    let merged = enrich_capture_runtime_with_external_inputs(
        status,
        &vec![ExternalInputEndpointSnapshot {
            node_id: "tap-app".to_string(),
            uid: "agg.tap-app".to_string(),
            health: ExternalEndpointHealth::Degraded,
            ingested_frames: 1024,
            underrun_count: 3,
            overrun_count: 1,
            xrun_count: 4,
            restart_attempts: 2,
            error_ring: vec!["reconnect failed".to_string()],
        }],
    );

    assert_eq!(merged.taps.len(), 1);
    let tap = &merged.taps[0];
    assert_eq!(tap.health, CaptureRuntimeHealth::Degraded);
    assert_eq!(tap.ingested_frames, 1024);
    assert_eq!(tap.underrun_count, 3);
    assert_eq!(tap.overrun_count, 1);
    assert_eq!(tap.xrun_count, 4);
    assert_eq!(tap.restart_attempts, 2);
    assert_eq!(tap.last_error.as_deref(), Some("reconnect failed"));
}

#[test]
fn nothing_is_tapped_where_nothing_is_captured() {
    let mut backend = FakeTapBackend::default();
    let runtime = CaptureRuntime::start_with_backend(&Profile::default(), &mut backend, 77)
        .expect("runtime start");
    assert_eq!(runtime.status().active_taps, 0);
    let status = runtime.stop(&mut backend);
    assert_eq!(status.active_taps, 0);
    assert!(backend.created.lock().expect("lock").is_empty());
}

#[derive(Debug)]
struct RefusingBackend {
    destroyed: Mutex<Vec<String>>,
    fail_destroy: bool,
}

impl TapBackend for RefusingBackend {
    fn capability(&mut self) -> Result<TapCapability, String> {
        Ok(TapCapability {
            supported: true,
            reason: None,
        })
    }

    fn list_processes(&mut self) -> Result<Vec<AudioProcessInfo>, String> {
        Ok(vec![AudioProcessInfo {
            process_object_id: 1,
            pid: 5,
            bundle_id: "com.example.player".to_string(),
            is_running: true,
            is_running_input: false,
            is_running_output: true,
        }])
    }

    fn create_process_tap(&mut self, request: &ProcessTapRequest) -> Result<TapHandle, String> {
        Ok(TapHandle {
            tap_id: 1,
            tap_uid: request.tap_name.clone(),
            aggregate_device_id: 2,
            aggregate_uid: request.aggregate_uid.clone(),
        })
    }

    fn create_system_tap(&mut self, _request: &SystemTapRequest) -> Result<TapHandle, String> {
        if self.fail_destroy {
            return Ok(TapHandle {
                tap_id: 3,
                tap_uid: "system".to_string(),
                aggregate_device_id: 4,
                aggregate_uid: "system".to_string(),
            });
        }
        Err("no system tap".to_string())
    }

    fn destroy_tap(&mut self, handle: &TapHandle) -> Result<(), String> {
        self.destroyed
            .lock()
            .expect("lock")
            .push(handle.tap_uid.clone());
        if self.fail_destroy {
            return Err("stuck".to_string());
        }
        Ok(())
    }
}

#[test]
fn a_failed_start_gives_back_the_taps_that_were_made() {
    let mut backend = RefusingBackend {
        destroyed: Mutex::new(Vec::new()),
        fail_destroy: false,
    };
    let error = CaptureRuntime::start_with_backend(&profile_with_captures(), &mut backend, 77)
        .expect_err("no system tap");
    assert!(error.contains("no system tap"), "{}", error);
    assert_eq!(backend.destroyed.lock().expect("lock").len(), 1);
}

#[test]
fn taps_that_cannot_be_destroyed_are_reported() {
    let mut backend = RefusingBackend {
        destroyed: Mutex::new(Vec::new()),
        fail_destroy: true,
    };
    let runtime = CaptureRuntime::start_with_backend(&profile_with_captures(), &mut backend, 77)
        .expect("runtime start");
    let status = runtime.stop(&mut backend);
    assert_eq!(
        *backend.destroyed.lock().expect("lock"),
        vec!["system".to_string(), "mars process tap music".to_string()]
    );
    assert_eq!(status.errors.len(), 2);
    assert!(status
        .taps
        .iter()
        .all(|tap| tap.health == CaptureRuntimeHealth::Degraded));
}

#[test]
fn selectors_and_modes_have_names() {
    assert_eq!(
        selector_string(&ProcessTapSelector::Pid { pid: 42 }),
        "pid:42"
    );
    assert_eq!(
        selector_string(&ProcessTapSelector::BundleId {
            bundle_id: "com.example".to_string()
        }),
        "bundle:com.example"
    );
    assert_eq!(mode_string(SystemTapMode::DefaultOutput), "default_output");
    assert_eq!(mode_string(SystemTapMode::AllOutput), "all_output");
    let capability = probe_capture_capability(&mut FakeTapBackend::default()).expect("capability");
    assert!(capability.supported);
}

fn process_request() -> ProcessTapRequest {
    ProcessTapRequest {
        process_object_ids: vec![1],
        tap_name: "tap".to_string(),
        aggregate_uid: "agg".to_string(),
        aggregate_name: "Agg".to_string(),
        mono: false,
        private_tap: true,
        mute_behavior: TapMuteBehavior::Unmuted,
        auto_start: true,
    }
}

#[test]
fn a_tap_without_its_aggregate_device_is_destroyed() {
    let controller = CoreAudioTapController::new();
    let request = process_request();
    assert!(matches!(
        controller.create_process_tap(&request, TapEvent::Start),
        TapStep::CreateTap { device_uid: None }
    ));
    let step = controller.create_process_tap(
        &request,
        TapEvent::TapCreated {
            status: 0,
            tap_id: 9,
            new_uid: Some("uid".to_string()),
            message: None,
        },
    );
    assert!(matches!(step, TapStep::CreateAggregate { tap_id: 9, .. }));
    let step = controller.create_process_tap(
        &request,
        TapEvent::AggregateCreated {
            tap_id: 9,
            tap_uid: "uid".to_string(),
            status: -7,
            device_id: 0,
            message: Some("refused".to_string()),
        },
    );
    let TapStep::DestroyTap { tap_id, error } = step else {
        panic!("the tap has to go");
    };
    assert_eq!(tap_id, 9);
    let step = controller.create_process_tap(&request, TapEvent::TapDestroyed { error });
    assert!(matches!(step, TapStep::Failed(TapError::CoreAudio { status: -7, .. })));
}

#[test]
fn an_empty_list_of_processes_is_no_request() {
    let controller = CoreAudioTapController::new();
    let mut request = process_request();
    request.process_object_ids.clear();
    assert!(matches!(
        controller.create_process_tap(&request, TapEvent::Start),
        TapStep::Failed(TapError::InvalidArgument(_))
    ));
}

#[test]
fn system_taps_of_the_default_output_ask_for_it_first() {
    let controller = CoreAudioTapController::new();
    let request = SystemTapRequest {
        target: SystemTapTarget::DefaultOutput,
        tap_name: "tap".to_string(),
        aggregate_uid: "agg".to_string(),
        aggregate_name: "Agg".to_string(),
        mono: false,
        private_tap: true,
        mute_behavior: TapMuteBehavior::Muted,
        auto_start: true,
        stream_index: 0,
    };
    assert!(matches!(
        controller.create_system_tap(&request, TapEvent::Start),
        TapStep::QueryDefaultOutput
    ));
}

#[test]
fn processes_are_sorted_and_bridge_errors_are_told() {
    let process = |pid: i32, object: u32| AudioProcessInfo {
        process_object_id: object,
        pid,
        bundle_id: String::new(),
        is_running: true,
        is_running_input: false,
        is_running_output: false,
    };
    let sorted = sort_processes(&vec![process(3, 1), process(1, 9), process(1, 2)]);
    let order: Vec<(i32, u32)> = sorted
        .iter()
        .map(|item| (item.pid, item.process_object_id))
        .collect();
    assert_eq!(order, vec![(1, 2), (1, 9), (3, 1)]);
    assert_eq!(TapMuteBehavior::Unmuted.as_i32(), 0);
    assert_eq!(TapMuteBehavior::Muted.as_i32(), 1);
    assert_eq!(TapMuteBehavior::MutedWhenTapped.as_i32(), 2);
    let error = from_bridge_error("create", -5, Some("bad".to_string()));
    assert!(error.message().contains("create"));
    assert!(error.message().contains("-5"));
    assert!(error.message().contains("bad"));
}

#[test]
fn processes_are_listed_by_their_ids() {
    let process = |object: u32, pid: i32| AudioProcessInfo {
        process_object_id: object,
        pid,
        bundle_id: "com.example.player".to_string(),
        is_running: true,
        is_running_input: false,
        is_running_output: true,
    };
    let mut backend = FakeTapBackend {
        processes: vec![process(7, 20), process(9, 10), process(8, 10)],
        ..FakeTapBackend::default()
    };
    let listed = list_capture_processes(&mut backend).expect("processes");
    let ids: Vec<u32> = listed.iter().map(|item| item.process_object_id).collect();
    assert_eq!(ids, vec![8, 9, 7]);
}

#[test]
fn the_aggregate_device_is_destroyed_before_its_tap() {
    let controller = CoreAudioTapController::new();
    let handle = TapHandle {
        tap_id: 3,
        tap_uid: "tap".to_string(),
        aggregate_device_id: 4,
        aggregate_uid: "agg".to_string(),
    };
    assert!(matches!(
        controller.destroy_tap(&handle, DestroyEvent::Start),
        DestroyStep::DestroyAggregate { device_id: 4 }
    ));
    let gone = |status| DestroyEvent::AggregateDestroyed {
        status,
        message: None,
    };
    assert!(matches!(
        controller.destroy_tap(&handle, gone(0)),
        DestroyStep::DestroyProcessTap { tap_id: 3 }
    ));
    assert!(matches!(
        controller.destroy_tap(&handle, gone(0x216F626A)),
        DestroyStep::DestroyProcessTap { tap_id: 3 }
    ));
    assert!(matches!(
        controller.destroy_tap(&handle, gone(-1)),
        DestroyStep::Failed(_)
    ));
    let destroyed = DestroyEvent::TapDestroyed {
        status: 0,
        message: None,
    };
    assert!(matches!(
        controller.destroy_tap(&handle, destroyed),
        DestroyStep::Destroyed
    ));
}
