use mars::driver::{
    capture_driver_state_snapshot, desired_driver_state, driver_state_path, driver_status_summary,
    empty_hal_desired_state, ensure_driver_available, ensure_driver_compatibility_for_apply,
    first_driver_step, next_driver_step, node_kind_to_hal_kind, parse_major, show_version,
    CacheRead, DriverAppliedState, DriverStep, DriverTask, RestoreStep,
};
use mars::hal_client::{
    check_status, find_mars_driver, is_driver_loaded, plugin_bundle_id, plugin_count,
    property_bytes, property_text, BundleRead, HalClientError, LoadedPlugin,
};
use mars::profile::{NodeKind, Profile, VirtualInputDevice, VirtualOutputDevice};

fn plugin(id: u32, bundle_id: Option<&str>) -> LoadedPlugin {
    LoadedPlugin {
        id,
        bundle_id: bundle_id.map(ToString::to_string),
    }
}

#[test]
fn the_driver_is_found_by_its_bundle() {
    let listed = || {
        vec![
            plugin(1, None),
            plugin(2, Some("com.other")),
            plugin(3, Some("com.mars.driver")),
            plugin(4, Some("com.mars.driver")),
        ]
    };
    assert_eq!(find_mars_driver(Ok(listed()), "com.mars.driver"), Ok(3));
    assert!(is_driver_loaded(Ok(listed()), "com.mars.driver"));
    assert_eq!(
        find_mars_driver(Ok(Vec::new()), "com.mars.driver"),
        Err(HalClientError::DriverNotFound)
    );
    assert_eq!(
        find_mars_driver(Err(HalClientError::OsStatus(-4)), "com.mars.driver"),
        Err(HalClientError::OsStatus(-4))
    );
    assert!(!is_driver_loaded(
        Err(HalClientError::OsStatus(-4)),
        "com.mars.driver"
    ));
}

#[test]
fn unreachable_drivers_are_explained() {
    assert_eq!(
        HalClientError::DriverNotFound.message(),
        "Mars driver plugin not found in loaded CoreAudio plugins"
    );
    assert_eq!(
        HalClientError::OsStatus(-50).message(),
        "CoreAudio OSStatus error: -50"
    );
    assert_eq!(
        HalClientError::CoreFoundationError("x".to_string()).message(),
        "CoreFoundation error: x"
    );
    assert_eq!(
        HalClientError::Serialize("x".to_string()).message(),
        "JSON serialization error: x"
    );
    assert_eq!(
        HalClientError::InvalidUtf8.message(),
        "invalid UTF-8 in property data"
    );
    assert_eq!(check_status(0), Ok(()));
    assert_eq!(check_status(5), Err(HalClientError::OsStatus(5)));
    assert_eq!(plugin_count(13), 3);
}

#[test]
fn properties_are_read_as_text() {
    let bytes = property_bytes(0, 0, Some("{\"a\":\"\u{e9}\"}".as_bytes().to_vec()));
    assert_eq!(property_text(bytes), Ok("{\"a\":\"\u{e9}\"}".to_string()));
    assert_eq!(
        property_text(Ok(vec![0xC3, 0x28])),
        Err(HalClientError::InvalidUtf8)
    );
    assert_eq!(
        property_bytes(1, 0, None),
        Err(HalClientError::OsStatus(1))
    );
    assert_eq!(
        property_bytes(0, 2, None),
        Err(HalClientError::OsStatus(2))
    );
    assert!(matches!(
        property_bytes(0, 0, None),
        Err(HalClientError::CoreFoundationError(_))
    ));
    assert!(matches!(
        property_bytes(0, 0, Some(Vec::new())),
        Err(HalClientError::CoreFoundationError(_))
    ));
}

#[test]
fn bundle_names_end_at_the_first_zero_byte() {
    let read = BundleRead::Read {
        buffer: b"com.mars\0rest".to_vec(),
    };
    assert_eq!(plugin_bundle_id(read), Ok("com.mars".to_string()));
    let broken = BundleRead::Read {
        buffer: vec![b'a', 0xFF, b'b'],
    };
    assert_eq!(plugin_bundle_id(broken), Ok("a\u{FFFD}b".to_string()));
    assert_eq!(
        plugin_bundle_id(BundleRead::Failed { status: 7 }),
        Err(HalClientError::OsStatus(7))
    );
    assert!(plugin_bundle_id(BundleRead::Missing).is_err());
    assert!(plugin_bundle_id(BundleRead::Unconvertible).is_err());
}

#[test]
fn major_numbers_stand_before_the_first_full_stop() {
    assert_eq!(parse_major("12.3.4"), Some(12));
    assert_eq!(parse_major("7"), Some(7));
    assert_eq!(parse_major("+7.1"), Some(7));
    assert_eq!(parse_major(".1"), None);
    assert_eq!(parse_major("v1.2"), None);
    assert_eq!(parse_major("18446744073709551615.0"), Some(u64::MAX));
    assert_eq!(parse_major("18446744073709551616.0"), None);
    assert_eq!(show_version(None), "None");
    assert_eq!(show_version(Some("a\"b\n")), "Some(\"a\\\"b\\n\")");
}

#[test]
fn only_a_fitting_driver_takes_a_profile() {
    assert!(ensure_driver_available(true, true).is_ok());
    assert_eq!(
        ensure_driver_available(false, true),
        Err("mars.driver is not installed; run scripts/install.sh".to_string())
    );
    assert!(ensure_driver_available(true, false).is_err());
    assert!(ensure_driver_compatibility_for_apply(true, true, Some("0.9.0"), "0.1.0").is_ok());
    assert_eq!(
        ensure_driver_compatibility_for_apply(true, true, Some("2.0"), "1.0"),
        Err("incompatible driver version: driver=Some(\"2.0\"), daemon=1.0".to_string())
    );
}

#[test]
fn the_driver_is_told_of_the_virtual_devices() {
    let mut profile = Profile::default();
    profile.virtual_devices.outputs.push(VirtualOutputDevice {
        id: "app".to_string(),
        name: "App".to_string(),
        channels: None,
        uid: None,
        hidden: true,
    });
    profile.virtual_devices.inputs.push(VirtualInputDevice {
        id: "mix".to_string(),
        name: "Mix".to_string(),
        channels: Some(1),
        uid: Some("own".to_string()),
        mix: None,
    });
    let (state, desired) = desired_driver_state(&profile, 44_100, 6, "0.1.0");
    assert_eq!(state.version, "0.1.0");
    assert_eq!(state.buffer_frames, 256);
    assert_eq!(state.devices[0].kind, NodeKind::VirtualOutput);
    assert_eq!(desired.sample_rate, 44_100);
    assert_eq!(desired.devices.len(), 2);
    assert_eq!(desired.devices[0].uid, "com.mars.vout.app");
    assert_eq!(desired.devices[0].kind, "virtual_output");
    assert_eq!(desired.devices[0].channels, 6);
    assert!(desired.devices[0].hidden);
    assert_eq!(desired.devices[1].uid, "own");
    assert_eq!(desired.devices[1].kind, "virtual_input");
    assert_eq!(desired.devices[1].channels, 1);
    assert!(!desired.devices[1].hidden);
    assert_eq!(node_kind_to_hal_kind(NodeKind::Bus), "bus");
    let empty = empty_hal_desired_state("0.1.0");
    assert!(empty.devices.is_empty());
    assert_eq!(empty.buffer_frames, 256);
}

fn applied_state() -> DriverAppliedState {
    desired_driver_state(&Profile::default(), 44_100, 2, "0.1.0").0
}

#[test]
fn a_remembered_state_is_brought_back_driver_first() {
    let path = driver_state_path(Some("/home/me".to_string())).expect("path");
    assert_eq!(
        path,
        "/home/me/Library/Caches/mars/driver_applied_state.json"
    );
    assert!(driver_state_path(None).is_err());
    let snapshot = capture_driver_state_snapshot(
        &path,
        CacheRead::Read {
            raw_json: "{}".to_string(),
            parsed_state: Some(applied_state()),
        },
    )
    .expect("snapshot");
    let first = snapshot.first_restore_step("0.1.0");
    assert!(matches!(
        &first,
        RestoreStep::ApplyDesired { desired } if desired.sample_rate == 44_100
    ));
    let second = snapshot.next_restore_step(first, Ok(()));
    assert!(matches!(&second, RestoreStep::WriteCache { contents } if contents == "{}"));
    let third = snapshot.next_restore_step(second, Ok(()));
    assert!(matches!(third, RestoreStep::Finish { result: Ok(()) }));
}

#[test]
fn a_missing_cache_is_brought_back_by_removing_the_new_one() {
    let snapshot =
        capture_driver_state_snapshot("/cache", CacheRead::Missing).expect("snapshot");
    let first = snapshot.first_restore_step("0.1.0");
    assert!(matches!(
        &first,
        RestoreStep::ApplyDesired { desired } if desired.devices.is_empty()
    ));
    let second = snapshot.next_restore_step(first, Ok(()));
    assert!(matches!(second, RestoreStep::RemoveCache));
    let third = snapshot.next_restore_step(second, Err("busy".to_string()));
    assert!(matches!(
        third,
        RestoreStep::Finish { result: Err(text) }
            if text == "failed to remove new driver state cache /cache: busy"
    ));
}

#[test]
fn an_invalid_cache_is_put_back_but_not_the_driver() {
    let snapshot = capture_driver_state_snapshot(
        "/cache",
        CacheRead::Read {
            raw_json: "nonsense".to_string(),
            parsed_state: None,
        },
    )
    .expect("snapshot");
    let first = snapshot.first_restore_step("0.1.0");
    assert!(matches!(&first, RestoreStep::WriteCache { .. }));
    let last = snapshot.next_restore_step(first, Ok(()));
    assert!(matches!(
        last,
        RestoreStep::Finish { result: Err(text) }
            if text == "cannot rollback HAL state because previous driver cache is invalid"
    ));
    let unreadable = capture_driver_state_snapshot(
        "/cache",
        CacheRead::Unreadable {
            error: "denied".to_string(),
        },
    );
    assert_eq!(
        unreadable.err(),
        Some("failed to read existing driver state cache /cache: denied".to_string())
    );
}

#[test]
fn staging_restores_what_it_could_not_change() {
    let mut step = first_driver_step(DriverTask::Stage);
    for _ in 0..4 {
        step = next_driver_step(DriverTask::Stage, "/cache", step, Ok(()));
    }
    assert!(matches!(step, DriverStep::WriteCache));
    step = next_driver_step(DriverTask::Stage, "/cache", step, Err("full".to_string()));
    assert!(matches!(step, DriverStep::Restore { .. }));
    step = next_driver_step(
        DriverTask::Stage,
        "/cache",
        step,
        Err("also failed".to_string()),
    );
    assert!(matches!(
        step,
        DriverStep::Finish { result: Err(text) }
            if text == "failed to persist driver state cache /cache: full"
    ));
}

#[test]
fn clearing_takes_rings_and_cache_away() {
    let mut step = first_driver_step(DriverTask::Clear);
    assert!(matches!(step, DriverStep::Capture));
    step = next_driver_step(DriverTask::Clear, "/cache", step, Ok(()));
    assert!(matches!(step, DriverStep::ApplyDesired));
    step = next_driver_step(DriverTask::Clear, "/cache", step, Ok(()));
    assert!(matches!(step, DriverStep::RemoveRings));
    step = next_driver_step(
        DriverTask::Clear,
        "/cache",
        step,
        Err("ignored".to_string()),
    );
    assert!(matches!(step, DriverStep::RemoveCache));
    step = next_driver_step(DriverTask::Clear, "/cache", step, Ok(()));
    assert!(matches!(step, DriverStep::Finish { result: Ok(()) }));
    assert_eq!(driver_status_summary(None).generation, 0);
}
