use mars::devices::{
    capture_aggregate_uid, collect_devices, dedupe_devices, list_virtual_devices,
    DeviceDescriptor,
};
use mars::number::Real32;
use mars::plan::{diff_profiles, merge_previous_devices, plan_changes, PlanChange, PlanChangeKind};
use mars::profile::{
    AutoOrU32, FileSink, FileSinkFormat, NodeKind, Pipe, ProcessTap, ProcessTapSelector,
    ProcessorChain, ProcessorDefinition, ProcessorKind, Profile, Route, RouteMatrix, SystemTap,
    SystemTapMode, VirtualInputDevice, VirtualOutputDevice,
};

fn number(value: f32) -> Real32 {
    Real32::from_bits(value.to_bits())
}

fn matrix(rows: Vec<Vec<f32>>) -> Vec<Vec<Real32>> {
    rows.iter()
        .map(|row| row.iter().map(|value| number(*value)).collect())
        .collect()
}

#[test]
fn lib_diff_detects_create_remove() {
    let mut before = Profile::default();
    before.virtual_devices.outputs.push(VirtualOutputDevice {
        id: "old".to_string(),
        name: "Old".to_string(),
        channels: Some(2),
        uid: None,
        hidden: false,
    });

    let mut after = Profile::default();
    after.virtual_devices.outputs.push(VirtualOutputDevice {
        id: "new".to_string(),
        name: "New".to_string(),
        channels: Some(2),
        uid: None,
        hidden: false,
    });
    after.virtual_devices.inputs.push(VirtualInputDevice {
        id: "mix".to_string(),
        name: "Mix".to_string(),
        channels: Some(2),
        uid: None,
        mix: None,
    });
    after.pipes.push(Pipe {
        from: "new".to_string(),
        to: "mix".to_string(),
        enabled: true,
        gain_db: number(0.0),
        mute: false,
        pan: number(0.0),
        delay_ms: number(0.0),
    });

    let diff = diff_profiles(Some(&before), Some(&after));
    assert!(
        diff.changes
            .iter()
            .any(|change| matches!(change.kind, PlanChangeKind::CreateDevice))
    );
    assert!(
        diff.changes
            .iter()
            .any(|change| matches!(change.kind, PlanChangeKind::RemoveDevice))
    );
}

#[test]
fn tests_diff_detects_create_remove() {
    let mut before = Profile::default();
    before.virtual_devices.outputs.push(VirtualOutputDevice {
        id: "old".to_string(),
        name: "Old".to_string(),
        channels: Some(2),
        uid: None,
        hidden: false,
    });

    let mut after = Profile::default();
    after.virtual_devices.outputs.push(VirtualOutputDevice {
        id: "new".to_string(),
        name: "New".to_string(),
        channels: Some(2),
        uid: None,
        hidden: false,
    });
    after.virtual_devices.inputs.push(VirtualInputDevice {
        id: "mix".to_string(),
        name: "Mix".to_string(),
        channels: Some(2),
        uid: None,
        mix: None,
    });
    after.pipes.push(Pipe {
        from: "new".to_string(),
        to: "mix".to_string(),
        enabled: true,
        gain_db: number(0.0),
        mute: false,
        pan: number(0.0),
        delay_ms: number(0.0),
    });

    let diff = diff_profiles(Some(&before), Some(&after));
    assert!(
        diff.changes
            .iter()
            .any(|change| matches!(change.kind, PlanChangeKind::CreateDevice))
    );
    assert!(
        diff.changes
            .iter()
            .any(|change| matches!(change.kind, PlanChangeKind::RemoveDevice))
    );
}

#[test]
fn lib_clear_diff_when_none() {
    let before = Profile::default();
    let diff = diff_profiles(Some(&before), None);
    assert!(!diff.changes.is_empty());
}

#[test]
fn tests_clear_diff_when_none() {
    let before = Profile::default();
    let diff = diff_profiles(Some(&before), None);
    assert!(!diff.changes.is_empty());
}

#[test]
fn diff_detects_v2_routes_processors_captures_and_sinks() {
    let before = Profile::default();
    let mut after = Profile::default();

    after.routes.push(Route {
        id: "route-main".to_string(),
        from: "src".to_string(),
        to: "dst".to_string(),
        enabled: true,
        matrix: RouteMatrix {
            rows: 2,
            cols: 2,
            coefficients: matrix(vec![vec![1.0, 0.0], vec![0.0, 1.0]]),
        },
        chain: Some("chain-main".to_string()),
        gain_db: number(0.0),
        mute: false,
        pan: number(0.0),
        delay_ms: number(0.0),
    });
    after.processors.push(ProcessorDefinition {
        id: "eq-main".to_string(),
        kind: ProcessorKind::Eq,
        config: serde_json::Value::Null,
    });
    after.processor_chains.push(ProcessorChain {
        id: "chain-main".to_string(),
        processors: vec!["eq-main".to_string()],
    });
    after.captures.process_taps.push(ProcessTap {
        id: "tap-main".to_string(),
        selector: ProcessTapSelector::Pid { pid: 1234 },
        channels: Some(2),
    });
    after.sinks.files.push(FileSink {
        id: "record-main".to_string(),
        source: "mix".to_string(),
        path: "/tmp/mars-record.wav".to_string(),
        format: FileSinkFormat::Wav,
        channels: Some(2),
    });

    let diff = diff_profiles(Some(&before), Some(&after));
    let targets = diff
        .changes
        .iter()
        .map(|change| change.target.as_str())
        .collect::<Vec<_>>();

    assert!(targets.contains(&"routes"));
    assert!(targets.contains(&"processor_chains"));
    assert!(targets.contains(&"captures"));
    assert!(targets.contains(&"sinks"));
}

#[test]
fn collect_devices_includes_capture_tap_external_inputs() {
    let mut profile = Profile::default();
    profile.captures.process_taps.push(ProcessTap {
        id: "tap-app".to_string(),
        selector: ProcessTapSelector::Pid { pid: 3333 },
        channels: Some(2),
    });
    profile.captures.system_taps.push(SystemTap {
        id: "tap-system".to_string(),
        mode: SystemTapMode::AllOutput,
        channels: Some(2),
    });

    let devices = collect_devices(&profile, &Vec::new(), 7);
    assert!(
        devices
            .iter()
            .any(|device| device.id == "tap-app" && device.kind == NodeKind::ExternalInput)
    );
    assert!(
        devices
            .iter()
            .any(|device| device.id == "tap-system" && device.kind == NodeKind::ExternalInput)
    );
}

fn output(id: &str, uid: Option<&str>) -> VirtualOutputDevice {
    VirtualOutputDevice {
        id: id.to_string(),
        name: id.to_uppercase(),
        channels: Some(2),
        uid: uid.map(ToString::to_string),
        hidden: false,
    }
}

#[test]
fn converged_profiles_plan_nothing() {
    let mut profile = Profile::default();
    profile.virtual_devices.outputs.push(output("app", None));
    let plan = plan_changes(Some(&profile), &profile, false, vec!["note".to_string()]);
    assert_eq!(plan.changes.len(), 1);
    assert_eq!(plan.changes[0].kind, PlanChangeKind::NoOp);
    assert_eq!(plan.changes[0].target, "state");
    assert_eq!(plan.changes[0].details, "already converged");
    assert_eq!(plan.warnings, vec!["note".to_string()]);
}

#[test]
fn changed_devices_and_audio_settings_are_planned() {
    let mut before = Profile::default();
    before.virtual_devices.outputs.push(output("app", None));
    let mut after = Profile::default();
    after.virtual_devices.outputs.push(output("app", Some("own")));
    after.audio.sample_rate = AutoOrU32::Value(44_100);
    let diff = diff_profiles(Some(&before), Some(&after));
    assert!(diff
        .changes
        .iter()
        .any(|change| change.kind == PlanChangeKind::UpdateDevice && change.target == "app"));
    assert!(diff
        .changes
        .iter()
        .any(|change| change.kind == PlanChangeKind::UpdateAudioConfig));
    let created = diff_profiles(None, Some(&after));
    assert_eq!(created.changes[0].kind, PlanChangeKind::CreateDevice);
    assert_eq!(created.changes[0].details, "create APP (own)");
}

#[test]
fn nothing_is_removed_where_nothing_is_deleted() {
    let mut before = Profile::default();
    before.virtual_devices.outputs.push(output("old", None));
    let mut after = Profile::default();
    after.virtual_devices.outputs.push(output("new", None));
    let plan = plan_changes(Some(&before), &after, true, Vec::new());
    assert!(plan
        .changes
        .iter()
        .all(|change| change.kind != PlanChangeKind::RemoveDevice));
    let merged = merge_previous_devices(&before, after);
    let ids: Vec<&str> = merged
        .virtual_devices
        .outputs
        .iter()
        .map(|device| device.id.as_str())
        .collect();
    assert_eq!(ids, vec!["new", "old"]);
}

#[test]
fn virtual_devices_get_their_uids_and_channels() {
    let mut profile = Profile::default();
    let mut device = output("app", None);
    device.channels = None;
    profile.virtual_devices.outputs.push(device);
    profile.virtual_devices.inputs.push(VirtualInputDevice {
        id: "mix".to_string(),
        name: "Mix".to_string(),
        channels: Some(4),
        uid: None,
        mix: None,
    });
    let devices = list_virtual_devices(&profile, 3);
    assert_eq!(devices[0].uid, "com.mars.vout.app");
    assert_eq!(devices[0].channels, 3);
    assert_eq!(devices[1].uid, "com.mars.vin.mix");
    assert_eq!(devices[1].channels, 4);
    assert!(capture_aggregate_uid(12, "tap").contains("12"));
}

#[test]
fn only_the_first_device_with_an_id_is_kept() {
    let device = |id: &str, name: &str| DeviceDescriptor {
        id: id.to_string(),
        name: name.to_string(),
        uid: name.to_string(),
        kind: NodeKind::VirtualOutput,
        channels: 2,
        managed: true,
    };
    let kept = dedupe_devices(vec![device("a", "1"), device("b", "2"), device("a", "3")]);
    let names: Vec<&str> = kept.iter().map(|item| item.name.as_str()).collect();
    assert_eq!(names, vec!["1", "2"]);
}

#[test]
fn applying_again_is_converged() {
    let mut profile = Profile::default();
    profile.virtual_devices.outputs.push(VirtualOutputDevice {
        id: "app".to_string(),
        name: "App".to_string(),
        channels: Some(2),
        uid: None,
        hidden: false,
    });
    let plan = plan_changes(Some(&profile), &profile, false, Vec::new());
    assert_eq!(plan.changes.len(), 1);
    assert_eq!(plan.changes[0].kind, PlanChangeKind::NoOp);
    assert_eq!(plan.changes[0].target, "state");
    assert_eq!(plan.changes[0].details, "already converged");
}

#[test]
fn settings_of_processors_are_compared_as_values() {
    let processor = |threshold: i32| ProcessorDefinition {
        id: "gate".to_string(),
        kind: ProcessorKind::Dynamics,
        config: serde_json::Value::from(vec![threshold]),
    };
    let mut before = Profile::default();
    before.processors.push(processor(3));
    let same = before.clone();
    assert!(diff_profiles(Some(&before), Some(&same)).changes.is_empty());
    let mut after = Profile::default();
    after.processors.push(processor(4));
    assert_eq!(diff_profiles(Some(&before), Some(&after)).changes.len(), 1);
}

#[test]
fn updates_are_listed_both_ways() {
    let mut one = Profile::default();
    one.virtual_devices.outputs.push(output("app", None));
    one.virtual_devices.outputs.push(output("only", None));
    let mut other = Profile::default();
    other.virtual_devices.outputs.push(output("app", Some("own")));
    let there = diff_profiles(Some(&one), Some(&other));
    let back = diff_profiles(Some(&other), Some(&one));
    let listed = |changes: &Vec<PlanChange>, kind: PlanChangeKind, target: &str| {
        changes
            .iter()
            .any(|change| change.kind == kind && change.target == target)
    };
    assert!(listed(&there.changes, PlanChangeKind::UpdateDevice, "app"));
    assert!(listed(&back.changes, PlanChangeKind::UpdateDevice, "app"));
    assert!(!listed(&there.changes, PlanChangeKind::UpdateDevice, "only"));
    assert!(!listed(&back.changes, PlanChangeKind::UpdateDevice, "only"));
    assert!(listed(&there.changes, PlanChangeKind::RemoveDevice, "only"));
    assert!(listed(&back.changes, PlanChangeKind::CreateDevice, "only"));
}
