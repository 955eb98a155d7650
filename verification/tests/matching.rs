use mars::matching::{
    find_match, resolve_externals, select_match, DeviceInventory, ExternalDeviceInfo,
};
use mars::profile::{
    DeviceMatch, ExternalInput, ExternalOutput, NodeKind, Profile, TransportType,
};

fn candidate(
    uid: &str,
    name: &str,
    manufacturer: Option<&str>,
    transport: Option<TransportType>,
) -> ExternalDeviceInfo {
    ExternalDeviceInfo {
        uid: uid.to_string(),
        name: name.to_string(),
        manufacturer: manufacturer.map(ToOwned::to_owned),
        transport,
        channels: 2,
        sample_rates: vec![48_000],
    }
}

#[test]
fn invalid_name_regex_does_not_match_any_candidate() {
    let criteria = DeviceMatch {
        name_regex: Some("*(".to_string()),
        ..DeviceMatch::default()
    };
    let candidates = vec![candidate("cpal:input:0:mic-one", "Mic One", None, None)];

    assert!(find_match(&criteria, &candidates).is_none());
}

#[test]
fn valid_name_regex_matches_candidate() {
    let criteria = DeviceMatch {
        name_regex: Some(".*Mic.*".to_string()),
        ..DeviceMatch::default()
    };
    let candidates = vec![candidate("cpal:input:0:mic-one", "Mic One", None, None)];

    let matched = find_match(&criteria, &candidates);
    assert!(matched.is_some());
    assert_eq!(
        matched.map(|result| result.device.name.as_str()),
        Some("Mic One")
    );
    assert_eq!(
        matched.map(|result| result.used_unknown_metadata),
        Some(false)
    );
}

#[test]
fn metadata_unknown_allows_best_effort_match() {
    let criteria = DeviceMatch {
        name: Some("Mic One".to_string()),
        manufacturer: Some("Acme".to_string()),
        ..DeviceMatch::default()
    };
    let candidates = vec![candidate("cpal:input:0:mic-one", "Mic One", None, None)];

    let matched = find_match(&criteria, &candidates).expect("match expected");
    assert_eq!(matched.device.uid, "cpal:input:0:mic-one");
    assert!(matched.used_unknown_metadata);
}

#[test]
fn metadata_known_mismatch_rejects_candidate() {
    let criteria = DeviceMatch {
        name: Some("Mic One".to_string()),
        manufacturer: Some("Acme".to_string()),
        ..DeviceMatch::default()
    };
    let candidates = vec![candidate(
        "cpal:input:0:mic-one",
        "Mic One",
        Some("Other"),
        None,
    )];

    assert!(find_match(&criteria, &candidates).is_none());
}

#[test]
fn known_metadata_match_is_preferred_over_unknown() {
    let criteria = DeviceMatch {
        name: Some("Mic One".to_string()),
        manufacturer: Some("Acme".to_string()),
        transport: Some(TransportType::Usb),
        ..DeviceMatch::default()
    };
    let candidates = vec![
        candidate("unknown", "Mic One", None, None),
        candidate("known", "Mic One", Some("Acme"), Some(TransportType::Usb)),
    ];

    let matched = find_match(&criteria, &candidates).expect("match expected");
    assert_eq!(matched.device.uid, "known");
    assert!(!matched.used_unknown_metadata);
}

#[test]
fn expressions_are_searched_for_anywhere_in_the_name() {
    let criteria = DeviceMatch {
        name_regex: Some("^M.c [OT]".to_string()),
        ..DeviceMatch::default()
    };
    let candidates = vec![
        candidate("a", "My Mic One", None, None),
        candidate("b", "Mac Two", None, None),
    ];
    let matched = find_match(&criteria, &candidates).expect("match expected");
    assert_eq!(matched.device.uid, "b");
}

#[test]
fn chosen_candidates_fit_the_given_answers() {
    let criteria = DeviceMatch {
        name_regex: Some("anything".to_string()),
        ..DeviceMatch::default()
    };
    let candidates = vec![
        candidate("a", "A", None, None),
        candidate("b", "B", None, None),
    ];
    let matched = select_match(&criteria, &candidates, &vec![false, true]).expect("match");
    assert_eq!(matched.device.uid, "b");
    assert!(select_match(&criteria, &candidates, &vec![false, false]).is_none());
}

#[test]
fn every_external_endpoint_is_resolved_or_missing() {
    let mut profile = Profile::default();
    profile.external.inputs.push(ExternalInput {
        id: "mic".to_string(),
        criteria: DeviceMatch {
            uid: Some("mic-uid".to_string()),
            ..DeviceMatch::default()
        },
        channels: Some(1),
    });
    profile.external.outputs.push(ExternalOutput {
        id: "speaker".to_string(),
        criteria: DeviceMatch {
            uid: Some("gone".to_string()),
            ..DeviceMatch::default()
        },
        channels: None,
    });
    let inventory = DeviceInventory {
        inputs: vec![candidate("mic-uid", "Mic", None, None)],
        outputs: vec![candidate("speaker-uid", "Speaker", None, None)],
    };
    let resolution = resolve_externals(&profile, &inventory);
    assert_eq!(resolution.resolved.len(), 1);
    assert_eq!(resolution.resolved[0].logical_id, "mic");
    assert_eq!(resolution.resolved[0].matched_uid, "mic-uid");
    assert_eq!(resolution.resolved[0].kind, NodeKind::ExternalInput);
    assert_eq!(resolution.resolved[0].channels, 1);
    assert_eq!(resolution.errors.len(), 1);
    assert!(resolution.errors[0].contains("speaker"));
}
