use mars::intents::{
    default_path, next_persist_step, persist_error, store_directory, temporary_path,
    AppVirtualInputSpec, PersistStep, StoredIntents, VirtualInputIntentStore,
};
use mars::string_map::StringMap;

fn spec(id: &str, uid: &str) -> AppVirtualInputSpec {
    AppVirtualInputSpec {
        id: id.to_string(),
        name: id.to_string(),
        uid: uid.to_string(),
        sample_rate: 48_000,
        channels: 1,
    }
}

fn load(stored: StoredIntents) -> Result<VirtualInputIntentStore, String> {
    VirtualInputIntentStore::load("/tmp/intents.json".to_string(), stored)
}

#[test]
fn missing_store_loads_empty_and_round_trips_versioned_state() {
    let store = load(StoredIntents::Missing).expect("load missing store");
    assert_eq!(store.apps().len(), 0);

    let candidate = store.candidate("com.example.app", vec![spec("mic", "example.mic")]);

    let loaded = load(StoredIntents::Read {
        version: 1,
        apps: candidate,
    })
    .expect("reload store");
    assert_eq!(loaded.apps().len(), 1);
    assert_eq!(
        *loaded.apps().get("com.example.app").expect("app"),
        vec![spec("mic", "example.mic")]
    );
}

#[test]
fn corrupt_and_unknown_store_versions_fail_hard() {
    let corrupt = load(StoredIntents::Malformed {
        error: "expected value".to_string(),
    });
    assert!(corrupt.is_err());

    let error = load(StoredIntents::Read {
        version: 2,
        apps: StringMap::new(),
    })
    .expect_err("reject version");
    assert!(error.contains("unsupported"), "got: {error}");
    assert_eq!(
        error,
        "unsupported virtual-input intent store version: expected 1, found 2"
    );

    let unreadable = load(StoredIntents::Unreadable {
        error: "denied".to_string(),
    });
    assert_eq!(
        unreadable.expect_err("unreadable"),
        "failed to read virtual-input intent store /tmp/intents.json: denied"
    );
}

#[test]
fn replacement_is_app_scoped_and_empty_input_removes_only_that_app() {
    let store = load(StoredIntents::Missing).expect("load store");
    let alpha = store.candidate(
        "com.example.alpha",
        vec![spec("mic", "com.example.alpha.mic")],
    );
    let mut store = load(StoredIntents::Read {
        version: 1,
        apps: alpha,
    })
    .expect("store");
    let both = store.candidate(
        "com.example.beta",
        vec![spec("mic", "com.example.beta.mic")],
    );
    store.install(both);

    let without_alpha = store.candidate("com.example.alpha", Vec::new());
    assert!(!without_alpha.contains_key("com.example.alpha"));
    assert_eq!(without_alpha.get("com.example.beta").expect("beta")[0].id, "mic");
    assert_eq!(store.app("com.example.alpha").inputs.len(), 1);
    assert!(store.app("com.example.gamma").inputs.is_empty());
}

#[test]
fn the_store_has_its_places() {
    assert_eq!(
        default_path(Some("/own.json".to_string()), None),
        Ok("/own.json".to_string())
    );
    assert_eq!(
        default_path(None, Some("/home/me".to_string())),
        Ok("/home/me/Library/Application Support/mars/virtual_input_intents.json".to_string())
    );
    assert!(default_path(None, None).is_err());
    assert_eq!(
        temporary_path("/tmp", Some("intents.json"), "/tmp/intents.json"),
        Ok("/tmp/.intents.json.tmp".to_string())
    );
    assert_eq!(
        temporary_path("/", Some("a"), "/a"),
        Ok("/.a.tmp".to_string())
    );
    assert_eq!(temporary_path("", Some("a"), "a"), Ok(".a.tmp".to_string()));
    assert_eq!(
        temporary_path("", None, "/"),
        Err("invalid virtual-input intent store path: /".to_string())
    );
    assert!(store_directory(None, "/").is_err());
}

#[test]
fn the_store_is_replaced_only_by_a_synced_file() {
    let mut step = PersistStep::CreateDirectory;
    let mut steps = Vec::new();
    while step != PersistStep::Succeed {
        steps.push(step);
        step = next_persist_step(step, true);
    }
    assert_eq!(steps.len(), 7);
    assert_eq!(steps[5], PersistStep::SyncTemporary);
    assert_eq!(steps[6], PersistStep::Commit);
    assert_eq!(
        next_persist_step(PersistStep::WriteTemporary, false),
        PersistStep::Discard
    );
    assert_eq!(
        next_persist_step(PersistStep::Discard, true),
        PersistStep::Fail
    );
    assert_eq!(
        persist_error(PersistStep::Commit, "/d", "/d/.t.tmp", "/d/t", "busy"),
        "failed to commit virtual-input intent store /d/t: busy"
    );
    assert_eq!(
        persist_error(PersistStep::SyncTemporary, "/d", "/d/.t.tmp", "/d/t", "io"),
        "failed to sync virtual-input intent temporary file /d/.t.tmp: io"
    );
}
