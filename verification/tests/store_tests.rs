//! The snapshot store: recording, checking, and the file-location rules.

use snapshot::json::JsonValue;
use snapshot::store::{
    join_path, SnapFileContents, SnapFileLoad, Snapshot, StoreError,
};

fn sample_snapshot(value: JsonValue) -> Snapshot {
    Snapshot::new(
        "tests/integration_test.rs".to_string(),
        "mycrate::tests".to_string(),
        "records_a_value".to_string(),
        value,
    )
}

#[test]
fn update_then_check_round_trips() {
    let snap = sample_snapshot(JsonValue::Int(42));
    let contents = snap.update_snapshot(SnapFileLoad::Missing).unwrap();
    let check = snap.check_snapshot(&SnapFileLoad::Parsed(contents));
    assert!(check.is_ok());
}

#[test]
fn check_of_changed_value_is_stale() {
    let recorded = sample_snapshot(JsonValue::Int(42));
    let contents = recorded.update_snapshot(SnapFileLoad::Missing).unwrap();
    let fresh = sample_snapshot(JsonValue::Int(43));
    match fresh.check_snapshot(&SnapFileLoad::Parsed(contents)) {
        Err(StoreError::Mismatch { recorded: was, current }) => {
            assert_eq!(was, JsonValue::Int(42));
            assert_eq!(current, JsonValue::Int(43));
        }
        other => panic!("expected a stale-value mismatch, got {:?}", other),
    }
}

#[test]
fn repeated_update_keeps_one_entry() {
    let snap = sample_snapshot(JsonValue::Str("same".to_string()));
    let once = snap.update_snapshot(SnapFileLoad::Missing).unwrap();
    assert_eq!(once.len(), 1);
    let twice = snap.update_snapshot(SnapFileLoad::Parsed(once)).unwrap();
    assert_eq!(twice.len(), 1);
    let found = twice.lookup(&snap.module_key()).unwrap();
    assert_eq!(found.recorded_value, JsonValue::Str("same".to_string()));
}

#[test]
fn updates_under_two_keys_both_persist() {
    let first = Snapshot::new(
        "src/lib.rs".to_string(),
        "mycrate::tests".to_string(),
        "first".to_string(),
        JsonValue::Bool(true),
    );
    let second = Snapshot::new(
        "src/lib.rs".to_string(),
        "mycrate::tests".to_string(),
        "second".to_string(),
        JsonValue::Bool(false),
    );
    let contents = first.update_snapshot(SnapFileLoad::Missing).unwrap();
    let contents = second.update_snapshot(SnapFileLoad::Parsed(contents)).unwrap();
    assert_eq!(contents.len(), 2);
    assert_eq!(
        contents.lookup(&first.module_key()).unwrap().recorded_value,
        JsonValue::Bool(true)
    );
    assert_eq!(
        contents.lookup(&second.module_key()).unwrap().recorded_value,
        JsonValue::Bool(false)
    );
}

#[test]
fn check_without_prior_update_is_an_io_error() {
    let snap = sample_snapshot(JsonValue::Null);
    let check = snap.check_snapshot(&SnapFileLoad::Missing);
    assert!(matches!(check, Err(StoreError::Io)));
    assert!(!matches!(check, Err(StoreError::Lookup { .. })));
}

#[test]
fn check_of_unknown_key_is_a_lookup_error() {
    let snap = sample_snapshot(JsonValue::Null);
    let empty = SnapFileContents::new();
    match snap.check_snapshot(&SnapFileLoad::Parsed(empty)) {
        Err(StoreError::Lookup { key }) => {
            assert_eq!(key, "mycrate::tests::records_a_value".to_string());
        }
        other => panic!("expected a lookup error, got {:?}", other),
    }
}

#[test]
fn corrupt_file_fails_check_and_update() {
    let snap = sample_snapshot(JsonValue::Null);
    assert!(matches!(
        snap.check_snapshot(&SnapFileLoad::Corrupt),
        Err(StoreError::Parse)
    ));
    assert!(matches!(
        snap.update_snapshot(SnapFileLoad::Corrupt),
        Err(StoreError::Parse)
    ));
}

#[test]
fn empty_file_is_a_first_write_on_update_but_fails_check() {
    let snap = sample_snapshot(JsonValue::UInt(7));
    let contents = snap.update_snapshot(SnapFileLoad::Empty).unwrap();
    assert_eq!(contents.len(), 1);
    assert!(matches!(
        snap.check_snapshot(&SnapFileLoad::Empty),
        Err(StoreError::Parse)
    ));
}

#[test]
fn metadata_disagreement_is_store_corruption() {
    let recorded = Snapshot::new(
        "src/a.rs".to_string(),
        "mycrate::tests".to_string(),
        "records_a_value".to_string(),
        JsonValue::Int(1),
    );
    let contents = recorded.update_snapshot(SnapFileLoad::Missing).unwrap();
    let fresh = Snapshot::new(
        "src/b.rs".to_string(),
        "mycrate::tests".to_string(),
        "records_a_value".to_string(),
        JsonValue::Int(1),
    );
    assert!(matches!(
        fresh.check_snapshot(&SnapFileLoad::Parsed(contents)),
        Err(StoreError::Metadata)
    ));
}

#[test]
fn module_key_joins_module_and_test_function() {
    let snap = sample_snapshot(JsonValue::Null);
    assert_eq!(snap.module_key(), "mycrate::tests::records_a_value".to_string());
}

#[test]
fn new_splits_the_source_path_into_components() {
    let snap = sample_snapshot(JsonValue::Null);
    assert_eq!(
        snap.file,
        vec!["tests".to_string(), "integration_test.rs".to_string()]
    );
    let dotted = Snapshot::new(
        "./src//lib.rs".to_string(),
        "m".to_string(),
        "t".to_string(),
        JsonValue::Null,
    );
    assert_eq!(dotted.file, vec!["src".to_string(), "lib.rs".to_string()]);
}

#[test]
fn path_puts_the_snapshot_beside_the_source_file() {
    let snap = sample_snapshot(JsonValue::Null);
    let spec = snap.path("/project");
    assert_eq!(
        spec.dir,
        vec!["tests".to_string(), "__snapshots__".to_string()]
    );
    assert_eq!(
        spec.relative_path,
        vec![
            "tests".to_string(),
            "__snapshots__".to_string(),
            "integration_test.rs.snap".to_string()
        ]
    );
    assert_eq!(
        spec.absolute_path,
        vec![
            "/project".to_string(),
            "tests".to_string(),
            "__snapshots__".to_string(),
            "integration_test.rs.snap".to_string()
        ]
    );
    assert_eq!(
        join_path(&spec.absolute_path),
        "/project/tests/__snapshots__/integration_test.rs.snap".to_string()
    );
}
