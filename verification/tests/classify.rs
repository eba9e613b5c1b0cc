use zfskit::error::{check_status, check_status_tolerating, classify_captures, classify_stderr, ZfsError};

#[test]
fn classifies_dataset_not_found_dataset_form() {
    let err = classify_stderr("cannot open 'tank/foo': dataset does not exist\n", Some(1));
    let ZfsError::DatasetNotFound { name } = err else {
        panic!("expected DatasetNotFound");
    };
    assert_eq!(name, "tank/foo");
}

#[test]
fn classifies_dataset_not_found_pool_form() {
    let err = classify_stderr("cannot open 'nope': no such pool or dataset\n", Some(1));
    let ZfsError::DatasetNotFound { name } = err else {
        panic!("expected DatasetNotFound");
    };
    assert_eq!(name, "nope");
}

#[test]
fn classifies_permission_denied() {
    let err = classify_stderr("cannot list 'tank': permission denied\n", Some(1));
    assert!(matches!(err, ZfsError::PermissionDenied));
}

#[test]
fn classifies_out_of_space() {
    let err = classify_stderr("out of space\n", Some(1));
    assert!(matches!(err, ZfsError::NoSpace));
}

#[test]
fn classifies_busy() {
    let err = classify_stderr("cannot destroy 'tank/foo': dataset is busy\n", Some(1));
    let ZfsError::Busy { name } = err else {
        panic!("expected Busy");
    };
    assert_eq!(name, "tank/foo");
}

#[test]
fn classifies_snapshot_held() {
    let err = classify_stderr(
        "cannot destroy snapshot tank/data/home@snap1: it's being held. \
         Run 'zfs holds -r tank/data/home@snap1' to see holders.\n",
        Some(1),
    );
    let ZfsError::SnapshotHeld { name } = err else {
        panic!("expected SnapshotHeld, got {err:?}");
    };
    assert_eq!(name, "tank/data/home@snap1");
}

#[test]
fn classifies_snapshot_exists() {
    let err = classify_stderr(
        "cannot create snapshot 'tank/data@snap1': dataset already exists\n",
        Some(1),
    );
    let ZfsError::SnapshotExists { name } = err else {
        panic!("expected SnapshotExists, got {err:?}");
    };
    assert_eq!(name, "tank/data@snap1");
}

#[test]
fn classifies_key_not_loaded_named() {
    let err = classify_stderr("Key must be loaded for 'tank/encrypted'.\n", Some(1));
    let ZfsError::KeyNotLoaded { name } = err else {
        panic!("expected KeyNotLoaded, got {err:?}");
    };
    assert_eq!(name.as_deref(), Some("tank/encrypted"));
}

#[test]
fn classifies_key_not_loaded_unnamed_falls_back() {
    let err = classify_stderr("Key must be loaded.\n", Some(1));
    let ZfsError::KeyNotLoaded { name } = err else {
        panic!("expected KeyNotLoaded, got {err:?}");
    };
    assert_eq!(name, None);
}

#[test]
fn classifies_pool_not_found() {
    let err = classify_stderr("cannot import 'tank': no such pool available\n", Some(1));
    let ZfsError::PoolNotFound { name } = err else {
        panic!("expected PoolNotFound, got {err:?}");
    };
    assert_eq!(name, "tank");
}

#[test]
fn falls_back_to_other_with_trimmed_stderr() {
    let err = classify_stderr("some weird new zfs error\n", Some(2));
    let ZfsError::Other { exit_code, stderr } = err else {
        panic!("expected Other");
    };
    assert_eq!(exit_code, Some(2));
    assert_eq!(stderr, "some weird new zfs error");
}

#[test]
fn classifies_no_space_left_on_device() {
    let err = classify_stderr("write failed: no space left on device\n", None);
    assert!(matches!(err, ZfsError::NoSpace));
}

#[test]
fn pool_not_found_is_tried_before_dataset_not_found() {
    let err = classify_stderr(
        "cannot import 'tank': no such pool available\ncannot open 'x': dataset does not exist\n",
        Some(1),
    );
    assert!(matches!(err, ZfsError::PoolNotFound { .. }));
}

#[test]
fn captures_decide_the_classification() {
    let err = classify_captures(
        "anything",
        Some(3),
        None,
        None,
        Some("tank/a@b".to_string()),
        None,
        None,
        Some("tank/a".to_string()),
    );
    let ZfsError::SnapshotHeld { name } = err else {
        panic!("expected SnapshotHeld, got {err:?}");
    };
    assert_eq!(name, "tank/a@b");
    let err = classify_captures("  odd  ", None, None, None, None, None, None, None);
    let ZfsError::Other { exit_code, stderr } = err else {
        panic!("expected Other, got {err:?}");
    };
    assert_eq!(exit_code, None);
    assert_eq!(stderr, "odd");
}

#[test]
fn status_checks() {
    assert!(check_status(true, Some(0), "ignored").is_ok());
    assert!(matches!(
        check_status(false, Some(1), "permission denied"),
        Err(ZfsError::PermissionDenied)
    ));
    assert!(check_status_tolerating(false, Some(1), "x: benign marker", "benign marker").is_ok());
    assert!(matches!(
        check_status_tolerating(false, Some(1), "out of space", "benign marker"),
        Err(ZfsError::NoSpace)
    ));
}

#[test]
fn error_messages_read_as_documented() {
    assert_eq!(ZfsError::DatasetNotFound { name: "tank/a".into() }.message(), "dataset not found: tank/a");
    assert_eq!(ZfsError::PermissionDenied.message(), "permission denied");
    assert_eq!(ZfsError::KeyNotLoaded { name: Some("tank/e".into()) }.message(), "encryption key not loaded for tank/e");
    assert_eq!(ZfsError::KeyNotLoaded { name: None }.message(), "encryption key not loaded");
    assert_eq!(ZfsError::NoSpace.message(), "out of space");
    assert_eq!(
        ZfsError::Other { exit_code: Some(-2), stderr: "boom".into() }.message(),
        "zfs exited with Some(-2): boom"
    );
    assert_eq!(
        ZfsError::Other { exit_code: None, stderr: "x".into() }.message(),
        "zfs exited with None: x"
    );
    assert_eq!(
        ZfsError::IncompatibleOutput { command: "zfs list", major: 1, minor: 20 }.message(),
        "unsupported zfs list JSON output version 1.20"
    );
    assert_eq!(
        ZfsError::Parse { command: "zfs get", message: "bad".into() }.message(),
        "failed to parse zfs get output: bad"
    );
    assert_eq!(
        ZfsError::BookmarkConflict { bookmark: "tank/a#b".into() }.message(),
        "bookmark tank/a#b already exists for a different snapshot"
    );
    let spawn = ZfsError::Spawn(std::io::Error::new(std::io::ErrorKind::NotFound, "no zfs"));
    assert_eq!(spawn.message(), "failed to spawn zfs: no zfs");
}
