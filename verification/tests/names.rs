use zfskit::names::{child_name, BookmarkName, DatasetName, NameKind, NameReason, PoolName, SnapshotName};

#[test]
fn names_distinguish_entity_kinds() {
    assert!(PoolName::parse("tank").is_ok());
    assert!(PoolName::parse("tank/data").is_err());
    assert!(DatasetName::parse("tank/data").is_ok());
    assert!(DatasetName::parse("tank/data@s1").is_err());
    let snapshot = SnapshotName::parse("tank/data@s1").unwrap();
    assert_eq!(snapshot.dataset().as_str(), "tank/data");
    assert_eq!(snapshot.tag(), "s1");
    let bookmark = BookmarkName::parse("tank/data#cursor").unwrap();
    assert_eq!(bookmark.mark(), "cursor");
}

#[test]
fn rejects_names_openzfs_rejects() {
    for name in [
        "tank//data",
        "tank/.",
        "tank/..",
        "tank/naïve",
        "tank/data?",
    ] {
        assert!(DatasetName::parse(name).is_err(), "accepted {name:?}");
    }
    for name in ["1tank", "mirror", "raidz", "draid", "tank%tmp"] {
        assert!(PoolName::parse(name).is_err(), "accepted {name:?}");
    }
    for name in ["mirror-old", "raidz2", "draid1", "spare0", "log"] {
        assert!(
            PoolName::parse(name).is_ok(),
            "legacy open rejected {name:?}"
        );
        assert!(
            PoolName::parse_for_create(name).is_err(),
            "create accepted {name:?}"
        );
    }
    assert!(SnapshotName::parse("tank/data@.").is_err());
    assert!(BookmarkName::parse("tank/data#..").is_err());
}

#[test]
fn accepts_openzfs_component_characters() {
    assert!(DatasetName::parse("tank/data set:v1_tmp-old%recv").is_ok());
    assert!(SnapshotName::parse("tank/data@snap 1:old%recv").is_ok());
    assert!(PoolName::parse("Tank.pool-1:old").is_ok());
}

#[test]
fn enforces_entity_length_in_bytes() {
    let valid = format!("t{}", "a".repeat(254));
    assert_eq!(valid.len(), 255);
    assert!(DatasetName::parse(&valid).is_ok());
    let invalid = format!("t{}", "a".repeat(255));
    assert_eq!(invalid.len(), 256);
    assert!(DatasetName::parse(&invalid).is_err());
    assert!(PoolName::parse(&format!("t{}", "a".repeat(238))).is_ok());
    assert!(PoolName::parse(&format!("t{}", "a".repeat(239))).is_err());
}

#[test]
fn name_errors_carry_kind_value_and_reason() {
    let err = DatasetName::parse("tank//data").unwrap_err();
    assert_eq!(err.kind(), "dataset");
    assert_eq!(err.value(), "tank//data");
    assert_eq!(err.reason(), "path components cannot be empty");
    assert_eq!(err.kind_code(), NameKind::Dataset);
    assert_eq!(err.reason_code(), NameReason::EmptyComponent);
    assert_eq!(
        err.message(),
        "invalid dataset name \"tank//data\": path components cannot be empty"
    );
    let err = PoolName::parse("").unwrap_err();
    assert_eq!(err.reason_code(), NameReason::Empty);
    let err = PoolName::parse("9lives").unwrap_err();
    assert_eq!(err.reason_code(), NameReason::PoolLeadingLetter);
    let err = SnapshotName::parse("tank/data").unwrap_err();
    assert_eq!(err.kind_code(), NameKind::Snapshot);
    assert_eq!(err.reason_code(), NameReason::SnapshotShape);
    let err = SnapshotName::parse("tank//x@s").unwrap_err();
    assert_eq!(err.kind_code(), NameKind::Dataset);
    assert_eq!(err.value(), "tank//x");
}

#[test]
fn pool_names_bytes_not_chars() {
    // 120 two-byte characters are 240 bytes: over the pool limit.
    let long = format!("t{}", "é".repeat(120));
    assert!(PoolName::parse(&long).is_err());
}

#[test]
fn composed_names_read_back_as_their_parts() {
    let ds = DatasetName::parse("tank/data").unwrap();
    let snap = SnapshotName::new(ds.clone(), "daily-1").unwrap();
    assert_eq!(snap.as_str(), "tank/data@daily-1");
    assert_eq!(snap.dataset().as_str(), "tank/data");
    assert_eq!(snap.tag(), "daily-1");
    let again = SnapshotName::parse(snap.as_str()).unwrap();
    assert_eq!(again.tag(), "daily-1");
    let mark = BookmarkName::new(ds.clone(), "cursor").unwrap();
    assert_eq!(mark.as_str(), "tank/data#cursor");
    assert_eq!(mark.mark(), "cursor");
    assert!(SnapshotName::new(ds.clone(), "a/b").is_err());
    assert!(BookmarkName::new(ds, "").is_err());
}

#[test]
fn every_pool_name_is_a_dataset_name() {
    for name in ["tank", "Tank.pool-1:old", "mirror-old", "z"] {
        assert!(PoolName::parse(name).is_ok());
        assert!(DatasetName::parse(name).is_ok());
    }
}

#[test]
fn child_name_joins_with_a_slash() {
    assert_eq!(child_name("tank", "data/sub"), "tank/data/sub");
    assert!(DatasetName::parse(&child_name("tank", "data")).is_ok());
}

#[test]
fn pool_root_dataset_has_the_pool_name() {
    let pool = PoolName::parse("tank").unwrap();
    assert_eq!(pool.root_dataset().as_str(), "tank");
}
