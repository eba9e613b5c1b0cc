use zfskit::error::ZfsError;
use zfskit::models::{
    dataset_property, list_entries, pool_status_entry, DatasetType, OutputVersion,
    PropertySource, PropertySourceKind, PropertyValue, ZfsListEntry, ZfsListOutput,
    ZpoolStatusEntry, ZpoolStatusOutput,
};
use zfskit::strmap::StrMap;

#[test]
fn unknown_wire_enums_are_preserved() {
    let dataset = DatasetType::from_wire("FUTURE_KIND".to_string());
    assert_eq!(dataset, DatasetType::Unknown("FUTURE_KIND".to_string()));
    let source = PropertySourceKind::from_wire("FUTURE_SOURCE".to_string());
    assert_eq!(
        source,
        PropertySourceKind::Unknown("FUTURE_SOURCE".to_string())
    );
    assert_eq!(DatasetType::from_wire("SNAPSHOT".to_string()), DatasetType::Snapshot);
    assert_eq!(PropertySourceKind::from_wire("NONE".to_string()), PropertySourceKind::NoSource);
    assert_eq!(DatasetType::Unknown("x".into()).cli_name(), "x");
}

#[test]
fn unsupported_output_major_is_explicit() {
    let error = OutputVersion {
        command: "zfs list".to_string(),
        vers_major: 1,
        vers_minor: 0,
    }
    .validate("zfs list")
    .unwrap_err();
    assert!(matches!(
        error,
        ZfsError::IncompatibleOutput { major: 1, .. }
    ));
}

fn entry(name: &str) -> ZfsListEntry {
    let mut properties = StrMap::new();
    properties.insert(
        "guid".to_string(),
        PropertyValue {
            value: format!("g-{name}"),
            source: PropertySource { kind: PropertySourceKind::NoSource, data: "-".into() },
        },
    );
    ZfsListEntry {
        name: name.to_string(),
        kind: DatasetType::Filesystem,
        pool: "tank".into(),
        createtxg: "1".into(),
        dataset: None,
        snapshot_name: None,
        properties,
    }
}

#[test]
fn list_entries_come_sorted_by_name() {
    let mut datasets = StrMap::new();
    datasets.insert("tank/b".to_string(), entry("tank/b"));
    datasets.insert("tank".to_string(), entry("tank"));
    datasets.insert("tank/a".to_string(), entry("tank/a"));
    let out = ZfsListOutput {
        output_version: OutputVersion { command: "zfs list".into(), vers_major: 0, vers_minor: 1 },
        datasets,
    };
    let names: Vec<String> = list_entries(out).unwrap().into_iter().map(|e| e.name).collect();
    assert_eq!(names, vec!["tank", "tank/a", "tank/b"]);
}

#[test]
fn first_entry_gives_the_property() {
    let v = dataset_property(vec![entry("tank")], "tank", "guid").unwrap();
    assert_eq!(v.value, "g-tank");
    let Err(ZfsError::Other { stderr, .. }) = dataset_property(vec![entry("tank")], "tank", "used") else {
        panic!("expected Other");
    };
    assert_eq!(stderr, "property 'used' not in response for tank");
    let Err(ZfsError::Other { stderr, .. }) = dataset_property(vec![], "tank", "guid") else {
        panic!("expected Other");
    };
    assert_eq!(stderr, "zfs get returned no entries for tank");
}

#[test]
fn status_entry_is_found_by_name() {
    let mk = |name: &str| ZpoolStatusEntry {
        name: name.to_string(),
        state: "ONLINE".into(),
        pool_guid: "1".into(),
        txg: "1".into(),
        spa_version: "5000".into(),
        zpl_version: "5".into(),
        error_count: "0".into(),
        vdevs: StrMap::new(),
        scan: None,
    };
    let mut pools = StrMap::new();
    pools.insert("a".to_string(), mk("a"));
    pools.insert("b".to_string(), mk("b"));
    let out = ZpoolStatusOutput {
        output_version: OutputVersion { command: "zpool status".into(), vers_major: 0, vers_minor: 1 },
        pools,
    };
    assert_eq!(pool_status_entry(out, "b").unwrap().name, "b");
    let out = ZpoolStatusOutput {
        output_version: OutputVersion { command: "zpool status".into(), vers_major: 0, vers_minor: 1 },
        pools: StrMap::new(),
    };
    let Err(ZfsError::Other { stderr, .. }) = pool_status_entry(out, "b") else {
        panic!("expected Other");
    };
    assert_eq!(stderr, "zpool status returned no entry for b");
}

#[test]
fn strmap_reads_back_what_was_written() {
    let mut m: StrMap<u64> = StrMap::new();
    m.insert("b".to_string(), 1);
    m.insert("a".to_string(), 2);
    m.insert("b".to_string(), 3);
    assert_eq!(m.get("b"), Some(&3));
    assert_eq!(m.get("a"), Some(&2));
    assert_eq!(m.get("c"), None);
    assert_eq!(m.len(), 2);
    let keys: Vec<&str> = m.entries().iter().map(|(k, _)| k.as_str()).collect();
    assert_eq!(keys, vec!["a", "b"]);
}
