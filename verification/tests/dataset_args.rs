use zfskit::dataset::{
    CreateOptions, DestroyOptions, GetOptions, ListOptions, MountOptions, RollbackOptions,
    SetOptions, SnapshotOptions, UnmountOptions, finish_mount, finish_unmount, mount_all_args,
    unmount_all_args,
};
use zfskit::error::ZfsError;
use zfskit::models::{DatasetType, PropertySourceKind};

#[test]
fn build_args_no_properties() {
    let opts = CreateOptions::new();
    assert_eq!(opts.build_args("tank/data"), vec!["create", "tank/data"]);
}

#[test]
fn build_args_with_create_parents() {
    let opts = CreateOptions::new().create_parents();
    assert_eq!(
        opts.build_args("tank/a/b/c"),
        vec!["create", "-p", "tank/a/b/c"]
    );
}

#[test]
fn build_args_with_no_mount() {
    let opts = CreateOptions::new().no_mount();
    assert_eq!(
        opts.build_args("tank/data"),
        vec!["create", "-u", "tank/data"]
    );
}

#[test]
fn build_args_no_mount_with_mountpoint_property() {
    let opts = CreateOptions::new()
        .create_parents()
        .no_mount()
        .property("mountpoint", "/home");
    assert_eq!(
        opts.build_args("tank/be0/data/home"),
        vec![
            "create",
            "-p",
            "-u",
            "-o",
            "mountpoint=/home",
            "tank/be0/data/home",
        ]
    );
}

#[test]
fn build_args_with_properties() {
    let opts = CreateOptions::new()
        .property("mountpoint", "/mnt/data")
        .property("compression", "lz4");
    assert_eq!(
        opts.build_args("tank/data"),
        vec![
            "create",
            "-o",
            "mountpoint=/mnt/data",
            "-o",
            "compression=lz4",
            "tank/data",
        ]
    );
}

#[test]
fn create_properties_in_bulk_keep_their_order() {
    let opts = CreateOptions::new().properties(&[("a", "1"), ("b", "2")]);
    assert_eq!(
        opts.build_args("tank/x"),
        vec!["create", "-o", "a=1", "-o", "b=2", "tank/x"]
    );
}

#[test]
fn destroy_build_args_default() {
    assert_eq!(
        DestroyOptions::new().build_args("tank/data"),
        vec!["destroy", "tank/data"]
    );
}

#[test]
fn build_args_recursive_force() {
    let opts = DestroyOptions::new().recursive().force_unmount();
    assert_eq!(
        opts.build_args("tank/data"),
        vec!["destroy", "-r", "-f", "tank/data"]
    );
}

#[test]
fn build_args_recursive_with_clones_supersedes_r() {
    let opts = DestroyOptions::new().recursive().recursive_with_clones();
    assert_eq!(
        opts.build_args("tank/data"),
        vec!["destroy", "-R", "tank/data"]
    );
}

#[test]
fn build_args_defer_holds() {
    assert_eq!(
        DestroyOptions::new()
            .defer_holds()
            .build_args("tank/data@snap1"),
        vec!["destroy", "-d", "tank/data@snap1"]
    );
}

#[test]
fn build_args_minimal() {
    let opts = GetOptions {
        properties: vec!["encryption".into()],
        datasets: vec!["tank".into()],
        ..Default::default()
    };
    assert_eq!(
        opts.build_args().unwrap(),
        vec!["get", "-j", "-p", "encryption", "tank"]
    );
}

#[test]
fn get_build_args_full() {
    let opts = GetOptions {
        recursive: true,
        depth: Some(2),
        types: vec![DatasetType::Filesystem],
        sources: vec![PropertySourceKind::Local, PropertySourceKind::Inherited],
        datasets: vec!["tank/data".into()],
        properties: vec!["all".into()],
    };
    assert_eq!(
        opts.build_args().unwrap(),
        vec![
            "get",
            "-j",
            "-p",
            "-r",
            "-d",
            "2",
            "-t",
            "filesystem",
            "-s",
            "local,inherited",
            "all",
            "tank/data",
        ]
    );
}

#[test]
fn build_args_rejects_empty_properties() {
    let opts = GetOptions::default();
    let err = opts.build_args().expect_err("empty properties must error");
    let ZfsError::Other { stderr, .. } = err else {
        panic!("expected Other");
    };
    assert!(stderr.contains("must not be empty"));
}

#[test]
fn get_joins_several_properties_and_unknown_types() {
    let opts = GetOptions {
        types: vec![DatasetType::Volume, DatasetType::Unknown("future".into())],
        sources: vec![PropertySourceKind::NoSource],
        properties: vec!["used".into(), "avail".into()],
        ..Default::default()
    };
    assert_eq!(
        opts.build_args().unwrap(),
        vec!["get", "-j", "-p", "-t", "volume,future", "-s", "none", "used,avail"]
    );
}

#[test]
fn list_build_args_default() {
    let opts = ListOptions::default();
    assert_eq!(opts.build_args(), vec!["list", "-j", "-p"]);
}

#[test]
fn list_build_args_full() {
    let opts = ListOptions {
        recursive: true,
        depth: Some(2),
        types: vec![DatasetType::Filesystem, DatasetType::Snapshot],
        roots: vec!["tank".into(), "tank/sub".into()],
        properties: vec!["name".into(), "used".into()],
    };
    assert_eq!(
        opts.build_args(),
        vec![
            "list",
            "-j",
            "-p",
            "-r",
            "-d",
            "2",
            "-t",
            "filesystem,snapshot",
            "-o",
            "name,used",
            "tank",
            "tank/sub"
        ]
    );
}

#[test]
fn list_depth_is_written_in_decimal() {
    let opts = ListOptions { depth: Some(4_294_967_295), ..Default::default() };
    assert_eq!(opts.build_args(), vec!["list", "-j", "-p", "-d", "4294967295"]);
}

#[test]
fn mount_args_default() {
    assert_eq!(
        MountOptions::default().build_args("tank/data"),
        vec!["mount", "tank/data"]
    );
}

#[test]
fn mount_args_recursive() {
    let opts = MountOptions { recursive: true };
    assert_eq!(
        opts.build_args("tank/data"),
        vec!["mount", "-R", "tank/data"]
    );
}

#[test]
fn unmount_args_default() {
    assert_eq!(
        UnmountOptions::default().build_args("tank/data"),
        vec!["umount", "tank/data"]
    );
}

#[test]
fn unmount_args_force() {
    let opts = UnmountOptions { force: true };
    assert_eq!(
        opts.build_args("tank/data"),
        vec!["umount", "-f", "tank/data"]
    );
}

#[test]
fn mount_and_unmount_all_args() {
    assert_eq!(mount_all_args(), vec!["mount", "-a"]);
    assert_eq!(unmount_all_args(false), vec!["umount", "-a"]);
    assert_eq!(unmount_all_args(true), vec!["umount", "-a", "-f"]);
}

#[test]
fn mount_already_mounted_is_success() {
    assert!(finish_mount(false, Some(1), "cannot mount 'tank/data': filesystem already mounted\n").is_ok());
    assert!(finish_unmount(false, Some(1), "cannot unmount 'tank/data': not currently mounted\n").is_ok());
    let err = finish_mount(false, Some(1), "cannot open 'tank/x': dataset does not exist\n").unwrap_err();
    assert!(matches!(err, ZfsError::DatasetNotFound { .. }));
    assert!(finish_unmount(true, Some(0), "").is_ok());
}

#[test]
fn rollback_build_args_default() {
    assert_eq!(
        RollbackOptions::new().build_args("tank/data@snap1"),
        vec!["rollback", "tank/data@snap1"]
    );
}

#[test]
fn build_args_destroy_newer() {
    assert_eq!(
        RollbackOptions::new()
            .destroy_newer()
            .build_args("tank/data@snap1"),
        vec!["rollback", "-r", "tank/data@snap1"]
    );
}

#[test]
fn build_args_destroy_newer_with_clones_supersedes_r() {
    let opts = RollbackOptions::new()
        .destroy_newer()
        .destroy_newer_with_clones()
        .force_unmount_clones();
    assert_eq!(
        opts.build_args("tank/data@snap1"),
        vec!["rollback", "-R", "-f", "tank/data@snap1"]
    );
}

#[test]
fn build_args_single_property() {
    let opts = SetOptions::default();
    assert_eq!(
        opts.build_args(&[("compression", "zstd")], "tank/data"),
        vec!["set", "compression=zstd", "tank/data"]
    );
}

#[test]
fn build_args_no_mount() {
    let opts = SetOptions::new().no_mount();
    assert_eq!(
        opts.build_args(&[("mountpoint", "/home")], "tank/be0/data/home"),
        vec!["set", "-u", "mountpoint=/home", "tank/be0/data/home"]
    );
}

#[test]
fn build_args_multiple_properties() {
    let opts = SetOptions::default();
    assert_eq!(
        opts.build_args(
            &[("mountpoint", "/home"), ("canmount", "on")],
            "tank/be0/data/home"
        ),
        vec![
            "set",
            "mountpoint=/home",
            "canmount=on",
            "tank/be0/data/home",
        ]
    );
}

#[test]
fn build_args_basic() {
    let opts = SnapshotOptions::new();
    assert_eq!(
        opts.build_args(&["tank/data@snap1"]),
        vec!["snapshot", "tank/data@snap1"]
    );
}

#[test]
fn build_args_recursive_with_properties() {
    let opts = SnapshotOptions::new()
        .recursive()
        .property("com.sun:auto-snapshot", "true");
    assert_eq!(
        opts.build_args(&["tank/data@snap1"]),
        vec![
            "snapshot",
            "-r",
            "-o",
            "com.sun:auto-snapshot=true",
            "tank/data@snap1",
        ]
    );
}

#[test]
fn build_args_atomic_many() {
    let opts = SnapshotOptions::new();
    assert_eq!(
        opts.build_args(&["tank/a@s", "tank/b@s"]),
        vec!["snapshot", "tank/a@s", "tank/b@s"]
    );
}
