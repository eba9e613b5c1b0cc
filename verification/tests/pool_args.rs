use zfskit::error::ZfsError;
use zfskit::pool::{
    parse_discovery, scrub_args, set_property_args, DestroyOptions, ExportOptions, GetOptions,
    ImportOptions, PoolCreateOptions, RaidZLevel, ScrubAction, Vdev,
};

#[test]
fn build_args_minimal_single_disk() {
    let opts = PoolCreateOptions::new("tank").vdev(Vdev::Stripe(vec!["/dev/sda1".into()]));
    assert_eq!(
        opts.build_args().unwrap(),
        vec!["create", "tank", "/dev/sda1"]
    );
}

#[test]
fn build_args_rejects_invalid_pool_name() {
    let error = PoolCreateOptions::new("raidz2-test")
        .vdev(Vdev::Stripe(vec!["/dev/sda".into()]))
        .build_args()
        .unwrap_err();
    assert!(matches!(error, ZfsError::InvalidName(_)));
}

#[test]
fn build_args_archinstall_shape() {
    let opts = PoolCreateOptions::new("tank")
        .force()
        .pool_property("ashift", "12")
        .fs_property("acltype", "posixacl")
        .fs_property("compression", "lz4")
        .mountpoint("none")
        .altroot("/mnt")
        .vdev(Vdev::Stripe(vec!["/dev/disk/by-id/test-part2".into()]));
    assert_eq!(
        opts.build_args().unwrap(),
        vec![
            "create",
            "-f",
            "-o",
            "ashift=12",
            "-O",
            "acltype=posixacl",
            "-O",
            "compression=lz4",
            "-m",
            "none",
            "-R",
            "/mnt",
            "tank",
            "/dev/disk/by-id/test-part2",
        ]
    );
}

#[test]
fn build_args_mirror_pair() {
    let opts = PoolCreateOptions::new("tank")
        .vdev(Vdev::Mirror(vec!["/dev/sda".into(), "/dev/sdb".into()]));
    assert_eq!(
        opts.build_args().unwrap(),
        vec!["create", "tank", "mirror", "/dev/sda", "/dev/sdb"]
    );
}

#[test]
fn build_args_raidz2_quad() {
    let opts = PoolCreateOptions::new("tank").vdev(Vdev::RaidZ(
        RaidZLevel::Two,
        vec![
            "/dev/sda".into(),
            "/dev/sdb".into(),
            "/dev/sdc".into(),
            "/dev/sdd".into(),
        ],
    ));
    assert_eq!(
        opts.build_args().unwrap(),
        vec![
            "create", "tank", "raidz2", "/dev/sda", "/dev/sdb", "/dev/sdc", "/dev/sdd"
        ]
    );
}

#[test]
fn build_args_stripe_of_two_mirrors() {
    let opts = PoolCreateOptions::new("tank")
        .vdev(Vdev::Mirror(vec!["/dev/sda".into(), "/dev/sdb".into()]))
        .vdev(Vdev::Mirror(vec!["/dev/sdc".into(), "/dev/sdd".into()]));
    assert_eq!(
        opts.build_args().unwrap(),
        vec![
            "create", "tank", "mirror", "/dev/sda", "/dev/sdb", "mirror", "/dev/sdc",
            "/dev/sdd",
        ]
    );
}

#[test]
fn build_args_rejects_no_vdevs() {
    let opts = PoolCreateOptions::new("tank");
    let err = opts.build_args().expect_err("empty vdevs must error");
    let ZfsError::InvalidInput { message } = err else {
        panic!("expected InvalidInput");
    };
    assert!(message.contains("at least one vdev"));
}

#[test]
fn build_args_rejects_empty_vdev() {
    let opts = PoolCreateOptions::new("tank").vdev(Vdev::Mirror(vec![]));
    assert!(opts.build_args().is_err());
}

#[test]
fn vdev_minimums_are_reported_exactly() {
    let err = PoolCreateOptions::new("tank")
        .vdev(Vdev::RaidZ(RaidZLevel::Three, vec!["/a".into(), "/b".into()]))
        .build_args()
        .unwrap_err();
    let ZfsError::InvalidInput { message } = err else {
        panic!("expected InvalidInput");
    };
    assert_eq!(message, "raidz3 vdev requires at least 4 device(s), got 2");
    let err = PoolCreateOptions::new("tank")
        .vdev(Vdev::Mirror(vec!["/a".into(), "/b".into()]))
        .vdev(Vdev::Stripe(vec![]))
        .build_args()
        .unwrap_err();
    let ZfsError::InvalidInput { message } = err else {
        panic!("expected InvalidInput");
    };
    assert_eq!(message, "stripe vdev requires at least 1 device(s), got 0");
    assert!(PoolCreateOptions::new("tank")
        .vdev(Vdev::RaidZ(RaidZLevel::One, vec!["/a".into(), "/b".into()]))
        .build_args()
        .is_ok());
}

#[test]
fn pool_destroy_build_args_default() {
    assert_eq!(
        DestroyOptions::default().build_args("tank"),
        vec!["destroy", "tank"]
    );
}

#[test]
fn destroy_build_args_force() {
    let opts = DestroyOptions { force: true };
    assert_eq!(opts.build_args("tank"), vec!["destroy", "-f", "tank"]);
}

#[test]
fn export_build_args_default() {
    assert_eq!(
        ExportOptions::default().build_args("tank"),
        vec!["export", "tank"]
    );
}

#[test]
fn export_build_args_force() {
    let opts = ExportOptions { force: true };
    assert_eq!(opts.build_args("tank"), vec!["export", "-f", "tank"]);
}

#[test]
fn import_build_args_default() {
    assert_eq!(
        ImportOptions::default().build_args("tank"),
        vec!["import", "tank"]
    );
}

#[test]
fn build_args_force_no_mount() {
    let opts = ImportOptions {
        force: true,
        no_mount: true,
        ..Default::default()
    };
    assert_eq!(opts.build_args("tank"), vec!["import", "-f", "-N", "tank"]);
}

#[test]
fn build_args_with_altroot() {
    let opts = ImportOptions {
        force: true,
        altroot: Some("/mnt/recovery".into()),
        ..Default::default()
    };
    assert_eq!(
        opts.build_args("tank"),
        vec!["import", "-f", "-R", "/mnt/recovery", "tank"]
    );
}

#[test]
fn pool_get_args() {
    let opts = GetOptions { pools: vec!["tank".into()], properties: vec!["size".into(), "free".into()] };
    assert_eq!(opts.build_args().unwrap(), vec!["get", "-j", "-p", "size,free", "tank"]);
    let err = GetOptions::default().build_args().unwrap_err();
    assert!(matches!(err, ZfsError::InvalidInput { .. }));
}

#[test]
fn scrub_and_set_args() {
    assert_eq!(scrub_args("tank", ScrubAction::Start), vec!["scrub", "tank"]);
    assert_eq!(scrub_args("tank", ScrubAction::Resume), vec!["scrub", "tank"]);
    assert_eq!(scrub_args("tank", ScrubAction::Pause), vec!["scrub", "-p", "tank"]);
    assert_eq!(scrub_args("tank", ScrubAction::Stop), vec!["scrub", "-s", "tank"]);
    assert_eq!(
        set_property_args("tank", "autotrim", "on"),
        vec!["set", "autotrim=on", "tank"]
    );
}

#[test]
fn parse_empty_input_yields_empty_vec() {
    assert!(parse_discovery("").is_empty());
    assert!(parse_discovery("no pools available to import\n").is_empty());
}

#[test]
fn parse_single_online_pool() {
    let text = "   pool: tank\n     id: 9316430153991325696\n  state: ONLINE\n";
    let pools = parse_discovery(text);
    assert_eq!(pools.len(), 1);
    assert_eq!(pools[0].name, "tank");
    assert_eq!(pools[0].id, "9316430153991325696");
    assert_eq!(pools[0].state, "ONLINE");
    assert!(pools[0].status.is_none());
}

#[test]
fn parse_multiple_pools_separated_by_blank_lines() {
    let text = "\
   pool: a
     id: 1
  state: ONLINE

   pool: b
     id: 2
  state: ONLINE
";
    let pools = parse_discovery(text);
    assert_eq!(pools.len(), 2);
    assert_eq!(pools[0].name, "a");
    assert_eq!(pools[1].name, "b");
}

#[test]
fn parse_captures_status_for_degraded() {
    let text = "\
   pool: dpool
     id: 42
  state: DEGRADED
 status: One or more devices could not be opened.
 action: Attach the missing device.
";
    let pools = parse_discovery(text);
    assert_eq!(pools.len(), 1);
    assert_eq!(pools[0].state, "DEGRADED");
    assert_eq!(
        pools[0].status.as_deref(),
        Some("One or more devices could not be opened.")
    );
}

#[test]
fn parse_ignores_lines_before_first_pool() {
    let text = "some preamble text\n   pool: tank\n  state: ONLINE\n";
    let pools = parse_discovery(text);
    assert_eq!(pools.len(), 1);
    assert_eq!(pools[0].name, "tank");
}

#[test]
fn parse_ignores_unknown_keys() {
    let text = "\
   pool: tank
     id: 1
  state: ONLINE
 cachefile: /etc/zfs/zpool.cache
 comment: my pool
 config:
\ttank ONLINE
";
    let pools = parse_discovery(text);
    assert_eq!(pools.len(), 1);
    assert_eq!(pools[0].state, "ONLINE");
}

#[test]
fn parse_drops_pools_without_a_name() {
    let pools = parse_discovery("   pool:   \n  state: ONLINE\n   pool: b\n");
    assert_eq!(pools.len(), 1);
    assert_eq!(pools[0].name, "b");
    assert_eq!(pools[0].state, "");
}
