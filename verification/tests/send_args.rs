use zfskit::error::ZfsError;
use zfskit::send::{parse_dry_run_output, SendArgs, SendArgsError, SendFrom, SendKind};

#[test]
fn full_send_args() {
    let args = SendArgs::new("tank/data@snap1").build_args(false).unwrap();
    assert_eq!(args, vec!["send", "tank/data@snap1"]);
}

#[test]
fn dataset_head_send_is_supported() {
    assert_eq!(
        SendArgs::new("tank/data").build_args(false).unwrap(),
        vec!["send", "tank/data"]
    );
}

#[test]
fn validates_send_target_and_incremental_sources() {
    assert!(matches!(
        SendArgs::new("tank//data@snap").build_args(false),
        Err(SendArgsError::InvalidName(_))
    ));
    for source in [
        "@old",
        "#cursor",
        "old",
        "tank/data@old",
        "tank/data#cursor",
    ] {
        SendArgs::new("tank/data@new")
            .incremental(source)
            .build_args(false)
            .unwrap();
    }
    assert!(matches!(
        SendArgs::new("tank/data@new")
            .incremental("bad/source")
            .build_args(false),
        Err(SendArgsError::InvalidName(_))
    ));
}

#[test]
fn snapshot_only_modes_reject_dataset_heads_and_bookmarks() {
    assert!(matches!(
        SendArgs::new("tank/data").replicate().build_args(false),
        Err(SendArgsError::SnapshotTargetRequired { .. })
    ));
    assert!(matches!(
        SendArgs::new("tank/data@new")
            .incremental_all("tank/data#cursor")
            .build_args(false),
        Err(SendArgsError::MultiSnapshotFromBookmark { .. })
    ));
    assert!(matches!(
        SendArgs::new("tank/data@new")
            .incremental("tank/data#cursor")
            .replicate()
            .build_args(false),
        Err(SendArgsError::MultiSnapshotFromBookmark { .. })
    ));
}

#[test]
fn full_dry_run_args() {
    let args = SendArgs::new("tank/data@snap1").build_args(true).unwrap();
    assert_eq!(args, vec!["send", "-n", "-v", "-P", "tank/data@snap1"]);
}

#[test]
fn incremental_send_args() {
    let args = SendArgs::new("tank/data@snap2")
        .incremental("tank/data@snap1")
        .build_args(false)
        .unwrap();
    assert_eq!(
        args,
        vec!["send", "-i", "tank/data@snap1", "tank/data@snap2"]
    );
}

#[test]
fn incremental_dry_run_args() {
    let args = SendArgs::new("tank/data/home@snap2")
        .incremental("tank/data/home@snap1")
        .build_args(true)
        .unwrap();
    assert_eq!(
        args,
        vec![
            "send",
            "-n",
            "-v",
            "-P",
            "-i",
            "tank/data/home@snap1",
            "tank/data/home@snap2",
        ]
    );
}

#[test]
fn resume_token_send_args() {
    let token = "1-abc123";
    let args = SendArgs::resume(token).build_args(false).unwrap();
    assert_eq!(args, vec!["send", "-t", "1-abc123"]);
}

#[test]
fn resume_token_must_not_be_empty() {
    assert!(matches!(
        SendArgs::resume("").build_args(false),
        Err(SendArgsError::EmptyResumeToken)
    ));
}

#[test]
fn dry_run_with_resume_token_is_error() {
    let err = SendArgs::resume("1-abc").build_args(true).unwrap_err();
    assert!(matches!(err, SendArgsError::DryRunWithResumeToken));
}

#[test]
fn resume_rejects_normal_send_flags() {
    for args in [
        SendArgs::resume("token").replicate(),
        SendArgs::resume("token").properties(),
    ] {
        assert!(matches!(
            args.build_args(false),
            Err(SendArgsError::IncompatibleResumeOption { .. })
        ));
    }
    assert_eq!(
        SendArgs::resume("token")
            .raw()
            .compressed()
            .large_blocks()
            .embedded()
            .build_args(false)
            .unwrap(),
        vec!["send", "-w", "-c", "-L", "-e", "-t", "token"]
    );
}

#[test]
fn all_replication_flags() {
    let args = SendArgs::new("tank/data@snap1")
        .replicate()
        .raw()
        .properties()
        .compressed()
        .large_blocks()
        .embedded()
        .build_args(false)
        .unwrap();
    assert_eq!(
        args,
        vec![
            "send",
            "-R",
            "-w",
            "-p",
            "-c",
            "-L",
            "-e",
            "tank/data@snap1"
        ]
    );
}

#[test]
fn incremental_all_uses_capital_i() {
    let args = SendArgs::new("tank/data@b")
        .from(SendFrom::IncrementalAll("@a".to_string()))
        .build_args(false)
        .unwrap();
    assert_eq!(args, vec!["send", "-I", "@a", "tank/data@b"]);
    assert!(matches!(
        SendArgs::new("tank/data").incremental_all("@a").build_args(false),
        Err(SendArgsError::SnapshotTargetRequired { .. })
    ));
}

#[test]
fn send_errors_have_messages_and_become_zfs_errors() {
    let err = SendArgs::resume("tok").replicate().build_args(false).unwrap_err();
    assert_eq!(err.message(), "zfs send -t cannot be combined with -R/replicate");
    let ZfsError::InvalidInput { message } = err.into_zfs_error() else {
        panic!("expected InvalidInput");
    };
    assert_eq!(message, "zfs send -t cannot be combined with -R/replicate");
    let err = SendArgs::new("tank/data").replicate().build_args(false).unwrap_err();
    assert_eq!(err.message(), "replicated send (-R) requires a snapshot target");
    let err = SendArgs::new("tank//x").build_args(false).unwrap_err();
    assert!(matches!(err.into_zfs_error(), ZfsError::InvalidName(_)));
    assert_eq!(SendArgsError::EmptyResumeToken.message(), "resume token must not be empty");
}

#[test]
fn parse_full_send() {
    let text = "full\ttank/data/home@snap1\t44144\nsize\t44144\n";
    let result = parse_dry_run_output(text, Some(0)).unwrap();
    assert_eq!(result.kind, SendKind::Full);
    assert_eq!(result.snapshot, "tank/data/home@snap1");
    assert_eq!(result.total_bytes, 44144);
}

#[test]
fn parse_incremental_send() {
    let text = "incremental\ttank/data/home@snap1\ttank/data/home@snap2\t33904\nsize\t33904\n";
    let result = parse_dry_run_output(text, Some(0)).unwrap();
    assert_eq!(result.kind, SendKind::Incremental);
    assert_eq!(result.snapshot, "tank/data/home@snap2");
    assert_eq!(result.total_bytes, 33904);
}

#[test]
fn parse_empty_fails() {
    let err = parse_dry_run_output("", Some(0)).unwrap_err();
    assert!(matches!(err, ZfsError::Other { .. }));
}

#[test]
fn dry_run_errors_say_what_is_missing() {
    let Err(ZfsError::Other { stderr, exit_code }) = parse_dry_run_output("size\t12\n", Some(0)) else {
        panic!("expected Other");
    };
    assert_eq!(exit_code, Some(0));
    assert_eq!(stderr, "dry-run output missing send type line (full/incremental)");
    let Err(ZfsError::Other { stderr, .. }) = parse_dry_run_output("full\ttank@a\t1\n", None) else {
        panic!("expected Other");
    };
    assert_eq!(stderr, "dry-run output missing size line");
    let Err(ZfsError::Other { stderr, .. }) = parse_dry_run_output("size\tlots\n", None) else {
        panic!("expected Other");
    };
    assert_eq!(stderr, "invalid size value in dry-run output: \"lots\"");
}
