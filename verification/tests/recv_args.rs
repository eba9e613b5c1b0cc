use zfskit::error::ZfsError;
use zfskit::recv::{
    abort_partial_args, finish_abort_partial, finish_receive, resume_token_from_stderr,
    resume_token_of_property, RecvArgs, RecvError,
};

#[test]
fn check_recv_stderr_clean() {
    assert_eq!(resume_token_from_stderr(""), None);
    assert_eq!(resume_token_from_stderr("receive complete.\n"), None);
}

#[test]
fn check_recv_stderr_needs_resume_token() {
    let text = "cannot receive new filesystem stream: checksum mismatch or incomplete stream.\n\
                Partially received snapshot is saved.\n\
                A resuming stream can be generated on the sending system by running:\n    \
                zfs send -t 1-abcdef0123-c0-789c\n";
    let token = resume_token_from_stderr(text).expect("resume token");
    assert!(token.starts_with("1-"), "token should start with '1-', got: {token}");
    assert!(token.len() > 10, "token should be long, got len={}", token.len());
    assert_eq!(token, "1-abcdef0123-c0-789c");
    // Without the incomplete-stream marker no token is offered.
    assert_eq!(resume_token_from_stderr("    zfs send -t 1-abc\n"), None);
}

#[test]
fn build_args_defaults() {
    let args = RecvArgs::new("tank/replica");
    assert_eq!(args.build_args().unwrap(), vec!["recv", "tank/replica"]);
}

#[test]
fn build_args_flags() {
    let args = RecvArgs::new("tank/replica").force_rollback().unmounted();
    assert_eq!(
        args.build_args().unwrap(),
        vec!["recv", "-F", "-u", "tank/replica"]
    );
}

#[test]
fn build_args_resumable_flag() {
    let args = RecvArgs::new("tank/replica").unmounted().resumable();
    assert_eq!(
        args.build_args().unwrap(),
        vec!["recv", "-u", "-s", "tank/replica"]
    );
}

#[test]
fn build_args_property_override_and_inherit() {
    let args = RecvArgs::new("tank/replica")
        .unmounted()
        .property_override("readonly", "on")
        .property_override("canmount", "off")
        .property_inherit("mountpoint");
    assert_eq!(
        args.build_args().unwrap(),
        vec![
            "recv",
            "-u",
            "-o",
            "canmount=off",
            "-o",
            "readonly=on",
            "-x",
            "mountpoint",
            "tank/replica"
        ]
    );
}

#[test]
fn later_override_of_a_key_replaces_it() {
    let args = RecvArgs::new("tank/replica")
        .property_override("readonly", "on")
        .property_override("readonly", "off");
    assert_eq!(
        args.build_args().unwrap(),
        vec!["recv", "-o", "readonly=off", "tank/replica"]
    );
}

#[test]
fn build_args_rejects_conflicting_shape_and_property_flags() {
    let mut shape = RecvArgs::new("tank/replica");
    shape.discard_first_component = true;
    shape.discard_except_last_component = true;
    assert!(matches!(
        shape.build_args(),
        Err(ZfsError::InvalidInput { .. })
    ));

    let properties = RecvArgs::new("tank/replica")
        .property_override("mountpoint", "/srv")
        .property_inherit("mountpoint");
    assert!(matches!(
        properties.build_args(),
        Err(ZfsError::InvalidInput { .. })
    ));

    let duplicate = RecvArgs::new("tank/replica")
        .property_inherit("mountpoint")
        .property_inherit("mountpoint");
    assert!(matches!(
        duplicate.build_args(),
        Err(ZfsError::InvalidInput { .. })
    ));
}

#[test]
fn recv_property_errors_name_the_property() {
    let duplicate = RecvArgs::new("tank/replica")
        .property_inherit("atime")
        .property_inherit("mountpoint")
        .property_inherit("atime");
    let Err(ZfsError::InvalidInput { message }) = duplicate.build_args() else {
        panic!("expected InvalidInput");
    };
    assert_eq!(message, "receive property \"atime\" is inherited more than once");
    let both = RecvArgs::new("tank/replica")
        .property_override("mountpoint", "/srv")
        .property_inherit("mountpoint");
    let Err(ZfsError::InvalidInput { message }) = both.build_args() else {
        panic!("expected InvalidInput");
    };
    assert_eq!(
        message,
        "receive property \"mountpoint\" cannot be both overridden and inherited"
    );
}

#[test]
fn build_args_validates_target_shape() {
    assert!(matches!(
        RecvArgs::new("tank//replica").build_args(),
        Err(ZfsError::InvalidName(_))
    ));
    assert!(matches!(
        RecvArgs::new("tank/data@snap")
            .discard_first_component()
            .build_args(),
        Err(ZfsError::InvalidInput { .. })
    ));
    assert_eq!(
        RecvArgs::new("tank/root")
            .discard_except_last_component()
            .build_args()
            .unwrap(),
        vec!["recv", "-e", "tank/root"]
    );
}

#[test]
fn finished_receive_is_judged() {
    assert!(finish_receive(true, Some(0), "").is_ok());
    let text = "checksum mismatch or incomplete stream\n    zfs send -t 1-tok\n";
    let err = finish_receive(false, Some(1), text).unwrap_err();
    let RecvError::NeedsResumeToken { token } = err else {
        panic!("expected NeedsResumeToken");
    };
    assert_eq!(token, "1-tok");
    let err = finish_receive(false, Some(1), "cannot open 'tank/x': dataset does not exist\n")
        .unwrap_err();
    assert!(matches!(err, RecvError::Zfs(ZfsError::DatasetNotFound { .. })));
}

#[test]
fn abort_partial_treats_missing_partial_as_success() {
    assert_eq!(abort_partial_args("tank/replica"), vec!["recv", "-A", "tank/replica"]);
    assert!(finish_abort_partial(true, Some(0), "").is_ok());
    assert!(finish_abort_partial(false, Some(1), "cannot abort: no partial recv to abort\n").is_ok());
    assert!(finish_abort_partial(false, Some(1), "'tank/x' does not have any resumable receive state to abort\n").is_ok());
    assert!(matches!(
        finish_abort_partial(false, Some(1), "permission denied"),
        Err(ZfsError::PermissionDenied)
    ));
}

#[test]
fn resume_token_property_values() {
    assert_eq!(resume_token_of_property("-".into()), None);
    assert_eq!(resume_token_of_property(String::new()), None);
    assert_eq!(resume_token_of_property("1-abc123deadbeef".into()).as_deref(), Some("1-abc123deadbeef"));
}
