use zfskit::error::ZfsError;
use zfskit::protect::{
    bookmark_args, bookmark_guid_verdict, destroy_bookmark_args, finish_bookmark, finish_hold,
    hold_args, holds_args, parse_holds_text, release_args, BookmarkStep,
};

#[test]
fn parse_single_hold() {
    let holds = parse_holds_text("tank/data/home@snap1\tmytag\t1777313280\n").unwrap();
    assert_eq!(holds.len(), 1);
    assert_eq!(holds[0].dataset, "tank/data/home@snap1");
    assert_eq!(holds[0].tag, "mytag");
    assert_eq!(holds[0].timestamp, 1_777_313_280);
}

#[test]
fn parse_empty_output() {
    let holds = parse_holds_text("").unwrap();
    assert!(holds.is_empty());
}

#[test]
fn parse_rejects_malformed_line() {
    let err = parse_holds_text("tank/data@snap1\tmytag\n").unwrap_err();
    assert!(matches!(err, ZfsError::Other { .. }));
}

#[test]
fn holds_errors_are_worded() {
    let Err(ZfsError::Other { stderr, exit_code }) = parse_holds_text("a\tb\n") else {
        panic!("expected Other");
    };
    assert_eq!(exit_code, None);
    assert_eq!(stderr, "unexpected holds line: \"a\\tb\"");
    let Err(ZfsError::Other { stderr, .. }) = parse_holds_text("a\tb\tsoon\n") else {
        panic!("expected Other");
    };
    assert_eq!(stderr, "invalid timestamp in holds output: soon");
    let holds = parse_holds_text("\nx@s\tt1\t5\n\ny@s\tt2\t6\n").unwrap();
    assert_eq!(holds.len(), 2);
    assert_eq!(holds[1].timestamp, 6);
}

#[test]
fn hold_commands() {
    assert_eq!(hold_args("tank/a@s", "keep"), vec!["hold", "keep", "tank/a@s"]);
    assert_eq!(release_args("tank/a@s", "keep"), vec!["release", "keep", "tank/a@s"]);
    assert_eq!(holds_args("tank/a@s"), vec!["holds", "-H", "tank/a@s"]);
    assert!(finish_hold(false, Some(1), "cannot hold snapshot 'tank/a@s': tag already exists on this dataset\n").is_ok());
    assert!(finish_hold(false, Some(1), "cannot open 'tank/a@s': dataset does not exist\n").is_err());
}

#[test]
fn bookmark_requests_are_checked() {
    assert_eq!(
        bookmark_args("tank/data/home@snap1", "tank/data/home#bm1").unwrap(),
        vec!["bookmark", "tank/data/home@snap1", "tank/data/home#bm1"]
    );
    assert!(matches!(
        bookmark_args("tank/a@s", "tank/b#m"),
        Err(ZfsError::InvalidInput { .. })
    ));
    assert!(matches!(
        bookmark_args("tank/a", "tank/a#m"),
        Err(ZfsError::InvalidName(_))
    ));
    assert!(matches!(finish_bookmark(true, Some(0), ""), BookmarkStep::Done));
    assert!(matches!(
        finish_bookmark(false, Some(1), "cannot create bookmark 'tank/a#m': bookmark exists\n"),
        BookmarkStep::CompareGuids
    ));
    assert!(matches!(
        finish_bookmark(false, Some(1), "permission denied\n"),
        BookmarkStep::Failed(ZfsError::PermissionDenied)
    ));
    assert!(bookmark_guid_verdict("123", "123", "tank/a#m").is_ok());
    let Err(ZfsError::BookmarkConflict { bookmark }) = bookmark_guid_verdict("123", "456", "tank/a#m") else {
        panic!("expected BookmarkConflict");
    };
    assert_eq!(bookmark, "tank/a#m");
    assert_eq!(destroy_bookmark_args("tank/a#m"), vec!["destroy", "tank/a#m"]);
}
