//! Snapshot protection: user holds and bookmarks.
use vstd::prelude::*;
use crate::args::{push_str, single};
use crate::error::{check_status_tolerating, classification, classify_stderr, tolerant_outcome, ErrorView, ZfsError};
use crate::names::{bookmark_parse, snapshot_parse, BookmarkName, SnapshotName};
use crate::text::{chars_of, concat, contains_str, debug_quoted, debug_text, is_infix, lines, lines_of, parse_u64, parse_uint, split_once, split_once_of, str_eq, views};

verus! {

/// A user hold on a snapshot.
#[derive(Debug, Clone, PartialEq, Eq)]
pub struct Hold {
    pub dataset: String,
    pub tag: String,
    pub timestamp: u64,
}

/// `zfs hold <tag> <snapshot>`.
pub fn hold_args(snapshot: &str, tag: &str) -> (r: Vec<String>)
    ensures
        views(r@) == seq!["hold"@, tag@, snapshot@],
{
    let mut r = single("hold");
    push_str(&mut r, tag);
    push_str(&mut r, snapshot);
    assert(views(r@) =~= seq!["hold"@, tag@, snapshot@]);
    r
}

/// `zfs release <tag> <snapshot>`.
pub fn release_args(snapshot: &str, tag: &str) -> (r: Vec<String>)
    ensures
        views(r@) == seq!["release"@, tag@, snapshot@],
{
    let mut r = single("release");
    push_str(&mut r, tag);
    push_str(&mut r, snapshot);
    assert(views(r@) =~= seq!["release"@, tag@, snapshot@]);
    r
}

/// `zfs holds -H <snapshot>`.
pub fn holds_args(snapshot: &str) -> (r: Vec<String>)
    ensures
        views(r@) == seq!["holds"@, "-H"@, snapshot@],
{
    let mut r = single("holds");
    push_str(&mut r, "-H");
    push_str(&mut r, snapshot);
    assert(views(r@) =~= seq!["holds"@, "-H"@, snapshot@]);
    r
}

/// `zfs holds -H <snapshots>…`.
pub fn holds_many_args(snapshots: &[&str]) -> (r: Vec<String>)
    ensures
        views(r@) == seq!["holds"@, "-H"@] + snapshots@.map_values(|s: &str| s@),
{
    let mut r = single("holds");
    push_str(&mut r, "-H");
    let mut i: usize = 0;
    while i < snapshots.len()
        invariant
            i <= snapshots@.len(),
            views(r@) == seq!["holds"@, "-H"@] + snapshots@.map_values(|s: &str| s@).take(i as int),
        decreases snapshots@.len() - i,
    {
        push_str(&mut r, snapshots[i]);
        assert(snapshots@.map_values(|s: &str| s@).take(i + 1) =~= snapshots@.map_values(|s: &str| s@).take(i as int).push(snapshots@[i as int]@));
        i = i + 1;
    }
    assert(snapshots@.map_values(|s: &str| s@).take(i as int) =~= snapshots@.map_values(|s: &str| s@));
    r
}

/// Judges `zfs hold`: the tag being there already is success.
pub fn finish_hold(success: bool, exit_code: Option<i32>, stderr: &str) -> (r: Result<(), ZfsError>)
    ensures
        match tolerant_outcome(success, exit_code, stderr@, "tag already exists on this dataset"@) {
            None => r is Ok,
            Some(f) => r matches Err(e) && e@ == f,
        },
{
    check_status_tolerating(success, exit_code, stderr, "tag already exists on this dataset")
}

/// The pieces of `str::splitn(3, '\t')`: split at the first two tabs, the
/// rest whole.
pub open spec fn split3(line: Seq<char>) -> Seq<Seq<char>> {
    match split_once_of(line, '\t') {
        None => seq![line],
        Some((a, rest)) => match split_once_of(rest, '\t') {
            None => seq![a, rest],
            Some((b, c)) => seq![a, b, c],
        },
    }
}

/// One line of `zfs holds -H`: `dataset\ttag\ttimestamp`.
pub open spec fn hold_line(line: Seq<char>) -> Result<(Seq<char>, Seq<char>, u64), Seq<char>> {
    let p = split3(line);
    if p.len() != 3 {
        Err("unexpected holds line: "@ + debug_text(line))
    } else {
        match parse_uint(p[2], 10, u64::MAX as nat) {
            Ok(n) => Ok((p[0], p[1], n as u64)),
            Err(_) => Err("invalid timestamp in holds output: "@ + p[2]),
        }
    }
}

/// The holds of `zfs holds -H` output, in order; empty lines are passed
/// over and the first bad line is the error.
pub open spec fn holds_of(ls: Seq<Seq<char>>) -> Result<Seq<(Seq<char>, Seq<char>, u64)>, Seq<char>>
    decreases ls.len(),
{
    if ls.len() == 0 {
        Ok(Seq::empty())
    } else {
        match holds_of(ls.drop_last()) {
            Err(m) => Err(m),
            Ok(h) => if ls.last().len() == 0 {
                Ok(h)
            } else {
                match hold_line(ls.last()) {
                    Err(m) => Err(m),
                    Ok(x) => Ok(h.push(x)),
                }
            },
        }
    }
}

/// Once a prefix has a bad line, the whole fails the same way.
pub proof fn lemma_holds_error_extends(ls: Seq<Seq<char>>, k: int)
    requires
        0 <= k <= ls.len(),
        holds_of(ls.take(k)) is Err,
    ensures
        holds_of(ls) == holds_of(ls.take(k)),
    decreases ls.len() - k,
{
    if k < ls.len() {
        assert(ls.drop_last().take(k) =~= ls.take(k));
        lemma_holds_error_extends(ls.drop_last(), k);
    } else {
        assert(ls.take(k) =~= ls);
    }
}

/// A hold as plain values.
pub open spec fn hold_view(h: Hold) -> (Seq<char>, Seq<char>, u64) {
    (h.dataset@, h.tag@, h.timestamp)
}

/// The plain values of a list of holds.
pub open spec fn hold_views(v: Seq<Hold>) -> Seq<(Seq<char>, Seq<char>, u64)> {
    v.map_values(|h: Hold| hold_view(h))
}

/// Reads one line.
fn read_hold_line(line: &String) -> (r: Result<Hold, String>)
    ensures
        match hold_line(line@) {
            Ok(x) => r matches Ok(h) && hold_view(h) == x,
            Err(m) => r matches Err(e) && e@ == m,
        },
{
    let (a, b, c) = match split_once(line.as_str(), '\t') {
        None => {
            return Err(concat("unexpected holds line: ", debug_quoted(line.as_str()).as_str()));
        },
        Some((a, rest)) => match split_once(rest.as_str(), '\t') {
            None => {
                return Err(concat("unexpected holds line: ", debug_quoted(line.as_str()).as_str()));
            },
            Some((b, c)) => (a, b, c),
        },
    };
    match parse_u64(c.as_str()) {
        Some(n) => Ok(Hold { dataset: a, tag: b, timestamp: n }),
        None => Err(concat("invalid timestamp in holds output: ", c.as_str())),
    }
}

/// Reads `zfs holds -H` output.
pub fn parse_holds_text(text: &str) -> (r: Result<Vec<Hold>, ZfsError>)
    ensures
        match holds_of(lines_of(text@)) {
            Ok(h) => r matches Ok(v) && hold_views(v@) == h,
            Err(m) => r matches Err(e) && e@ == ErrorView::Other(None, m),
        },
{
    let ls = lines(text);
    let mut holds: Vec<Hold> = Vec::new();
    let mut i: usize = 0;
    assert(views(ls@).take(0) =~= Seq::<Seq<char>>::empty());
    assert(hold_views(holds@) =~= Seq::<(Seq<char>, Seq<char>, u64)>::empty());
    while i < ls.len()
        invariant
            i <= ls@.len(),
            views(ls@) == lines_of(text@),
            holds_of(views(ls@).take(i as int)) == Ok::<
                Seq<(Seq<char>, Seq<char>, u64)>,
                Seq<char>,
            >(hold_views(holds@)),
        decreases ls@.len() - i,
    {
        assert(views(ls@).take(i + 1).drop_last() =~= views(ls@).take(i as int));
        assert(views(ls@).take(i + 1).last() == ls@[i as int]@);
        if chars_of(ls[i].as_str()).len() > 0 {
            match read_hold_line(&ls[i]) {
                Ok(h) => {
                    let ghost before = holds@;
                    holds.push(h);
                    assert(hold_views(holds@) =~= hold_views(before).push(hold_view(h)));
                },
                Err(m) => {
                    proof {
                        lemma_holds_error_extends(views(ls@), i + 1);
                    }
                    return Err(ZfsError::Other { exit_code: None, stderr: m });
                },
            }
        }
        i = i + 1;
    }
    assert(views(ls@).take(i as int) =~= views(ls@));
    Ok(holds)
}

/// What is wrong with a bookmark request, if anything: the snapshot name,
/// the bookmark name, or the two naming different datasets.
pub open spec fn bookmark_request_fault(snapshot: Seq<char>, bookmark: Seq<char>) -> Option<ErrorView> {
    match snapshot_parse(snapshot) {
        Err(e) => Some(ErrorView::InvalidName(e)),
        Ok((sd, _)) => match bookmark_parse(bookmark) {
            Err(e) => Some(ErrorView::InvalidName(e)),
            Ok((bd, _)) => if sd != bd {
                Some(ErrorView::InvalidInput("snapshot and bookmark must belong to the same dataset"@))
            } else {
                None
            },
        },
    }
}

/// The argument list of `zfs bookmark <snapshot> <bookmark>`, once both
/// names are valid and of the same dataset.
pub fn bookmark_args(snapshot: &str, bookmark: &str) -> (r: Result<Vec<String>, ZfsError>)
    ensures
        match bookmark_request_fault(snapshot@, bookmark@) {
            Some(f) => r matches Err(e) && e@ == f,
            None => r matches Ok(v) && views(v@) == seq!["bookmark"@, snapshot@, bookmark@],
        },
{
    let s = match SnapshotName::parse(snapshot) {
        Ok(s) => s,
        Err(e) => {
            return Err(ZfsError::InvalidName(e));
        },
    };
    let b = match BookmarkName::parse(bookmark) {
        Ok(b) => b,
        Err(e) => {
            return Err(ZfsError::InvalidName(e));
        },
    };
    if !str_eq(s.dataset().as_str(), b.dataset().as_str()) {
        return Err(
            ZfsError::InvalidInput {
                message: "snapshot and bookmark must belong to the same dataset".to_owned(),
            },
        );
    }
    let mut r = single("bookmark");
    push_str(&mut r, s.as_str());
    push_str(&mut r, b.as_str());
    assert(views(r@) =~= seq!["bookmark"@, snapshot@, bookmark@]);
    Ok(r)
}

/// What follows `zfs bookmark`.
#[derive(Debug)]
pub enum BookmarkStep {
    /// The bookmark was made.
    Done,
    /// A bookmark of that name exists: compare the GUIDs of the snapshot
    /// and the bookmark.
    CompareGuids,
    /// It failed.
    Failed(ZfsError),
}

/// What follows `zfs bookmark`, from its exit and stderr.
pub open spec fn bookmark_step(success: bool, exit_code: Option<i32>, stderr: Seq<char>) -> Option<
    Option<ErrorView>,
> {
    if success {
        Some(None)
    } else if is_infix("bookmark exists"@, stderr) {
        None
    } else {
        Some(Some(classification(stderr, exit_code)))
    }
}

/// Judges `zfs bookmark`.
pub fn finish_bookmark(success: bool, exit_code: Option<i32>, stderr: &str) -> (r: BookmarkStep)
    ensures
        match bookmark_step(success, exit_code, stderr@) {
            Some(None) => r is Done,
            None => r is CompareGuids,
            Some(Some(f)) => r matches BookmarkStep::Failed(e) && e@ == f,
        },
{
    if success {
        BookmarkStep::Done
    } else if contains_str(stderr, "bookmark exists") {
        BookmarkStep::CompareGuids
    } else {
        BookmarkStep::Failed(classify_stderr(stderr, exit_code))
    }
}

/// Judges an existing bookmark by the GUIDs: the same snapshot's is
/// success, another's is a conflict.
pub fn bookmark_guid_verdict(snapshot_guid: &str, bookmark_guid: &str, bookmark: &str) -> (r: Result<
    (),
    ZfsError,
>)
    ensures
        snapshot_guid@ == bookmark_guid@ ==> r is Ok,
        snapshot_guid@ != bookmark_guid@ ==> (r matches Err(e) && e@ == ErrorView::BookmarkConflict(
            bookmark@,
        )),
{
    if str_eq(snapshot_guid, bookmark_guid) {
        Ok(())
    } else {
        Err(ZfsError::BookmarkConflict { bookmark: bookmark.to_owned() })
    }
}

/// `zfs destroy <bookmark>`.
pub fn destroy_bookmark_args(bookmark: &str) -> (r: Vec<String>)
    ensures
        views(r@) == seq!["destroy"@, bookmark@],
{
    let mut r = single("destroy");
    push_str(&mut r, bookmark);
    assert(views(r@) =~= seq!["destroy"@, bookmark@]);
    r
}

} // verus!
