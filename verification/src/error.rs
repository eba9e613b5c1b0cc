//! The library's error type and the classification of `zfs`/`zpool`
//! stderr into its variants.
use vstd::prelude::*;
use crate::names::{name_error_message, NameError, NameKind, NameReason};
use crate::text::{contains_str, decimal, has_prefix, is_infix, push_char, push_decimal, trim_of, trim_str};

verus! {

/// `std::io::Error`, declared so that [`ZfsError::Spawn`] can carry it;
/// nothing inside it is looked at.
#[verifier::external_type_specification]
#[verifier::external_body]
pub struct ExIoError(std::io::Error);

/// Everything an operation of this library can fail with.
#[derive(Debug)]
pub enum ZfsError {
    DatasetNotFound { name: String },
    PermissionDenied,
    Busy { name: String },
    SnapshotHeld { name: String },
    SnapshotExists { name: String },
    KeyNotLoaded { name: Option<String> },
    PoolNotFound { name: String },
    NoSpace,
    Spawn(std::io::Error),
    Other { exit_code: Option<i32>, stderr: String },
    Parse { command: &'static str, message: String },
    IncompatibleOutput { command: &'static str, major: u32, minor: u32 },
    InvalidName(NameError),
    InvalidInput { message: String },
    BookmarkConflict { bookmark: String },
}

/// A [`ZfsError`] as plain values (the I/O error of `Spawn` is not looked into).
pub enum ErrorView {
    DatasetNotFound(Seq<char>),
    PermissionDenied,
    Busy(Seq<char>),
    SnapshotHeld(Seq<char>),
    SnapshotExists(Seq<char>),
    KeyNotLoaded(Option<Seq<char>>),
    PoolNotFound(Seq<char>),
    NoSpace,
    Spawn,
    Other(Option<i32>, Seq<char>),
    Parse(Seq<char>, Seq<char>),
    IncompatibleOutput(Seq<char>, u32, u32),
    InvalidName((NameKind, Seq<char>, NameReason)),
    InvalidInput(Seq<char>),
    BookmarkConflict(Seq<char>),
}

/// The view of an optional string.
pub open spec fn opt_view(o: Option<String>) -> Option<Seq<char>> {
    match o {
        Some(s) => Some(s@),
        None => None,
    }
}

impl View for ZfsError {
    type V = ErrorView;

    open spec fn view(&self) -> ErrorView {
        match self {
            ZfsError::DatasetNotFound { name } => ErrorView::DatasetNotFound(name@),
            ZfsError::PermissionDenied => ErrorView::PermissionDenied,
            ZfsError::Busy { name } => ErrorView::Busy(name@),
            ZfsError::SnapshotHeld { name } => ErrorView::SnapshotHeld(name@),
            ZfsError::SnapshotExists { name } => ErrorView::SnapshotExists(name@),
            ZfsError::KeyNotLoaded { name } => ErrorView::KeyNotLoaded(opt_view(*name)),
            ZfsError::PoolNotFound { name } => ErrorView::PoolNotFound(name@),
            ZfsError::NoSpace => ErrorView::NoSpace,
            ZfsError::Spawn(_) => ErrorView::Spawn,
            ZfsError::Other { exit_code, stderr } => ErrorView::Other(*exit_code, stderr@),
            ZfsError::Parse { command, message } => ErrorView::Parse(command@, message@),
            ZfsError::IncompatibleOutput { command, major, minor } => ErrorView::IncompatibleOutput(
                command@,
                *major,
                *minor,
            ),
            ZfsError::InvalidName(e) => ErrorView::InvalidName(e@),
            ZfsError::InvalidInput { message } => ErrorView::InvalidInput(message@),
            ZfsError::BookmarkConflict { bookmark } => ErrorView::BookmarkConflict(bookmark@),
        }
    }
}

/// The decimal text of a signed integer, with `-` before a negative one.
pub open spec fn signed_decimal(n: int) -> Seq<char> {
    if n < 0 {
        seq!['-'] + decimal((-n) as nat)
    } else {
        decimal(n as nat)
    }
}

/// How `{:?}` shows an exit code: `Some(<n>)` or `None`.
pub open spec fn exit_code_debug(c: Option<i32>) -> Seq<char> {
    match c {
        Some(n) => "Some("@ + signed_decimal(n as int) + ")"@,
        None => "None"@,
    }
}

/// The message of each error. For `Spawn` this is the text the message
/// starts with; the I/O error's own text follows it.
pub open spec fn error_message(e: ErrorView) -> Seq<char> {
    match e {
        ErrorView::DatasetNotFound(n) => "dataset not found: "@ + n,
        ErrorView::PermissionDenied => "permission denied"@,
        ErrorView::Busy(n) => "dataset is busy: "@ + n,
        ErrorView::SnapshotHeld(n) => "snapshot is held: "@ + n,
        ErrorView::SnapshotExists(n) => "snapshot already exists: "@ + n,
        ErrorView::KeyNotLoaded(n) => "encryption key not loaded"@ + match n {
            Some(name) => " for "@ + name,
            None => Seq::<char>::empty(),
        },
        ErrorView::PoolNotFound(n) => "pool not found: "@ + n,
        ErrorView::NoSpace => "out of space"@,
        ErrorView::Spawn => "failed to spawn zfs: "@,
        ErrorView::Other(c, err) => "zfs exited with "@ + exit_code_debug(c) + ": "@ + err,
        ErrorView::Parse(command, message) => "failed to parse "@ + command + " output: "@ + message,
        ErrorView::IncompatibleOutput(command, major, minor) => "unsupported "@ + command
            + " JSON output version "@ + decimal(major as nat) + seq!['.'] + decimal(minor as nat),
        ErrorView::InvalidName(e) => name_error_message(e),
        ErrorView::InvalidInput(message) => "invalid input: "@ + message,
        ErrorView::BookmarkConflict(b) => "bookmark "@ + b + " already exists for a different snapshot"@,
    }
}

/// `<std::io::Error as Display>::fmt`, through `to_string`. Nothing is
/// claimed of the text: for an error of the operating system it is the
/// system's own message, which differs between machines.
#[verifier::external_body]
fn io_error_text(e: &std::io::Error) -> String {
    e.to_string()
}

/// Appends the decimal text of `n`, with `-` before a negative one.
fn push_signed(s: &mut String, n: i32)
    ensures
        final(s)@ == old(s)@ + signed_decimal(n as int),
{
    if n < 0 {
        push_char(s, '-');
        let m: u64 = if n == i32::MIN {
            2147483648u64
        } else {
            (-n) as u64
        };
        push_decimal(s, m);
        assert(final(s)@ =~= old(s)@ + signed_decimal(n as int));
    } else {
        push_decimal(s, n as u64);
    }
}

impl ZfsError {
    /// The error's message. That of `Spawn` is `failed to spawn zfs: `
    /// followed by the I/O error's own text.
    pub fn message(&self) -> (r: String)
        ensures
            !(self@ is Spawn) ==> r@ == error_message(self@),
            self@ is Spawn ==> has_prefix(r@, error_message(self@)),
    {
        match self {
            ZfsError::DatasetNotFound { name } => crate::text::concat("dataset not found: ", name.as_str()),
            ZfsError::PermissionDenied => "permission denied".to_owned(),
            ZfsError::Busy { name } => crate::text::concat("dataset is busy: ", name.as_str()),
            ZfsError::SnapshotHeld { name } => crate::text::concat("snapshot is held: ", name.as_str()),
            ZfsError::SnapshotExists { name } => crate::text::concat("snapshot already exists: ", name.as_str()),
            ZfsError::KeyNotLoaded { name } => {
                let mut r = "encryption key not loaded".to_owned();
                match name {
                    Some(n) => {
                        r.append(" for ");
                        r.append(n.as_str());
                    },
                    None => {},
                }
                assert(r@ =~= error_message(self@));
                r
            },
            ZfsError::PoolNotFound { name } => crate::text::concat("pool not found: ", name.as_str()),
            ZfsError::NoSpace => "out of space".to_owned(),
            ZfsError::Spawn(e) => {
                let r = crate::text::concat("failed to spawn zfs: ", io_error_text(e).as_str());
                proof {
                    assert(r@.take(error_message(self@).len() as int) =~= error_message(self@));
                }
                r
            },
            ZfsError::Other { exit_code, stderr } => {
                let mut r = "zfs exited with ".to_owned();
                match exit_code {
                    Some(n) => {
                        r.append("Some(");
                        push_signed(&mut r, *n);
                        r.append(")");
                    },
                    None => r.append("None"),
                }
                r.append(": ");
                r.append(stderr.as_str());
                assert(r@ =~= error_message(self@));
                r
            },
            ZfsError::Parse { command, message } => {
                let mut r = crate::text::concat3("failed to parse ", command, " output: ");
                r.append(message.as_str());
                assert(r@ =~= error_message(self@));
                r
            },
            ZfsError::IncompatibleOutput { command, major, minor } => {
                let mut r = crate::text::concat3("unsupported ", command, " JSON output version ");
                push_decimal(&mut r, *major as u64);
                push_char(&mut r, '.');
                push_decimal(&mut r, *minor as u64);
                assert(r@ =~= error_message(self@));
                r
            },
            ZfsError::InvalidName(e) => e.message(),
            ZfsError::InvalidInput { message } => crate::text::concat("invalid input: ", message.as_str()),
            ZfsError::BookmarkConflict { bookmark } => {
                let r = crate::text::concat3("bookmark ", bookmark.as_str(), " already exists for a different snapshot");
                r
            },
        }
    }
}

/// What `Regex::new(pattern)` then `captures(haystack)` gives as the text
/// of capture group 1, `None` where the pattern does not match.
pub uninterp spec fn regex_capture(pattern: Seq<char>, haystack: Seq<char>) -> Option<Seq<char>>;

/// `regex::Regex::new(pattern)`, then `Regex::captures(haystack)` and the
/// text of group 1. Claimed of it: the result is `regex_capture` of the two
/// texts, so it depends on them alone. A pattern that does not compile
/// gives `None`; the patterns handed to it here are constants that compile.
#[verifier::external_body]
fn first_capture(pattern: &str, haystack: &str) -> (r: Option<String>)
    ensures
        opt_view(r) == regex_capture(pattern@, haystack@),
{
    let re = match regex::Regex::new(pattern) {
        Ok(re) => re,
        Err(_) => return None,
    };
    match re.captures(haystack) {
        Some(caps) => match caps.get(1) {
            Some(m) => Some(m.as_str().to_string()),
            None => None,
        },
        None => None,
    }
}

pub open spec fn pool_not_found_pattern() -> Seq<char> {
    "cannot import '([^']+)': no such pool available"@
}

pub open spec fn dataset_not_found_pattern() -> Seq<char> {
    "cannot open '([^']+)': (?:dataset does not exist|no such pool or dataset)"@
}

pub open spec fn snapshot_held_pattern() -> Seq<char> {
    "cannot destroy snapshot ([^:]+): it's being held"@
}

pub open spec fn snapshot_exists_pattern() -> Seq<char> {
    "cannot create snapshot '([^']+)': dataset already exists"@
}

pub open spec fn key_not_loaded_pattern() -> Seq<char> {
    "Key must be loaded for '([^']+)'"@
}

pub open spec fn busy_pattern() -> Seq<char> {
    "cannot [a-z ]+ '([^']+)': dataset is busy"@
}

/// How stderr is classified, given what each of the patterns captured, in
/// the order they are tried: pool not found, dataset not found, snapshot
/// held, snapshot exists, key not loaded (named, then by its marker),
/// busy, permission denied, out of space; otherwise `Other` with the
/// trimmed text.
pub open spec fn classify_spec(
    stderr: Seq<char>,
    exit_code: Option<i32>,
    pool_not_found: Option<Seq<char>>,
    dataset_not_found: Option<Seq<char>>,
    snapshot_held: Option<Seq<char>>,
    snapshot_exists: Option<Seq<char>>,
    key_not_loaded: Option<Seq<char>>,
    busy: Option<Seq<char>>,
) -> ErrorView {
    if pool_not_found is Some {
        ErrorView::PoolNotFound(pool_not_found->0)
    } else if dataset_not_found is Some {
        ErrorView::DatasetNotFound(dataset_not_found->0)
    } else if snapshot_held is Some {
        ErrorView::SnapshotHeld(snapshot_held->0)
    } else if snapshot_exists is Some {
        ErrorView::SnapshotExists(snapshot_exists->0)
    } else if key_not_loaded is Some {
        ErrorView::KeyNotLoaded(key_not_loaded)
    } else if is_infix("Key must be loaded"@, stderr) {
        ErrorView::KeyNotLoaded(None)
    } else if busy is Some {
        ErrorView::Busy(busy->0)
    } else if is_infix("permission denied"@, stderr) {
        ErrorView::PermissionDenied
    } else if is_infix("out of space"@, stderr) || is_infix("no space left on device"@, stderr) {
        ErrorView::NoSpace
    } else {
        ErrorView::Other(exit_code, trim_of(stderr))
    }
}

/// How `stderr` is classified.
pub open spec fn classification(stderr: Seq<char>, exit_code: Option<i32>) -> ErrorView {
    classify_spec(
        stderr,
        exit_code,
        regex_capture(pool_not_found_pattern(), stderr),
        regex_capture(dataset_not_found_pattern(), stderr),
        regex_capture(snapshot_held_pattern(), stderr),
        regex_capture(snapshot_exists_pattern(), stderr),
        regex_capture(key_not_loaded_pattern(), stderr),
        regex_capture(busy_pattern(), stderr),
    )
}

/// Busy is read from any command's refusal: the pattern handed to the
/// regex is `cannot [a-z ]+ '([^']+)': dataset is busy`, whose verb part
/// is any run of lowercase letters and spaces, not one command's name; and
/// where that pattern captures `name` from stderr that no earlier pattern
/// or key marker matches, the error is `Busy` of `name`.
pub proof fn lemma_busy_any_verb(stderr: Seq<char>, exit_code: Option<i32>, name: Seq<char>)
    requires
        regex_capture(pool_not_found_pattern(), stderr) is None,
        regex_capture(dataset_not_found_pattern(), stderr) is None,
        regex_capture(snapshot_held_pattern(), stderr) is None,
        regex_capture(snapshot_exists_pattern(), stderr) is None,
        regex_capture(key_not_loaded_pattern(), stderr) is None,
        !is_infix("Key must be loaded"@, stderr),
        regex_capture("cannot [a-z ]+ '([^']+)': dataset is busy"@, stderr) == Some(name),
    ensures
        busy_pattern() == "cannot "@ + "[a-z ]+"@ + " '([^']+)': dataset is busy"@,
        classification(stderr, exit_code) == ErrorView::Busy(name),
{
    reveal_strlit("cannot [a-z ]+ '([^']+)': dataset is busy");
    reveal_strlit("cannot ");
    reveal_strlit("[a-z ]+");
    reveal_strlit(" '([^']+)': dataset is busy");
    assert(busy_pattern() =~= "cannot "@ + "[a-z ]+"@ + " '([^']+)': dataset is busy"@);
}

/// Classifies `stderr` given what each pattern captured from it.
pub fn classify_captures(
    stderr: &str,
    exit_code: Option<i32>,
    pool_not_found: Option<String>,
    dataset_not_found: Option<String>,
    snapshot_held: Option<String>,
    snapshot_exists: Option<String>,
    key_not_loaded: Option<String>,
    busy: Option<String>,
) -> (r: ZfsError)
    ensures
        r@ == classify_spec(
            stderr@,
            exit_code,
            opt_view(pool_not_found),
            opt_view(dataset_not_found),
            opt_view(snapshot_held),
            opt_view(snapshot_exists),
            opt_view(key_not_loaded),
            opt_view(busy),
        ),
{
    if let Some(name) = pool_not_found {
        return ZfsError::PoolNotFound { name };
    }
    if let Some(name) = dataset_not_found {
        return ZfsError::DatasetNotFound { name };
    }
    if let Some(name) = snapshot_held {
        return ZfsError::SnapshotHeld { name };
    }
    if let Some(name) = snapshot_exists {
        return ZfsError::SnapshotExists { name };
    }
    if key_not_loaded.is_some() {
        return ZfsError::KeyNotLoaded { name: key_not_loaded };
    }
    if contains_str(stderr, "Key must be loaded") {
        return ZfsError::KeyNotLoaded { name: None };
    }
    if let Some(name) = busy {
        return ZfsError::Busy { name };
    }
    if contains_str(stderr, "permission denied") {
        return ZfsError::PermissionDenied;
    }
    if contains_str(stderr, "out of space") || contains_str(stderr, "no space left on device") {
        return ZfsError::NoSpace;
    }
    ZfsError::Other { exit_code, stderr: trim_str(stderr) }
}

/// Classifies the stderr of a failed `zfs`/`zpool` command into a
/// [`ZfsError`].
pub fn classify_stderr(stderr: &str, exit_code: Option<i32>) -> (r: ZfsError)
    ensures
        r@ == classification(stderr@, exit_code),
{
    let pool_not_found = first_capture("cannot import '([^']+)': no such pool available", stderr);
    let dataset_not_found = first_capture(
        "cannot open '([^']+)': (?:dataset does not exist|no such pool or dataset)",
        stderr,
    );
    let snapshot_held = first_capture("cannot destroy snapshot ([^:]+): it's being held", stderr);
    let snapshot_exists = first_capture(
        "cannot create snapshot '([^']+)': dataset already exists",
        stderr,
    );
    let key_not_loaded = first_capture("Key must be loaded for '([^']+)'", stderr);
    let busy = first_capture("cannot [a-z ]+ '([^']+)': dataset is busy", stderr);
    classify_captures(
        stderr,
        exit_code,
        pool_not_found,
        dataset_not_found,
        snapshot_held,
        snapshot_exists,
        key_not_loaded,
        busy,
    )
}

/// How a command is judged from its exit and stderr: success, else the
/// classified stderr.
pub open spec fn status_outcome(success: bool, exit_code: Option<i32>, stderr: Seq<char>) -> Option<
    ErrorView,
> {
    if success {
        None
    } else {
        Some(classification(stderr, exit_code))
    }
}

/// Judges a finished command: success, or its classified stderr.
pub fn check_status(success: bool, exit_code: Option<i32>, stderr: &str) -> (r: Result<(), ZfsError>)
    ensures
        match status_outcome(success, exit_code, stderr@) {
            None => r is Ok,
            Some(f) => r matches Err(e) && e@ == f,
        },
{
    if success {
        Ok(())
    } else {
        Err(classify_stderr(stderr, exit_code))
    }
}

/// How a command is judged where stderr holding `benign` still counts as
/// success: the command's wanted state already held.
pub open spec fn tolerant_outcome(
    success: bool,
    exit_code: Option<i32>,
    stderr: Seq<char>,
    benign: Seq<char>,
) -> Option<ErrorView> {
    if success || is_infix(benign, stderr) {
        None
    } else {
        Some(classification(stderr, exit_code))
    }
}

/// Judges a finished command that also succeeds where stderr holds `benign`.
pub fn check_status_tolerating(
    success: bool,
    exit_code: Option<i32>,
    stderr: &str,
    benign: &str,
) -> (r: Result<(), ZfsError>)
    ensures
        match tolerant_outcome(success, exit_code, stderr@, benign@) {
            None => r is Ok,
            Some(f) => r matches Err(e) && e@ == f,
        },
{
    if success || contains_str(stderr, benign) {
        Ok(())
    } else {
        Err(classify_stderr(stderr, exit_code))
    }
}

impl From<NameError> for ZfsError {
    fn from(e: NameError) -> (r: ZfsError)
        ensures
            r == ZfsError::InvalidName(e),
    {
        ZfsError::InvalidName(e)
    }
}

impl vstd::std_specs::convert::FromSpecImpl<NameError> for ZfsError {
    open spec fn obeys_from_spec() -> bool {
        true
    }

    open spec fn from_spec(e: NameError) -> ZfsError {
        ZfsError::InvalidName(e)
    }
}

impl From<std::io::Error> for ZfsError {
    fn from(e: std::io::Error) -> (r: ZfsError)
        ensures
            r == ZfsError::Spawn(e),
    {
        ZfsError::Spawn(e)
    }
}

impl vstd::std_specs::convert::FromSpecImpl<std::io::Error> for ZfsError {
    open spec fn obeys_from_spec() -> bool {
        true
    }

    open spec fn from_spec(e: std::io::Error) -> ZfsError {
        ZfsError::Spawn(e)
    }
}

} // verus!
