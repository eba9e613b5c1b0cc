//! Encryption keys: loading, unloading and checking a passphrase.
use vstd::prelude::*;
use crate::args::{push_str, single};
use crate::error::{check_status_tolerating, classification, classify_stderr, tolerant_outcome, ErrorView, ZfsError};
use crate::text::{contains_str, is_infix, views};

verus! {

/// `zfs unload-key <dataset>`.
pub fn unload_key_args(dataset: &str) -> (r: Vec<String>)
    ensures
        views(r@) == seq!["unload-key"@, dataset@],
{
    let mut r = single("unload-key");
    push_str(&mut r, dataset);
    assert(views(r@) =~= seq!["unload-key"@, dataset@]);
    r
}

/// `zfs load-key <dataset>`, with `-L <keylocation>` where one is given.
pub fn load_key_args(dataset: &str, keylocation: Option<&str>) -> (r: Vec<String>)
    ensures
        views(r@) == seq!["load-key"@] + match keylocation {
            Some(k) => seq!["-L"@, k@],
            None => Seq::<Seq<char>>::empty(),
        } + seq![dataset@],
{
    let mut r = single("load-key");
    if let Some(k) = keylocation {
        push_str(&mut r, "-L");
        push_str(&mut r, k);
    }
    push_str(&mut r, dataset);
    assert(views(r@) =~= seq!["load-key"@] + match keylocation {
        Some(k) => seq!["-L"@, k@],
        None => Seq::<Seq<char>>::empty(),
    } + seq![dataset@]);
    r
}

/// `zfs load-key [-n] -L prompt <dataset>`, the passphrase on stdin; `-n`
/// only checks it.
pub fn passphrase_args(dataset: &str, check_only: bool) -> (r: Vec<String>)
    ensures
        views(r@) == seq!["load-key"@] + (if check_only {
            seq!["-n"@]
        } else {
            Seq::<Seq<char>>::empty()
        }) + seq!["-L"@, "prompt"@, dataset@],
{
    let mut r = single("load-key");
    if check_only {
        push_str(&mut r, "-n");
    }
    push_str(&mut r, "-L");
    push_str(&mut r, "prompt");
    push_str(&mut r, dataset);
    assert(views(r@) =~= seq!["load-key"@] + (if check_only {
        seq!["-n"@]
    } else {
        Seq::<Seq<char>>::empty()
    }) + seq!["-L"@, "prompt"@, dataset@]);
    r
}

/// Judges `zfs load-key`: a key already loaded is success.
pub fn finish_load_key(success: bool, exit_code: Option<i32>, stderr: &str) -> (r: Result<(), ZfsError>)
    ensures
        match tolerant_outcome(success, exit_code, stderr@, "Key already loaded"@) {
            None => r is Ok,
            Some(f) => r matches Err(e) && e@ == f,
        },
{
    check_status_tolerating(success, exit_code, stderr, "Key already loaded")
}

/// Judges `zfs unload-key`: a key already unloaded is success.
pub fn finish_unload_key(success: bool, exit_code: Option<i32>, stderr: &str) -> (r: Result<(), ZfsError>)
    ensures
        match tolerant_outcome(success, exit_code, stderr@, "Key already unloaded"@) {
            None => r is Ok,
            Some(f) => r matches Err(e) && e@ == f,
        },
{
    check_status_tolerating(success, exit_code, stderr, "Key already unloaded")
}

/// What a passphrase check says: right, wrong (only OpenZFS's own
/// "incorrect key" answer), or the classified failure.
pub open spec fn passphrase_verdict(success: bool, exit_code: Option<i32>, stderr: Seq<char>) -> Result<
    bool,
    ErrorView,
> {
    if success {
        Ok(true)
    } else if is_infix("Incorrect key provided"@, stderr) {
        Ok(false)
    } else {
        Err(classification(stderr, exit_code))
    }
}

/// Judges `zfs load-key -n`.
pub fn finish_verify_passphrase(success: bool, exit_code: Option<i32>, stderr: &str) -> (r: Result<
    bool,
    ZfsError,
>)
    ensures
        match passphrase_verdict(success, exit_code, stderr@) {
            Ok(b) => r == Ok::<bool, ZfsError>(b),
            Err(f) => r matches Err(e) && e@ == f,
        },
{
    if success {
        Ok(true)
    } else if contains_str(stderr, "Incorrect key provided") {
        Ok(false)
    } else {
        Err(classify_stderr(stderr, exit_code))
    }
}

} // verus!
