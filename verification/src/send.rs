//! `zfs send`: its arguments, and the size estimate of `zfs send -nvP`.
use vstd::prelude::*;
use crate::args::{adds_word, flag_if, lemma_flag_word, lemma_one_word_around, lemma_one_word_then, one_word_more, push_all, push_flag, push_str, single};
use crate::error::{ErrorView, ZfsError};
use crate::names::{
    bookmark_parse, dataset_fault, name_error_message, snapshot_parse, BookmarkName, DatasetName,
    NameError, NameKind, NameReason, SnapshotName,
};
use crate::text::{
    concat, contains_str, debug_quoted, debug_text, has_prefix, lacks, lines, lines_of,
    parse_u64, parse_uint, split_chars, split_on, chars_of, strip_prefix_str, views,
};

verus! {

/// Source for an incremental or resume send.
#[derive(Debug, Clone)]
pub enum SendFrom {
    /// `-i <from_snap>`: only the difference since `from_snap`.
    Incremental(String),
    /// `-I <from_snap>`: every intermediate snapshot since `from_snap`.
    IncrementalAll(String),
    /// `-t <token>`: resume an interrupted send.
    ResumeToken(String),
}

/// Arguments for a `zfs send` invocation: full and incremental sends,
/// resume tokens, and the replication flags.
#[derive(Debug, Clone)]
pub struct SendArgs {
    /// Dataset, volume or snapshot to send; empty for a resume-token send,
    /// whose token names the target.
    pub target: String,
    pub from: Option<SendFrom>,
    /// `-R`: replicate the whole dataset tree.
    pub replicate: bool,
    /// `-w`: send raw (encrypted) data.
    pub raw: bool,
    /// `-p`: include dataset properties.
    pub properties: bool,
    /// `-c`: compressed WRITE records.
    pub compressed: bool,
    /// `-L`: large blocks.
    pub large_blocks: bool,
    /// `-e`: embedded-data WRITE records.
    pub embedded: bool,
}

/// Why a `zfs send` could not be built.
#[derive(Debug)]
pub enum SendArgsError {
    InvalidName(NameError),
    DryRunWithResumeToken,
    IncompatibleResumeOption { option: &'static str },
    SnapshotTargetRequired { operation: &'static str },
    MultiSnapshotFromBookmark { operation: &'static str },
    EmptyResumeToken,
}

/// A [`SendArgsError`] as plain values.
pub enum SendFault {
    InvalidName((NameKind, Seq<char>, NameReason)),
    DryRunWithResumeToken,
    IncompatibleResumeOption(Seq<char>),
    SnapshotTargetRequired(Seq<char>),
    MultiSnapshotFromBookmark(Seq<char>),
    EmptyResumeToken,
}

impl View for SendArgsError {
    type V = SendFault;

    open spec fn view(&self) -> SendFault {
        match self {
            SendArgsError::InvalidName(e) => SendFault::InvalidName(e@),
            SendArgsError::DryRunWithResumeToken => SendFault::DryRunWithResumeToken,
            SendArgsError::IncompatibleResumeOption { option } => SendFault::IncompatibleResumeOption(option@),
            SendArgsError::SnapshotTargetRequired { operation } => SendFault::SnapshotTargetRequired(operation@),
            SendArgsError::MultiSnapshotFromBookmark { operation } => SendFault::MultiSnapshotFromBookmark(operation@),
            SendArgsError::EmptyResumeToken => SendFault::EmptyResumeToken,
        }
    }
}

/// The message of each send-argument error.
pub open spec fn send_fault_message(f: SendFault) -> Seq<char> {
    match f {
        SendFault::InvalidName(e) => name_error_message(e),
        SendFault::DryRunWithResumeToken => "dry-run size estimate is not applicable with a resume token; use resume_token::decode() for the token decode + estimated-size operation"@,
        SendFault::IncompatibleResumeOption(o) => "zfs send -t cannot be combined with "@ + o,
        SendFault::SnapshotTargetRequired(o) => o + " requires a snapshot target"@,
        SendFault::MultiSnapshotFromBookmark(o) => o + " cannot use a bookmark as its incremental source"@,
        SendFault::EmptyResumeToken => "resume token must not be empty"@,
    }
}

/// What a send-argument error becomes as a [`ZfsError`].
pub open spec fn send_fault_error(f: SendFault) -> ErrorView {
    match f {
        SendFault::InvalidName(e) => ErrorView::InvalidName(e),
        _ => ErrorView::InvalidInput(send_fault_message(f)),
    }
}

impl SendArgsError {
    /// The error's message.
    pub fn message(&self) -> (r: String)
        ensures
            r@ == send_fault_message(self@),
    {
        match self {
            SendArgsError::InvalidName(e) => e.message(),
            SendArgsError::DryRunWithResumeToken => "dry-run size estimate is not applicable with a resume token; use resume_token::decode() for the token decode + estimated-size operation".to_owned(),
            SendArgsError::IncompatibleResumeOption { option } => concat("zfs send -t cannot be combined with ", option),
            SendArgsError::SnapshotTargetRequired { operation } => concat(operation, " requires a snapshot target"),
            SendArgsError::MultiSnapshotFromBookmark { operation } => concat(operation, " cannot use a bookmark as its incremental source"),
            SendArgsError::EmptyResumeToken => "resume token must not be empty".to_owned(),
        }
    }

    /// The error as a [`ZfsError`]: a name error stays one, the others
    /// become `InvalidInput` with their message.
    pub fn into_zfs_error(self) -> (r: ZfsError)
        ensures
            r@ == send_fault_error(self@),
    {
        match self {
            SendArgsError::InvalidName(e) => ZfsError::InvalidName(e),
            other => {
                let message = other.message();
                ZfsError::InvalidInput { message }
            },
        }
    }
}

/// The name error raised for an incremental source, if any. A source of
/// `@tag` or `#mark` is checked as a short name, a full name by its
/// separator, and a bare word as a snapshot tag.
pub open spec fn incremental_source_fault(s: Seq<char>) -> Option<(NameKind, Seq<char>, NameReason)> {
    let r = if has_prefix(s, "@"@) {
        snapshot_parse("pool@"@ + s.skip(1))
    } else if has_prefix(s, "#"@) {
        bookmark_parse("pool#"@ + s.skip(1))
    } else if !lacks(s, '@') {
        snapshot_parse(s)
    } else if !lacks(s, '#') {
        bookmark_parse(s)
    } else {
        snapshot_parse("pool@"@ + s)
    };
    match r {
        Ok(_) => None,
        Err(e) => Some(e),
    }
}

/// Checks an incremental source name.
pub fn validate_incremental_source(source: &str) -> (r: Result<(), NameError>)
    ensures
        match r {
            Ok(()) => incremental_source_fault(source@) is None,
            Err(e) => incremental_source_fault(source@) == Some(e@),
        },
{
    proof {
        reveal_strlit("@");
        reveal_strlit("#");
        lemma_contains_char(source@, '@');
        lemma_contains_char(source@, '#');
        assert("@"@ =~= seq!['@']);
        assert("#"@ =~= seq!['#']);
    }
    let r = if let Some(tag) = strip_prefix_str(source, "@") {
        let full = concat("pool@", tag.as_str());
        proof { reveal_strlit("pool@"); assert(full@ == "pool@"@ + source@.skip(1)); }
        match SnapshotName::parse(full.as_str()) {
            Ok(_) => Ok(()),
            Err(e) => Err(e),
        }
    } else if let Some(mark) = strip_prefix_str(source, "#") {
        let full = concat("pool#", mark.as_str());
        proof { reveal_strlit("pool#"); assert(full@ == "pool#"@ + source@.skip(1)); }
        match BookmarkName::parse(full.as_str()) {
            Ok(_) => Ok(()),
            Err(e) => Err(e),
        }
    } else if contains_str(source, "@") {
        match SnapshotName::parse(source) {
            Ok(_) => Ok(()),
            Err(e) => Err(e),
        }
    } else if contains_str(source, "#") {
        match BookmarkName::parse(source) {
            Ok(_) => Ok(()),
            Err(e) => Err(e),
        }
    } else {
        let full = concat("pool@", source);
        match SnapshotName::parse(full.as_str()) {
            Ok(_) => Ok(()),
            Err(e) => Err(e),
        }
    };
    r
}

/// Containing the one-character text `[c]` is containing `c`.
pub proof fn lemma_contains_char(s: Seq<char>, c: char)
    ensures
        crate::text::is_infix(seq![c], s) == !lacks(s, c),
{
    if !lacks(s, c) {
        let i = choose|i: int| 0 <= i < s.len() && s[i] == c;
        assert(s.subrange(i, i + 1) =~= seq![c]);
        assert(crate::text::occurs_at(s, seq![c], i));
    }
    if crate::text::is_infix(seq![c], s) {
        let i = choose|i: int| crate::text::occurs_at(s, seq![c], i);
        assert(s.subrange(i, i + 1)[0] == s[i]);
        assert(s[i] == c);
    }
}

/// The name error of a send target, checked as a snapshot when it holds
/// `@` and as a dataset otherwise.
pub open spec fn send_target_fault(t: Seq<char>) -> Option<(NameKind, Seq<char>, NameReason)> {
    if !lacks(t, '@') {
        match snapshot_parse(t) {
            Ok(_) => None,
            Err(e) => Some(e),
        }
    } else {
        match dataset_fault(t) {
            Some(r) => Some((NameKind::Dataset, t, r)),
            None => None,
        }
    }
}

/// The stream flags, in the order they are written: `-R -w -p -c -L -e`.
pub open spec fn send_flags(a: SendArgs) -> Seq<Seq<char>> {
    flag_if(a.replicate, "-R"@) + flag_if(a.raw, "-w"@) + flag_if(a.properties, "-p"@)
        + flag_if(a.compressed, "-c"@) + flag_if(a.large_blocks, "-L"@) + flag_if(
        a.embedded,
        "-e"@,
    )
}

/// The argument list of a resumed send.
pub open spec fn resume_plan(a: SendArgs, token: Seq<char>, dry_run: bool) -> Result<
    Seq<Seq<char>>,
    SendFault,
> {
    if token.len() == 0 {
        Err(SendFault::EmptyResumeToken)
    } else if a.replicate {
        Err(SendFault::IncompatibleResumeOption("-R/replicate"@))
    } else if a.properties {
        Err(SendFault::IncompatibleResumeOption("-p/properties"@))
    } else if dry_run {
        Err(SendFault::DryRunWithResumeToken)
    } else {
        Ok(seq!["send"@] + send_flags(a) + seq!["-t"@, token])
    }
}

/// The arguments `-n -v -P` of a dry run.
pub open spec fn dry_flags(dry_run: bool) -> Seq<Seq<char>> {
    if dry_run {
        seq!["-n"@, "-v"@, "-P"@]
    } else {
        Seq::<Seq<char>>::empty()
    }
}

/// Why a full or incremental send cannot be built, if it cannot: the
/// target's name, `-R` or `-I` without a snapshot target, the source's
/// name, and a bookmark source for `-R` or `-I`, in that order.
#[verifier::opaque]
pub open spec fn stream_fault(a: SendArgs) -> Option<SendFault> {
    let is_snapshot = !lacks(a.target@, '@');
    let all = a.from matches Some(SendFrom::IncrementalAll(_));
    if send_target_fault(a.target@) is Some {
        Some(SendFault::InvalidName(send_target_fault(a.target@)->0))
    } else if a.replicate && !is_snapshot {
        Some(SendFault::SnapshotTargetRequired("replicated send (-R)"@))
    } else if all && !is_snapshot {
        Some(SendFault::SnapshotTargetRequired("incremental-all send (-I)"@))
    } else {
        match a.from {
            Some(SendFrom::Incremental(src)) | Some(SendFrom::IncrementalAll(src)) => {
                if incremental_source_fault(src@) is Some {
                    Some(SendFault::InvalidName(incremental_source_fault(src@)->0))
                } else if (a.replicate || all) && !lacks(src@, '#') {
                    Some(SendFault::MultiSnapshotFromBookmark(
                        if a.replicate {
                            "zfs send -R"@
                        } else {
                            "zfs send -I"@
                        },
                    ))
                } else {
                    None
                }
            },
            _ => None,
        }
    }
}

/// What follows the flags: `-i`/`-I` and the source where there is one,
/// then the target.
pub open spec fn stream_tail(a: SendArgs) -> Seq<Seq<char>> {
    match a.from {
        Some(SendFrom::Incremental(src)) => seq!["-i"@, src@, a.target@],
        Some(SendFrom::IncrementalAll(src)) => seq!["-I"@, src@, a.target@],
        _ => seq![a.target@],
    }
}

/// The argument list of a full or incremental send.
pub open spec fn stream_plan(a: SendArgs, dry_run: bool) -> Result<Seq<Seq<char>>, SendFault> {
    match stream_fault(a) {
        Some(f) => Err(f),
        None => Ok(seq!["send"@] + dry_flags(dry_run) + send_flags(a) + stream_tail(a)),
    }
}

/// The argument list of `zfs send` for `a`, or why there is none.
pub open spec fn send_plan(a: SendArgs, dry_run: bool) -> Result<Seq<Seq<char>>, SendFault> {
    match a.from {
        Some(SendFrom::ResumeToken(token)) => resume_plan(a, token@, dry_run),
        _ => stream_plan(a, dry_run),
    }
}

/// Setting one stream flag's field puts that flag's word, once, into the
/// stream flags.
proof fn lemma_send_flags_toggle(a: SendArgs)
    ensures
        one_word_more(send_flags(SendArgs { replicate: true, ..a }), send_flags(SendArgs { replicate: false, ..a }), "-R"@),
        one_word_more(send_flags(SendArgs { raw: true, ..a }), send_flags(SendArgs { raw: false, ..a }), "-w"@),
        one_word_more(send_flags(SendArgs { properties: true, ..a }), send_flags(SendArgs { properties: false, ..a }), "-p"@),
        one_word_more(send_flags(SendArgs { compressed: true, ..a }), send_flags(SendArgs { compressed: false, ..a }), "-c"@),
        one_word_more(send_flags(SendArgs { large_blocks: true, ..a }), send_flags(SendArgs { large_blocks: false, ..a }), "-L"@),
        one_word_more(send_flags(SendArgs { embedded: true, ..a }), send_flags(SendArgs { embedded: false, ..a }), "-e"@),
{
    assert(one_word_more(send_flags(SendArgs { replicate: true, ..a }), send_flags(SendArgs { replicate: false, ..a }), "-R"@)) by {
        let h = Seq::<Seq<char>>::empty();
        lemma_flag_word(h, "-R"@);
        lemma_one_word_then(h + flag_if(true, "-R"@), h + flag_if(false, "-R"@), "-R"@, flag_if(a.raw, "-w"@));
        lemma_one_word_then((h + flag_if(true, "-R"@)) + flag_if(a.raw, "-w"@), (h + flag_if(false, "-R"@)) + flag_if(a.raw, "-w"@), "-R"@, flag_if(a.properties, "-p"@));
        lemma_one_word_then(((h + flag_if(true, "-R"@)) + flag_if(a.raw, "-w"@)) + flag_if(a.properties, "-p"@), ((h + flag_if(false, "-R"@)) + flag_if(a.raw, "-w"@)) + flag_if(a.properties, "-p"@), "-R"@, flag_if(a.compressed, "-c"@));
        lemma_one_word_then((((h + flag_if(true, "-R"@)) + flag_if(a.raw, "-w"@)) + flag_if(a.properties, "-p"@)) + flag_if(a.compressed, "-c"@), (((h + flag_if(false, "-R"@)) + flag_if(a.raw, "-w"@)) + flag_if(a.properties, "-p"@)) + flag_if(a.compressed, "-c"@), "-R"@, flag_if(a.large_blocks, "-L"@));
        lemma_one_word_then(((((h + flag_if(true, "-R"@)) + flag_if(a.raw, "-w"@)) + flag_if(a.properties, "-p"@)) + flag_if(a.compressed, "-c"@)) + flag_if(a.large_blocks, "-L"@), ((((h + flag_if(false, "-R"@)) + flag_if(a.raw, "-w"@)) + flag_if(a.properties, "-p"@)) + flag_if(a.compressed, "-c"@)) + flag_if(a.large_blocks, "-L"@), "-R"@, flag_if(a.embedded, "-e"@));
        assert(send_flags(SendArgs { replicate: true, ..a }) =~= (((((h + flag_if(true, "-R"@)) + flag_if(a.raw, "-w"@)) + flag_if(a.properties, "-p"@)) + flag_if(a.compressed, "-c"@)) + flag_if(a.large_blocks, "-L"@)) + flag_if(a.embedded, "-e"@));
        assert(send_flags(SendArgs { replicate: false, ..a }) =~= (((((h + flag_if(false, "-R"@)) + flag_if(a.raw, "-w"@)) + flag_if(a.properties, "-p"@)) + flag_if(a.compressed, "-c"@)) + flag_if(a.large_blocks, "-L"@)) + flag_if(a.embedded, "-e"@));
    }
    assert(one_word_more(send_flags(SendArgs { raw: true, ..a }), send_flags(SendArgs { raw: false, ..a }), "-w"@)) by {
        let h = flag_if(a.replicate, "-R"@);
        lemma_flag_word(h, "-w"@);
        lemma_one_word_then(h + flag_if(true, "-w"@), h + flag_if(false, "-w"@), "-w"@, flag_if(a.properties, "-p"@));
        lemma_one_word_then((h + flag_if(true, "-w"@)) + flag_if(a.properties, "-p"@), (h + flag_if(false, "-w"@)) + flag_if(a.properties, "-p"@), "-w"@, flag_if(a.compressed, "-c"@));
        lemma_one_word_then(((h + flag_if(true, "-w"@)) + flag_if(a.properties, "-p"@)) + flag_if(a.compressed, "-c"@), ((h + flag_if(false, "-w"@)) + flag_if(a.properties, "-p"@)) + flag_if(a.compressed, "-c"@), "-w"@, flag_if(a.large_blocks, "-L"@));
        lemma_one_word_then((((h + flag_if(true, "-w"@)) + flag_if(a.properties, "-p"@)) + flag_if(a.compressed, "-c"@)) + flag_if(a.large_blocks, "-L"@), (((h + flag_if(false, "-w"@)) + flag_if(a.properties, "-p"@)) + flag_if(a.compressed, "-c"@)) + flag_if(a.large_blocks, "-L"@), "-w"@, flag_if(a.embedded, "-e"@));
        assert(send_flags(SendArgs { raw: true, ..a }) =~= ((((h + flag_if(true, "-w"@)) + flag_if(a.properties, "-p"@)) + flag_if(a.compressed, "-c"@)) + flag_if(a.large_blocks, "-L"@)) + flag_if(a.embedded, "-e"@));
        assert(send_flags(SendArgs { raw: false, ..a }) =~= ((((h + flag_if(false, "-w"@)) + flag_if(a.properties, "-p"@)) + flag_if(a.compressed, "-c"@)) + flag_if(a.large_blocks, "-L"@)) + flag_if(a.embedded, "-e"@));
    }
    assert(one_word_more(send_flags(SendArgs { properties: true, ..a }), send_flags(SendArgs { properties: false, ..a }), "-p"@)) by {
        let h = flag_if(a.replicate, "-R"@) + flag_if(a.raw, "-w"@);
        lemma_flag_word(h, "-p"@);
        lemma_one_word_then(h + flag_if(true, "-p"@), h + flag_if(false, "-p"@), "-p"@, flag_if(a.compressed, "-c"@));
        lemma_one_word_then((h + flag_if(true, "-p"@)) + flag_if(a.compressed, "-c"@), (h + flag_if(false, "-p"@)) + flag_if(a.compressed, "-c"@), "-p"@, flag_if(a.large_blocks, "-L"@));
        lemma_one_word_then(((h + flag_if(true, "-p"@)) + flag_if(a.compressed, "-c"@)) + flag_if(a.large_blocks, "-L"@), ((h + flag_if(false, "-p"@)) + flag_if(a.compressed, "-c"@)) + flag_if(a.large_blocks, "-L"@), "-p"@, flag_if(a.embedded, "-e"@));
        assert(send_flags(SendArgs { properties: true, ..a }) =~= (((h + flag_if(true, "-p"@)) + flag_if(a.compressed, "-c"@)) + flag_if(a.large_blocks, "-L"@)) + flag_if(a.embedded, "-e"@));
        assert(send_flags(SendArgs { properties: false, ..a }) =~= (((h + flag_if(false, "-p"@)) + flag_if(a.compressed, "-c"@)) + flag_if(a.large_blocks, "-L"@)) + flag_if(a.embedded, "-e"@));
    }
    assert(one_word_more(send_flags(SendArgs { compressed: true, ..a }), send_flags(SendArgs { compressed: false, ..a }), "-c"@)) by {
        let h = flag_if(a.replicate, "-R"@) + flag_if(a.raw, "-w"@) + flag_if(a.properties, "-p"@);
        lemma_flag_word(h, "-c"@);
        lemma_one_word_then(h + flag_if(true, "-c"@), h + flag_if(false, "-c"@), "-c"@, flag_if(a.large_blocks, "-L"@));
        lemma_one_word_then((h + flag_if(true, "-c"@)) + flag_if(a.large_blocks, "-L"@), (h + flag_if(false, "-c"@)) + flag_if(a.large_blocks, "-L"@), "-c"@, flag_if(a.embedded, "-e"@));
        assert(send_flags(SendArgs { compressed: true, ..a }) =~= ((h + flag_if(true, "-c"@)) + flag_if(a.large_blocks, "-L"@)) + flag_if(a.embedded, "-e"@));
        assert(send_flags(SendArgs { compressed: false, ..a }) =~= ((h + flag_if(false, "-c"@)) + flag_if(a.large_blocks, "-L"@)) + flag_if(a.embedded, "-e"@));
    }
    assert(one_word_more(send_flags(SendArgs { large_blocks: true, ..a }), send_flags(SendArgs { large_blocks: false, ..a }), "-L"@)) by {
        let h = flag_if(a.replicate, "-R"@) + flag_if(a.raw, "-w"@) + flag_if(a.properties, "-p"@) + flag_if(a.compressed, "-c"@);
        lemma_flag_word(h, "-L"@);
        lemma_one_word_then(h + flag_if(true, "-L"@), h + flag_if(false, "-L"@), "-L"@, flag_if(a.embedded, "-e"@));
        assert(send_flags(SendArgs { large_blocks: true, ..a }) =~= (h + flag_if(true, "-L"@)) + flag_if(a.embedded, "-e"@));
        assert(send_flags(SendArgs { large_blocks: false, ..a }) =~= (h + flag_if(false, "-L"@)) + flag_if(a.embedded, "-e"@));
    }
    assert(one_word_more(send_flags(SendArgs { embedded: true, ..a }), send_flags(SendArgs { embedded: false, ..a }), "-e"@)) by {
        let h = flag_if(a.replicate, "-R"@) + flag_if(a.raw, "-w"@) + flag_if(a.properties, "-p"@) + flag_if(a.compressed, "-c"@) + flag_if(a.large_blocks, "-L"@);
        lemma_flag_word(h, "-e"@);
        assert(send_flags(SendArgs { embedded: true, ..a }) =~= h + flag_if(true, "-e"@));
        assert(send_flags(SendArgs { embedded: false, ..a }) =~= h + flag_if(false, "-e"@));
    }
}

/// Where two argument sets differ in their stream flags alone, and one has
/// a word more among them, it has that word more in its whole list too.
proof fn lemma_send_plan_lift(on: SendArgs, off: SendArgs, w: Seq<char>, dry_run: bool)
    requires
        on.from == off.from,
        on.target == off.target,
        one_word_more(send_flags(on), send_flags(off), w),
    ensures
        adds_word(send_plan(on, dry_run), send_plan(off, dry_run), w),
{
    match on.from {
        Some(SendFrom::ResumeToken(token)) => {
            lemma_one_word_around(seq!["send"@], send_flags(on), send_flags(off), seq!["-t"@, token@], w);
        },
        _ => {
            assert(stream_tail(off) == stream_tail(on));
            lemma_one_word_around(seq!["send"@] + dry_flags(dry_run), send_flags(on), send_flags(off), stream_tail(on), w);
        },
    }
}

/// Whether a list is built does not depend on `-w`, `-c`, `-L` or `-e`.
proof fn lemma_stream_fault_ignores(x: SendArgs, y: SendArgs)
    requires
        x.from == y.from,
        x.target == y.target,
        x.replicate == y.replicate,
        x.properties == y.properties,
    ensures
        (send_plan(x, true) is Ok) == (send_plan(y, true) is Ok),
        (send_plan(x, false) is Ok) == (send_plan(y, false) is Ok),
{
    reveal(stream_fault);
}

/// Each stream flag of `zfs send` is written exactly when its own field
/// is set: where both lists are built, setting `replicate`, `raw`,
/// `properties`, `compressed`, `large_blocks` or `embedded` puts its own
/// flag (`-R`, `-w`, `-p`, `-c`, `-L`, `-e`), once, into the list and
/// changes nothing else; `-w`, `-c`, `-L` and `-e` never decide whether
/// the list can be built.
#[verifier::spinoff_prover]
pub proof fn lemma_send_flag_follows_field(a: SendArgs, dry_run: bool)
    ensures
        adds_word(send_plan(SendArgs { replicate: true, ..a }, dry_run), send_plan(SendArgs { replicate: false, ..a }, dry_run), "-R"@),
        adds_word(send_plan(SendArgs { raw: true, ..a }, dry_run), send_plan(SendArgs { raw: false, ..a }, dry_run), "-w"@),
        (send_plan(SendArgs { raw: true, ..a }, dry_run) is Ok) == (send_plan(SendArgs { raw: false, ..a }, dry_run) is Ok),
        adds_word(send_plan(SendArgs { properties: true, ..a }, dry_run), send_plan(SendArgs { properties: false, ..a }, dry_run), "-p"@),
        adds_word(send_plan(SendArgs { compressed: true, ..a }, dry_run), send_plan(SendArgs { compressed: false, ..a }, dry_run), "-c"@),
        (send_plan(SendArgs { compressed: true, ..a }, dry_run) is Ok) == (send_plan(SendArgs { compressed: false, ..a }, dry_run) is Ok),
        adds_word(send_plan(SendArgs { large_blocks: true, ..a }, dry_run), send_plan(SendArgs { large_blocks: false, ..a }, dry_run), "-L"@),
        (send_plan(SendArgs { large_blocks: true, ..a }, dry_run) is Ok) == (send_plan(SendArgs { large_blocks: false, ..a }, dry_run) is Ok),
        adds_word(send_plan(SendArgs { embedded: true, ..a }, dry_run), send_plan(SendArgs { embedded: false, ..a }, dry_run), "-e"@),
        (send_plan(SendArgs { embedded: true, ..a }, dry_run) is Ok) == (send_plan(SendArgs { embedded: false, ..a }, dry_run) is Ok),
{
    assert(adds_word(send_plan(SendArgs { replicate: true, ..a }, dry_run), send_plan(SendArgs { replicate: false, ..a }, dry_run), "-R"@)) by {
        lemma_send_flags_toggle(a);
        lemma_send_plan_lift(SendArgs { replicate: true, ..a }, SendArgs { replicate: false, ..a }, "-R"@, dry_run);
    }
    assert(adds_word(send_plan(SendArgs { raw: true, ..a }, dry_run), send_plan(SendArgs { raw: false, ..a }, dry_run), "-w"@)) by {
        lemma_send_flags_toggle(a);
        lemma_send_plan_lift(SendArgs { raw: true, ..a }, SendArgs { raw: false, ..a }, "-w"@, dry_run);
    }
    assert((send_plan(SendArgs { raw: true, ..a }, dry_run) is Ok) == (send_plan(SendArgs { raw: false, ..a }, dry_run) is Ok)) by {
        lemma_stream_fault_ignores(SendArgs { raw: true, ..a }, SendArgs { raw: false, ..a });
    }
    assert(adds_word(send_plan(SendArgs { properties: true, ..a }, dry_run), send_plan(SendArgs { properties: false, ..a }, dry_run), "-p"@)) by {
        lemma_send_flags_toggle(a);
        lemma_send_plan_lift(SendArgs { properties: true, ..a }, SendArgs { properties: false, ..a }, "-p"@, dry_run);
    }
    assert(adds_word(send_plan(SendArgs { compressed: true, ..a }, dry_run), send_plan(SendArgs { compressed: false, ..a }, dry_run), "-c"@)) by {
        lemma_send_flags_toggle(a);
        lemma_send_plan_lift(SendArgs { compressed: true, ..a }, SendArgs { compressed: false, ..a }, "-c"@, dry_run);
    }
    assert((send_plan(SendArgs { compressed: true, ..a }, dry_run) is Ok) == (send_plan(SendArgs { compressed: false, ..a }, dry_run) is Ok)) by {
        lemma_stream_fault_ignores(SendArgs { compressed: true, ..a }, SendArgs { compressed: false, ..a });
    }
    assert(adds_word(send_plan(SendArgs { large_blocks: true, ..a }, dry_run), send_plan(SendArgs { large_blocks: false, ..a }, dry_run), "-L"@)) by {
        lemma_send_flags_toggle(a);
        lemma_send_plan_lift(SendArgs { large_blocks: true, ..a }, SendArgs { large_blocks: false, ..a }, "-L"@, dry_run);
    }
    assert((send_plan(SendArgs { large_blocks: true, ..a }, dry_run) is Ok) == (send_plan(SendArgs { large_blocks: false, ..a }, dry_run) is Ok)) by {
        lemma_stream_fault_ignores(SendArgs { large_blocks: true, ..a }, SendArgs { large_blocks: false, ..a });
    }
    assert(adds_word(send_plan(SendArgs { embedded: true, ..a }, dry_run), send_plan(SendArgs { embedded: false, ..a }, dry_run), "-e"@)) by {
        lemma_send_flags_toggle(a);
        lemma_send_plan_lift(SendArgs { embedded: true, ..a }, SendArgs { embedded: false, ..a }, "-e"@, dry_run);
    }
    assert((send_plan(SendArgs { embedded: true, ..a }, dry_run) is Ok) == (send_plan(SendArgs { embedded: false, ..a }, dry_run) is Ok)) by {
        lemma_stream_fault_ignores(SendArgs { embedded: true, ..a }, SendArgs { embedded: false, ..a });
    }
}

impl SendArgs {
    /// A full send of `target` with no flags.
    pub fn new(target: &str) -> (r: SendArgs)
        ensures
            r.target@ == target@,
            r.from is None,
            !r.replicate && !r.raw && !r.properties && !r.compressed && !r.large_blocks
                && !r.embedded,
    {
        SendArgs {
            target: target.to_owned(),
            from: None,
            replicate: false,
            raw: false,
            properties: false,
            compressed: false,
            large_blocks: false,
            embedded: false,
        }
    }

    /// A resumed send; the token records the stream's shape.
    pub fn resume(token: &str) -> (r: SendArgs)
        ensures
            r.target@ == Seq::<char>::empty(),
            r.from matches Some(SendFrom::ResumeToken(t)) && t@ == token@,
            !r.replicate && !r.raw && !r.properties && !r.compressed && !r.large_blocks
                && !r.embedded,
    {
        SendArgs::new("").resume_token(token)
    }

    /// Sets the source.
    pub fn from(self, from: SendFrom) -> (r: SendArgs)
        ensures
            r == (SendArgs { from: Some(from), ..self }),
    {
        SendArgs { from: Some(from), ..self }
    }

    /// `-i from_snap`.
    pub fn incremental(self, from_snap: &str) -> (r: SendArgs)
        ensures
            r.from matches Some(SendFrom::Incremental(s)) && s@ == from_snap@,
            r.target == self.target,
            r.replicate == self.replicate && r.raw == self.raw && r.properties == self.properties
                && r.compressed == self.compressed && r.large_blocks == self.large_blocks
                && r.embedded == self.embedded,
    {
        SendArgs { from: Some(SendFrom::Incremental(from_snap.to_owned())), ..self }
    }

    /// `-I from_snap`.
    pub fn incremental_all(self, from_snap: &str) -> (r: SendArgs)
        ensures
            r.from matches Some(SendFrom::IncrementalAll(s)) && s@ == from_snap@,
            r.target == self.target,
            r.replicate == self.replicate && r.raw == self.raw && r.properties == self.properties
                && r.compressed == self.compressed && r.large_blocks == self.large_blocks
                && r.embedded == self.embedded,
    {
        SendArgs { from: Some(SendFrom::IncrementalAll(from_snap.to_owned())), ..self }
    }

    /// `-t token`; the target is cleared.
    pub fn resume_token(self, token: &str) -> (r: SendArgs)
        ensures
            r.target@ == Seq::<char>::empty(),
            r.from matches Some(SendFrom::ResumeToken(t)) && t@ == token@,
            r.replicate == self.replicate && r.raw == self.raw && r.properties == self.properties
                && r.compressed == self.compressed && r.large_blocks == self.large_blocks
                && r.embedded == self.embedded,
    {
        SendArgs {
            target: String::new(),
            from: Some(SendFrom::ResumeToken(token.to_owned())),
            ..self
        }
    }

    /// `-R`.
    pub fn replicate(self) -> (r: SendArgs)
        ensures
            r == (SendArgs { replicate: true, ..self }),
    {
        SendArgs { replicate: true, ..self }
    }

    /// `-w`.
    pub fn raw(self) -> (r: SendArgs)
        ensures
            r == (SendArgs { raw: true, ..self }),
    {
        SendArgs { raw: true, ..self }
    }

    /// `-p`.
    pub fn properties(self) -> (r: SendArgs)
        ensures
            r == (SendArgs { properties: true, ..self }),
    {
        SendArgs { properties: true, ..self }
    }

    /// `-c`.
    pub fn compressed(self) -> (r: SendArgs)
        ensures
            r == (SendArgs { compressed: true, ..self }),
    {
        SendArgs { compressed: true, ..self }
    }

    /// `-L`.
    pub fn large_blocks(self) -> (r: SendArgs)
        ensures
            r == (SendArgs { large_blocks: true, ..self }),
    {
        SendArgs { large_blocks: true, ..self }
    }

    /// `-e`.
    pub fn embedded(self) -> (r: SendArgs)
        ensures
            r == (SendArgs { embedded: true, ..self }),
    {
        SendArgs { embedded: true, ..self }
    }

    /// Appends the stream flags.
    #[verifier::spinoff_prover]
    fn push_flags(&self, args: &mut Vec<String>)
        ensures
            views(final(args)@) == views(old(args)@) + send_flags(*self),
    {
        push_flag(args, self.replicate, "-R");
        push_flag(args, self.raw, "-w");
        push_flag(args, self.properties, "-p");
        push_flag(args, self.compressed, "-c");
        push_flag(args, self.large_blocks, "-L");
        push_flag(args, self.embedded, "-e");
        assert(views(args@) =~= views(old(args)@) + send_flags(*self));
    }

    /// Checks the target's name.
    fn check_target(&self) -> (r: Result<(), NameError>)
        ensures
            match r {
                Ok(()) => send_target_fault(self.target@) is None,
                Err(e) => send_target_fault(self.target@) == Some(e@),
            },
    {
        proof {
            lemma_contains_char(self.target@, '@');
            reveal_strlit("@");
            assert("@"@ =~= seq!['@']);
        }
        if contains_str(self.target.as_str(), "@") {
            match SnapshotName::parse(self.target.as_str()) {
                Ok(_) => Ok(()),
                Err(e) => Err(e),
            }
        } else {
            match DatasetName::parse(self.target.as_str()) {
                Ok(_) => Ok(()),
                Err(e) => Err(e),
            }
        }
    }

    /// The argument list of a resumed send.
    fn build_resume(&self, token: &String, dry_run: bool) -> (r: Result<Vec<String>, SendArgsError>)
        ensures
            match r {
                Ok(v) => resume_plan(*self, token@, dry_run) == Ok::<Seq<Seq<char>>, SendFault>(views(v@)),
                Err(e) => resume_plan(*self, token@, dry_run) == Err::<Seq<Seq<char>>, SendFault>(e@),
            },
    {
        if chars_of(token.as_str()).len() == 0 {
            return Err(SendArgsError::EmptyResumeToken);
        }
        if self.replicate {
            return Err(SendArgsError::IncompatibleResumeOption { option: "-R/replicate" });
        }
        if self.properties {
            return Err(SendArgsError::IncompatibleResumeOption { option: "-p/properties" });
        }
        if dry_run {
            return Err(SendArgsError::DryRunWithResumeToken);
        }
        let mut args = single("send");
        self.push_flags(&mut args);
        push_str(&mut args, "-t");
        push_str(&mut args, token.as_str());
        assert(views(args@) =~= seq!["send"@] + send_flags(*self) + seq!["-t"@, token@]);
        Ok(args)
    }

    /// Checks a full or incremental send.
    fn check_stream(&self) -> (r: Result<(), SendArgsError>)
        requires
            !(self.from matches Some(SendFrom::ResumeToken(_))),
        ensures
            match r {
                Ok(()) => stream_fault(*self) is None,
                Err(e) => stream_fault(*self) == Some(e@),
            },
    {
        reveal(stream_fault);
        if let Err(e) = self.check_target() {
            return Err(SendArgsError::InvalidName(e));
        }
        proof {
            lemma_contains_char(self.target@, '@');
            reveal_strlit("@");
            assert("@"@ =~= seq!['@']);
        }
        let is_snapshot = contains_str(self.target.as_str(), "@");
        let all = match &self.from {
            Some(SendFrom::IncrementalAll(_)) => true,
            _ => false,
        };
        if self.replicate && !is_snapshot {
            return Err(SendArgsError::SnapshotTargetRequired { operation: "replicated send (-R)" });
        }
        if all && !is_snapshot {
            return Err(
                SendArgsError::SnapshotTargetRequired { operation: "incremental-all send (-I)" },
            );
        }
        match &self.from {
            Some(SendFrom::Incremental(src)) | Some(SendFrom::IncrementalAll(src)) => {
                if let Err(e) = validate_incremental_source(src.as_str()) {
                    return Err(SendArgsError::InvalidName(e));
                }
                proof {
                    lemma_contains_char(src@, '#');
                    reveal_strlit("#");
                    assert("#"@ =~= seq!['#']);
                }
                if (self.replicate || all) && contains_str(src.as_str(), "#") {
                    let operation = if self.replicate {
                        "zfs send -R"
                    } else {
                        "zfs send -I"
                    };
                    return Err(SendArgsError::MultiSnapshotFromBookmark { operation });
                }
                Ok(())
            },
            _ => Ok(()),
        }
    }

    /// What follows the flags in a full or incremental send.
    fn tail_args(&self) -> (r: Vec<String>)
        ensures
            views(r@) == stream_tail(*self),
    {
        let mut r: Vec<String> = Vec::new();
        match &self.from {
            Some(SendFrom::Incremental(src)) => {
                push_str(&mut r, "-i");
                push_str(&mut r, src.as_str());
            },
            Some(SendFrom::IncrementalAll(src)) => {
                push_str(&mut r, "-I");
                push_str(&mut r, src.as_str());
            },
            _ => {},
        }
        push_str(&mut r, self.target.as_str());
        assert(views(r@) =~= stream_tail(*self));
        r
    }

    /// The argument list of a full or incremental send.
    fn build_stream(&self, dry_run: bool) -> (r: Result<Vec<String>, SendArgsError>)
        requires
            !(self.from matches Some(SendFrom::ResumeToken(_))),
        ensures
            match r {
                Ok(v) => stream_plan(*self, dry_run) == Ok::<Seq<Seq<char>>, SendFault>(views(v@)),
                Err(e) => stream_plan(*self, dry_run) == Err::<Seq<Seq<char>>, SendFault>(e@),
            },
    {
        if let Err(e) = self.check_stream() {
            return Err(e);
        }
        let mut args = single("send");
        if dry_run {
            push_str(&mut args, "-n");
            push_str(&mut args, "-v");
            push_str(&mut args, "-P");
        }
        assert(views(args@) =~= seq!["send"@] + dry_flags(dry_run));
        self.push_flags(&mut args);
        let tail = self.tail_args();
        push_all(&mut args, &tail);
        Ok(args)
    }

    /// The `zfs send` argument list; with `dry_run`, `-n -v -P` follow
    /// `send` for a size estimate, which a resume token cannot give.
    pub fn build_args(&self, dry_run: bool) -> (r: Result<Vec<String>, SendArgsError>)
        ensures
            match r {
                Ok(v) => send_plan(*self, dry_run) == Ok::<Seq<Seq<char>>, SendFault>(views(v@)),
                Err(e) => send_plan(*self, dry_run) == Err::<Seq<Seq<char>>, SendFault>(e@),
            },
    {
        match &self.from {
            Some(SendFrom::ResumeToken(token)) => self.build_resume(token, dry_run),
            _ => self.build_stream(dry_run),
        }
    }
}


/// The kind of stream a dry-run size estimate describes.
#[derive(Debug, Clone, Copy, PartialEq, Eq)]
pub enum SendKind {
    Full,
    Incremental,
}

/// The result of a `zfs send -nvP` size estimate.
#[derive(Debug, Clone, PartialEq, Eq)]
pub struct DryRunSize {
    pub kind: SendKind,
    /// The destination snapshot, the "to" end of the stream.
    pub snapshot: String,
    /// The stream's total byte count.
    pub total_bytes: u64,
}

/// What a scan of dry-run output has seen so far: the stream kind, the
/// destination snapshot and the total size, each from its latest line.
pub type DryScan = (Option<SendKind>, Option<Seq<char>>, Option<u64>);

/// One line of `zfs send -nvP` output: `full\t<snap>\t<bytes>`,
/// `incremental\t<from>\t<to>\t<bytes>`, or `size\t<total>`; any other
/// line is passed over.
pub open spec fn dry_step(st: DryScan, line: Seq<char>, exit_code: Option<i32>) -> Result<
    DryScan,
    ErrorView,
> {
    let p = split_on(line, '\t');
    if line.len() == 0 {
        Ok(st)
    } else if p.len() == 3 && p[0] == "full"@ {
        Ok((Some(SendKind::Full), Some(p[1]), st.2))
    } else if p.len() == 4 && p[0] == "incremental"@ {
        Ok((Some(SendKind::Incremental), Some(p[2]), st.2))
    } else if p.len() == 2 && p[0] == "size"@ {
        match parse_uint(p[1], 10, u64::MAX as nat) {
            Ok(n) => Ok((st.0, st.1, Some(n as u64))),
            Err(_) => Err(
                ErrorView::Other(
                    exit_code,
                    "invalid size value in dry-run output: "@ + debug_text(p[1]),
                ),
            ),
        }
    } else {
        Ok(st)
    }
}

/// The lines scanned in order; the first bad size line stops the scan.
pub open spec fn dry_scan(lines: Seq<Seq<char>>, exit_code: Option<i32>) -> Result<DryScan, ErrorView>
    decreases lines.len(),
{
    if lines.len() == 0 {
        Ok((None, None, None))
    } else {
        match dry_scan(lines.drop_last(), exit_code) {
            Err(e) => Err(e),
            Ok(st) => dry_step(st, lines.last(), exit_code),
        }
    }
}

/// Once a scan fails on a prefix, it fails the same way on the whole.
pub proof fn lemma_dry_scan_error_extends(lines: Seq<Seq<char>>, k: int, exit_code: Option<i32>)
    requires
        0 <= k <= lines.len(),
        dry_scan(lines.take(k), exit_code) is Err,
    ensures
        dry_scan(lines, exit_code) == dry_scan(lines.take(k), exit_code),
    decreases lines.len() - k,
{
    if k < lines.len() {
        assert(lines.drop_last().take(k) =~= lines.take(k));
        lemma_dry_scan_error_extends(lines.drop_last(), k, exit_code);
    } else {
        assert(lines.take(k) =~= lines);
    }
}

/// A line of dry-run output that names a stream: `full\t<snap>\t<bytes>`
/// or `incremental\t<from>\t<to>\t<bytes>`.
pub open spec fn names_stream(line: Seq<char>) -> bool {
    let p = split_on(line, '\t');
    (p.len() == 3 && p[0] == "full"@) || (p.len() == 4 && p[0] == "incremental"@)
}

/// Lines that name no stream leave the kind and destination of a scan as
/// they were.
proof fn lemma_dry_scan_keeps_stream(ls: Seq<Seq<char>>, k: int, m: int, exit_code: Option<i32>)
    requires
        0 <= k <= m <= ls.len(),
        forall|j: int| k <= j < ls.len() ==> !names_stream(#[trigger] ls[j]),
        dry_scan(ls.take(m), exit_code) is Ok,
    ensures
        dry_scan(ls.take(k), exit_code) is Ok,
        dry_scan(ls.take(m), exit_code)->Ok_0.0 == dry_scan(ls.take(k), exit_code)->Ok_0.0,
        dry_scan(ls.take(m), exit_code)->Ok_0.1 == dry_scan(ls.take(k), exit_code)->Ok_0.1,
    decreases m - k,
{
    if m > k {
        assert(ls.take(m).drop_last() =~= ls.take(m - 1));
        assert(ls.take(m).last() == ls[m - 1]);
        assert(!names_stream(ls[m - 1]));
        lemma_dry_scan_keeps_stream(ls, k, m - 1, exit_code);
    }
}

/// The estimate describes the last stream the output names: where line `i`
/// is the last line naming a stream, an estimate read from the output has
/// that line's kind and its destination (`<to>` of an incremental line,
/// `<snap>` of a full one), whatever lines came before it.
pub proof fn lemma_dry_run_reports_last_stream(text: Seq<char>, exit_code: Option<i32>, i: int)
    requires
        0 <= i < lines_of(text).len(),
        names_stream(lines_of(text)[i]),
        forall|j: int| i < j < lines_of(text).len() ==> !names_stream(#[trigger] lines_of(text)[j]),
    ensures
        ({
            let p = split_on(lines_of(text)[i], '\t');
            dry_run_result(text, exit_code) matches Ok((kind, snapshot, _total)) ==> if p[0] == "full"@ {
                kind == SendKind::Full && snapshot == p[1]
            } else {
                kind == SendKind::Incremental && snapshot == p[2]
            }
        }),
{
    let ls = lines_of(text);
    let p = split_on(ls[i], '\t');
    if dry_run_result(text, exit_code) is Ok {
        assert(ls.take(ls.len() as int) =~= ls);
        if dry_scan(ls.take(i + 1), exit_code) is Err {
            lemma_dry_scan_error_extends(ls, i + 1, exit_code);
        }
        lemma_dry_scan_keeps_stream(ls, i + 1, ls.len() as int, exit_code);
        assert(ls.take(i + 1).drop_last() =~= ls.take(i));
        assert(ls.take(i + 1).last() == ls[i]);
        assert(ls[i].len() > 0) by {
            if ls[i].len() == 0 {
                assert(split_on(ls[i], '\t').len() == 1);
            }
        }
        reveal_strlit("full");
        reveal_strlit("incremental");
        assert("full"@ != "incremental"@) by {
            assert("full"@.len() != "incremental"@.len());
        }
        assert(dry_scan(ls.take(i), exit_code) is Ok);
        let st = dry_scan(ls.take(i), exit_code)->Ok_0;
        assert(dry_scan(ls.take(i + 1), exit_code) == dry_step(st, ls[i], exit_code));
        assert(dry_scan(ls, exit_code) == dry_scan(ls.take(ls.len() as int), exit_code));
    }
}

/// The size estimate read from `zfs send -nvP` output, or the error: a bad
/// size, or a missing kind, snapshot or size line, in that order.
pub open spec fn dry_run_result(text: Seq<char>, exit_code: Option<i32>) -> Result<
    (SendKind, Seq<char>, u64),
    ErrorView,
> {
    match dry_scan(lines_of(text), exit_code) {
        Err(e) => Err(e),
        Ok((kind, snapshot, total)) => if kind is None {
            Err(
                ErrorView::Other(
                    exit_code,
                    "dry-run output missing send type line (full/incremental)"@,
                ),
            )
        } else if snapshot is None {
            Err(ErrorView::Other(exit_code, "dry-run output missing snapshot name"@))
        } else if total is None {
            Err(ErrorView::Other(exit_code, "dry-run output missing size line"@))
        } else {
            Ok((kind->0, snapshot->0, total->0))
        },
    }
}

/// One line of dry-run output.
fn dry_line(
    kind: &mut Option<SendKind>,
    snapshot: &mut Option<String>,
    total: &mut Option<u64>,
    line: &String,
    exit_code: Option<i32>,
) -> (r: Result<(), ZfsError>)
    ensures
        match dry_step((*old(kind), crate::error::opt_view(*old(snapshot)), *old(total)), line@, exit_code) {
            Ok(st) => r is Ok && st == (*final(kind), crate::error::opt_view(*final(snapshot)), *final(total)),
            Err(e) => r matches Err(x) && x@ == e,
        },
{
    let v = chars_of(line.as_str());
    if v.len() == 0 {
        return Ok(());
    }
    let p = split_chars(&v, '\t');
    proof {
        reveal_strlit("full");
        reveal_strlit("incremental");
        reveal_strlit("size");
        assert(views(p@).len() == p@.len());
    }
    if p.len() == 3 && crate::text::str_eq(p[0].as_str(), "full") {
        assert(views(p@)[1] == p@[1]@);
        *kind = Some(SendKind::Full);
        *snapshot = Some(p[1].clone());
        Ok(())
    } else if p.len() == 4 && crate::text::str_eq(p[0].as_str(), "incremental") {
        assert(views(p@)[2] == p@[2]@);
        *kind = Some(SendKind::Incremental);
        *snapshot = Some(p[2].clone());
        Ok(())
    } else if p.len() == 2 && crate::text::str_eq(p[0].as_str(), "size") {
        assert(views(p@)[1] == p@[1]@);
        match parse_u64(p[1].as_str()) {
            Some(n) => {
                *total = Some(n);
                Ok(())
            },
            None => {
                let stderr = concat(
                    "invalid size value in dry-run output: ",
                    debug_quoted(p[1].as_str()).as_str(),
                );
                Err(ZfsError::Other { exit_code, stderr })
            },
        }
    } else {
        Ok(())
    }
}

/// Reads the size estimate from `zfs send -nvP` output.
pub fn parse_dry_run_output(text: &str, exit_code: Option<i32>) -> (r: Result<DryRunSize, ZfsError>)
    ensures
        match dry_run_result(text@, exit_code) {
            Ok((kind, snapshot, total)) => r matches Ok(d) && d.kind == kind && d.snapshot@
                == snapshot && d.total_bytes == total,
            Err(e) => r matches Err(x) && x@ == e,
        },
{
    let ls = lines(text);
    let mut kind: Option<SendKind> = None;
    let mut snapshot: Option<String> = None;
    let mut total: Option<u64> = None;
    let mut i: usize = 0;
    assert(views(ls@).take(0) =~= Seq::<Seq<char>>::empty());
    while i < ls.len()
        invariant
            i <= ls@.len(),
            views(ls@) == lines_of(text@),
            dry_scan(views(ls@).take(i as int), exit_code) == Ok::<DryScan, ErrorView>(
                (kind, crate::error::opt_view(snapshot), total),
            ),
        decreases ls@.len() - i,
    {
        assert(views(ls@).take(i + 1).drop_last() =~= views(ls@).take(i as int));
        assert(views(ls@).take(i + 1).last() == ls@[i as int]@);
        match dry_line(&mut kind, &mut snapshot, &mut total, &ls[i], exit_code) {
            Ok(()) => {},
            Err(e) => {
                proof {
                    lemma_dry_scan_error_extends(views(ls@), i + 1, exit_code);
                }
                return Err(e);
            },
        }
        i = i + 1;
    }
    assert(views(ls@).take(i as int) =~= views(ls@));
    match kind {
        None => Err(ZfsError::Other {
            exit_code,
            stderr: "dry-run output missing send type line (full/incremental)".to_owned(),
        }),
        Some(k) => match snapshot {
            None => Err(ZfsError::Other {
                exit_code,
                stderr: "dry-run output missing snapshot name".to_owned(),
            }),
            Some(s) => match total {
                None => Err(ZfsError::Other {
                    exit_code,
                    stderr: "dry-run output missing size line".to_owned(),
                }),
                Some(t) => Ok(DryRunSize { kind: k, snapshot: s, total_bytes: t }),
            },
        },
    }
}

impl From<NameError> for SendArgsError {
    fn from(e: NameError) -> (r: SendArgsError)
        ensures
            r == SendArgsError::InvalidName(e),
    {
        SendArgsError::InvalidName(e)
    }
}

impl vstd::std_specs::convert::FromSpecImpl<NameError> for SendArgsError {
    open spec fn obeys_from_spec() -> bool {
        true
    }

    open spec fn from_spec(e: NameError) -> SendArgsError {
        SendArgsError::InvalidName(e)
    }
}

} // verus!
