//! Resume tokens: the nvlist that `zfs send -nvt <token>` prints for one.
use vstd::prelude::*;
use crate::error::{classification, classify_stderr, ErrorView, ZfsError};
use crate::text::{has_prefix, lines, lines_of, parse_uint, split_once_str, split_once_str_of, strip_all, strip_prefix_str, trim_of, trim_start_matches, trim_str, views, parse_uint_str};
use crate::args::{push_str, single};

verus! {

/// Why a resume token could not be decoded.
#[derive(Debug)]
pub enum ResumeTokenError {
    /// `zfs send -nvt` failed.
    CommandFailed(ZfsError),
    /// The nvlist lacks a field that is needed.
    MissingField { field: &'static str },
    /// A field is not a hexadecimal `u64`.
    InvalidHex { field: &'static str, value: String },
}

/// A [`ResumeTokenError`] as plain values.
pub enum TokenFault {
    CommandFailed(ErrorView),
    MissingField(Seq<char>),
    InvalidHex(Seq<char>, Seq<char>),
}

impl View for ResumeTokenError {
    type V = TokenFault;

    open spec fn view(&self) -> TokenFault {
        match self {
            ResumeTokenError::CommandFailed(e) => TokenFault::CommandFailed(e@),
            ResumeTokenError::MissingField { field } => TokenFault::MissingField(field@),
            ResumeTokenError::InvalidHex { field, value } => TokenFault::InvalidHex(field@, value@),
        }
    }
}

/// What a resume token holds.
#[derive(Debug, Clone, PartialEq, Eq)]
pub struct ResumeToken {
    /// The token itself, for `SendArgs::resume_token`.
    pub token: String,
    /// The `dataset@snapshot` the stream goes to.
    pub to_name: String,
    /// The GUID of that snapshot.
    pub to_guid: u64,
    /// The GUID of the source snapshot of an incremental stream; `None`
    /// for a full stream.
    pub from_guid: Option<u64>,
    /// The bytes already received: where the stream resumes.
    pub bytes_received: u64,
}

/// The value of a hexadecimal field: any leading `0x`, then any leading
/// `0X`, removed, the rest read in base 16.
pub open spec fn hex_value(s: Seq<char>) -> Option<u64> {
    match parse_uint(strip_all(strip_all(s, "0x"@), "0X"@), 16, u64::MAX as nat) {
        Ok(n) => Some(n as u64),
        Err(_) => None,
    }
}

/// Reads a hexadecimal field named `field`.
pub fn parse_hex_u64(s: &str, field: &'static str) -> (r: Result<u64, ResumeTokenError>)
    ensures
        match hex_value(s@) {
            Some(n) => r == Ok::<u64, ResumeTokenError>(n),
            None => r matches Err(e) && e@ == TokenFault::InvalidHex(field@, s@),
        },
{
    let a = trim_start_matches(s, "0x");
    let hex = trim_start_matches(a.as_str(), "0X");
    match parse_uint_str(hex.as_str(), 16, u64::MAX) {
        Ok(n) => Ok(n),
        Err(_) => Err(ResumeTokenError::InvalidHex { field, value: s.to_owned() }),
    }
}

/// A field line of the nvlist: a tab, then `key = value`; both trimmed.
pub open spec fn nv_line(line: Seq<char>) -> Option<(Seq<char>, Seq<char>)> {
    if has_prefix(line, seq!['\t']) {
        match split_once_str_of(line.skip(1), " = "@) {
            Some((k, v)) => Some((trim_of(k), trim_of(v))),
            None => None,
        }
    } else {
        None
    }
}

/// The value the last line naming `key` gives it.
pub open spec fn nv_field(ls: Seq<Seq<char>>, key: Seq<char>) -> Option<Seq<char>>
    decreases ls.len(),
{
    if ls.len() == 0 {
        None
    } else {
        match nv_line(ls.last()) {
            Some((k, v)) if k == key => Some(v),
            _ => nv_field(ls.drop_last(), key),
        }
    }
}

/// A resume token as plain values: token, name, GUIDs and offset.
pub type TokenView = (Seq<char>, Seq<char>, u64, Option<u64>, u64);

/// What `zfs send -nvt` output decodes to: `toname`, `toguid`, the
/// optional `fromguid` and `bytes`, checked in that order.
pub open spec fn decoded_token(text: Seq<char>, token: Seq<char>) -> Result<TokenView, TokenFault> {
    let ls = lines_of(text);
    let name = nv_field(ls, "toname"@);
    let to = nv_field(ls, "toguid"@);
    let from = nv_field(ls, "fromguid"@);
    let bytes = nv_field(ls, "bytes"@);
    if name is None {
        Err(TokenFault::MissingField("toname"@))
    } else if to is None {
        Err(TokenFault::MissingField("toguid"@))
    } else if hex_value(to->0) is None {
        Err(TokenFault::InvalidHex("toguid"@, to->0))
    } else if from is Some && hex_value(from->0) is None {
        Err(TokenFault::InvalidHex("fromguid"@, from->0))
    } else if bytes is None {
        Err(TokenFault::MissingField("bytes"@))
    } else if hex_value(bytes->0) is None {
        Err(TokenFault::InvalidHex("bytes"@, bytes->0))
    } else {
        Ok(
            (
                token,
                name->0,
                hex_value(to->0)->0,
                match from {
                    Some(f) => Some(hex_value(f)->0),
                    None => None,
                },
                hex_value(bytes->0)->0,
            ),
        )
    }
}

/// Reads one line of the nvlist.
fn read_nv_line(line: &String) -> (r: Option<(String, String)>)
    ensures
        match nv_line(line@) {
            Some((k, v)) => r matches Some((a, b)) && a@ == k && b@ == v,
            None => r is None,
        },
{
    proof {
        reveal_strlit("\t");
        assert("\t"@ =~= seq!['\t']);
    }
    match strip_prefix_str(line.as_str(), "\t") {
        None => None,
        Some(kv) => match split_once_str(kv.as_str(), " = ") {
            Some((k, v)) => Some((trim_str(k.as_str()), trim_str(v.as_str()))),
            None => None,
        },
    }
}

/// The value of `key` in the nvlist lines.
#[verifier::loop_isolation(false)]
fn field(ls: &Vec<String>, key: &str) -> (r: Option<String>)
    ensures
        crate::error::opt_view(r) == nv_field(views(ls@), key@),
{
    let mut i: usize = ls.len();
    assert(views(ls@).take(ls@.len() as int) =~= views(ls@));
    while i > 0
        invariant
            i <= ls@.len(),
            nv_field(views(ls@), key@) == nv_field(views(ls@).take(i as int), key@),
        decreases i,
    {
        let ghost t = views(ls@).take(i as int);
        assert(t.drop_last() =~= views(ls@).take(i - 1));
        assert(t.last() == ls@[i - 1]@);
        if let Some((k, v)) = read_nv_line(&ls[i - 1]) {
            if crate::text::str_eq(k.as_str(), key) {
                return Some(v);
            }
        }
        i = i - 1;
    }
    None
}

/// Decodes `zfs send -nvt` output for `token`.
pub fn parse_nvlist_output(text: &str, token: &str) -> (r: Result<ResumeToken, ResumeTokenError>)
    ensures
        match decoded_token(text@, token@) {
            Ok(t) => r matches Ok(d) && (d.token@, d.to_name@, d.to_guid, d.from_guid, d.bytes_received) == t,
            Err(f) => r matches Err(e) && e@ == f,
        },
{
    let ls = lines(text);
    let to_name = match field(&ls, "toname") {
        Some(v) => v,
        None => {
            return Err(ResumeTokenError::MissingField { field: "toname" });
        },
    };
    let to_guid = match field(&ls, "toguid") {
        Some(v) => match parse_hex_u64(v.as_str(), "toguid") {
            Ok(n) => n,
            Err(e) => {
                return Err(e);
            },
        },
        None => {
            return Err(ResumeTokenError::MissingField { field: "toguid" });
        },
    };
    let from_guid = match field(&ls, "fromguid") {
        Some(v) => match parse_hex_u64(v.as_str(), "fromguid") {
            Ok(n) => Some(n),
            Err(e) => {
                return Err(e);
            },
        },
        None => None,
    };
    let bytes_received = match field(&ls, "bytes") {
        Some(v) => match parse_hex_u64(v.as_str(), "bytes") {
            Ok(n) => n,
            Err(e) => {
                return Err(e);
            },
        },
        None => {
            return Err(ResumeTokenError::MissingField { field: "bytes" });
        },
    };
    Ok(ResumeToken { token: token.to_owned(), to_name, to_guid, from_guid, bytes_received })
}

/// The argument list of `zfs send -nvt <token>`.
pub fn decode_args(token: &str) -> (r: Vec<String>)
    ensures
        views(r@) == seq!["send"@, "-nvt"@, token@],
{
    let mut r = single("send");
    push_str(&mut r, "-nvt");
    push_str(&mut r, token);
    assert(views(r@) =~= seq!["send"@, "-nvt"@, token@]);
    r
}

/// Decodes what `zfs send -nvt <token>` gave: its stdout where it
/// succeeded, its classified stderr where it did not.
pub fn finish_decode(
    success: bool,
    exit_code: Option<i32>,
    stdout: &str,
    stderr: &str,
    token: &str,
) -> (r: Result<ResumeToken, ResumeTokenError>)
    ensures
        !success ==> (r matches Err(e) && e@ == TokenFault::CommandFailed(
            classification(stderr@, exit_code),
        )),
        success ==> match decoded_token(stdout@, token@) {
            Ok(t) => r matches Ok(d) && (d.token@, d.to_name@, d.to_guid, d.from_guid, d.bytes_received) == t,
            Err(f) => r matches Err(e) && e@ == f,
        },
{
    if !success {
        return Err(ResumeTokenError::CommandFailed(classify_stderr(stderr, exit_code)));
    }
    parse_nvlist_output(stdout, token)
}

impl From<ZfsError> for ResumeTokenError {
    fn from(e: ZfsError) -> (r: ResumeTokenError)
        ensures
            r == ResumeTokenError::CommandFailed(e),
    {
        ResumeTokenError::CommandFailed(e)
    }
}

impl vstd::std_specs::convert::FromSpecImpl<ZfsError> for ResumeTokenError {
    open spec fn obeys_from_spec() -> bool {
        true
    }

    open spec fn from_spec(e: ZfsError) -> ResumeTokenError {
        ResumeTokenError::CommandFailed(e)
    }
}

} // verus!
