//! Where commands run: this host, or another one through `ssh` (the
//! target, the quoting of the remote command line, the local arguments).
use vstd::prelude::*;
use crate::args::{push_str, single};
use crate::text::{chars_of, concat, concat3, count_char, count_of, decimal, decimal_string, has_prefix, int_error_message, parse_uint, parse_uint_str, push_char, rsplit_once, rsplit_once_of, split_once, split_once_of, strip_prefix_str, views};

verus! {

/// Runs commands on this host.
#[derive(Debug, Clone, Copy, Default)]
pub struct RealRunner;

/// Where `ssh` connects.
#[derive(Debug, Clone)]
pub struct SshTarget {
    pub user: String,
    pub host: String,
    pub port: u16,
}

/// Why a target is refused, if it is: an empty user, a user that `ssh`
/// would read as an option, an empty host, or port zero.
pub open spec fn target_fault(user: Seq<char>, host: Seq<char>, port: u16) -> Option<Seq<char>> {
    if user.len() == 0 {
        Some("empty user"@)
    } else if user[0] == '-' {
        Some("SSH user cannot begin with '-'"@)
    } else if host.len() == 0 {
        Some("empty host"@)
    } else if port == 0 {
        Some("SSH port must not be zero"@)
    } else {
        None
    }
}

/// A port number: a `u16` in decimal, or the error message.
pub open spec fn port_of(p: Seq<char>) -> Result<u16, Seq<char>> {
    match parse_uint(p, 10, u16::MAX as nat) {
        Ok(n) => Ok(n as u16),
        Err(k) => Err("port `"@ + p + "`: "@ + int_error_message(k)),
    }
}

/// Host and port of what follows an optional `user@`: a bracketed IPv6
/// literal with an optional `:port`; text with more than one `:`, whole,
/// as the host; else `host[:port]`. The port defaults to 22.
pub open spec fn host_port_of(rest: Seq<char>) -> Result<(Seq<char>, u16), Seq<char>> {
    if has_prefix(rest, "["@) {
        let b = rest.skip(1);
        match split_once_of(b, ']') {
            None => Err("unclosed '[' in IPv6 literal"@),
            Some((h, after)) => if after.len() == 0 {
                Ok((h, 22))
            } else if has_prefix(after, ":"@) {
                match port_of(after.skip(1)) {
                    Ok(p) => Ok((h, p)),
                    Err(m) => Err(m),
                }
            } else {
                Err("unexpected `"@ + after + "` after ']'"@)
            },
        }
    } else if count_of(rest, ':') > 1 {
        Ok((rest, 22))
    } else {
        match rsplit_once_of(rest, ':') {
            Some((h, p)) => match port_of(p) {
                Ok(n) => Ok((h, n)),
                Err(m) => Err(m),
            },
            None => Ok((rest, 22)),
        }
    }
}

/// What `[user@]host[:port]` reads as: user, host and port, or the error.
/// The user defaults to `root`.
pub open spec fn target_of(s: Seq<char>) -> Result<(Seq<char>, Seq<char>, u16), Seq<char>> {
    let (user, rest) = match split_once_of(s, '@') {
        Some((u, r)) => (u, r),
        None => ("root"@, s),
    };
    match host_port_of(rest) {
        Err(m) => Err(m),
        Ok((host, port)) => match target_fault(user, host, port) {
            Some(m) => Err(m),
            None => Ok((user, host, port)),
        },
    }
}

/// A valid target written as `user@host:port` reads back as that target,
/// for a user without `@` and a host that holds no `:` and does not begin
/// with `[`.
pub proof fn lemma_target_reads_back(user: Seq<char>, host: Seq<char>, port: u16)
    requires
        target_fault(user, host, port) is None,
        crate::text::lacks(user, '@'),
        crate::text::lacks(host, ':'),
        host[0] != '[',
    ensures
        target_of(user + "@"@ + host + ":"@ + decimal(port as nat)) == Ok::<
            (Seq<char>, Seq<char>, u16),
            Seq<char>,
        >((user, host, port)),
{
    reveal_strlit("@");
    reveal_strlit(":");
    reveal_strlit("[");
    let d = decimal(port as nat);
    crate::text::lemma_decimal_digits(port as nat);
    assert forall|i: int| 0 <= i < d.len() implies d[i] != ':' by {
        assert(48 <= (d[i] as nat) <= 57);
    }
    let rest = host + seq![':'] + d;
    let s = user + "@"@ + host + ":"@ + d;
    assert(s =~= user + seq!['@'] + rest);
    crate::text::lemma_split_once_join(user, '@', rest);
    assert(rest[0] == host[0]);
    assert("["@ =~= seq!['[']);
    if has_prefix(rest, "["@) {
        assert(rest.subrange(0, 1)[0] == rest[0]);
    }
    crate::text::lemma_count_lacks(host, ':');
    crate::text::lemma_count_lacks(d, ':');
    crate::text::lemma_count_concat(host, seq![':'], ':');
    crate::text::lemma_count_concat(host + seq![':'], d, ':');
    assert(seq![':'].drop_last() =~= Seq::<char>::empty());
    assert(count_of(Seq::<char>::empty(), ':') == 0);
    assert(count_of(seq![':'], ':') == 1);
    crate::text::lemma_rsplit_once_join(host, ':', d);
    crate::text::lemma_decimal_reads_back(port as nat, u16::MAX as nat);
    assert(port_of(d) == Ok::<u16, Seq<char>>(port));
    assert(host_port_of(rest) == Ok::<(Seq<char>, u16), Seq<char>>((host, port)));
}

/// Reads a port number.
fn parse_port(p: &str) -> (r: Result<u16, String>)
    ensures
        match port_of(p@) {
            Ok(n) => r == Ok::<u16, String>(n),
            Err(m) => r matches Err(e) && e@ == m,
        },
{
    match parse_uint_str(p, 10, 65535) {
        Ok(n) => Ok(n as u16),
        Err(k) => {
            let mut m = concat3("port `", p, "`: ");
            m.append(k.message());
            Err(m)
        },
    }
}

/// Reads the host and port.
fn parse_host_port(rest: &str) -> (r: Result<(String, u16), String>)
    ensures
        match host_port_of(rest@) {
            Ok((h, p)) => r matches Ok((a, b)) && a@ == h && b == p,
            Err(m) => r matches Err(e) && e@ == m,
        },
{
    proof {
        reveal_strlit("[");
        reveal_strlit(":");
    }
    if let Some(bracketed) = strip_prefix_str(rest, "[") {
        match split_once(bracketed.as_str(), ']') {
            None => Err("unclosed '[' in IPv6 literal".to_owned()),
            Some((h, after)) => {
                if chars_of(after.as_str()).len() == 0 {
                    Ok((h, 22))
                } else if let Some(p) = strip_prefix_str(after.as_str(), ":") {
                    match parse_port(p.as_str()) {
                        Ok(n) => Ok((h, n)),
                        Err(m) => Err(m),
                    }
                } else {
                    Err(concat3("unexpected `", after.as_str(), "` after ']'"))
                }
            },
        }
    } else if count_char(rest, ':') > 1 {
        Ok((rest.to_owned(), 22))
    } else {
        match rsplit_once(rest, ':') {
            Some((h, p)) => match parse_port(p.as_str()) {
                Ok(n) => Ok((h, n)),
                Err(m) => Err(m),
            },
            None => Ok((rest.to_owned(), 22)),
        }
    }
}

impl SshTarget {
    /// `user@host:port`.
    pub fn new(user: &str, host: &str, port: u16) -> (r: SshTarget)
        ensures
            r.user@ == user@ && r.host@ == host@ && r.port == port,
    {
        SshTarget { user: user.to_owned(), host: host.to_owned(), port }
    }

    /// Reads `[user@]host[:port]`; the user defaults to `root` and the port
    /// to 22. A bare IPv6 address is taken whole as the host; one with a
    /// port goes in brackets (`[::1]:2222`).
    pub fn parse(s: &str) -> (r: Result<SshTarget, String>)
        ensures
            match target_of(s@) {
                Ok((u, h, p)) => r matches Ok(t) && t.user@ == u && t.host@ == h && t.port == p,
                Err(m) => r matches Err(e) && e@ == m,
            },
    {
        proof {
            reveal_strlit("root");
        }
        let (user, rest) = match split_once(s, '@') {
            Some((u, r)) => (u, r),
            None => ("root".to_owned(), s.to_owned()),
        };
        let (host, port) = match parse_host_port(rest.as_str()) {
            Ok(hp) => hp,
            Err(m) => {
                return Err(m);
            },
        };
        let target = SshTarget { user, host, port };
        match target.validate() {
            Ok(()) => Ok(target),
            Err(m) => Err(m),
        }
    }

    /// Checks the target: a user that does not begin with `-`, a host and
    /// a port other than zero.
    pub fn validate(&self) -> (r: Result<(), String>)
        ensures
            match target_fault(self.user@, self.host@, self.port) {
                None => r is Ok,
                Some(m) => r matches Err(e) && e@ == m,
            },
    {
        let u = chars_of(self.user.as_str());
        if u.len() == 0 {
            return Err("empty user".to_owned());
        }
        if u[0] == '-' {
            return Err("SSH user cannot begin with '-'".to_owned());
        }
        if chars_of(self.host.as_str()).len() == 0 {
            return Err("empty host".to_owned());
        }
        if self.port == 0 {
            return Err("SSH port must not be zero".to_owned());
        }
        Ok(())
    }
}

/// The characters of a single-quoted shell token's body: each `'` becomes
/// `'\''`.
pub open spec fn quoted_body(s: Seq<char>) -> Seq<char>
    decreases s.len(),
{
    if s.len() == 0 {
        Seq::<char>::empty()
    } else {
        quoted_body(s.drop_last()) + if s.last() == '\'' {
            seq!['\'', '\\', '\'', '\'']
        } else {
            seq![s.last()]
        }
    }
}

/// `arg` as one single-quoted shell token.
pub open spec fn shell_quoted(s: Seq<char>) -> Seq<char> {
    seq!['\''] + quoted_body(s) + seq!['\'']
}

/// Quotes `arg` as one shell token.
pub fn shell_quote(arg: &str) -> (r: String)
    ensures
        r@ == shell_quoted(arg@),
{
    let v = chars_of(arg);
    let mut out = String::new();
    push_char(&mut out, '\'');
    let mut i: usize = 0;
    assert(v@.take(0) =~= Seq::<char>::empty());
    assert(out@ =~= seq!['\''] + quoted_body(v@.take(0)));
    while i < v.len()
        invariant
            i <= v@.len(),
            v@ == arg@,
            out@ == seq!['\''] + quoted_body(v@.take(i as int)),
        decreases v@.len() - i,
    {
        let c = v[i];
        assert(v@.take(i + 1).drop_last() =~= v@.take(i as int));
        let ghost before = out@;
        if c == '\'' {
            push_char(&mut out, '\'');
            push_char(&mut out, '\\');
            push_char(&mut out, '\'');
            push_char(&mut out, '\'');
            assert(out@ =~= before + seq!['\'', '\\', '\'', '\'']);
        } else {
            push_char(&mut out, c);
        }
        assert(out@ =~= seq!['\''] + quoted_body(v@.take(i + 1)));
        i = i + 1;
    }
    assert(v@.take(i as int) =~= v@);
    push_char(&mut out, '\'');
    out
}

/// What a single-quoted body stands for to a POSIX shell, read from its
/// end: `'\''` (close, escaped quote, reopen) is one quote, and any other
/// character is itself.
pub open spec fn unquoted_body(q: Seq<char>) -> Seq<char>
    decreases q.len(),
{
    if q.len() == 0 {
        Seq::<char>::empty()
    } else if q.len() >= 4 && q.subrange(q.len() - 4, q.len() as int) == seq!['\'', '\\', '\'', '\''] {
        unquoted_body(q.take(q.len() - 4)) + seq!['\'']
    } else {
        unquoted_body(q.drop_last()) + seq![q.last()]
    }
}

/// The body of a quoted argument reads back as the argument.
pub proof fn lemma_quoted_body_reads_back(s: Seq<char>)
    ensures
        unquoted_body(quoted_body(s)) == s,
    decreases s.len(),
{
    if s.len() > 0 {
        lemma_quoted_body_reads_back(s.drop_last());
        let q = quoted_body(s);
        let p = quoted_body(s.drop_last());
        if s.last() == '\'' {
            assert(q.subrange(q.len() - 4, q.len() as int) =~= seq!['\'', '\\', '\'', '\'']);
            assert(q.take(q.len() - 4) =~= p);
        } else {
            if q.len() >= 4 {
                assert(q.subrange(q.len() - 4, q.len() as int)[3] == s.last());
            }
            assert(q.drop_last() =~= p);
        }
        assert(s.drop_last() + seq![s.last()] =~= s);
    }
}

/// A quoted argument is one single-quoted shell word whose value is the
/// argument: it opens and closes with `'`, and what lies between reads
/// back as the argument.
pub proof fn lemma_shell_quote_reads_back(s: Seq<char>)
    ensures
        shell_quoted(s).len() >= 2,
        shell_quoted(s)[0] == '\'',
        shell_quoted(s).last() == '\'',
        unquoted_body(shell_quoted(s).subrange(1, shell_quoted(s).len() - 1)) == s,
{
    lemma_quoted_body_reads_back(s);
    let t = shell_quoted(s);
    assert(t.subrange(1, t.len() - 1) =~= quoted_body(s));
}

/// ` 'a'` for each argument, in order.
pub open spec fn quoted_args(a: Seq<Seq<char>>) -> Seq<char>
    decreases a.len(),
{
    if a.len() == 0 {
        Seq::<char>::empty()
    } else {
        quoted_args(a.drop_last()) + seq![' '] + shell_quoted(a.last())
    }
}

/// The remote command line: `LC_ALL=C` (so that diagnostics are the C
/// locale's), then the program and each argument quoted.
pub open spec fn remote_cmdline(program: Seq<char>, args: Seq<Seq<char>>) -> Seq<char> {
    "LC_ALL=C "@ + shell_quoted(program) + quoted_args(args)
}

/// Builds the remote command line.
pub fn quote_cmdline(program: &str, args: &Vec<String>) -> (r: String)
    ensures
        r@ == remote_cmdline(program@, views(args@)),
{
    let mut s = concat("LC_ALL=C ", shell_quote(program).as_str());
    let mut i: usize = 0;
    assert(views(args@).take(0) =~= Seq::<Seq<char>>::empty());
    while i < args.len()
        invariant
            i <= args@.len(),
            s@ == "LC_ALL=C "@ + shell_quoted(program@) + quoted_args(views(args@).take(i as int)),
        decreases args@.len() - i,
    {
        assert(views(args@).take(i + 1).drop_last() =~= views(args@).take(i as int));
        assert(views(args@).take(i + 1).last() == args@[i as int]@);
        push_char(&mut s, ' ');
        s.append(shell_quote(args[i].as_str()).as_str());
        i = i + 1;
    }
    assert(views(args@).take(i as int) =~= views(args@));
    s
}

/// The local program and its arguments that run a command on the target:
/// `sshpass -e ssh` where a password is used, else `ssh`; options that
/// skip host-key checks and quiet the client; password or batch
/// authentication; the port; `user@host`; `--`; the remote command line.
pub open spec fn local_argv(
    user: Seq<char>,
    host: Seq<char>,
    port: u16,
    with_password: bool,
    cmdline: Seq<char>,
) -> (Seq<char>, Seq<Seq<char>>) {
    let program = if with_password {
        "sshpass"@
    } else {
        "ssh"@
    };
    let lead = if with_password {
        seq!["-e"@, "ssh"@]
    } else {
        Seq::<Seq<char>>::empty()
    };
    let auth = if with_password {
        seq!["-o"@, "PreferredAuthentications=password"@, "-o"@, "PubkeyAuthentication=no"@]
    } else {
        seq!["-o"@, "BatchMode=yes"@]
    };
    (
        program,
        lead + seq![
            "-o"@,
            "StrictHostKeyChecking=no"@,
            "-o"@,
            "UserKnownHostsFile=/dev/null"@,
            "-o"@,
            "LogLevel=ERROR"@,
        ] + auth + seq!["-p"@, decimal(port as nat), user + "@"@ + host, "--"@, cmdline],
    )
}

/// The local argument list that runs `program args…` on `target`; the
/// target is checked first.
pub fn build_local_argv(
    target: &SshTarget,
    with_password: bool,
    program: &str,
    args: &Vec<String>,
) -> (r: Result<(String, Vec<String>), String>)
    ensures
        match target_fault(target.user@, target.host@, target.port) {
            Some(m) => r matches Err(e) && e@ == m,
            None => r matches Ok((p, a)) && (p@, views(a@)) == local_argv(
                target.user@,
                target.host@,
                target.port,
                with_password,
                remote_cmdline(program@, views(args@)),
            ),
        },
{
    if let Err(m) = target.validate() {
        return Err(m);
    }
    let mut argv: Vec<String> = Vec::new();
    let local = if with_password {
        push_str(&mut argv, "-e");
        push_str(&mut argv, "ssh");
        "sshpass".to_owned()
    } else {
        "ssh".to_owned()
    };
    push_str(&mut argv, "-o");
    push_str(&mut argv, "StrictHostKeyChecking=no");
    push_str(&mut argv, "-o");
    push_str(&mut argv, "UserKnownHostsFile=/dev/null");
    push_str(&mut argv, "-o");
    push_str(&mut argv, "LogLevel=ERROR");
    if with_password {
        push_str(&mut argv, "-o");
        push_str(&mut argv, "PreferredAuthentications=password");
        push_str(&mut argv, "-o");
        push_str(&mut argv, "PubkeyAuthentication=no");
    } else {
        push_str(&mut argv, "-o");
        push_str(&mut argv, "BatchMode=yes");
    }
    push_str(&mut argv, "-p");
    let port = decimal_string(target.port as u64);
    push_str(&mut argv, port.as_str());
    let dest = concat3(target.user.as_str(), "@", target.host.as_str());
    push_str(&mut argv, dest.as_str());
    push_str(&mut argv, "--");
    let line = quote_cmdline(program, args);
    push_str(&mut argv, line.as_str());
    let ghost want = local_argv(
        target.user@,
        target.host@,
        target.port,
        with_password,
        remote_cmdline(program@, views(args@)),
    );
    assert(views(argv@) =~= want.1);
    Ok((local, argv))
}

} // verus!
