use zfskit::runner::{build_local_argv, quote_cmdline, shell_quote, SshTarget};

#[test]
fn shell_quote_simple() {
    assert_eq!(shell_quote("zfs"), "'zfs'");
    assert_eq!(shell_quote("tank/data@snap1"), "'tank/data@snap1'");
}

#[test]
fn shell_quote_with_single_quote() {
    assert_eq!(shell_quote("it's"), "'it'\\''s'");
}

#[test]
fn shell_quote_with_spaces_and_metachars() {
    assert_eq!(shell_quote("a b $c `d` ; e"), "'a b $c `d` ; e'");
}

#[test]
fn ssh_target_parse_full() {
    let t = SshTarget::parse("alice@example.com:2222").unwrap();
    assert_eq!(t.user, "alice");
    assert_eq!(t.host, "example.com");
    assert_eq!(t.port, 2222);
}

#[test]
fn ssh_target_parse_defaults() {
    let t = SshTarget::parse("example.com").unwrap();
    assert_eq!(t.user, "root");
    assert_eq!(t.host, "example.com");
    assert_eq!(t.port, 22);
}

#[test]
fn ssh_target_parse_user_only() {
    let t = SshTarget::parse("bob@host").unwrap();
    assert_eq!(t.user, "bob");
    assert_eq!(t.port, 22);
}

#[test]
fn ssh_target_parse_host_port_only() {
    let t = SshTarget::parse("host:2225").unwrap();
    assert_eq!(t.user, "root");
    assert_eq!(t.host, "host");
    assert_eq!(t.port, 2225);
}

#[test]
fn ssh_target_parse_rejects_empty_host() {
    assert!(SshTarget::parse("user@:22").is_err());
}

#[test]
fn ssh_target_parse_rejects_invalid_user_and_port() {
    assert!(SshTarget::parse("@host").is_err());
    assert!(SshTarget::parse("-oProxyCommand=bad@host").is_err());
    assert!(SshTarget::parse("host:0").is_err());
}

#[test]
fn ssh_target_parse_bare_ipv6_takes_whole_as_host() {
    let t = SshTarget::parse("root@::1").unwrap();
    assert_eq!(t.host, "::1");
    assert_eq!(t.port, 22);
    let t = SshTarget::parse("fe80::1").unwrap();
    assert_eq!(t.host, "fe80::1");
    assert_eq!(t.port, 22);
}

#[test]
fn ssh_target_parse_bracketed_ipv6_with_port() {
    let t = SshTarget::parse("alice@[::1]:2222").unwrap();
    assert_eq!(t.user, "alice");
    assert_eq!(t.host, "::1");
    assert_eq!(t.port, 2222);
    let t = SshTarget::parse("[fe80::1]").unwrap();
    assert_eq!(t.host, "fe80::1");
    assert_eq!(t.port, 22);
}

#[test]
fn ssh_target_parse_rejects_malformed_ipv6_brackets() {
    assert!(SshTarget::parse("[::1").is_err());
    assert!(SshTarget::parse("[::1]junk").is_err());
    assert!(SshTarget::parse("[::1]:notaport").is_err());
}

#[test]
fn ssh_target_errors_are_worded() {
    assert_eq!(SshTarget::parse("@host").unwrap_err(), "empty user");
    assert_eq!(SshTarget::parse("-x@host").unwrap_err(), "SSH user cannot begin with '-'");
    assert_eq!(SshTarget::parse("u@").unwrap_err(), "empty host");
    assert_eq!(SshTarget::parse("host:0").unwrap_err(), "SSH port must not be zero");
    assert_eq!(SshTarget::parse("[::1").unwrap_err(), "unclosed '[' in IPv6 literal");
    assert_eq!(SshTarget::parse("[::1]junk").unwrap_err(), "unexpected `junk` after ']'");
    assert_eq!(
        SshTarget::parse("host:70000").unwrap_err(),
        "port `70000`: number too large to fit in target type"
    );
    assert_eq!(
        SshTarget::parse("host:").unwrap_err(),
        "port ``: cannot parse integer from empty string"
    );
    assert_eq!(
        SshTarget::parse("host:x1").unwrap_err(),
        "port `x1`: invalid digit found in string"
    );
    assert_eq!(SshTarget::parse("host:65535").unwrap().port, 65535);
}

#[test]
fn ssh_runner_argv_pubkey_mode() {
    let target = SshTarget::new("root", "localhost", 2225);
    let (prog, argv) =
        build_local_argv(&target, false, "zfs", &vec!["list".to_string(), "-j".to_string()]).unwrap();
    assert_eq!(prog, "ssh");
    assert_eq!(
        argv,
        vec![
            "-o",
            "StrictHostKeyChecking=no",
            "-o",
            "UserKnownHostsFile=/dev/null",
            "-o",
            "LogLevel=ERROR",
            "-o",
            "BatchMode=yes",
            "-p",
            "2225",
            "root@localhost",
            "--",
            "LC_ALL=C 'zfs' 'list' '-j'",
        ]
    );
}

#[test]
fn ssh_runner_argv_password_mode_uses_sshpass() {
    let target = SshTarget::new("root", "localhost", 2225);
    let (prog, argv) = build_local_argv(&target, true, "echo", &vec!["ok".to_string()]).unwrap();
    assert_eq!(prog, "sshpass");
    assert_eq!(&argv[0..2], &["-e", "ssh"]);
    assert!(!argv.iter().any(|arg| arg.contains("super-secret")));
    assert!(argv.contains(&"PreferredAuthentications=password".to_string()));
    assert!(argv.contains(&"PubkeyAuthentication=no".to_string()));
    assert!(!argv.contains(&"BatchMode=yes".to_string()));
    assert_eq!(argv.last().unwrap(), "LC_ALL=C 'echo' 'ok'");
}

#[test]
fn ssh_runner_argv_quotes_arg_with_single_quote() {
    let target = SshTarget::new("root", "h", 22);
    let (_, argv) = build_local_argv(
        &target,
        false,
        "sh",
        &vec!["-c".to_string(), "echo it's me".to_string()],
    )
    .unwrap();
    assert_eq!(
        argv.last().unwrap(),
        "LC_ALL=C 'sh' '-c' 'echo it'\\''s me'"
    );
}

#[test]
fn ssh_argv_refuses_an_invalid_target() {
    let target = SshTarget::new("", "h", 22);
    assert_eq!(
        build_local_argv(&target, false, "zfs", &vec![]).unwrap_err(),
        "empty user"
    );
    assert_eq!(quote_cmdline("zfs", &vec![]), "LC_ALL=C 'zfs'");
}
