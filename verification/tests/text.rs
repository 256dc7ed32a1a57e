use openhuman_terminal::command::{
    build_command, build_local_command, build_ssh_command, check_cwd_inside, command_label,
    configure_command_env, safe_env_vars, ssh_target,
};
use openhuman_terminal::redact::scrub_credentials;
use openhuman_terminal::text::{
    contains_char, decimal_text, first_chars, is_whitespace, str_equals, truncate,
};
use openhuman_terminal::types::{SshSessionRequest, StartSessionRequest, TerminalError, TerminalKind};

#[test]
fn scrub_redacts_credential_values() {
    assert_eq!(scrub_credentials("password=supersecret123"), "password=supe*[REDACTED]");
    assert_eq!(scrub_credentials("api_key: \"abcdefghij\" rest"), "api_key: abcd*[REDACTED] rest");
    assert_eq!(scrub_credentials("Secret = 'zyxwvutsrq'"), "Secret=zyxw*[REDACTED]");
    assert_eq!(scrub_credentials("a token:12345678 b bearer=ABCDEFGH.123"), "a token: 1234*[REDACTED] b bearer=ABCD*[REDACTED]");
    assert_eq!(scrub_credentials("USER-KEY:\"quoted-value!!\""), "USER-KEY: quot*[REDACTED]");
}

#[test]
fn scrub_leaves_other_text_alone() {
    assert_eq!(scrub_credentials("token=short"), "token=short");
    assert_eq!(scrub_credentials("nothing to see — ünïcode"), "nothing to see — ünïcode");
    assert_eq!(scrub_credentials(""), "");
    assert_eq!(scrub_credentials("é password=ééééééééé ü"), "é password=ééééééééé ü");
    assert_eq!(scrub_credentials("é credential=abcdefgh ü"), "é credential=abcd*[REDACTED] ü");
}

#[test]
fn truncate_on_char_boundary() {
    assert_eq!(truncate("hello", 10), "hello");
    assert_eq!(truncate("hello", 5), "hello");
    assert_eq!(truncate("hello world", 5), "hello...");
    assert_eq!(truncate("héllo", 2), "h...");
    assert_eq!(truncate("héllo", 3), "hé...");
    assert_eq!(truncate("abc", 0), "...");
    let long = "x".repeat(200);
    assert_eq!(truncate(&long, 160).len(), 163);
}

#[test]
fn small_text_helpers() {
    assert!(contains_char("a=b", '='));
    assert!(!contains_char("a:b", '='));
    assert_eq!(first_chars("abcdef", 4), "abcd");
    assert_eq!(first_chars("ab", 4), "ab");
    assert_eq!(first_chars("ééééé", 4), "éééé");
    assert!(str_equals("abc", "abc"));
    assert!(!str_equals("abc", "abd"));
    assert_eq!(decimal_text(0), "0");
    assert_eq!(decimal_text(65535), "65535");
    assert_eq!(decimal_text(u64::MAX), "18446744073709551615");
    for n in [1u64, 9, 10, 22, 99, 100, 1000, 2222, 1_000_000_007] {
        assert_eq!(decimal_text(n), n.to_string());
    }
}

#[test]
fn whitespace_agrees_with_std_on_every_char() {
    for u in 0..=0x10FFFFu32 {
        if let Some(c) = char::from_u32(u) {
            assert_eq!(is_whitespace(c), c.is_whitespace(), "U+{u:04X}");
        }
    }
    assert!(is_whitespace('\r'));
    assert!(is_whitespace('\u{3000}'));
    assert!(!is_whitespace('\u{200B}'));
}

fn ssh(user: Option<&str>, port: Option<u16>, tty: bool, extra: &[&str]) -> SshSessionRequest {
    SshSessionRequest {
        host: "example.com".into(),
        user: user.map(|u| u.to_string()),
        port,
        request_tty: tty,
        extra_args: extra.iter().map(|a| a.to_string()).collect(),
    }
}

fn request(kind: TerminalKind, command: Option<&str>, ssh: Option<SshSessionRequest>) -> StartSessionRequest {
    StartSessionRequest {
        kind,
        command: command.map(|c| c.to_string()),
        shell: None,
        cwd: None,
        rows: None,
        cols: None,
        ssh,
        approved: false,
        actor: None,
    }
}

#[test]
fn ssh_targets_and_labels() {
    assert_eq!(ssh_target(&ssh(Some("alice"), None, false, &[])), "alice@example.com");
    assert_eq!(ssh_target(&ssh(Some(""), None, false, &[])), "example.com");
    assert_eq!(ssh_target(&ssh(None, None, false, &[])), "example.com");
    let r = request(TerminalKind::Ssh, None, Some(ssh(None, None, false, &[])));
    assert_eq!(command_label(&r, "/ignored"), "ssh:example.com:22");
    let r = request(TerminalKind::Ssh, None, Some(ssh(Some("bob"), Some(2200), false, &[])));
    assert_eq!(command_label(&r, ""), "ssh:bob@example.com:2200");
    let long = "y".repeat(170);
    let r = request(TerminalKind::Local, Some(&long), None);
    assert_eq!(command_label(&r, "/w"), format!("local:/w:{}...", "y".repeat(160)));
}

#[test]
fn ssh_command_arguments() {
    let r = request(TerminalKind::Ssh, None, Some(ssh(Some("bob"), Some(2200), true, &["-C", "-v"])));
    let plan = build_ssh_command(&r);
    assert_eq!(plan.program, "ssh");
    assert_eq!(plan.args, vec!["-p", "2200", "-tt", "-C", "-v", "bob@example.com"]);
    assert!(plan.cwd.is_none());
    let r = request(TerminalKind::Ssh, None, Some(ssh(None, None, false, &[])));
    assert_eq!(build_ssh_command(&r).args, vec!["example.com"]);
}

#[test]
fn local_command_choices() {
    let r = request(TerminalKind::Local, Some("top"), None);
    let plan = build_local_command(&r, Some("/bin/zsh".into()), false, "/ws".into());
    assert_eq!(plan.program, "/bin/sh");
    assert_eq!(plan.args, vec!["-lc", "exec top"]);
    assert_eq!(plan.cwd.as_deref(), Some("/ws"));
    let r = request(TerminalKind::Local, None, None);
    let plan = build_local_command(&r, Some("/bin/zsh".into()), false, "/ws".into());
    assert_eq!(plan.program, "/bin/zsh");
    assert!(plan.args.is_empty());
    let plan = build_local_command(&r, None, false, "/ws".into());
    assert_eq!(plan.program, "/bin/sh");
    let plan = build_local_command(&r, None, true, "C:\\ws".into());
    assert_eq!(plan.program, "cmd.exe");
    let mut r = request(TerminalKind::Local, Some("top"), None);
    r.shell = Some("/usr/bin/fish".into());
    let plan = build_local_command(&r, None, true, "/ws".into());
    assert_eq!(plan.program, "/usr/bin/fish");
    assert!(plan.args.is_empty());
    let e = build_command(&r, None, false, Err(TerminalError::Failed { message: "no cwd".into() })).unwrap_err();
    assert_eq!(e.message(), "no cwd");
    let r = request(TerminalKind::Local, None, None);
    let plan = build_command(&r, Some("/bin/bash".into()), false, Ok("/ws".into())).unwrap();
    assert_eq!(plan.program, "/bin/bash");
    assert!(plan.args.is_empty());
    assert_eq!(plan.cwd.as_deref(), Some("/ws"));
    let r = request(TerminalKind::Local, Some("make test"), None);
    let plan = build_command(&r, Some("/bin/bash".into()), false, Ok("/ws".into())).unwrap();
    assert_eq!(plan.program, "/bin/sh");
    assert_eq!(plan.args, vec!["-lc", "exec make test"]);
    let r = request(TerminalKind::Ssh, None, Some(ssh(None, Some(22), false, &[])));
    let plan = build_command(&r, None, false, Err(TerminalError::Failed { message: "unused".into() })).unwrap();
    assert_eq!(plan.args, vec!["-p", "22", "example.com"]);
}

#[test]
fn environment_and_cwd() {
    let vars = safe_env_vars();
    assert_eq!(vars.len(), 18);
    assert_eq!(vars[0], "PATH");
    assert!(vars.contains(&"LOCALAPPDATA"));
    let env = configure_command_env(vec![("PATH".into(), "/bin".into()), ("TERM".into(), "dumb".into())]);
    assert_eq!(
        env,
        vec![
            ("PATH".to_string(), "/bin".to_string()),
            ("TERM".to_string(), "dumb".to_string()),
            ("TERM".to_string(), "xterm-256color".to_string()),
            ("OPENHUMAN_TERMINAL".to_string(), "1".to_string()),
        ]
    );
    let root: Vec<String> = vec!["/".into(), "home".into(), "ws".into()];
    let inside: Vec<String> = vec!["/".into(), "home".into(), "ws".into(), "sub".into()];
    let outside: Vec<String> = vec!["/".into(), "home".into(), "wsx".into()];
    assert!(check_cwd_inside(&root, &inside).is_ok());
    assert!(check_cwd_inside(&root, &root).is_ok());
    let e = check_cwd_inside(&root, &outside).unwrap_err();
    assert_eq!(e.message(), "terminal cwd must be inside the OpenHuman workspace");
    assert!(check_cwd_inside(&inside, &root).is_err());
}
