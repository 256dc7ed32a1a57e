use openhuman_terminal::types::{SshSessionRequest, StartSessionRequest, TerminalError, TerminalKind};
use openhuman_terminal::validation::{
    normalized_size, reject_control_chars, validate_atom, validate_safe_ssh_arg,
    validate_ssh_request, validate_start_request,
};

fn local_request() -> StartSessionRequest {
    StartSessionRequest {
        kind: TerminalKind::Local,
        command: None,
        shell: None,
        cwd: None,
        rows: None,
        cols: None,
        ssh: None,
        approved: false,
        actor: None,
    }
}

#[test]
fn validates_safe_ssh_target() {
    let ssh = SshSessionRequest {
        host: "example.com".into(),
        user: Some("alice".into()),
        port: Some(22),
        request_tty: true,
        extra_args: vec!["-C".into()],
    };
    assert!(validate_ssh_request(&ssh).is_ok());
}

#[test]
fn rejects_ssh_shell_metacharacters() {
    let ssh = SshSessionRequest {
        host: "example.com;rm -rf /".into(),
        user: None,
        port: None,
        request_tty: false,
        extra_args: vec![],
    };
    assert!(validate_ssh_request(&ssh).is_err());
}

#[test]
fn rejects_unsupported_ssh_extra_args() {
    assert!(validate_safe_ssh_arg("-oProxyCommand=sh").is_err());
}

#[test]
fn normalized_size_defaults_and_clamps() {
    assert_eq!(normalized_size(None, 24), 24);
    assert_eq!(normalized_size(Some(0), 80), 80);
    assert_eq!(normalized_size(Some(40), 24), 40);
    assert_eq!(normalized_size(Some(9000), 24), 500);
    assert_eq!(normalized_size(None, 0), 1);
    assert_eq!(normalized_size(Some(500), 24), 500);
    assert_eq!(normalized_size(Some(1), 24), 1);
}

#[test]
fn atom_errors_in_order() {
    let e = validate_atom("ssh host", "   ").unwrap_err();
    assert!(matches!(e, TerminalError::EmptyValue { label: "ssh host" }));
    assert_eq!(e.message(), "ssh host cannot be empty");
    let e = validate_atom("ssh host", "").unwrap_err();
    assert!(matches!(e, TerminalError::EmptyValue { .. }));
    let e = validate_atom("ssh user", "bob\n").unwrap_err();
    assert!(matches!(e, TerminalError::ControlCharacters { label: "ssh user" }));
    assert_eq!(e.message(), "ssh user contains control characters");
    let e = validate_atom("ssh user", "bo b").unwrap_err();
    assert!(matches!(e, TerminalError::UnsafeCharacters { label: "ssh user" }));
    assert_eq!(e.message(), "ssh user contains unsafe characters");
    for bad in ["a&b", "a|b", "a`b", "a$b", "a<b", "a>b", "a;b", "a\tb"] {
        assert!(validate_atom("ssh host", bad).is_err(), "{bad}");
    }
    assert!(validate_atom("ssh host", "host-1.example_org").is_ok());
}

#[test]
fn control_characters_are_refused() {
    assert!(reject_control_chars("command", "ls -la").is_ok());
    assert!(reject_control_chars("command", "ls\0").is_err());
    assert!(reject_control_chars("command", "ls\r").is_err());
    assert!(reject_control_chars("command", "ls\n").is_err());
    assert_eq!(
        reject_control_chars("shell", "a\nb").unwrap_err().message(),
        "shell contains control characters"
    );
}

#[test]
fn every_safe_flag_is_accepted() {
    for flag in ["-4", "-6", "-A", "-a", "-C", "-N", "-T", "-t", "-tt", "-v", "-vv", "-vvv"] {
        assert!(validate_safe_ssh_arg(flag).is_ok(), "{flag}");
    }
    let e = validate_safe_ssh_arg("-L").unwrap_err();
    assert_eq!(e.message(), "unsupported ssh extra arg '-L'");
}

#[test]
fn ssh_request_checks_user_and_args() {
    let mut ssh = SshSessionRequest {
        host: "example.com".into(),
        user: Some("al ice".into()),
        port: None,
        request_tty: false,
        extra_args: vec![],
    };
    assert!(matches!(
        validate_ssh_request(&ssh),
        Err(TerminalError::UnsafeCharacters { label: "ssh user" })
    ));
    ssh.user = None;
    ssh.extra_args = vec!["-v".into(), "-R".into(), "-X".into()];
    match validate_ssh_request(&ssh) {
        Err(TerminalError::UnsupportedSshArg { arg }) => assert_eq!(arg, "-R"),
        other => panic!("unexpected {other:?}"),
    }
}

#[test]
fn start_request_rules() {
    assert!(validate_start_request(&local_request()).is_ok());
    let mut r = local_request();
    r.ssh = Some(SshSessionRequest {
        host: "h".into(),
        user: None,
        port: None,
        request_tty: false,
        extra_args: vec![],
    });
    let e = validate_start_request(&r).unwrap_err();
    assert!(matches!(e, TerminalError::SshParamsNotAllowed));
    assert_eq!(e.message(), "ssh params are only valid for ssh terminal sessions");

    let mut r = local_request();
    r.command = Some("echo hi\nrm".into());
    assert!(matches!(
        validate_start_request(&r),
        Err(TerminalError::ControlCharacters { label: "command" })
    ));
    let mut r = local_request();
    r.shell = Some("/bin/bash\r".into());
    assert!(matches!(
        validate_start_request(&r),
        Err(TerminalError::ControlCharacters { label: "shell" })
    ));

    let mut r = local_request();
    r.kind = TerminalKind::Ssh;
    let e = validate_start_request(&r).unwrap_err();
    assert_eq!(e.message(), "ssh params are required for ssh terminal sessions");
}
