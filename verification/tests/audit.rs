use openhuman_terminal::audit::{
    approval_route, approval_without_gate, authorize_start, command_to_check, emit_audit,
    emit_close_audit, emit_start_audit, emit_write_audit, gate_verdict, millis_to_u64,
    record_approval_execution, risk_level, ApprovalRoute, ExecutionOutcome, GateOutcome,
};
use openhuman_terminal::types::{
    StartSessionRequest, StartSessionResponse, TerminalError, TerminalKind, TerminalStatus,
};

fn request(kind: TerminalKind, command: Option<&str>, approved: bool) -> StartSessionRequest {
    StartSessionRequest {
        kind,
        command: command.map(|c| c.to_string()),
        shell: None,
        cwd: None,
        rows: None,
        cols: None,
        ssh: None,
        approved,
        actor: None,
    }
}

#[test]
fn risk_levels() {
    assert_eq!(risk_level(TerminalKind::Local), "medium");
    assert_eq!(risk_level(TerminalKind::Ssh), "high");
}

#[test]
fn audit_events_scrub_commands() {
    let e = emit_audit("login password=hunter22hunter", "high", false, true, false, 17);
    assert_eq!(e.channel, "terminal");
    assert_eq!(e.command, "login password=hunt*[REDACTED]");
    assert_eq!(e.risk_level, "high");
    assert!(!e.approved && e.allowed && !e.success);
    assert_eq!(e.duration_ms, 17);
    let e = emit_write_audit(TerminalKind::Local, Some("ci"), 1234);
    assert_eq!(e.command, "terminal write by ci: 1234 bytes");
    let e = emit_close_audit(TerminalKind::Ssh);
    assert_eq!(e.command, "terminal close");
    assert_eq!(e.risk_level, "high");
    let e = emit_start_audit("ssh:bob@h:22", TerminalKind::Ssh, true, false, 5);
    assert_eq!(e.command, "ssh:bob@h:22");
    assert!(e.approved && e.allowed && !e.success);
}

#[test]
fn approval_routes() {
    assert_eq!(approval_route(&request(TerminalKind::Local, None, false)), ApprovalRoute::NotNeeded);
    assert_eq!(approval_route(&request(TerminalKind::Local, None, true)), ApprovalRoute::NotNeeded);
    assert_eq!(approval_route(&request(TerminalKind::Local, Some("ls"), true)), ApprovalRoute::PreApproved);
    assert_eq!(approval_route(&request(TerminalKind::Local, Some("ls"), false)), ApprovalRoute::AskGate);
    assert_eq!(approval_route(&request(TerminalKind::Ssh, None, false)), ApprovalRoute::AskGate);
    assert_eq!(approval_route(&request(TerminalKind::Ssh, None, true)), ApprovalRoute::PreApproved);
    let a = approval_without_gate();
    assert!(a.approved && a.request_id.is_none());
}

#[test]
fn gate_verdicts() {
    let e = gate_verdict(None).unwrap_err();
    assert_eq!(e.message(), "terminal session requires explicit approval");
    let a = gate_verdict(Some((GateOutcome::Allow, Some("req-1".into())))).unwrap();
    assert!(a.approved);
    assert_eq!(a.request_id.as_deref(), Some("req-1"));
    let e = gate_verdict(Some((GateOutcome::Deny { reason: "nope".into() }, None))).unwrap_err();
    assert!(matches!(e, TerminalError::ApprovalDenied { .. }));
    assert_eq!(e.message(), "nope");
}

#[test]
fn approval_execution_records() {
    let ok: Result<StartSessionResponse, TerminalError> = Ok(StartSessionResponse {
        session_id: "s".into(),
        kind: TerminalKind::Local,
        status: TerminalStatus::Running,
        pid: None,
        rows: 24,
        cols: 80,
    });
    assert!(record_approval_execution(None, &ok).is_none());
    let rec = record_approval_execution(Some("r1"), &ok).unwrap();
    assert_eq!(rec.request_id, "r1");
    assert_eq!(rec.outcome, ExecutionOutcome::Success);
    assert!(rec.message.is_none());
    let err: Result<StartSessionResponse, TerminalError> =
        Err(TerminalError::Failed { message: "spawn failed token=abcdefghijk".into() });
    let rec = record_approval_execution(Some("r2"), &err).unwrap();
    assert_eq!(rec.outcome, ExecutionOutcome::Failure);
    assert_eq!(rec.message.as_deref(), Some("spawn failed token=abcd*[REDACTED]"));
}

#[test]
fn millis_saturate() {
    assert_eq!(millis_to_u64(5), 5);
    assert_eq!(millis_to_u64(u64::MAX as u128), u64::MAX);
    assert_eq!(millis_to_u64(u64::MAX as u128 + 1), u64::MAX);
    let start = std::time::Instant::now();
    assert!(openhuman_terminal::audit::elapsed_ms(&start) < 60_000);
}

#[test]
fn error_messages() {
    assert_eq!(TerminalError::WriterClosed.message(), "terminal session writer is closed");
    assert_eq!(
        TerminalError::SessionNotFound { session_id: "abc".into() }.message(),
        "terminal session not found: abc"
    );
    assert_eq!(
        TerminalError::NotRunning { status: TerminalStatus::Closed }.message(),
        "terminal session is not running: Closed"
    );
    assert_eq!(TerminalError::EmptyValue { label: "ssh host" }.message(), "ssh host cannot be empty");
}

#[test]
fn command_checked_only_for_local_commands() {
    let r = request(TerminalKind::Local, Some("rm -rf /tmp/x"), false);
    assert_eq!(command_to_check(&r).map(|c| c.as_str()), Some("rm -rf /tmp/x"));
    assert!(command_to_check(&request(TerminalKind::Local, None, false)).is_none());
    assert!(command_to_check(&request(TerminalKind::Ssh, Some("ls"), false)).is_none());
}

#[test]
fn policy_is_heard_before_the_route() {
    let denied = || Err::<(), String>("terminal sessions are disabled".to_string());
    let bad_cmd = || Err::<(), String>("command blocked by policy".to_string());
    // a refused permission wins over everything else
    let r = request(TerminalKind::Local, Some("ls"), true);
    let e = authorize_start(&r, denied(), bad_cmd()).unwrap_err();
    assert_eq!(e.message(), "terminal sessions are disabled");
    // then the verdict on a local command
    let e = authorize_start(&r, Ok(()), bad_cmd()).unwrap_err();
    assert!(matches!(e, TerminalError::Failed { .. }));
    assert_eq!(e.message(), "command blocked by policy");
    assert_eq!(authorize_start(&r, Ok(()), Ok(())).unwrap(), ApprovalRoute::PreApproved);
    // the verdict is ignored where there is no command to check
    let shell = request(TerminalKind::Local, None, false);
    assert_eq!(authorize_start(&shell, Ok(()), bad_cmd()).unwrap(), ApprovalRoute::NotNeeded);
    let ssh = request(TerminalKind::Ssh, Some("ls"), false);
    assert_eq!(authorize_start(&ssh, Ok(()), bad_cmd()).unwrap(), ApprovalRoute::AskGate);
    let unapproved = request(TerminalKind::Local, Some("ls"), false);
    assert_eq!(authorize_start(&unapproved, Ok(()), Ok(())).unwrap(), ApprovalRoute::AskGate);
}
