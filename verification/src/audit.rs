use vstd::prelude::*;
use std::time::{Duration, Instant};
use crate::redact::{scrub_credentials, spec_scrub};
use crate::text::{decimal_text, spec_decimal};
use crate::types::{
    spec_error_message, StartSessionRequest, StartSessionResponse, TerminalError,
    TerminalErrorView, TerminalKind,
};

verus! {

#[verifier::external_type_specification]
#[verifier::external_body]
pub struct ExInstant(Instant);

/// One event for the command audit log.
#[derive(Debug)]
pub struct CommandExecutionLog {
    pub channel: &'static str,
    pub command: String,
    pub risk_level: &'static str,
    pub approved: bool,
    pub allowed: bool,
    pub success: bool,
    pub duration_ms: u64,
}

/// The audit risk of a session kind.
pub open spec fn spec_risk_level(kind: TerminalKind) -> Seq<char> {
    match kind {
        TerminalKind::Local => "medium"@,
        TerminalKind::Ssh => "high"@,
    }
}

/// The audit risk of a session kind: local shells are medium, SSH is high.
pub fn risk_level(kind: TerminalKind) -> (r: &'static str)
    ensures
        r@ == spec_risk_level(kind),
{
    match kind {
        TerminalKind::Local => "medium",
        TerminalKind::Ssh => "high",
    }
}

/// An audit event on the terminal channel, with credentials scrubbed from
/// the command text.
pub fn emit_audit(
    command: &str,
    risk_level: &'static str,
    approved: bool,
    allowed: bool,
    success: bool,
    duration_ms: u64,
) -> (r: CommandExecutionLog)
    ensures
        r.channel@ == "terminal"@,
        r.command@ == spec_scrub(command@),
        r.risk_level == risk_level,
        r.approved == approved,
        r.allowed == allowed,
        r.success == success,
        r.duration_ms == duration_ms,
{
    CommandExecutionLog {
        channel: "terminal",
        command: scrub_credentials(command),
        risk_level,
        approved,
        allowed,
        success,
        duration_ms,
    }
}

/// The command text recorded for a write.
pub open spec fn spec_write_audit_command(actor: Option<Seq<char>>, bytes: usize) -> Seq<char> {
    let who = match actor {
        Some(a) => a,
        None => "user"@,
    };
    "terminal write by "@ + who + ": "@ + spec_decimal(bytes as nat) + " bytes"@
}

/// The audit event for a write of `bytes` bytes by `actor` (default `user`).
pub fn emit_write_audit(kind: TerminalKind, actor: Option<&str>, bytes: usize) -> (r:
    CommandExecutionLog)
    ensures
        r.channel@ == "terminal"@,
        r.command@ == spec_scrub(
            spec_write_audit_command(
                match actor {
                    Some(a) => Some(a@),
                    None => None,
                },
                bytes,
            ),
        ),
        r.risk_level@ == spec_risk_level(kind),
        r.approved,
        r.allowed,
        r.success,
        r.duration_ms == 0,
{
    let who = match actor {
        Some(a) => a,
        None => "user",
    };
    let text = String::from_str("terminal write by ").concat(who).concat(": ").concat(
        decimal_text(bytes as u64).as_str(),
    ).concat(" bytes");
    emit_audit(text.as_str(), risk_level(kind), true, true, true, 0)
}

/// The audit event for closing a session of kind `kind`: `terminal close`
/// on the terminal channel at the kind's risk, approved, allowed and
/// successful, taking no time.
pub open spec fn is_close_audit(a: CommandExecutionLog, kind: TerminalKind) -> bool {
    &&& a.channel@ == "terminal"@
    &&& a.command@ == spec_scrub("terminal close"@)
    &&& a.risk_level@ == spec_risk_level(kind)
    &&& a.approved
    &&& a.allowed
    &&& a.success
    &&& a.duration_ms == 0
}

/// The audit event for closing a session.
pub fn emit_close_audit(kind: TerminalKind) -> (r: CommandExecutionLog)
    ensures
        is_close_audit(r, kind),
{
    emit_audit("terminal close", risk_level(kind), true, true, true, 0)
}

/// The audit event for an attempt to start a session under `label`: on
/// the terminal channel, the scrubbed label at the kind's risk, allowed,
/// with the approval, success and duration given.
pub open spec fn is_start_audit(
    a: CommandExecutionLog,
    label: Seq<char>,
    kind: TerminalKind,
    approved: bool,
    success: bool,
    duration_ms: u64,
) -> bool {
    &&& a.channel@ == "terminal"@
    &&& a.command@ == spec_scrub(label)
    &&& a.risk_level@ == spec_risk_level(kind)
    &&& a.approved == approved
    &&& a.allowed
    &&& a.success == success
    &&& a.duration_ms == duration_ms
}

/// The audit event for an attempt to start a session.
pub fn emit_start_audit(
    command_label: &str,
    kind: TerminalKind,
    approved: bool,
    success: bool,
    duration_ms: u64,
) -> (r: CommandExecutionLog)
    ensures
        is_start_audit(r, command_label@, kind, approved, success, duration_ms),
{
    emit_audit(command_label, risk_level(kind), approved, true, success, duration_ms)
}

/// Calls `Instant::elapsed`: the time passed since `start`. Nothing is
/// claimed: the result depends on the clock.
#[verifier::external_body]
fn time_since(start: &Instant) -> (r: Duration) {
    start.elapsed()
}

/// Calls `Duration::as_millis`: the whole milliseconds of `d`. Nothing is
/// claimed, since a `Duration` is opaque here.
#[verifier::external_body]
fn whole_millis(d: &Duration) -> (r: u128) {
    d.as_millis()
}

/// Milliseconds as a `u64`, saturating at `u64::MAX`.
pub fn millis_to_u64(millis: u128) -> (r: u64)
    ensures
        r == (if millis > u64::MAX { u64::MAX as int } else { millis as int }),
{
    if millis > u64::MAX as u128 {
        u64::MAX
    } else {
        millis as u64
    }
}

/// Milliseconds since `start`, saturating at `u64::MAX`.
pub fn elapsed_ms(start: &Instant) -> u64 {
    let passed = time_since(start);
    millis_to_u64(whole_millis(&passed))
}

/// How a start request is approved.
#[derive(Debug, Clone, Copy, PartialEq, Eq, Structural)]
pub enum ApprovalRoute {
    /// A local interactive shell needs no approval.
    NotNeeded,
    /// The caller approved the request explicitly.
    PreApproved,
    /// The approval gate has to decide.
    AskGate,
}

/// How a start request is approved. Interactive local shells pass freely;
/// SSH sessions and local commands pass when marked approved and are
/// otherwise put to the approval gate.
pub open spec fn spec_approval_route(request: StartSessionRequest) -> ApprovalRoute {
    if request.kind != TerminalKind::Ssh && request.command is None {
        ApprovalRoute::NotNeeded
    } else if request.approved {
        ApprovalRoute::PreApproved
    } else {
        ApprovalRoute::AskGate
    }
}

/// How a start request is approved.
pub fn approval_route(request: &StartSessionRequest) -> (r: ApprovalRoute)
    ensures
        r == spec_approval_route(*request),
{
    if request.kind != TerminalKind::Ssh && request.command.is_none() {
        ApprovalRoute::NotNeeded
    } else if request.approved {
        ApprovalRoute::PreApproved
    } else {
        ApprovalRoute::AskGate
    }
}

/// The command the security policy must check before a start: the
/// command of a local session, when it has one.
pub fn command_to_check(request: &StartSessionRequest) -> (r: Option<&String>)
    ensures
        match r {
            Some(c) => request.kind == TerminalKind::Local && request.command == Some(*c),
            None => !(request.kind == TerminalKind::Local && request.command is Some),
        },
{
    match request.kind {
        TerminalKind::Local => request.command.as_ref(),
        TerminalKind::Ssh => None,
    }
}

/// The outcome of the security checks of a start, in order: the policy's
/// permission to start terminal sessions, then (for a local command) its
/// verdict on the command; then the approval route.
pub open spec fn spec_authorize_start(
    request: StartSessionRequest,
    permitted: Result<(), String>,
    command_verdict: Result<(), String>,
) -> Result<ApprovalRoute, TerminalErrorView> {
    match permitted {
        Err(m) => Err(TerminalErrorView::Failed(m@)),
        Ok(()) => if request.kind == TerminalKind::Local && request.command is Some {
            match command_verdict {
                Err(m) => Err(TerminalErrorView::Failed(m@)),
                Ok(()) => Ok(spec_approval_route(request)),
            }
        } else {
            Ok(spec_approval_route(request))
        },
    }
}

/// Decides how a start proceeds once the security policy has answered:
/// `permitted` is whether terminal sessions may be started at all,
/// `command_verdict` the policy's verdict on the command named by
/// `command_to_check` (ignored when there is none). The policy is heard
/// before the approval route is taken.
pub fn authorize_start(
    request: &StartSessionRequest,
    permitted: Result<(), String>,
    command_verdict: Result<(), String>,
) -> (r: Result<ApprovalRoute, TerminalError>)
    ensures
        match r {
            Ok(route) => spec_authorize_start(*request, permitted, command_verdict) == Ok::<
                ApprovalRoute,
                TerminalErrorView,
            >(route),
            Err(e) => spec_authorize_start(*request, permitted, command_verdict) == Err::<
                ApprovalRoute,
                TerminalErrorView,
            >(e@),
        },
{
    match permitted {
        Err(message) => return Err(TerminalError::Failed { message }),
        Ok(()) => {},
    }
    match command_to_check(request) {
        Some(_) => match command_verdict {
            Err(message) => return Err(TerminalError::Failed { message }),
            Ok(()) => {},
        },
        None => {},
    }
    Ok(approval_route(request))
}

/// The approval a session started under.
#[derive(Debug)]
pub struct ApprovalResult {
    pub approved: bool,
    pub request_id: Option<String>,
}

/// What the approval gate answered.
#[derive(Debug)]
pub enum GateOutcome {
    Allow,
    Deny { reason: String },
}

/// The approval for a route that needs no gate.
pub fn approval_without_gate() -> (r: ApprovalResult)
    ensures
        r.approved,
        r.request_id is None,
{
    ApprovalResult { approved: true, request_id: None }
}

/// Turns the reply of the approval gate into an approval: `Allow` passes
/// under its request id, `Deny` refuses with its reason, and a missing
/// gate refuses the session.
pub fn gate_verdict(answer: Option<(GateOutcome, Option<String>)>) -> (r: Result<
    ApprovalResult,
    TerminalError,
>)
    ensures
        match answer {
            None => (r matches Err(e) && e == TerminalError::ApprovalRequired),
            Some((GateOutcome::Allow, id)) => (r matches Ok(a) && a.approved && a.request_id == id),
            Some((GateOutcome::Deny { reason }, _)) => (r matches Err(e) && e
                == (TerminalError::ApprovalDenied { reason })),
        },
{
    match answer {
        None => Err(TerminalError::ApprovalRequired),
        Some((GateOutcome::Allow, request_id)) => Ok(ApprovalResult { approved: true, request_id }),
        Some((GateOutcome::Deny { reason }, _)) => Err(TerminalError::ApprovalDenied { reason }),
    }
}

/// How an approved execution ended.
#[derive(Debug, Clone, Copy, PartialEq, Eq, Structural)]
pub enum ExecutionOutcome {
    Success,
    Failure,
}

/// What is reported back to the approval gate about an approved start.
#[derive(Debug)]
pub struct ExecutionRecord {
    pub request_id: String,
    pub outcome: ExecutionOutcome,
    pub message: Option<String>,
}

/// The report for the approval gate on a start under `request_id` that
/// ended with `result`: nothing without a request id; otherwise success,
/// or failure with the scrubbed error text.
pub open spec fn is_approval_record(
    r: Option<ExecutionRecord>,
    request_id: Option<Seq<char>>,
    result: Result<StartSessionResponse, TerminalError>,
) -> bool {
    match request_id {
        None => r is None,
        Some(id) => (r matches Some(rec) && rec.request_id@ == id && match result {
            Ok(_) => rec.outcome == ExecutionOutcome::Success && rec.message is None,
            Err(e) => rec.outcome == ExecutionOutcome::Failure && (rec.message matches Some(m)
                && m@ == spec_scrub(spec_error_message(e))),
        }),
    }
}

/// The report for the approval gate: nothing without a request id;
/// otherwise success, or failure with the scrubbed error text.
pub fn record_approval_execution(
    request_id: Option<&str>,
    result: &Result<StartSessionResponse, TerminalError>,
) -> (r: Option<ExecutionRecord>)
    ensures
        is_approval_record(
            r,
            match request_id {
                Some(id) => Some(id@),
                None => None,
            },
            *result,
        ),
{
    match request_id {
        None => None,
        Some(id) => match result {
            Ok(_) => Some(
                ExecutionRecord {
                    request_id: String::from_str(id),
                    outcome: ExecutionOutcome::Success,
                    message: None,
                },
            ),
            Err(error) => {
                let text = error.message();
                Some(
                    ExecutionRecord {
                        request_id: String::from_str(id),
                        outcome: ExecutionOutcome::Failure,
                        message: Some(scrub_credentials(text.as_str())),
                    },
                )
            },
        },
    }
}

} // verus!
