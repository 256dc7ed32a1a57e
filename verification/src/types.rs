use vstd::prelude::*;

verus! {

/// Which kind of terminal a session runs.
#[derive(Debug, Clone, Copy, PartialEq, Eq, Structural)]
pub enum TerminalKind {
    Local,
    Ssh,
}

impl Default for TerminalKind {
    fn default() -> (r: Self)
        ensures
            r == TerminalKind::Local,
    {
        TerminalKind::Local
    }
}

/// Lifecycle status of a terminal session.
#[derive(Debug, Clone, Copy, PartialEq, Eq, Structural)]
pub enum TerminalStatus {
    Starting,
    Running,
    Exited,
    Closed,
    Error,
}

/// The name under which a status is shown in diagnostics.
pub open spec fn spec_status_name(status: TerminalStatus) -> Seq<char> {
    match status {
        TerminalStatus::Starting => "Starting"@,
        TerminalStatus::Running => "Running"@,
        TerminalStatus::Exited => "Exited"@,
        TerminalStatus::Closed => "Closed"@,
        TerminalStatus::Error => "Error"@,
    }
}

/// The name under which a status is shown in diagnostics.
pub fn status_name(status: TerminalStatus) -> (r: &'static str)
    ensures
        r@ == spec_status_name(status),
{
    match status {
        TerminalStatus::Starting => "Starting",
        TerminalStatus::Running => "Running",
        TerminalStatus::Exited => "Exited",
        TerminalStatus::Closed => "Closed",
        TerminalStatus::Error => "Error",
    }
}

/// A point in UTC time: whole seconds since the Unix epoch and the
/// nanoseconds past that second.
#[derive(Debug, Clone, Copy, PartialEq, Eq, Structural)]
pub struct Timestamp {
    pub secs: i64,
    pub nanos: u32,
}

/// Nanoseconds from `earlier` to `later` (negative when `later` is before).
pub open spec fn spec_nanos_between(earlier: Timestamp, later: Timestamp) -> int {
    (later.secs - earlier.secs) * 1_000_000_000 + (later.nanos - earlier.nanos)
}

impl Timestamp {
    /// Nanoseconds elapsed from `earlier` to `self`.
    pub fn nanos_since(&self, earlier: &Timestamp) -> (r: i128)
        ensures
            r == spec_nanos_between(*earlier, *self),
    {
        let ds: i128 = self.secs as i128 - earlier.secs as i128;
        let dn: i128 = self.nanos as i128 - earlier.nanos as i128;
        assert(-0x2_0000_0000_0000_0000 <= ds <= 0x2_0000_0000_0000_0000);
        assert(ds * 1_000_000_000 <= 0x2_0000_0000_0000_0000 * 1_000_000_000) by (nonlinear_arith)
            requires ds <= 0x2_0000_0000_0000_0000;
        assert(ds * 1_000_000_000 >= -0x2_0000_0000_0000_0000 * 1_000_000_000) by (nonlinear_arith)
            requires ds >= -0x2_0000_0000_0000_0000;
        ds * 1_000_000_000 + dn
    }
}

/// SSH parameters of a session request.
#[derive(Debug)]
pub struct SshSessionRequest {
    pub host: String,
    pub user: Option<String>,
    pub port: Option<u16>,
    pub request_tty: bool,
    pub extra_args: Vec<String>,
}

/// A request to start a terminal session.
#[derive(Debug)]
pub struct StartSessionRequest {
    pub kind: TerminalKind,
    pub command: Option<String>,
    pub shell: Option<String>,
    pub cwd: Option<String>,
    pub rows: Option<u16>,
    pub cols: Option<u16>,
    pub ssh: Option<SshSessionRequest>,
    pub approved: bool,
    pub actor: Option<String>,
}

/// A request to write input to a session.
#[derive(Debug)]
pub struct WriteRequest {
    pub session_id: String,
    pub data: String,
    pub actor: Option<String>,
}

/// A request to read buffered output of a session.
#[derive(Debug)]
pub struct PollOutputRequest {
    pub session_id: String,
    pub after_seq: Option<u64>,
    pub max_chunks: Option<usize>,
}

/// A request to resize a session.
#[derive(Debug)]
pub struct ResizeRequest {
    pub session_id: String,
    pub rows: u16,
    pub cols: u16,
}

/// A request to close a session.
#[derive(Debug)]
pub struct CloseRequest {
    pub session_id: String,
}

/// What a started session reports.
#[derive(Debug)]
pub struct StartSessionResponse {
    pub session_id: String,
    pub kind: TerminalKind,
    pub status: TerminalStatus,
    pub pid: Option<u32>,
    pub rows: u16,
    pub cols: u16,
}

/// One piece of terminal output, numbered in the order it arrived.
#[derive(Debug)]
pub struct TerminalOutputChunk {
    pub seq: u64,
    pub data: String,
    pub timestamp: Timestamp,
    pub stream: &'static str,
}

impl TerminalOutputChunk {
    /// A copy of this chunk.
    pub fn duplicate(&self) -> (r: Self)
        ensures
            r == *self,
    {
        TerminalOutputChunk {
            seq: self.seq,
            data: self.data.clone(),
            timestamp: self.timestamp,
            stream: self.stream,
        }
    }
}

/// The answer to a poll for output.
#[derive(Debug)]
pub struct PollOutputResponse {
    pub session_id: String,
    pub status: TerminalStatus,
    pub chunks: Vec<TerminalOutputChunk>,
    pub next_seq: u64,
}

/// The answer to a write.
#[derive(Debug)]
pub struct WriteResponse {
    pub session_id: String,
    pub bytes_written: usize,
}

/// The answer to a resize.
#[derive(Debug)]
pub struct ResizeResponse {
    pub session_id: String,
    pub rows: u16,
    pub cols: u16,
}

/// The answer to a close.
#[derive(Debug)]
pub struct CloseResponse {
    pub session_id: String,
    pub status: TerminalStatus,
}

/// A snapshot of one session.
#[derive(Debug)]
pub struct SessionSummary {
    pub session_id: String,
    pub kind: TerminalKind,
    pub status: TerminalStatus,
    pub pid: Option<u32>,
    pub rows: u16,
    pub cols: u16,
    pub created_at: Timestamp,
    pub updated_at: Timestamp,
}

/// Why a terminal operation was refused or failed.
#[derive(Debug)]
pub enum TerminalError {
    SshParamsNotAllowed,
    SshParamsMissing,
    ControlCharacters { label: &'static str },
    EmptyValue { label: &'static str },
    UnsafeCharacters { label: &'static str },
    UnsupportedSshArg { arg: String },
    WriteTooLarge,
    SessionNotFound { session_id: String },
    NotRunning { status: TerminalStatus },
    WriterClosed,
    ApprovalDenied { reason: String },
    ApprovalRequired,
    Failed { message: String },
}

/// An error as plain values.
pub enum TerminalErrorView {
    SshParamsNotAllowed,
    SshParamsMissing,
    ControlCharacters(Seq<char>),
    EmptyValue(Seq<char>),
    UnsafeCharacters(Seq<char>),
    UnsupportedSshArg(Seq<char>),
    WriteTooLarge,
    SessionNotFound(Seq<char>),
    NotRunning(TerminalStatus),
    WriterClosed,
    ApprovalDenied(Seq<char>),
    ApprovalRequired,
    Failed(Seq<char>),
}

impl View for TerminalError {
    type V = TerminalErrorView;

    open spec fn view(&self) -> TerminalErrorView {
        match *self {
            TerminalError::SshParamsNotAllowed => TerminalErrorView::SshParamsNotAllowed,
            TerminalError::SshParamsMissing => TerminalErrorView::SshParamsMissing,
            TerminalError::ControlCharacters { label } => TerminalErrorView::ControlCharacters(label@),
            TerminalError::EmptyValue { label } => TerminalErrorView::EmptyValue(label@),
            TerminalError::UnsafeCharacters { label } => TerminalErrorView::UnsafeCharacters(label@),
            TerminalError::UnsupportedSshArg { arg } => TerminalErrorView::UnsupportedSshArg(arg@),
            TerminalError::WriteTooLarge => TerminalErrorView::WriteTooLarge,
            TerminalError::SessionNotFound { session_id } => TerminalErrorView::SessionNotFound(
                session_id@,
            ),
            TerminalError::NotRunning { status } => TerminalErrorView::NotRunning(status),
            TerminalError::WriterClosed => TerminalErrorView::WriterClosed,
            TerminalError::ApprovalDenied { reason } => TerminalErrorView::ApprovalDenied(reason@),
            TerminalError::ApprovalRequired => TerminalErrorView::ApprovalRequired,
            TerminalError::Failed { message } => TerminalErrorView::Failed(message@),
        }
    }
}

/// The outcome of a check as plain values.
pub open spec fn outcome_view(r: Result<(), TerminalError>) -> Result<(), TerminalErrorView> {
    match r {
        Ok(()) => Ok(()),
        Err(e) => Err(e@),
    }
}

/// The human-readable text of an error.
pub open spec fn spec_error_message(e: TerminalError) -> Seq<char> {
    match e {
        TerminalError::SshParamsNotAllowed => "ssh params are only valid for ssh terminal sessions"@,
        TerminalError::SshParamsMissing => "ssh params are required for ssh terminal sessions"@,
        TerminalError::ControlCharacters { label } => label@ + " contains control characters"@,
        TerminalError::EmptyValue { label } => label@ + " cannot be empty"@,
        TerminalError::UnsafeCharacters { label } => label@ + " contains unsafe characters"@,
        TerminalError::UnsupportedSshArg { arg } => "unsupported ssh extra arg '"@ + arg@ + "'"@,
        TerminalError::WriteTooLarge => "terminal write too large; max 65536 bytes per call"@,
        TerminalError::SessionNotFound { session_id } => "terminal session not found: "@
            + session_id@,
        TerminalError::NotRunning { status } => "terminal session is not running: "@
            + spec_status_name(status),
        TerminalError::WriterClosed => "terminal session writer is closed"@,
        TerminalError::ApprovalDenied { reason } => reason@,
        TerminalError::ApprovalRequired => "terminal session requires explicit approval"@,
        TerminalError::Failed { message } => message@,
    }
}

impl TerminalError {
    /// The human-readable text of this error.
    pub fn message(&self) -> (r: String)
        ensures
            r@ == spec_error_message(*self),
    {
        match self {
            TerminalError::SshParamsNotAllowed => String::from_str(
                "ssh params are only valid for ssh terminal sessions",
            ),
            TerminalError::SshParamsMissing => String::from_str(
                "ssh params are required for ssh terminal sessions",
            ),
            TerminalError::ControlCharacters { label } => String::from_str(label).concat(
                " contains control characters",
            ),
            TerminalError::EmptyValue { label } => String::from_str(label).concat(" cannot be empty"),
            TerminalError::UnsafeCharacters { label } => String::from_str(label).concat(
                " contains unsafe characters",
            ),
            TerminalError::UnsupportedSshArg { arg } => String::from_str(
                "unsupported ssh extra arg '",
            ).concat(arg.as_str()).concat("'"),
            TerminalError::WriteTooLarge => String::from_str(
                "terminal write too large; max 65536 bytes per call",
            ),
            TerminalError::SessionNotFound { session_id } => String::from_str(
                "terminal session not found: ",
            ).concat(session_id.as_str()),
            TerminalError::NotRunning { status } => String::from_str(
                "terminal session is not running: ",
            ).concat(status_name(*status)),
            TerminalError::WriterClosed => String::from_str("terminal session writer is closed"),
            TerminalError::ApprovalDenied { reason } => reason.clone(),
            TerminalError::ApprovalRequired => String::from_str(
                "terminal session requires explicit approval",
            ),
            TerminalError::Failed { message } => message.clone(),
        }
    }
}

} // verus!
