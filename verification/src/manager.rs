use vstd::prelude::*;
use vstd::utf8::encode_utf8;
use crate::audit::{
    emit_start_audit, is_approval_record, is_start_audit, record_approval_execution,
    ApprovalResult, ExecutionRecord, emit_write_audit, is_close_audit, spec_risk_level, spec_write_audit_command,
    CommandExecutionLog,
};
use crate::command::{command_label, spec_command_label};
use crate::redact::{scrub_credentials, spec_scrub};
use crate::session::{
    spec_accepts_input, spec_appended, spec_next_cursor, spec_poll_limit, spec_refreshed_status,
    spec_select, seqs_increasing, lemma_select_sound_and_complete, lemma_consecutive_in_order,
    lemma_select_keeps_order, lemma_cursor_covers_returned, ChildPoll, TerminalSession, MAX_POLL_CHUNKS,
    count_above,
};
use crate::text::{byte_len, str_equals};
use crate::types::{
    spec_nanos_between, CloseRequest, CloseResponse, PollOutputRequest, PollOutputResponse,
    ResizeRequest, ResizeResponse, SessionSummary, StartSessionRequest, StartSessionResponse,
    TerminalError, TerminalErrorView, TerminalKind, TerminalOutputChunk, TerminalStatus, Timestamp,
    WriteRequest, WriteResponse,
};
use crate::validation::{
    normalized_size, spec_normalized_size, spec_validate_start_request, validate_start_request,
};

verus! {

/// The most bytes a single write may carry.
pub const MAX_WRITE_BYTES: usize = 65536;

/// How long, in nanoseconds, a session may stay idle before it is closed (one hour).
pub const IDLE_TIMEOUT_NANOS: i128 = 3_600_000_000_000;

/// The default number of terminal rows.
pub const DEFAULT_ROWS: u16 = 24;

/// The default number of terminal columns.
pub const DEFAULT_COLS: u16 = 80;

/// What a read from a session's pseudo-terminal produced.
#[derive(Debug)]
pub enum ReadOutcome {
    /// The terminal reached end of file.
    Eof,
    /// The terminal produced this text.
    Data(String),
    /// Reading failed with this message.
    Failed(String),
}

/// A session closed for being idle, with its audit event.
#[derive(Debug)]
pub struct ClosedSession {
    pub session_id: String,
    pub audit: CommandExecutionLog,
}

/// Session ids do not repeat.
pub open spec fn ids_unique(s: Seq<TerminalSession>) -> bool {
    forall|i: int, j: int| 0 <= i < j < s.len() ==> (#[trigger] s[i]).id@ != (#[trigger] s[j]).id@
}

/// Some session has this id.
pub open spec fn has_session(s: Seq<TerminalSession>, id: Seq<char>) -> bool {
    exists|i: int| 0 <= i < s.len() && (#[trigger] s[i]).id@ == id
}

/// The position of the session with this id (`-1` when there is none).
pub open spec fn position_of(s: Seq<TerminalSession>, id: Seq<char>) -> int {
    if has_session(s, id) {
        choose|i: int| 0 <= i < s.len() && (#[trigger] s[i]).id@ == id
    } else {
        -1
    }
}

/// The session, touched at `now`.
pub open spec fn spec_touched(s: TerminalSession, now: Timestamp) -> TerminalSession {
    TerminalSession { updated_at: now, ..s }
}

/// The session after its child was polled.
pub open spec fn spec_refreshed(s: TerminalSession, poll: ChildPoll) -> TerminalSession {
    TerminalSession { status: spec_refreshed_status(s.status, s.child_attached, poll), ..s }
}

/// The session has been idle for longer than the idle timeout at `now`.
pub open spec fn spec_is_stale(s: TerminalSession, now: Timestamp) -> bool {
    spec_nanos_between(s.updated_at, now) > IDLE_TIMEOUT_NANOS
}

/// The sessions still active at `now`, in order.
pub open spec fn spec_active(s: Seq<TerminalSession>, now: Timestamp) -> Seq<TerminalSession>
    decreases s.len(),
{
    if s.len() == 0 {
        Seq::empty()
    } else if spec_is_stale(s.last(), now) {
        spec_active(s.drop_last(), now)
    } else {
        spec_active(s.drop_last(), now).push(s.last())
    }
}

/// The sessions idle at `now`, in order.
pub open spec fn spec_stale(s: Seq<TerminalSession>, now: Timestamp) -> Seq<TerminalSession>
    decreases s.len(),
{
    if s.len() == 0 {
        Seq::empty()
    } else if spec_is_stale(s.last(), now) {
        spec_stale(s.drop_last(), now).push(s.last())
    } else {
        spec_stale(s.drop_last(), now)
    }
}

/// `closed` reports the sessions `stale`, in order: each by its id, with
/// the audit event of closing it.
pub open spec fn reports_closed(closed: Seq<ClosedSession>, stale: Seq<TerminalSession>) -> bool {
    &&& closed.len() == stale.len()
    &&& forall|k: int|
        0 <= k < closed.len() ==> (#[trigger] closed[k]).session_id@ == stale[k].id@
            && is_close_audit(closed[k].audit, stale[k].kind)
}

/// A session just started under `id`.
pub open spec fn is_fresh_session(
    s: TerminalSession,
    id: Seq<char>,
    kind: TerminalKind,
    pid: Option<u32>,
    rows: u16,
    cols: u16,
    now: Timestamp,
) -> bool {
    &&& s.id@ == id
    &&& s.kind == kind
    &&& s.status == TerminalStatus::Running
    &&& s.child_attached
    &&& s.writer_open
    &&& s.buffer@.len() == 0
    &&& s.next_seq == 1
    &&& s.rows == rows
    &&& s.cols == cols
    &&& s.pid == pid
    &&& s.created_at == now
    &&& s.updated_at == now
}

/// A summary shows the session as it is.
pub open spec fn summarizes(r: SessionSummary, s: TerminalSession) -> bool {
    &&& r.session_id@ == s.id@
    &&& r.kind == s.kind
    &&& r.status == s.status
    &&& r.pid == s.pid
    &&& r.rows == s.rows
    &&& r.cols == s.cols
    &&& r.created_at == s.created_at
    &&& r.updated_at == s.updated_at
}

/// The banner appended when a terminal reaches end of file.
pub open spec fn spec_exit_banner() -> Seq<char> {
    "\r\n[openhuman terminal: session exited]\r\n"@
}

/// The banner appended when reading a terminal fails.
pub open spec fn spec_read_error_banner(message: Seq<char>) -> Seq<char> {
    "\r\n[openhuman terminal: read error: "@ + spec_scrub(message) + "]\r\n"@
}

/// What a validated start request will run as.
#[derive(Debug)]
pub struct SessionPlan {
    pub kind: TerminalKind,
    pub rows: u16,
    pub cols: u16,
    pub command_label: String,
}

fn plan_session(request: &StartSessionRequest, cwd: Result<String, TerminalError>) -> (r: Result<
    SessionPlan,
    TerminalError,
>)
    ensures
        match spec_validate_start_request(*request) {
            Err(v) => (r matches Err(e) && e@ == v),
            Ok(()) => match (request.kind, cwd) {
                (TerminalKind::Local, Err(c)) => (r matches Err(e) && e == c),
                _ => (r matches Ok(plan) && plan.kind == request.kind && plan.rows
                    == spec_normalized_size(request.rows, DEFAULT_ROWS) && plan.cols
                    == spec_normalized_size(request.cols, DEFAULT_COLS)
                    && plan.command_label@ == spec_command_label(
                    *request,
                    match cwd {
                        Ok(c) => c@,
                        Err(_) => Seq::empty(),
                    },
                )),
            },
        },
{
    validate_start_request(request)?;
    let rows = normalized_size(request.rows, DEFAULT_ROWS);
    let cols = normalized_size(request.cols, DEFAULT_COLS);
    let label = match request.kind {
        TerminalKind::Local => {
            let dir = cwd?;
            command_label(request, dir.as_str())
        },
        TerminalKind::Ssh => {
            proof {
                reveal_strlit("");
            }
            command_label(request, "")
        },
    };
    Ok(SessionPlan { kind: request.kind, rows, cols, command_label: label })
}

/// The length in UTF-8 bytes of the data of a write.
pub open spec fn encode_len(request: &WriteRequest) -> nat {
    encode_utf8(request.data@).len()
}

/// A completed write recorded at `now`, taking the sessions `pre` to `post`.
pub open spec fn completed_write(
    pre: Seq<TerminalSession>,
    post: Seq<TerminalSession>,
    request: &WriteRequest,
    now: Timestamp,
    r: Result<(WriteResponse, CommandExecutionLog), TerminalError>,
) -> bool {
    &&& ({
        let id = request.session_id@;
        let i = position_of(pre, id);
        if !has_session(pre, id) {
            &&& post =~= pre
            &&& r matches Err(e) && e@ == TerminalErrorView::SessionNotFound(id)
        } else {
            &&& post =~= pre.update(i, spec_touched(pre[i], now))
            &&& r matches Ok((resp, audit)) && resp.session_id@ == id
                && resp.bytes_written == encode_len(request)
                && audit.command@ == spec_scrub(
                spec_write_audit_command(
                    match request.actor {
                        Some(a) => Some(a@),
                        None => None,
                    },
                    resp.bytes_written,
                ),
            ) && audit.risk_level@ == spec_risk_level(pre[i].kind)
                && audit.channel@ == "terminal"@ && audit.approved && audit.allowed
                && audit.success && audit.duration_ms == 0
        }
    })
}

/// A poll for output answered at `now`, taking the sessions `pre` to `post`.
pub open spec fn polled_output(
    pre: Seq<TerminalSession>,
    post: Seq<TerminalSession>,
    request: &PollOutputRequest,
    poll: ChildPoll,
    now: Timestamp,
    r: Result<PollOutputResponse, TerminalError>,
) -> bool {
    &&& ({
        let id = request.session_id@;
        let i = position_of(pre, id);
        let after: u64 = match request.after_seq {
            Some(a) => a,
            None => 0,
        };
        if !has_session(pre, id) {
            &&& post =~= pre
            &&& r matches Err(e) && e@ == TerminalErrorView::SessionNotFound(id)
        } else {
            let s = spec_touched(spec_refreshed(pre[i], poll), now);
            &&& post =~= pre.update(i, s)
            &&& r matches Ok(resp) && resp.session_id@ == id && resp.status == s.status
                && resp.chunks@ == spec_select(
                s.buffer@,
                after,
                spec_poll_limit(request.max_chunks) as nat,
            ) && resp.next_seq == spec_next_cursor(resp.chunks@, after, s.next_seq)
                && resp.next_seq >= after && (pre[i].buffer@.len() <= pre[i].next_seq ==> (
                seqs_increasing(resp.chunks@) && forall|k: int|
                    0 <= k < resp.chunks@.len() ==> #[trigger] resp.chunks@[k].seq
                        <= resp.next_seq))
        }
    })
}

/// A resize recorded at `now`, taking the sessions `pre` to `post`.
pub open spec fn completed_resize(
    pre: Seq<TerminalSession>,
    post: Seq<TerminalSession>,
    request: &ResizeRequest,
    rows: u16,
    cols: u16,
    now: Timestamp,
    r: ResizeResponse,
) -> bool {
    &&& r.session_id@ == request.session_id@
    &&& r.rows == rows
    &&& r.cols == cols
    &&& ({
        let i = position_of(pre, request.session_id@);
        if has_session(pre, request.session_id@) {
            post =~= pre.update(
                i,
                TerminalSession { rows, cols, updated_at: now, ..pre[i] },
            )
        } else {
            post =~= pre
        }
    })
}

/// Idle sessions closed at `now`, taking the sessions `pre` to `post`.
pub open spec fn cleaned_idle(
    pre: Seq<TerminalSession>,
    post: Seq<TerminalSession>,
    now: Timestamp,
    r: Vec<ClosedSession>,
) -> bool {
    &&& post =~= spec_active(pre, now)
    &&& reports_closed(r@, spec_stale(pre, now))
    &&& r@.len() + post.len() == pre.len()
}

/// A read from a terminal handled at `now`, taking the sessions `pre` to `post`.
pub open spec fn handled_read(
    pre: Seq<TerminalSession>,
    post: Seq<TerminalSession>,
    session_id: &str,
    outcome: ReadOutcome,
    now: Timestamp,
    r: bool,
) -> bool {
    &&& r == (outcome is Data)
    &&& ({
        let i = position_of(pre, session_id@);
        if !has_session(pre, session_id@) {
            post =~= pre
        } else {
            let status = match outcome {
                ReadOutcome::Eof => TerminalStatus::Exited,
                ReadOutcome::Data(_) => pre[i].status,
                ReadOutcome::Failed(_) => TerminalStatus::Error,
            };
            let text = match outcome {
                ReadOutcome::Eof => spec_exit_banner(),
                ReadOutcome::Data(t) => spec_scrub(t@),
                ReadOutcome::Failed(m) => spec_read_error_banner(m@),
            };
            &&& post.len() == pre.len()
            &&& forall|k: int|
                0 <= k < pre.len() && k != i ==> post[k] == pre[k]
            &&& output_appended(
                TerminalSession { status, ..pre[i] },
                post[i],
                text,
                now,
            )
        }
    })
}

/// A session registered under `id` at `now`, taking the sessions `pre` to `post`.
pub open spec fn registered(
    pre: Seq<TerminalSession>,
    post: Seq<TerminalSession>,
    id: String,
    kind: TerminalKind,
    pid: Option<u32>,
    rows: u16,
    cols: u16,
    now: Timestamp,
    r: StartSessionResponse,
) -> bool {
    &&& r.session_id@ == id@
    &&& r.kind == kind
    &&& r.status == TerminalStatus::Running
    &&& r.pid == pid
    &&& r.rows == rows
    &&& r.cols == cols
    &&& has_session(post, id@)
    &&& ({
        let slot = if has_session(pre, id@) {
            position_of(pre, id@)
        } else {
            pre.len() as int
        };
        &&& post.len() == (if has_session(pre, id@) {
            pre.len()
        } else {
            pre.len() + 1
        })
        &&& forall|k: int| 0 <= k < pre.len() && k != slot ==> post[k] == pre[k]
        &&& is_fresh_session(post[slot], id@, kind, pid, rows, cols, now)
    })
}

/// A start request planned at `now`, taking the sessions `pre` to `post`.
pub open spec fn planned_start(
    pre: Seq<TerminalSession>,
    post: Seq<TerminalSession>,
    request: &StartSessionRequest,
    cwd: Result<String, TerminalError>,
    now: Timestamp,
    r: (Vec<ClosedSession>, Result<SessionPlan, TerminalError>),
) -> bool {
    &&& post =~= spec_active(pre, now)
    &&& reports_closed(r.0@, spec_stale(pre, now))
    &&& match spec_validate_start_request(*request) {
        Err(v) => (r.1 matches Err(e) && e@ == v),
        Ok(()) => match (request.kind, cwd) {
            (TerminalKind::Local, Err(c)) => (r.1 matches Err(e) && e == c),
            _ => (r.1 matches Ok(plan) && plan.kind == request.kind && plan.rows
                == spec_normalized_size(request.rows, DEFAULT_ROWS) && plan.cols
                == spec_normalized_size(request.cols, DEFAULT_COLS)
                && plan.command_label@ == spec_command_label(
                *request,
                match cwd {
                    Ok(c) => c@,
                    Err(_) => Seq::empty(),
                },
            )),
        },
    }
}

/// The texts of a list of id/poll pairs.
pub open spec fn polls_view(polls: Seq<(String, ChildPoll)>) -> Seq<(Seq<char>, ChildPoll)> {
    polls.map_values(|p: (String, ChildPoll)| (p.0@, p.1))
}

/// The poll given for `id`: the first one listed for it, or "still running"
/// when none is.
pub open spec fn spec_poll_for(polls: Seq<(Seq<char>, ChildPoll)>, id: Seq<char>) -> ChildPoll
    decreases polls.len(),
{
    if polls.len() == 0 {
        ChildPoll::StillRunning
    } else if polls[0].0 == id {
        polls[0].1
    } else {
        spec_poll_for(polls.drop_first(), id)
    }
}

fn poll_for(polls: &Vec<(String, ChildPoll)>, id: &str) -> (r: ChildPoll)
    ensures
        r == spec_poll_for(polls_view(polls@), id@),
{
    let ghost pv = polls_view(polls@);
    let n = polls.len();
    assert(pv.subrange(0, n as int) == pv);
    let mut i: usize = 0;
    while i < n
        invariant
            n == polls@.len(),
            pv == polls_view(polls@),
            0 <= i <= n,
            spec_poll_for(pv, id@) == spec_poll_for(pv.subrange(i as int, n as int), id@),
        decreases n - i,
    {
        let ghost rest = pv.subrange(i as int, n as int);
        assert(rest[0] == (polls@[i as int].0@, polls@[i as int].1));
        assert(rest.drop_first() == pv.subrange(i + 1, n as int));
        if str_equals(polls[i].0.as_str(), id) {
            return polls[i].1;
        }
        i = i + 1;
    }
    ChildPoll::StillRunning
}

/// Sessions listed at `now`, taking the sessions `pre` to `post`: the idle
/// ones are closed and reported, each remaining one is refreshed with its
/// poll, and each is summarized as it then stands.
pub open spec fn listed(
    pre: Seq<TerminalSession>,
    post: Seq<TerminalSession>,
    polls: Seq<(String, ChildPoll)>,
    now: Timestamp,
    r: (Vec<ClosedSession>, Vec<SessionSummary>),
) -> bool {
    let active = spec_active(pre, now);
    &&& reports_closed(r.0@, spec_stale(pre, now))
    &&& post.len() == active.len()
    &&& forall|k: int|
        0 <= k < post.len() ==> #[trigger] post[k] == spec_refreshed(
            active[k],
            spec_poll_for(polls_view(polls), active[k].id@),
        )
    &&& r.1@.len() == post.len()
    &&& forall|k: int| 0 <= k < r.1@.len() ==> summarizes(#[trigger] r.1@[k], post[k])
}

/// A start finished under `id` at `now`, taking the sessions `pre` to
/// `post`: a spawned process is registered, a failed spawn changes nothing
/// and is the result; the approval report and the start's audit event
/// follow from the result.
pub open spec fn finished_start(
    pre: Seq<TerminalSession>,
    post: Seq<TerminalSession>,
    id: String,
    now: Timestamp,
    plan: SessionPlan,
    approval: ApprovalResult,
    spawned: Result<u32, TerminalError>,
    elapsed_ms: u64,
    r: (Result<StartSessionResponse, TerminalError>, Option<ExecutionRecord>, CommandExecutionLog),
) -> bool {
    &&& match spawned {
        Ok(pid) => (r.0 matches Ok(resp) && registered(
            pre,
            post,
            id,
            plan.kind,
            Some(pid),
            plan.rows,
            plan.cols,
            now,
            resp,
        )),
        Err(e) => post =~= pre && r.0 == Err::<StartSessionResponse, TerminalError>(e),
    }
    &&& is_approval_record(
        r.1,
        match approval.request_id {
            Some(x) => Some(x@),
            None => None,
        },
        r.0,
    )
    &&& is_start_audit(
        r.2,
        plan.command_label@,
        plan.kind,
        approval.approved,
        spawned is Ok,
        elapsed_ms,
    )
}

/// A lower-case hexadecimal digit.
pub open spec fn is_lower_hex(c: char) -> bool {
    ('0' <= c && c <= '9') || ('a' <= c && c <= 'f')
}

/// The text of a version-4 UUID: 36 characters, lower-case hexadecimal
/// digits in groups of 8, 4, 4, 4 and 12 joined by hyphens, the version
/// digit `4` and a variant digit among `8`, `9`, `a` and `b`.
pub open spec fn is_uuid_v4_text(s: Seq<char>) -> bool {
    &&& s.len() == 36
    &&& forall|i: int|
        0 <= i < 36 ==> if i == 8 || i == 13 || i == 18 || i == 23 {
            s[i] == '-'
        } else {
            is_lower_hex(#[trigger] s[i])
        }
    &&& s[14] == '4'
    &&& (s[19] == '8' || s[19] == '9' || s[19] == 'a' || s[19] == 'b')
}

/// Calls `uuid::Uuid::new_v4` and formats it with its `Display`
/// implementation. Claimed: the text is a hyphenated lower-case version-4
/// UUID; which one is left open, as it is random.
#[verifier::external_body]
fn new_session_id() -> (r: String)
    ensures
        is_uuid_v4_text(r@),
{
    uuid::Uuid::new_v4().to_string()
}

/// Calls `chrono::Utc::now` and reads its seconds and nanoseconds. Nothing
/// is claimed: the result is the clock's.
#[verifier::external_body]
fn current_timestamp() -> Timestamp {
    let now = chrono::Utc::now();
    Timestamp { secs: now.timestamp(), nanos: now.timestamp_subsec_nanos() }
}

/// The registry of live terminal sessions, keyed by session id.
pub struct TerminalSessionManager {
    sessions: Vec<TerminalSession>,
}

impl TerminalSessionManager {
    /// The live sessions, in registration order.
    pub closed spec fn sessions(&self) -> Seq<TerminalSession> {
        self.sessions@
    }

    /// Ids are unique and every buffer is within its limit.
    pub open spec fn wf(&self) -> bool {
        &&& ids_unique(self.sessions())
        &&& forall|i: int| 0 <= i < self.sessions().len() ==> (#[trigger] self.sessions()[i]).wf()
    }

    /// An empty registry.
    pub fn new() -> (r: Self)
        ensures
            r.wf(),
            r.sessions() == Seq::<TerminalSession>::empty(),
    {
        TerminalSessionManager { sessions: Vec::new() }
    }

    /// The ids of the live sessions, in order.
    pub fn session_ids(&self) -> (r: Vec<String>)
        ensures
            r@.len() == self.sessions().len(),
            forall|i: int| 0 <= i < r@.len() ==> (#[trigger] r@[i])@ == self.sessions()[i].id@,
    {
        let mut out: Vec<String> = Vec::new();
        let mut i: usize = 0;
        while i < self.sessions.len()
            invariant
                0 <= i <= self.sessions@.len(),
                out@.len() == i,
                forall|k: int| 0 <= k < i ==> (#[trigger] out@[k])@ == self.sessions@[k].id@,
            decreases self.sessions@.len() - i,
        {
            out.push(self.sessions[i].id.clone());
            i = i + 1;
        }
        out
    }

    /// The position of the session with this id, or the not-found error.
    pub fn get_session(&self, session_id: &str) -> (r: Result<usize, TerminalError>)
        requires
            self.wf(),
        ensures
            match r {
                Ok(i) => has_session(self.sessions(), session_id@) && i == position_of(
                    self.sessions(),
                    session_id@,
                ) && i < self.sessions().len(),
                Err(e) => !has_session(self.sessions(), session_id@) && e@
                    == TerminalErrorView::SessionNotFound(session_id@),
            },
    {
        let mut i: usize = 0;
        while i < self.sessions.len()
            invariant
                0 <= i <= self.sessions@.len(),
                ids_unique(self.sessions@),
                forall|k: int| 0 <= k < i ==> (#[trigger] self.sessions@[k]).id@ != session_id@,
            decreases self.sessions@.len() - i,
        {
            if str_equals(self.sessions[i].id.as_str(), session_id) {
                proof {
                    let s = self.sessions@;
                    assert(has_session(s, session_id@));
                    let c = choose|c: int| 0 <= c < s.len() && (#[trigger] s[c]).id@ == session_id@;
                    if c != i {
                        if c < i {
                            assert(s[c].id@ != s[i as int].id@);
                        } else {
                            assert(s[i as int].id@ != s[c].id@);
                        }
                    }
                }
                return Ok(i);
            }
            i = i + 1;
        }
        Err(TerminalError::SessionNotFound { session_id: String::from_str(session_id) })
    }

    /// Polls the child of the session with this id; nothing changes when
    /// there is no such session.
    pub fn refresh_status(&mut self, session_id: &str, poll: ChildPoll)
        requires
            old(self).wf(),
        ensures
            final(self).wf(),
            has_session(old(self).sessions(), session_id@) ==> final(self).sessions()
                == old(self).sessions().update(
                position_of(old(self).sessions(), session_id@),
                spec_refreshed(
                    old(self).sessions()[position_of(old(self).sessions(), session_id@)],
                    poll,
                ),
            ),
            !has_session(old(self).sessions(), session_id@) ==> final(self).sessions()
                == old(self).sessions(),
    {
        match self.get_session(session_id) {
            Ok(i) => {
                self.sessions[i].refresh_status(poll);
                proof {
                    self.lemma_update_keeps_wf(old(self).sessions(), i as int);
                }
            },
            Err(_) => {},
        }
    }

    /// Admits a write: refuses data over `MAX_WRITE_BYTES`, an unknown
    /// session, a session whose child is no longer running (after polling
    /// it) and a session whose input side is closed. The bytes are written
    /// by the caller once this succeeds, then recorded with `complete_write`.
    pub fn write(&mut self, request: &WriteRequest, poll: ChildPoll) -> (r: Result<(), TerminalError>)
        requires
            old(self).wf(),
        ensures
            final(self).wf(),
            ({
                let before = old(self).sessions();
                let id = request.session_id@;
                let i = position_of(before, id);
                if encode_len(request) > MAX_WRITE_BYTES {
                    &&& final(self).sessions() == before
                    &&& r matches Err(e) && e@ == TerminalErrorView::WriteTooLarge
                } else if !has_session(before, id) {
                    &&& final(self).sessions() == before
                    &&& r matches Err(e) && e@ == TerminalErrorView::SessionNotFound(id)
                } else {
                    let refreshed = spec_refreshed(before[i], poll);
                    &&& final(self).sessions() == before.update(i, refreshed)
                    &&& if !spec_accepts_input(refreshed.status) {
                        r matches Err(e) && e@ == TerminalErrorView::NotRunning(refreshed.status)
                    } else if !refreshed.writer_open {
                        r matches Err(e) && e@ == TerminalErrorView::WriterClosed
                    } else {
                        r is Ok
                    }
                }
            }),
    {
        if byte_len(request.data.as_str()) > MAX_WRITE_BYTES {
            return Err(TerminalError::WriteTooLarge);
        }
        let i = self.get_session(request.session_id.as_str())?;
        let running = self.sessions[i].ensure_running(poll);
        proof {
            self.lemma_update_keeps_wf(old(self).sessions(), i as int);
        }
        running?;
        if !self.sessions[i].writer_open {
            return Err(TerminalError::WriterClosed);
        }
        Ok(())
    }

    /// Records a completed write at the current time: the session is
    /// touched, and the response and audit event report the byte count.
    pub fn complete_write(&mut self, request: &WriteRequest) -> (r: Result<
        (WriteResponse, CommandExecutionLog),
        TerminalError,
    >)
        requires
            old(self).wf(),
        ensures
            final(self).wf(),
            exists|t: Timestamp|
                #[trigger] completed_write(old(self).sessions(), final(self).sessions(), request, t, r),
    {
        let now = current_timestamp();
        self.complete_write_at(request, now)
    }

    /// Records a completed write at `now`: the session is touched, the
    /// response carries the session id and the byte count, and the audit
    /// event names the actor and the byte count.
    pub fn complete_write_at(&mut self, request: &WriteRequest, now: Timestamp) -> (r: Result<
        (WriteResponse, CommandExecutionLog),
        TerminalError,
    >)
        requires
            old(self).wf(),
        ensures
            final(self).wf(),
            completed_write(old(self).sessions(), final(self).sessions(), request, now, r),
    {
        let i = self.get_session(request.session_id.as_str())?;
        self.sessions[i].touch(now);
        proof {
            self.lemma_update_keeps_wf(old(self).sessions(), i as int);
        }
        let bytes = byte_len(request.data.as_str());
        let actor = match &request.actor {
            Some(a) => Some(a.as_str()),
            None => None,
        };
        let audit = emit_write_audit(self.sessions[i].kind, actor, bytes);
        Ok((WriteResponse { session_id: request.session_id.clone(), bytes_written: bytes }, audit))
    }

    /// Reads buffered output at the current time; see `poll_output_at`.
    pub fn poll_output(&mut self, request: &PollOutputRequest, poll: ChildPoll) -> (r: Result<
        PollOutputResponse,
        TerminalError,
    >)
        requires
            old(self).wf(),
        ensures
            final(self).wf(),
            exists|t: Timestamp|
                #[trigger] polled_output(old(self).sessions(), final(self).sessions(), request, poll, t, r),
    {
        let now = current_timestamp();
        self.poll_output_at(request, poll, now)
    }

    /// Reads buffered output at `now`: the session's child is polled, the
    /// session is touched, and the response carries its status, the first
    /// chunks (at most `max_chunks`, never more than `MAX_POLL_CHUNKS`)
    /// numbered above `after_seq` (0 when absent), and the cursor to poll
    /// from next.
    pub fn poll_output_at(
        &mut self,
        request: &PollOutputRequest,
        poll: ChildPoll,
        now: Timestamp,
    ) -> (r: Result<PollOutputResponse, TerminalError>)
        requires
            old(self).wf(),
        ensures
            final(self).wf(),
            polled_output(old(self).sessions(), final(self).sessions(), request, poll, now, r),
    {
        let i = self.get_session(request.session_id.as_str())?;
        self.sessions[i].refresh_status(poll);
        self.sessions[i].touch(now);
        proof {
            self.lemma_update_keeps_wf(old(self).sessions(), i as int);
        }
        let after_seq: u64 = match request.after_seq {
            Some(a) => a,
            None => 0,
        };
        let requested: usize = match request.max_chunks {
            Some(m) => m,
            None => MAX_POLL_CHUNKS,
        };
        let max_chunks = if requested < MAX_POLL_CHUNKS {
            requested
        } else {
            MAX_POLL_CHUNKS
        };
        let (chunks, next_seq) = self.sessions[i].select_output(after_seq, max_chunks);
        proof {
            let b = self.sessions@[i as int].buffer@;
            let n = self.sessions@[i as int].next_seq;
            lemma_select_sound_and_complete(b, after_seq, max_chunks as nat);
            assert(old(self).sessions()[i as int].wf());
            if b.len() <= n {
                lemma_consecutive_in_order(b, n);
                lemma_select_keeps_order(b, after_seq, max_chunks as nat);
                lemma_cursor_covers_returned(b, after_seq, max_chunks as nat, n);
            }
        }
        Ok(
            PollOutputResponse {
                session_id: request.session_id.clone(),
                status: self.sessions[i].status,
                chunks,
                next_seq,
            },
        )
    }

    /// Admits a resize: the session must exist; the size to apply is the
    /// requested one, normalized (0 takes the default, the rest is clamped
    /// into `1..=500`). The caller resizes the terminal, then records it with
    /// `complete_resize`.
    pub fn resize(&self, request: &ResizeRequest) -> (r: Result<(u16, u16), TerminalError>)
        requires
            self.wf(),
        ensures
            has_session(self.sessions(), request.session_id@) ==> r == Ok::<(u16, u16), TerminalError>(
                (
                    spec_normalized_size(Some(request.rows), DEFAULT_ROWS),
                    spec_normalized_size(Some(request.cols), DEFAULT_COLS),
                ),
            ),
            !has_session(self.sessions(), request.session_id@) ==> (r matches Err(e) && e@
                == TerminalErrorView::SessionNotFound(request.session_id@)),
    {
        let _ = self.get_session(request.session_id.as_str())?;
        let rows = normalized_size(Some(request.rows), DEFAULT_ROWS);
        let cols = normalized_size(Some(request.cols), DEFAULT_COLS);
        Ok((rows, cols))
    }

    /// Records an applied resize at the current time; see `complete_resize_at`.
    pub fn complete_resize(&mut self, request: &ResizeRequest, rows: u16, cols: u16) -> (r:
        ResizeResponse)
        requires
            old(self).wf(),
        ensures
            final(self).wf(),
            exists|t: Timestamp|
                #[trigger] completed_resize(old(self).sessions(), final(self).sessions(), request, rows, cols, t, r),
    {
        let now = current_timestamp();
        self.complete_resize_at(request, rows, cols, now)
    }

    /// Records an applied resize at `now`: the session takes the new size
    /// and is touched; the response reports the size.
    pub fn complete_resize_at(
        &mut self,
        request: &ResizeRequest,
        rows: u16,
        cols: u16,
        now: Timestamp,
    ) -> (r: ResizeResponse)
        requires
            old(self).wf(),
        ensures
            final(self).wf(),
            completed_resize(old(self).sessions(), final(self).sessions(), request, rows, cols, now, r),
    {
        match self.get_session(request.session_id.as_str()) {
            Ok(i) => {
                self.sessions[i].rows = rows;
                self.sessions[i].cols = cols;
                self.sessions[i].touch(now);
                proof {
                    self.lemma_update_keeps_wf(old(self).sessions(), i as int);
                }
            },
            Err(_) => {},
        }
        ResizeResponse { session_id: request.session_id.clone(), rows, cols }
    }

    /// Closes a session: it is marked closed and removed from the registry;
    /// the response reports it closed, with the audit event of the close.
    pub fn close(&mut self, request: &CloseRequest) -> (r: Result<
        (CloseResponse, CommandExecutionLog),
        TerminalError,
    >)
        requires
            old(self).wf(),
        ensures
            final(self).wf(),
            ({
                let before = old(self).sessions();
                let id = request.session_id@;
                let i = position_of(before, id);
                if !has_session(before, id) {
                    &&& final(self).sessions() == before
                    &&& r matches Err(e) && e@ == TerminalErrorView::SessionNotFound(id)
                } else {
                    &&& final(self).sessions() == before.remove(i)
                    &&& r matches Ok((resp, audit)) && resp.session_id@ == id && resp.status
                        == TerminalStatus::Closed && is_close_audit(audit, before[i].kind)
                }
            }),
    {
        let i = self.get_session(request.session_id.as_str())?;
        let mut session = self.sessions.remove(i);
        let audit = session.close();
        proof {
            lemma_remove_keeps_unique(old(self).sessions(), i as int);
        }
        Ok((CloseResponse { session_id: request.session_id.clone(), status: TerminalStatus::Closed }, audit))
    }

    /// Lists the live sessions at the current time; see `list_sessions_at`.
    pub fn list_sessions(&mut self, polls: &Vec<(String, ChildPoll)>) -> (r: (
        Vec<ClosedSession>,
        Vec<SessionSummary>,
    ))
        requires
            old(self).wf(),
        ensures
            final(self).wf(),
            exists|t: Timestamp|
                #[trigger] listed(old(self).sessions(), final(self).sessions(), polls@, t, r),
    {
        let now = current_timestamp();
        self.list_sessions_at(polls, now)
    }

    /// Lists the live sessions at `now`: idle sessions are closed first;
    /// then each remaining session's child is polled (with the poll given
    /// for its id in `polls`, the first one when several are; a session
    /// without one is taken as still running) and every session is reported
    /// as it then stands, in registration order.
    pub fn list_sessions_at(&mut self, polls: &Vec<(String, ChildPoll)>, now: Timestamp) -> (r: (
        Vec<ClosedSession>,
        Vec<SessionSummary>,
    ))
        requires
            old(self).wf(),
        ensures
            final(self).wf(),
            listed(old(self).sessions(), final(self).sessions(), polls@, now, r),
    {
        let closed = self.cleanup_idle_at(now);
        let ghost active = self.sessions@;
        let ghost pv = polls_view(polls@);
        let mut out: Vec<SessionSummary> = Vec::new();
        let mut i: usize = 0;
        while i < self.sessions.len()
            invariant
                self.wf(),
                pv == polls_view(polls@),
                self.sessions@.len() == active.len(),
                0 <= i <= active.len(),
                out@.len() == i,
                forall|k: int|
                    0 <= k < i ==> self.sessions@[k] == spec_refreshed(
                        active[k],
                        spec_poll_for(pv, active[k].id@),
                    ),
                forall|k: int| i <= k < active.len() ==> self.sessions@[k] == active[k],
                forall|k: int| 0 <= k < i ==> summarizes(#[trigger] out@[k], self.sessions@[k]),
            decreases active.len() - i,
        {
            let ghost before = self.sessions@;
            let poll = poll_for(polls, self.sessions[i].id.as_str());
            let summary = self.sessions[i].summary(poll);
            proof {
                self.lemma_update_keeps_wf(before, i as int);
            }
            out.push(summary);
            i = i + 1;
        }
        (closed, out)
    }

    /// Closes the sessions idle for more than an hour, at the current time;
    /// see `cleanup_idle_at`.
    pub fn cleanup_idle(&mut self) -> (r: Vec<ClosedSession>)
        requires
            old(self).wf(),
        ensures
            final(self).wf(),
            exists|t: Timestamp|
                #[trigger] cleaned_idle(old(self).sessions(), final(self).sessions(), t, r),
    {
        let now = current_timestamp();
        self.cleanup_idle_at(now)
    }

    /// Closes and removes every session idle for more than an hour at
    /// `now`; the others stay, in order. Reports the ids of the closed
    /// sessions, in order, each with the audit event of its close.
    pub fn cleanup_idle_at(&mut self, now: Timestamp) -> (r: Vec<ClosedSession>)
        requires
            old(self).wf(),
        ensures
            final(self).wf(),
            cleaned_idle(old(self).sessions(), final(self).sessions(), now, r),
    {
        let ghost before = self.sessions@;
        let mut pending: Vec<TerminalSession> = Vec::new();
        std::mem::swap(&mut pending, &mut self.sessions);
        let mut kept: Vec<TerminalSession> = Vec::new();
        let mut closed: Vec<ClosedSession> = Vec::new();
        let ghost mut done: int = 0;
        proof {
            assert(before.take(0) =~= Seq::<TerminalSession>::empty());
            assert(pending@.subrange(0, pending@.len() as int) == before.skip(0));
        }
        while pending.len() > 0
            invariant
                0 <= done <= before.len(),
                pending@ == before.skip(done),
                kept@ == spec_active(before.take(done), now),
                reports_closed(closed@, spec_stale(before.take(done), now)),
            decreases pending@.len(),
        {
            let ghost prefix = before.take(done + 1);
            assert(prefix.drop_last() == before.take(done));
            assert(prefix.last() == before[done]);
            let mut session = pending.remove(0);
            assert(session == before[done]);
            assert(pending@ == before.skip(done + 1));
            let idle = now.nanos_since(&session.updated_at);
            if idle > IDLE_TIMEOUT_NANOS {
                let audit = session.close();
                closed.push(ClosedSession { session_id: session.id, audit });
            } else {
                kept.push(session);
            }
            proof {
                done = done + 1;
            }
        }
        proof {
            assert(before.take(done) == before);
            lemma_active_keeps_unique(before, now);
            lemma_active_stale_len(before, now);
        }
        self.sessions = kept;
        closed
    }

    /// Handles what the reader of a session's terminal produced, at the
    /// current time; see `handle_read_at`.
    pub fn handle_read(&mut self, session_id: &str, outcome: ReadOutcome) -> (r: bool)
        requires
            old(self).wf(),
        ensures
            final(self).wf(),
            exists|t: Timestamp|
                #[trigger] handled_read(old(self).sessions(), final(self).sessions(), session_id, outcome, t, r),
    {
        let now = current_timestamp();
        self.handle_read_at(session_id, outcome, now)
    }

    /// Handles what the reader of a session's terminal produced at `now`:
    /// text is scrubbed of credentials and appended; end of file marks the
    /// session exited and appends the exit banner; a read error marks it
    /// failed and appends the scrubbed error. Answers whether reading
    /// should go on, which is only after text. Nothing changes for an
    /// unknown session.
    pub fn handle_read_at(&mut self, session_id: &str, outcome: ReadOutcome, now: Timestamp) -> (r:
        bool)
        requires
            old(self).wf(),
        ensures
            final(self).wf(),
            handled_read(old(self).sessions(), final(self).sessions(), session_id, outcome, now, r),
    {
        let found = self.get_session(session_id);
        let (status, text, go_on) = match outcome {
            ReadOutcome::Eof => (
                Some(TerminalStatus::Exited),
                String::from_str("\r\n[openhuman terminal: session exited]\r\n"),
                false,
            ),
            ReadOutcome::Data(t) => (None, scrub_credentials(t.as_str()), true),
            ReadOutcome::Failed(m) => (
                Some(TerminalStatus::Error),
                String::from_str("\r\n[openhuman terminal: read error: ").concat(
                    scrub_credentials(m.as_str()).as_str(),
                ).concat("]\r\n"),
                false,
            ),
        };
        match found {
            Ok(i) => {
                match status {
                    Some(st) => {
                        self.sessions[i].status = st;
                    },
                    None => {},
                }
                let ghost marked = self.sessions@[i as int];
                self.sessions[i].append_output(text, now);
                proof {
                    lemma_appended_last(marked.buffer@, self.sessions@[i as int].buffer@.last());
                    self.lemma_update_keeps_wf(old(self).sessions(), i as int);
                }
            },
            Err(_) => {},
        }
        go_on
    }

    /// Registers a started session under a fresh random id at the current
    /// time; see `register_session_at`.
    pub fn register_session(&mut self, kind: TerminalKind, pid: Option<u32>, rows: u16, cols: u16) -> (r:
        StartSessionResponse)
        requires
            old(self).wf(),
        ensures
            final(self).wf(),
            exists|ident: String, t: Timestamp|
                is_uuid_v4_text(ident@) && #[trigger] registered(
                    old(self).sessions(),
                    final(self).sessions(),
                    ident,
                    kind,
                    pid,
                    rows,
                    cols,
                    t,
                    r,
                ),
    {
        let id = new_session_id();
        let now = current_timestamp();
        self.register_session_at(id, kind, pid, rows, cols, now)
    }

    /// Registers a started session under `id` at `now`: running, with an
    /// empty buffer. A session already registered under `id` is replaced.
    pub fn register_session_at(
        &mut self,
        id: String,
        kind: TerminalKind,
        pid: Option<u32>,
        rows: u16,
        cols: u16,
        now: Timestamp,
    ) -> (r: StartSessionResponse)
        requires
            old(self).wf(),
        ensures
            final(self).wf(),
            registered(old(self).sessions(), final(self).sessions(), id, kind, pid, rows, cols, now, r),
    {
        let found = self.get_session(id.as_str());
        let session = TerminalSession::new(id.clone(), kind, pid, rows, cols, now);
        match found {
            Ok(i) => {
                self.sessions.set(i, session);
                proof {
                    self.lemma_update_keeps_wf(old(self).sessions(), i as int);
                    assert(self.sessions()[i as int].id@ == id@);
                }
            },
            Err(_) => {
                self.sessions.push(session);
                proof {
                    let s = self.sessions();
                    let b = old(self).sessions();
                    assert forall|a: int, c: int| 0 <= a < c < s.len() implies (#[trigger] s[a]).id@
                        != (#[trigger] s[c]).id@ by {
                        if c == b.len() {
                            assert(s[a] == b[a]);
                        } else {
                            assert(s[a] == b[a]);
                            assert(s[c] == b[c]);
                        }
                    }
                    assert forall|k: int| 0 <= k < s.len() implies (#[trigger] s[k]).wf() by {
                        if k < b.len() {
                            assert(s[k] == b[k]);
                        }
                    }
                    assert(s[b.len() as int].id@ == id@);
                }
            },
        }
        StartSessionResponse {
            session_id: id,
            kind,
            status: TerminalStatus::Running,
            pid,
            rows,
            cols,
        }
    }

    /// Finishes a start at the current time under a fresh random id; see
    /// `finish_start_at`.
    pub fn finish_start(
        &mut self,
        plan: &SessionPlan,
        approval: &ApprovalResult,
        spawned: Result<u32, TerminalError>,
        elapsed_ms: u64,
    ) -> (r: (Result<StartSessionResponse, TerminalError>, Option<ExecutionRecord>, CommandExecutionLog))
        requires
            old(self).wf(),
        ensures
            final(self).wf(),
            exists|ident: String, t: Timestamp|
                is_uuid_v4_text(ident@) && #[trigger] finished_start(
                    old(self).sessions(),
                    final(self).sessions(),
                    ident,
                    t,
                    *plan,
                    *approval,
                    spawned,
                    elapsed_ms,
                    r,
                ),
    {
        let id = new_session_id();
        let now = current_timestamp();
        self.finish_start_at(id, now, plan, approval, spawned, elapsed_ms)
    }

    /// Finishes a start once the process was spawned (or failed to spawn):
    /// a spawned process is registered under `id` at `now` with its pid and
    /// the planned kind and size; a failure leaves the registry as it was
    /// and is the result. Also gives the report for the approval gate and
    /// the audit event of the start, whose success is whether the spawn
    /// succeeded.
    pub fn finish_start_at(
        &mut self,
        id: String,
        now: Timestamp,
        plan: &SessionPlan,
        approval: &ApprovalResult,
        spawned: Result<u32, TerminalError>,
        elapsed_ms: u64,
    ) -> (r: (Result<StartSessionResponse, TerminalError>, Option<ExecutionRecord>, CommandExecutionLog))
        requires
            old(self).wf(),
        ensures
            final(self).wf(),
            finished_start(
                old(self).sessions(),
                final(self).sessions(),
                id,
                now,
                *plan,
                *approval,
                spawned,
                elapsed_ms,
                r,
            ),
    {
        let success = spawned.is_ok();
        let result = match spawned {
            Ok(pid) => Ok(
                self.register_session_at(id, plan.kind, Some(pid), plan.rows, plan.cols, now),
            ),
            Err(e) => Err(e),
        };
        let request_id = match &approval.request_id {
            Some(x) => Some(x.as_str()),
            None => None,
        };
        let record = record_approval_execution(request_id, &result);
        let audit = emit_start_audit(
            plan.command_label.as_str(),
            plan.kind,
            approval.approved,
            success,
            elapsed_ms,
        );
        (result, record, audit)
    }

    /// Prepares to start a session at the current time; see `start_session_at`.
    pub fn start_session(&mut self, request: &StartSessionRequest, cwd: Result<String, TerminalError>) -> (r: (
        Vec<ClosedSession>,
        Result<SessionPlan, TerminalError>,
    ))
        requires
            old(self).wf(),
        ensures
            final(self).wf(),
            exists|t: Timestamp|
                #[trigger] planned_start(old(self).sessions(), final(self).sessions(), request, cwd, t, r),
    {
        let now = current_timestamp();
        self.start_session_at(request, cwd, now)
    }

    /// Prepares to start a session at `now`: idle sessions are closed
    /// first; then the request is validated, its size normalized (24 rows
    /// and 80 columns by default), and its label built from the resolved
    /// working directory (for a local session) or the SSH destination. The
    /// caller then obtains approval, spawns the process and registers it.
    pub fn start_session_at(
        &mut self,
        request: &StartSessionRequest,
        cwd: Result<String, TerminalError>,
        now: Timestamp,
    ) -> (r: (Vec<ClosedSession>, Result<SessionPlan, TerminalError>))
        requires
            old(self).wf(),
        ensures
            final(self).wf(),
            planned_start(old(self).sessions(), final(self).sessions(), request, cwd, now, r),
    {
        let closed = self.cleanup_idle_at(now);
        (closed, plan_session(request, cwd))
    }

    proof fn lemma_update_keeps_wf(&self, before: Seq<TerminalSession>, i: int)
        requires
            ids_unique(before),
            forall|k: int| 0 <= k < before.len() ==> (#[trigger] before[k]).wf(),
            0 <= i < before.len(),
            self.sessions().len() == before.len(),
            forall|k: int| 0 <= k < before.len() && k != i ==> self.sessions()[k] == before[k],
            self.sessions()[i].id@ == before[i].id@,
            self.sessions()[i].wf(),
        ensures
            self.wf(),
    {
        let s = self.sessions();
        assert forall|a: int, b: int| 0 <= a < b < s.len() implies (#[trigger] s[a]).id@
            != (#[trigger] s[b]).id@ by {
            assert(before[a].id@ != before[b].id@);
        }
        assert forall|k: int| 0 <= k < s.len() implies (#[trigger] s[k]).wf() by {
            if k != i {
                assert(before[k].wf());
            }
        }
    }
}

/// Removing a session keeps ids unique and every buffer within its limit.
pub proof fn lemma_remove_keeps_unique(s: Seq<TerminalSession>, i: int)
    requires
        ids_unique(s),
        forall|k: int| 0 <= k < s.len() ==> (#[trigger] s[k]).wf(),
        0 <= i < s.len(),
    ensures
        ids_unique(s.remove(i)),
        forall|k: int| 0 <= k < s.remove(i).len() ==> (#[trigger] s.remove(i)[k]).wf(),
{
    let r = s.remove(i);
    assert forall|a: int, b: int| 0 <= a < b < r.len() implies (#[trigger] r[a]).id@
        != (#[trigger] r[b]).id@ by {
        let a2 = if a < i { a } else { a + 1 };
        let b2 = if b < i { b } else { b + 1 };
        assert(r[a] == s[a2]);
        assert(r[b] == s[b2]);
    }
    assert forall|k: int| 0 <= k < r.len() implies (#[trigger] r[k]).wf() by {
        let k2 = if k < i { k } else { k + 1 };
        assert(r[k] == s[k2]);
    }
}

/// The last chunk of a buffer after an append is the appended chunk.
pub proof fn lemma_appended_last(chunks: Seq<TerminalOutputChunk>, chunk: TerminalOutputChunk)
    ensures
        spec_appended(chunks, chunk).len() >= 1,
        spec_appended(chunks, chunk).last() == chunk,
{
}

/// `after` is `before` with `text` appended as a new chunk at `now`: the
/// chunk takes the next sequence number, the oldest chunks beyond the
/// limit are dropped, the counter advances (wrapping), and the session is
/// touched; nothing else changes.
pub open spec fn output_appended(
    before: TerminalSession,
    after: TerminalSession,
    text: Seq<char>,
    now: Timestamp,
) -> bool {
    let chunk = after.buffer@.last();
    &&& after.buffer@.len() >= 1
    &&& after.buffer@ == spec_appended(before.buffer@, chunk)
    &&& chunk.seq == before.next_seq
    &&& chunk.data@ == text
    &&& chunk.timestamp == now
    &&& chunk.stream@ == "pty"@
    &&& after.next_seq == (if before.next_seq == u64::MAX {
        0
    } else {
        (before.next_seq + 1) as u64
    })
    &&& after.updated_at == now
    &&& after.id == before.id
    &&& after.kind == before.kind
    &&& after.status == before.status
    &&& after.child_attached == before.child_attached
    &&& after.writer_open == before.writer_open
    &&& after.rows == before.rows
    &&& after.cols == before.cols
    &&& after.pid == before.pid
    &&& after.created_at == before.created_at
}

/// The active sessions keep unique ids, keep their buffers within limits,
/// and are all sessions of the original list.
pub proof fn lemma_active_keeps_unique(s: Seq<TerminalSession>, now: Timestamp)
    requires
        ids_unique(s),
        forall|k: int| 0 <= k < s.len() ==> (#[trigger] s[k]).wf(),
    ensures
        ids_unique(spec_active(s, now)),
        forall|k: int|
            0 <= k < spec_active(s, now).len() ==> (#[trigger] spec_active(s, now)[k]).wf(),
        forall|k: int|
            0 <= k < spec_active(s, now).len() ==> s.contains(#[trigger] spec_active(s, now)[k]),
    decreases s.len(),
{
    if s.len() > 0 {
        let init = s.drop_last();
        assert forall|a: int, b: int| 0 <= a < b < init.len() implies (#[trigger] init[a]).id@
            != (#[trigger] init[b]).id@ by {
            assert(init[a] == s[a]);
            assert(init[b] == s[b]);
        }
        assert forall|k: int| 0 <= k < init.len() implies (#[trigger] init[k]).wf() by {
            assert(init[k] == s[k]);
        }
        lemma_active_keeps_unique(init, now);
        let a = spec_active(init, now);
        let r = spec_active(s, now);
        assert forall|k: int| 0 <= k < a.len() implies s.contains(#[trigger] a[k]) by {
            assert(init.contains(a[k]));
            let j = choose|j: int| 0 <= j < init.len() && init[j] == a[k];
            assert(s[j] == a[k]);
        }
        if !spec_is_stale(s.last(), now) {
            assert(r == a.push(s.last()));
            assert forall|x: int, y: int| 0 <= x < y < r.len() implies (#[trigger] r[x]).id@
                != (#[trigger] r[y]).id@ by {
                if y == a.len() {
                    assert(init.contains(a[x]));
                    let j = choose|j: int| 0 <= j < init.len() && init[j] == a[x];
                    assert(s[j] == a[x]);
                    assert(s[j].id@ != s[s.len() - 1].id@);
                } else {
                    assert(r[x] == a[x]);
                    assert(r[y] == a[y]);
                }
            }
            assert forall|k: int| 0 <= k < r.len() implies (#[trigger] r[k]).wf() by {
                if k < a.len() {
                    assert(r[k] == a[k]);
                }
            }
            assert forall|k: int| 0 <= k < r.len() implies s.contains(#[trigger] r[k]) by {
                if k < a.len() {
                    assert(r[k] == a[k]);
                } else {
                    assert(s[s.len() - 1] == r[k]);
                }
            }
        }
    }
}

/// Every session is either kept active or reported idle.
pub proof fn lemma_active_stale_len(s: Seq<TerminalSession>, now: Timestamp)
    ensures
        spec_active(s, now).len() + spec_stale(s, now).len() == s.len(),
    decreases s.len(),
{
    if s.len() > 0 {
        lemma_active_stale_len(s.drop_last(), now);
    }
}

/// A closed session is gone: once the session with `id` is removed from a
/// registry with unique ids, no session with `id` remains.
pub proof fn lemma_closed_session_is_gone(s: Seq<TerminalSession>, id: Seq<char>)
    requires
        ids_unique(s),
        has_session(s, id),
    ensures
        !has_session(s.remove(position_of(s, id)), id),
{
    let i = position_of(s, id);
    let r = s.remove(i);
    if has_session(r, id) {
        let k = choose|k: int| 0 <= k < r.len() && (#[trigger] r[k]).id@ == id;
        let k2 = if k < i { k } else { k + 1 };
        assert(r[k] == s[k2]);
        if k2 < i {
            assert(s[k2].id@ != s[i].id@);
        } else {
            assert(s[i].id@ != s[k2].id@);
        }
    }
}

/// Idle cleanup keeps exactly the sessions that are not idle: every kept
/// session is not idle, and every session that is not idle is kept.
pub proof fn lemma_cleanup_keeps_exactly_active(s: Seq<TerminalSession>, now: Timestamp)
    ensures
        forall|k: int|
            0 <= k < spec_active(s, now).len() ==> !spec_is_stale(#[trigger] spec_active(s, now)[k], now),
        forall|k: int|
            0 <= k < s.len() && !spec_is_stale(#[trigger] s[k], now) ==> spec_active(s, now).contains(
                s[k],
            ),
    decreases s.len(),
{
    if s.len() > 0 {
        let init = s.drop_last();
        lemma_cleanup_keeps_exactly_active(init, now);
        let a = spec_active(init, now);
        let r = spec_active(s, now);
        assert forall|k: int| 0 <= k < s.len() && !spec_is_stale(#[trigger] s[k], now) implies r.contains(s[k]) by {
            if k < s.len() - 1 {
                assert(init[k] == s[k]);
                assert(a.contains(init[k]));
                let j = choose|j: int| 0 <= j < a.len() && a[j] == init[k];
                if !spec_is_stale(s.last(), now) {
                    assert(r[j] == a[j]);
                }
            } else {
                assert(r[r.len() - 1] == s[k]);
            }
        }
        if !spec_is_stale(s.last(), now) {
            assert forall|k: int| 0 <= k < r.len() implies !spec_is_stale(#[trigger] r[k], now) by {
                if k < a.len() {
                    assert(r[k] == a[k]);
                }
            }
        }
    }
}

/// What a poll gives back of output: once text has been appended to a
/// session whose chunks are in sequence order, a poll from the cursor just
/// below the session's previous counter returns exactly one chunk, holding
/// that text.
pub proof fn lemma_output_then_poll(
    before: TerminalSession,
    after: TerminalSession,
    text: Seq<char>,
    now: Timestamp,
    max: nat,
)
    requires
        before.seqs_in_order(),
        output_appended(before, after, text, now),
        max >= 1,
    ensures
        spec_select(after.buffer@, (before.next_seq - 1) as u64, max).len() == 1,
        spec_select(after.buffer@, (before.next_seq - 1) as u64, max)[0].data@ == text,
        spec_select(after.buffer@, (before.next_seq - 1) as u64, max)[0].seq == before.next_seq,
{
    let chunk = after.buffer@.last();
    crate::session::lemma_poll_returns_appended(before.buffer@, before.next_seq, chunk, max);
}

/// What a poll gives back of a read, in the registry: when the reader hands
/// text to a registered session whose numbering has not wrapped, the next
/// poll of that session from the cursor just below the counter it had
/// returns exactly one chunk, numbered with that counter and holding the
/// scrubbed text.
pub proof fn lemma_read_then_poll(
    pre: Seq<TerminalSession>,
    mid: Seq<TerminalSession>,
    post: Seq<TerminalSession>,
    session_id: &str,
    text: String,
    read_at: Timestamp,
    request: &PollOutputRequest,
    poll: ChildPoll,
    poll_at: Timestamp,
    r: Result<PollOutputResponse, TerminalError>,
)
    requires
        ids_unique(pre),
        forall|k: int| 0 <= k < pre.len() ==> (#[trigger] pre[k]).wf(),
        has_session(pre, session_id@),
        pre[position_of(pre, session_id@)].next_seq >= 1,
        pre[position_of(pre, session_id@)].buffer@.len() <= pre[position_of(
            pre,
            session_id@,
        )].next_seq,
        handled_read(pre, mid, session_id, ReadOutcome::Data(text), read_at, true),
        request.session_id@ == session_id@,
        request.after_seq == Some((pre[position_of(pre, session_id@)].next_seq - 1) as u64),
        request.max_chunks != Some(0usize),
        polled_output(mid, post, request, poll, poll_at, r),
    ensures
        r matches Ok(resp) && resp.chunks@.len() == 1 && resp.chunks@[0].data@ == spec_scrub(text@)
            && resp.chunks@[0].seq == pre[position_of(pre, session_id@)].next_seq,
{
    let id = session_id@;
    let i = position_of(pre, id);
    let before = pre[i];
    assert(before.wf());
    crate::session::lemma_wf_session_in_order(before);
    let appended = mid[i];
    assert(mid[i].id@ == id);
    assert forall|a: int, b: int| 0 <= a < b < mid.len() implies (#[trigger] mid[a]).id@
        != (#[trigger] mid[b]).id@ by {
        assert(pre[a].id@ != pre[b].id@);
    }
    assert(has_session(mid, id));
    let j = position_of(mid, id);
    assert(j == i) by {
        if j != i {
            if j < i {
                assert(mid[j].id@ != mid[i].id@);
            } else {
                assert(mid[i].id@ != mid[j].id@);
            }
        }
    }
    let max = spec_poll_limit(request.max_chunks) as nat;
    assert(max >= 1);
    let chunk = appended.buffer@.last();
    crate::session::lemma_poll_returns_appended(before.buffer@, before.next_seq, chunk, max);
}


/// How many chunks a poll returns: the smaller of the number of chunks above
/// the cursor and the limit, where the limit is the requested maximum capped
/// at 512, or 512 when no maximum is requested. A poll of an unknown session
/// fails and changes nothing.
pub proof fn lemma_poll_returns_up_to_limit(
    pre: Seq<TerminalSession>,
    post: Seq<TerminalSession>,
    request: &PollOutputRequest,
    poll: ChildPoll,
    now: Timestamp,
    r: Result<PollOutputResponse, TerminalError>,
)
    requires
        polled_output(pre, post, request, poll, now, r),
    ensures
        !has_session(pre, request.session_id@) ==> r is Err && post == pre,
        has_session(pre, request.session_id@) ==> ({
            let buffer = pre[position_of(pre, request.session_id@)].buffer@;
            let after: u64 = match request.after_seq {
                Some(a) => a,
                None => 0,
            };
            let limit: nat = match request.max_chunks {
                Some(m) => if m < 512 {
                    m as nat
                } else {
                    512
                },
                None => 512,
            };
            let above = count_above(buffer, after);
            r matches Ok(resp) && resp.chunks@.len() == (if limit < above {
                limit
            } else {
                above
            })
        }),
{
    if has_session(pre, request.session_id@) {
        let i = position_of(pre, request.session_id@);
        let after: u64 = match request.after_seq {
            Some(a) => a,
            None => 0,
        };
        crate::session::lemma_select_len(
            pre[i].buffer@,
            after,
            spec_poll_limit(request.max_chunks) as nat,
        );
    }
}

} // verus!
