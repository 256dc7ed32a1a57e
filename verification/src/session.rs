use vstd::prelude::*;
use std::collections::VecDeque;
use crate::audit::{emit_close_audit, is_close_audit, CommandExecutionLog};
use crate::types::{
    SessionSummary, TerminalError, TerminalKind, TerminalOutputChunk, TerminalStatus, Timestamp,
};

verus! {

/// The most output chunks a session keeps; older chunks are dropped first.
pub const MAX_BUFFER_CHUNKS: usize = 4096;

/// The most output chunks a single poll returns.
pub const MAX_POLL_CHUNKS: usize = 512;

/// What polling the child process of a session reported.
#[derive(Debug, Clone, Copy, PartialEq, Eq, Structural)]
pub enum ChildPoll {
    /// The child has not exited yet.
    StillRunning,
    /// The child has exited.
    Exited,
    /// The child's status could not be read.
    Failed,
}

/// The state of one terminal session: everything but the operating-system
/// handles of its process and pseudo-terminal.
#[derive(Debug)]
pub struct TerminalSession {
    pub id: String,
    pub kind: TerminalKind,
    pub status: TerminalStatus,
    /// Whether the session still owns its child process.
    pub child_attached: bool,
    /// Whether the session's input side is still open.
    pub writer_open: bool,
    pub buffer: VecDeque<TerminalOutputChunk>,
    pub next_seq: u64,
    pub rows: u16,
    pub cols: u16,
    pub pid: Option<u32>,
    pub created_at: Timestamp,
    pub updated_at: Timestamp,
}

/// The buffer after `chunk` is appended and the oldest chunks beyond
/// `MAX_BUFFER_CHUNKS` are dropped.
pub open spec fn spec_appended(
    chunks: Seq<TerminalOutputChunk>,
    chunk: TerminalOutputChunk,
) -> Seq<TerminalOutputChunk> {
    let pushed = chunks.push(chunk);
    if pushed.len() > MAX_BUFFER_CHUNKS {
        pushed.subrange(pushed.len() - MAX_BUFFER_CHUNKS, pushed.len() as int)
    } else {
        pushed
    }
}

/// The first `max` chunks, in buffer order, whose sequence number is above `after`.
pub open spec fn spec_select(
    chunks: Seq<TerminalOutputChunk>,
    after: u64,
    max: nat,
) -> Seq<TerminalOutputChunk>
    decreases chunks.len(),
{
    if chunks.len() == 0 || max == 0 {
        Seq::empty()
    } else if chunks[0].seq > after {
        seq![chunks[0]] + spec_select(chunks.drop_first(), after, (max - 1) as nat)
    } else {
        spec_select(chunks.drop_first(), after, max)
    }
}

/// The cursor a poll hands back: the last returned sequence number (or the
/// requested cursor when nothing was returned), raised to the last number
/// the session has handed out.
pub open spec fn spec_next_cursor(
    selected: Seq<TerminalOutputChunk>,
    after: u64,
    next_seq: u64,
) -> u64 {
    let last = if selected.len() > 0 {
        selected.last().seq
    } else {
        after
    };
    let issued: u64 = if next_seq == 0 {
        0
    } else {
        (next_seq - 1) as u64
    };
    if last >= issued {
        last
    } else {
        issued
    }
}

/// The number of chunks a poll may return for a requested maximum.
pub open spec fn spec_poll_limit(max_chunks: Option<usize>) -> usize {
    let requested = match max_chunks {
        Some(m) => m,
        None => MAX_POLL_CHUNKS,
    };
    if requested < MAX_POLL_CHUNKS {
        requested
    } else {
        MAX_POLL_CHUNKS
    }
}

/// The status a session has after its child was polled.
pub open spec fn spec_refreshed_status(
    status: TerminalStatus,
    child_attached: bool,
    poll: ChildPoll,
) -> TerminalStatus {
    if !child_attached {
        status
    } else {
        match poll {
            ChildPoll::StillRunning => status,
            ChildPoll::Exited => TerminalStatus::Exited,
            ChildPoll::Failed => TerminalStatus::Error,
        }
    }
}

/// Whether a session accepts input in this status.
pub open spec fn spec_accepts_input(status: TerminalStatus) -> bool {
    status == TerminalStatus::Running || status == TerminalStatus::Starting
}

/// Appends `chunk` and drops the oldest chunks beyond `MAX_BUFFER_CHUNKS`.
fn push_bounded(buffer: &mut VecDeque<TerminalOutputChunk>, chunk: TerminalOutputChunk)
    ensures
        final(buffer)@ == spec_appended(old(buffer)@, chunk),
        final(buffer)@.len() <= MAX_BUFFER_CHUNKS,
{
    let ghost pushed = buffer@.push(chunk);
    buffer.push_back(chunk);
    let ghost mut dropped: int = 0;
    while buffer.len() > MAX_BUFFER_CHUNKS
        invariant
            0 <= dropped <= pushed.len(),
            buffer@ == pushed.subrange(dropped, pushed.len() as int),
            pushed.len() > MAX_BUFFER_CHUNKS ==> pushed.len() - dropped >= MAX_BUFFER_CHUNKS,
            pushed.len() <= MAX_BUFFER_CHUNKS ==> dropped == 0,
        decreases buffer@.len(),
    {
        let _ = buffer.pop_front();
        proof {
            dropped = dropped + 1;
        }
    }
    assert(pushed.len() <= MAX_BUFFER_CHUNKS ==> pushed.subrange(0, pushed.len() as int) == pushed);
}

impl TerminalSession {
    /// The output chunks the session holds, oldest first.
    pub open spec fn chunks(&self) -> Seq<TerminalOutputChunk> {
        self.buffer@
    }

    /// The buffer holds no more than `MAX_BUFFER_CHUNKS` chunks.
    pub open spec fn wf(&self) -> bool {
        &&& self.buffer@.len() <= MAX_BUFFER_CHUNKS
        &&& seqs_consecutive(self.buffer@, self.next_seq)
    }

    /// Sequence numbers rise strictly through the buffer and stay below
    /// the next number to be handed out, which is not zero.
    pub open spec fn seqs_in_order(&self) -> bool {
        &&& self.next_seq >= 1
        &&& forall|i: int, j: int|
            0 <= i < j < self.buffer@.len() ==> #[trigger] self.buffer@[i].seq
                < #[trigger] self.buffer@[j].seq
        &&& forall|i: int| 0 <= i < self.buffer@.len() ==> #[trigger] self.buffer@[i].seq < self.next_seq
    }

    /// A freshly started session: running, owning its child and input side,
    /// with an empty buffer whose first chunk will be numbered 1.
    pub fn new(
        id: String,
        kind: TerminalKind,
        pid: Option<u32>,
        rows: u16,
        cols: u16,
        now: Timestamp,
    ) -> (r: Self)
        ensures
            r.id == id,
            r.kind == kind,
            r.status == TerminalStatus::Running,
            r.child_attached,
            r.writer_open,
            r.buffer@ == Seq::<TerminalOutputChunk>::empty(),
            r.next_seq == 1,
            r.rows == rows,
            r.cols == cols,
            r.pid == pid,
            r.created_at == now,
            r.updated_at == now,
            r.wf(),
            r.seqs_in_order(),
    {
        TerminalSession {
            id,
            kind,
            status: TerminalStatus::Running,
            child_attached: true,
            writer_open: true,
            buffer: VecDeque::new(),
            next_seq: 1,
            rows,
            cols,
            pid,
            created_at: now,
            updated_at: now,
        }
    }

    /// Records activity at `now`.
    pub fn touch(&mut self, now: Timestamp)
        ensures
            *final(self) == (TerminalSession { updated_at: now, ..*old(self) }),
    {
        self.updated_at = now;
    }

    /// Appends output under the next sequence number, drops the oldest
    /// chunks beyond the limit, and records activity.
    pub fn append_output(&mut self, data: String, now: Timestamp)
        requires
            seqs_consecutive(old(self).buffer@, old(self).next_seq),
        ensures
            final(self).buffer@ == spec_appended(
                old(self).buffer@,
                TerminalOutputChunk {
                    seq: old(self).next_seq,
                    data,
                    timestamp: now,
                    stream: "pty",
                },
            ),
            final(self).next_seq == (if old(self).next_seq == u64::MAX {
                0
            } else {
                (old(self).next_seq + 1) as u64
            }),
            final(self).updated_at == now,
            final(self).id == old(self).id,
            final(self).kind == old(self).kind,
            final(self).status == old(self).status,
            final(self).child_attached == old(self).child_attached,
            final(self).writer_open == old(self).writer_open,
            final(self).rows == old(self).rows,
            final(self).cols == old(self).cols,
            final(self).pid == old(self).pid,
            final(self).created_at == old(self).created_at,
            final(self).wf(),
            old(self).seqs_in_order() && old(self).next_seq < u64::MAX ==> final(self).seqs_in_order(),
    {
        let seq = self.next_seq;
        self.next_seq = self.next_seq.wrapping_add(1);
        let chunk = TerminalOutputChunk { seq, data, timestamp: now, stream: "pty" };
        proof {
            if old(self).seqs_in_order() && old(self).next_seq < u64::MAX {
                lemma_append_keeps_order(old(self).buffer@, seq, chunk);
            }
            lemma_append_keeps_consecutive(old(self).buffer@, seq, chunk);
        }
        push_bounded(&mut self.buffer, chunk);
        self.touch(now);
    }

    /// Polls the child: an exit marks the session exited, a failure to read
    /// the child's status marks it failed; a session without a child keeps
    /// its status.
    pub fn refresh_status(&mut self, poll: ChildPoll)
        ensures
            *final(self) == (TerminalSession {
                status: spec_refreshed_status(old(self).status, old(self).child_attached, poll),
                ..*old(self)
            }),
    {
        if self.child_attached {
            match poll {
                ChildPoll::StillRunning => {},
                ChildPoll::Exited => {
                    self.status = TerminalStatus::Exited;
                },
                ChildPoll::Failed => {
                    self.status = TerminalStatus::Error;
                },
            }
        }
    }

    /// Refreshes the status and succeeds only while the session runs.
    pub fn ensure_running(&mut self, poll: ChildPoll) -> (r: Result<(), TerminalError>)
        ensures
            *final(self) == (TerminalSession {
                status: spec_refreshed_status(old(self).status, old(self).child_attached, poll),
                ..*old(self)
            }),
            r is Ok <==> spec_accepts_input(final(self).status),
            r matches Err(e) ==> e == (TerminalError::NotRunning { status: final(self).status }),
    {
        self.refresh_status(poll);
        match self.status {
            TerminalStatus::Running | TerminalStatus::Starting => Ok(()),
            other => Err(TerminalError::NotRunning { status: other }),
        }
    }

    /// Polls the child, then reports the session as it stands.
    pub fn summary(&mut self, poll: ChildPoll) -> (r: SessionSummary)
        ensures
            *final(self) == (TerminalSession {
                status: spec_refreshed_status(old(self).status, old(self).child_attached, poll),
                ..*old(self)
            }),
            r.session_id@ == final(self).id@,
            r.kind == final(self).kind,
            r.status == final(self).status,
            r.pid == final(self).pid,
            r.rows == final(self).rows,
            r.cols == final(self).cols,
            r.created_at == final(self).created_at,
            r.updated_at == final(self).updated_at,
    {
        self.refresh_status(poll);
        SessionSummary {
            session_id: self.id.clone(),
            kind: self.kind,
            status: self.status,
            pid: self.pid,
            rows: self.rows,
            cols: self.cols,
            created_at: self.created_at,
            updated_at: self.updated_at,
        }
    }

    /// Marks the session closed, releasing its input side and child, and
    /// gives the audit event of the close.
    pub fn close(&mut self) -> (r: CommandExecutionLog)
        ensures
            *final(self) == (TerminalSession {
                status: TerminalStatus::Closed,
                writer_open: false,
                child_attached: false,
                ..*old(self)
            }),
            is_close_audit(r, old(self).kind),
    {
        self.status = TerminalStatus::Closed;
        self.writer_open = false;
        self.child_attached = false;
        emit_close_audit(self.kind)
    }

    /// The chunks above `after_seq` (at most `max_chunks` of them, in
    /// order) and the cursor to poll from next.
    pub fn select_output(&self, after_seq: u64, max_chunks: usize) -> (r: (
        Vec<TerminalOutputChunk>,
        u64,
    ))
        ensures
            r.0@ == spec_select(self.buffer@, after_seq, max_chunks as nat),
            r.1 == spec_next_cursor(r.0@, after_seq, self.next_seq),
    {
        let mut out: Vec<TerminalOutputChunk> = Vec::new();
        let mut i: usize = 0;
        let n = self.buffer.len();
        assert(self.buffer@.subrange(0, n as int) == self.buffer@);
        while i < n && out.len() < max_chunks
            invariant
                n == self.buffer@.len(),
                0 <= i <= n,
                out@.len() <= max_chunks,
                out@ + spec_select(
                    self.buffer@.subrange(i as int, n as int),
                    after_seq,
                    (max_chunks - out@.len()) as nat,
                ) == spec_select(self.buffer@, after_seq, max_chunks as nat),
            decreases n - i,
        {
            let ghost rest = self.buffer@.subrange(i as int, n as int);
            assert(rest.drop_first() == self.buffer@.subrange(i + 1, n as int));
            let c = &self.buffer[i];
            let ghost before = out@;
            if c.seq > after_seq {
                let d = c.duplicate();
                out.push(d);
                proof {
                    let m = (max_chunks - before.len()) as nat;
                    assert(spec_select(rest, after_seq, m) == seq![rest[0]] + spec_select(
                        rest.drop_first(),
                        after_seq,
                        (m - 1) as nat,
                    ));
                    assert(out@ + spec_select(rest.drop_first(), after_seq, (m - 1) as nat)
                        == before + spec_select(rest, after_seq, m));
                }
            }
            i = i + 1;
        }
        proof {
            let rest = self.buffer@.subrange(i as int, n as int);
            let m = (max_chunks - out@.len()) as nat;
            assert(spec_select(rest, after_seq, m) == Seq::<TerminalOutputChunk>::empty());
            assert(out@ + Seq::<TerminalOutputChunk>::empty() == out@);
        }
        let last = if out.len() > 0 {
            out[out.len() - 1].seq
        } else {
            after_seq
        };
        let issued = self.next_seq.saturating_sub(1);
        let next = if last >= issued {
            last
        } else {
            issued
        };
        (out, next)
    }
}

} // verus!

verus! {

/// Sequence numbers rise strictly through `chunks`.
pub open spec fn seqs_increasing(chunks: Seq<TerminalOutputChunk>) -> bool {
    forall|i: int, j: int| 0 <= i < j < chunks.len() ==> #[trigger] chunks[i].seq < #[trigger] chunks[j].seq
}

/// A poll returns at most the requested number of chunks, only chunks
/// numbered above the cursor, only chunks the buffer holds, and, when it
/// returns fewer than allowed, every chunk above the cursor.
pub proof fn lemma_select_sound_and_complete(
    chunks: Seq<TerminalOutputChunk>,
    after: u64,
    max: nat,
)
    ensures
        spec_select(chunks, after, max).len() <= max,
        spec_select(chunks, after, max).len() <= chunks.len(),
        forall|i: int|
            0 <= i < spec_select(chunks, after, max).len() ==> #[trigger] spec_select(
                chunks,
                after,
                max,
            )[i].seq > after,
        forall|i: int|
            0 <= i < spec_select(chunks, after, max).len() ==> chunks.contains(
                #[trigger] spec_select(chunks, after, max)[i],
            ),
        spec_select(chunks, after, max).len() < max ==> forall|k: int|
            0 <= k < chunks.len() && #[trigger] chunks[k].seq > after ==> spec_select(
                chunks,
                after,
                max,
            ).contains(chunks[k]),
    decreases chunks.len(),
{
    if chunks.len() == 0 || max == 0 {
    } else {
        let rest = chunks.drop_first();
        let sel = spec_select(chunks, after, max);
        if chunks[0].seq > after {
            lemma_select_sound_and_complete(rest, after, (max - 1) as nat);
            let tail = spec_select(rest, after, (max - 1) as nat);
            assert(sel == seq![chunks[0]] + tail);
            assert forall|i: int| 0 <= i < sel.len() implies chunks.contains(#[trigger] sel[i]) by {
                if i == 0 {
                    assert(chunks[0] == sel[0]);
                } else {
                    assert(sel[i] == tail[i - 1]);
                    assert(rest.contains(tail[i - 1]));
                    let k = choose|k: int| 0 <= k < rest.len() && rest[k] == tail[i - 1];
                    assert(chunks[k + 1] == sel[i]);
                }
            }
            assert forall|i: int| 0 <= i < sel.len() implies #[trigger] sel[i].seq > after by {
                if i > 0 {
                    assert(sel[i] == tail[i - 1]);
                }
            }
            if sel.len() < max {
                assert forall|k: int| 0 <= k < chunks.len() && #[trigger] chunks[k].seq > after implies sel.contains(chunks[k]) by {
                    if k == 0 {
                        assert(sel[0] == chunks[0]);
                    } else {
                        assert(rest[k - 1] == chunks[k]);
                        assert(tail.contains(rest[k - 1]));
                        let m = choose|m: int| 0 <= m < tail.len() && tail[m] == rest[k - 1];
                        assert(sel[m + 1] == chunks[k]);
                    }
                }
            }
        } else {
            lemma_select_sound_and_complete(rest, after, max);
            let tail = spec_select(rest, after, max);
            assert(sel == tail);
            assert forall|i: int| 0 <= i < sel.len() implies chunks.contains(#[trigger] sel[i]) by {
                assert(rest.contains(tail[i]));
                let k = choose|k: int| 0 <= k < rest.len() && rest[k] == tail[i];
                assert(chunks[k + 1] == sel[i]);
            }
            if sel.len() < max {
                assert forall|k: int| 0 <= k < chunks.len() && #[trigger] chunks[k].seq > after implies sel.contains(chunks[k]) by {
                    assert(k != 0);
                    assert(rest[k - 1] == chunks[k]);
                }
            }
        }
    }
}

/// The number of chunks numbered above `after`.
pub open spec fn count_above(chunks: Seq<TerminalOutputChunk>, after: u64) -> nat
    decreases chunks.len(),
{
    if chunks.len() == 0 {
        0
    } else {
        (if chunks[0].seq > after {
            1nat
        } else {
            0nat
        }) + count_above(chunks.drop_first(), after)
    }
}

/// A selection of at most `max` chunks above `after` has as many chunks as
/// the smaller of `max` and the number of chunks above `after`.
pub proof fn lemma_select_len(chunks: Seq<TerminalOutputChunk>, after: u64, max: nat)
    ensures
        spec_select(chunks, after, max).len() == (if max < count_above(chunks, after) {
            max
        } else {
            count_above(chunks, after)
        }),
    decreases chunks.len(),
{
    if chunks.len() > 0 && max > 0 {
        if chunks[0].seq > after {
            lemma_select_len(chunks.drop_first(), after, (max - 1) as nat);
        } else {
            lemma_select_len(chunks.drop_first(), after, max);
        }
    }
}

/// A poll of a buffer in sequence order returns its chunks in sequence order.
pub proof fn lemma_select_keeps_order(chunks: Seq<TerminalOutputChunk>, after: u64, max: nat)
    requires
        seqs_increasing(chunks),
    ensures
        seqs_increasing(spec_select(chunks, after, max)),
    decreases chunks.len(),
{
    if chunks.len() == 0 || max == 0 {
    } else {
        let rest = chunks.drop_first();
        assert(seqs_increasing(rest)) by {
            assert forall|i: int, j: int| 0 <= i < j < rest.len() implies #[trigger] rest[i].seq < #[trigger] rest[j].seq by {
                assert(rest[i] == chunks[i + 1]);
                assert(rest[j] == chunks[j + 1]);
            }
        }
        if chunks[0].seq > after {
            lemma_select_keeps_order(rest, after, (max - 1) as nat);
            lemma_select_sound_and_complete(rest, after, (max - 1) as nat);
            let tail = spec_select(rest, after, (max - 1) as nat);
            let sel = spec_select(chunks, after, max);
            assert(sel == seq![chunks[0]] + tail);
            assert forall|i: int, j: int| 0 <= i < j < sel.len() implies #[trigger] sel[i].seq < #[trigger] sel[j].seq by {
                assert(sel[j] == tail[j - 1]);
                if i == 0 {
                    assert(rest.contains(tail[j - 1]));
                    let k = choose|k: int| 0 <= k < rest.len() && rest[k] == tail[j - 1];
                    assert(chunks[k + 1] == tail[j - 1]);
                } else {
                    assert(sel[i] == tail[i - 1]);
                }
            }
        } else {
            lemma_select_keeps_order(rest, after, max);
        }
    }
}

/// The cursor a poll returns is at least the cursor it was given and at
/// least the number of every chunk it returned, when the buffer is in
/// sequence order.
pub proof fn lemma_cursor_covers_returned(
    chunks: Seq<TerminalOutputChunk>,
    after: u64,
    max: nat,
    next_seq: u64,
)
    requires
        seqs_increasing(chunks),
    ensures
        spec_next_cursor(spec_select(chunks, after, max), after, next_seq) >= after,
        forall|i: int|
            0 <= i < spec_select(chunks, after, max).len() ==> #[trigger] spec_select(
                chunks,
                after,
                max,
            )[i].seq <= spec_next_cursor(spec_select(chunks, after, max), after, next_seq),
{
    lemma_select_sound_and_complete(chunks, after, max);
    lemma_select_keeps_order(chunks, after, max);
    let sel = spec_select(chunks, after, max);
    if sel.len() > 0 {
        assert(sel[sel.len() - 1].seq > after);
        assert forall|i: int| 0 <= i < sel.len() implies #[trigger] sel[i].seq <= sel.last().seq by {
            if i < sel.len() - 1 {
                assert(sel[i].seq < sel[sel.len() - 1].seq);
            }
        }
    }
}

/// Successive polls never return a chunk twice: whatever a poll from the
/// returned cursor yields, on any later buffer, is numbered above every
/// chunk the earlier poll returned.
pub proof fn lemma_polls_do_not_repeat(
    earlier: Seq<TerminalOutputChunk>,
    later: Seq<TerminalOutputChunk>,
    after: u64,
    max: nat,
    next_seq: u64,
    later_max: nat,
)
    requires
        seqs_increasing(earlier),
    ensures
        ({
            let first = spec_select(earlier, after, max);
            let cursor = spec_next_cursor(first, after, next_seq);
            let second = spec_select(later, cursor, later_max);
            forall|i: int, j: int|
                0 <= i < second.len() && 0 <= j < first.len() ==> #[trigger] second[i].seq
                    > #[trigger] first[j].seq
        }),
{
    let first = spec_select(earlier, after, max);
    let cursor = spec_next_cursor(first, after, next_seq);
    lemma_cursor_covers_returned(earlier, after, max, next_seq);
    lemma_select_sound_and_complete(later, cursor, later_max);
    let second = spec_select(later, cursor, later_max);
    assert forall|i: int, j: int| 0 <= i < second.len() && 0 <= j < first.len() implies #[trigger] second[i].seq
        > #[trigger] first[j].seq by {
        assert(second[i].seq > cursor);
        assert(first[j].seq <= cursor);
    }
}

} // verus!

verus! {

proof fn lemma_select_only_last(t: Seq<TerminalOutputChunk>, after: u64, max: nat)
    requires
        t.len() >= 1,
        max >= 1,
        t.last().seq > after,
        forall|i: int| 0 <= i < t.len() - 1 ==> #[trigger] t[i].seq <= after,
    ensures
        spec_select(t, after, max) == seq![t.last()],
    decreases t.len(),
{
    if t.len() == 1 {
        assert(t.drop_first().len() == 0);
        assert(spec_select(t.drop_first(), after, (max - 1) as nat) == Seq::<TerminalOutputChunk>::empty());
        assert(seq![t[0]] + Seq::<TerminalOutputChunk>::empty() == seq![t[0]]);
    } else {
        let rest = t.drop_first();
        assert(t[0].seq <= after);
        assert forall|i: int| 0 <= i < rest.len() - 1 implies #[trigger] rest[i].seq <= after by {
            assert(rest[i] == t[i + 1]);
        }
        lemma_select_only_last(rest, after, max);
        assert(rest.last() == t.last());
    }
}

/// Appending a chunk numbered `next_seq` to a buffer in order whose chunks
/// are all numbered below it keeps the buffer in order, with every chunk
/// numbered below `next_seq + 1`.
pub proof fn lemma_append_keeps_order(
    chunks: Seq<TerminalOutputChunk>,
    next_seq: u64,
    chunk: TerminalOutputChunk,
)
    requires
        seqs_increasing(chunks),
        forall|i: int| 0 <= i < chunks.len() ==> #[trigger] chunks[i].seq < next_seq,
        chunk.seq == next_seq,
    ensures
        seqs_increasing(spec_appended(chunks, chunk)),
        forall|i: int|
            0 <= i < spec_appended(chunks, chunk).len() ==> #[trigger] spec_appended(
                chunks,
                chunk,
            )[i].seq <= next_seq,
        spec_appended(chunks, chunk).len() >= 1,
        spec_appended(chunks, chunk).last() == chunk,
{
    let pushed = chunks.push(chunk);
    assert(seqs_increasing(pushed)) by {
        assert forall|i: int, j: int| 0 <= i < j < pushed.len() implies #[trigger] pushed[i].seq < #[trigger] pushed[j].seq by {
            if j == pushed.len() - 1 {
                assert(pushed[i] == chunks[i]);
            } else {
                assert(pushed[i] == chunks[i]);
                assert(pushed[j] == chunks[j]);
            }
        }
    }
    let r = spec_appended(chunks, chunk);
    if pushed.len() > MAX_BUFFER_CHUNKS {
        let off = pushed.len() - MAX_BUFFER_CHUNKS;
        assert forall|i: int, j: int| 0 <= i < j < r.len() implies #[trigger] r[i].seq < #[trigger] r[j].seq by {
            assert(r[i] == pushed[i + off]);
            assert(r[j] == pushed[j + off]);
        }
        assert forall|i: int| 0 <= i < r.len() implies #[trigger] r[i].seq <= next_seq by {
            assert(r[i] == pushed[i + off]);
            if i + off < chunks.len() {
                assert(pushed[i + off] == chunks[i + off]);
            }
        }
    } else {
        assert forall|i: int| 0 <= i < r.len() implies #[trigger] r[i].seq <= next_seq by {
            if i < chunks.len() {
                assert(pushed[i] == chunks[i]);
            }
        }
    }
}

/// What a write to the output gives back: after a chunk is appended to a
/// buffer in order, a poll from the cursor just below its number returns
/// exactly that chunk.
pub proof fn lemma_poll_returns_appended(
    chunks: Seq<TerminalOutputChunk>,
    next_seq: u64,
    chunk: TerminalOutputChunk,
    max: nat,
)
    requires
        seqs_increasing(chunks),
        forall|i: int| 0 <= i < chunks.len() ==> #[trigger] chunks[i].seq < next_seq,
        next_seq >= 1,
        chunk.seq == next_seq,
        max >= 1,
    ensures
        spec_select(spec_appended(chunks, chunk), (next_seq - 1) as u64, max) == seq![chunk],
{
    lemma_append_keeps_order(chunks, next_seq, chunk);
    let r = spec_appended(chunks, chunk);
    assert forall|i: int| 0 <= i < r.len() - 1 implies #[trigger] r[i].seq <= (next_seq - 1) as u64 by {
        assert(r[i].seq < r[r.len() - 1].seq);
    }
    lemma_select_only_last(r, (next_seq - 1) as u64, max);
}

} // verus!

verus! {

/// One more than the largest `u64`: the modulus of wrapping `u64` arithmetic.
pub open spec fn u64_modulus() -> int {
    0x1_0000_0000_0000_0000
}

/// The chunks are numbered consecutively, in wrapping `u64` arithmetic,
/// up to the number just below `next_seq`.
pub open spec fn seqs_consecutive(chunks: Seq<TerminalOutputChunk>, next_seq: u64) -> bool {
    forall|i: int|
        0 <= i < chunks.len() ==> #[trigger] chunks[i].seq as int == (next_seq - chunks.len() + i)
            % u64_modulus()
}

proof fn lemma_mod_shift(x: int)
    ensures
        (x + u64_modulus()) % u64_modulus() == x % u64_modulus(),
{
    vstd::arithmetic::div_mod::lemma_mod_add_multiples_vanish(x, u64_modulus());
}

/// Appending a chunk numbered `next_seq` keeps the numbering consecutive,
/// with the counter advanced in wrapping arithmetic.
pub proof fn lemma_append_keeps_consecutive(
    chunks: Seq<TerminalOutputChunk>,
    next_seq: u64,
    chunk: TerminalOutputChunk,
)
    requires
        seqs_consecutive(chunks, next_seq),
        chunk.seq == next_seq,
    ensures
        seqs_consecutive(
            spec_appended(chunks, chunk),
            (if next_seq == u64::MAX {
                0
            } else {
                (next_seq + 1) as u64
            }),
        ),
{
    let n: int = next_seq as int;
    let l: int = chunks.len() as int;
    let pushed = chunks.push(chunk);
    let r = spec_appended(chunks, chunk);
    let n2: u64 = if next_seq == u64::MAX {
        0
    } else {
        (next_seq + 1) as u64
    };
    let d: int = if pushed.len() > MAX_BUFFER_CHUNKS {
        pushed.len() - MAX_BUFFER_CHUNKS
    } else {
        0
    };
    assert forall|j: int| 0 <= j < r.len() implies #[trigger] r[j].seq as int == (n2 - r.len() + j)
        % u64_modulus() by {
        assert(r[j] == pushed[j + d]);
        assert(r.len() == l + 1 - d);
        let x: int = n2 - r.len() + j;
        if next_seq == u64::MAX {
            assert(n - l + j + d == x + u64_modulus());
            lemma_mod_shift(x);
        } else {
            assert(n - l + j + d == x);
        }
        if j + d == l {
            assert(pushed[l] == chunk);
            vstd::arithmetic::div_mod::lemma_small_mod(next_seq as nat, u64_modulus() as nat);
        } else {
            assert(pushed[j + d] == chunks[j + d]);
        }
    }
}

/// Consecutive numbering that has not wrapped inside the buffer (the
/// buffer holds no more chunks than the counter's value) is strictly
/// rising and stays below the counter.
pub proof fn lemma_consecutive_in_order(chunks: Seq<TerminalOutputChunk>, next_seq: u64)
    requires
        seqs_consecutive(chunks, next_seq),
        chunks.len() <= next_seq,
    ensures
        seqs_increasing(chunks),
        forall|i: int| 0 <= i < chunks.len() ==> #[trigger] chunks[i].seq < next_seq,
{
    assert forall|i: int| 0 <= i < chunks.len() implies #[trigger] chunks[i].seq as int == next_seq
        - chunks.len() + i by {
        vstd::arithmetic::div_mod::lemma_small_mod(
            (next_seq - chunks.len() + i) as nat,
            u64_modulus() as nat,
        );
    }
}

} // verus!

verus! {

/// A well-formed session whose counter is not zero and whose numbering has
/// not wrapped inside its buffer has its chunks in sequence order; only the
/// few thousand appends after the counter wraps at `u64::MAX` break this.
pub proof fn lemma_wf_session_in_order(s: TerminalSession)
    requires
        s.wf(),
        s.next_seq >= 1,
        s.buffer@.len() <= s.next_seq,
    ensures
        s.seqs_in_order(),
{
    lemma_consecutive_in_order(s.buffer@, s.next_seq);
}

} // verus!
