use openhuman_terminal::audit::{ApprovalResult, ExecutionOutcome};
use openhuman_terminal::manager::{ReadOutcome, TerminalSessionManager, MAX_WRITE_BYTES};
use openhuman_terminal::session::{ChildPoll, TerminalSession, MAX_BUFFER_CHUNKS, MAX_POLL_CHUNKS};
use openhuman_terminal::types::{
    CloseRequest, PollOutputRequest, ResizeRequest, SessionSummary, SshSessionRequest,
    StartSessionRequest, TerminalError, TerminalKind, TerminalStatus, Timestamp, WriteRequest,
};

fn at(secs: i64) -> Timestamp {
    Timestamp { secs, nanos: 0 }
}

fn manager_with(id: &str, kind: TerminalKind) -> TerminalSessionManager {
    let mut m = TerminalSessionManager::new();
    let resp = m.register_session_at(id.to_string(), kind, Some(42), 24, 80, at(100));
    assert_eq!(resp.session_id, id);
    assert_eq!(resp.status, TerminalStatus::Running);
    assert_eq!(resp.pid, Some(42));
    m
}

fn listing(m: &mut TerminalSessionManager, secs: i64) -> Vec<SessionSummary> {
    let (closed, list) = m.list_sessions_at(&vec![], at(secs));
    assert!(closed.is_empty());
    list
}

fn poll(id: &str, after: Option<u64>, max: Option<usize>) -> PollOutputRequest {
    PollOutputRequest { session_id: id.to_string(), after_seq: after, max_chunks: max }
}

fn write_req(id: &str, data: &str, actor: Option<&str>) -> WriteRequest {
    WriteRequest { session_id: id.to_string(), data: data.to_string(), actor: actor.map(|a| a.to_string()) }
}

#[test]
fn output_is_polled_once_in_order() {
    let mut m = manager_with("s1", TerminalKind::Local);
    assert!(m.handle_read_at("s1", ReadOutcome::Data("hello".into()), at(101)));
    assert!(m.handle_read_at("s1", ReadOutcome::Data(" world".into()), at(102)));
    let r = m.poll_output_at(&poll("s1", None, None), ChildPoll::StillRunning, at(103)).unwrap();
    assert_eq!(r.session_id, "s1");
    assert_eq!(r.status, TerminalStatus::Running);
    assert_eq!(r.chunks.len(), 2);
    assert_eq!(r.chunks[0].seq, 1);
    assert_eq!(r.chunks[0].data, "hello");
    assert_eq!(r.chunks[0].stream, "pty");
    assert_eq!(r.chunks[0].timestamp, at(101));
    assert_eq!(r.chunks[1].seq, 2);
    assert_eq!(r.next_seq, 2);
    let again = m.poll_output_at(&poll("s1", Some(r.next_seq), None), ChildPoll::StillRunning, at(104)).unwrap();
    assert!(again.chunks.is_empty());
    assert_eq!(again.next_seq, 2);
    assert!(m.handle_read_at("s1", ReadOutcome::Data("more".into()), at(105)));
    let third = m.poll_output_at(&poll("s1", Some(again.next_seq), None), ChildPoll::StillRunning, at(106)).unwrap();
    assert_eq!(third.chunks.len(), 1);
    assert_eq!(third.chunks[0].data, "more");
    assert_eq!(third.next_seq, 3);
}

#[test]
fn poll_limit_and_cursor() {
    let mut m = manager_with("s1", TerminalKind::Local);
    for i in 0..5 {
        m.handle_read_at("s1", ReadOutcome::Data(format!("c{i}")), at(101));
    }
    let r = m.poll_output_at(&poll("s1", Some(1), Some(2)), ChildPoll::StillRunning, at(102)).unwrap();
    let seqs: Vec<u64> = r.chunks.iter().map(|c| c.seq).collect();
    assert_eq!(seqs, vec![2, 3]);
    // the cursor jumps to the last number handed out
    assert_eq!(r.next_seq, 5);
    let r = m.poll_output_at(&poll("s1", Some(10), None), ChildPoll::StillRunning, at(102)).unwrap();
    assert!(r.chunks.is_empty());
    assert_eq!(r.next_seq, 10);
    let r = m.poll_output_at(&poll("s1", None, Some(0)), ChildPoll::StillRunning, at(102)).unwrap();
    assert!(r.chunks.is_empty());
    assert_eq!(r.next_seq, 5);
}

#[test]
fn buffer_drops_oldest_and_poll_is_capped() {
    let mut m = manager_with("s1", TerminalKind::Local);
    // four chunks of text, then end-of-file banners (which need no scrubbing) to fill the buffer
    for _ in 0..4 {
        m.handle_read_at("s1", ReadOutcome::Data("x".into()), at(101));
    }
    for _ in 0..MAX_BUFFER_CHUNKS {
        m.handle_read_at("s1", ReadOutcome::Eof, at(101));
    }
    let r = m.poll_output_at(&poll("s1", None, Some(100_000)), ChildPoll::StillRunning, at(102)).unwrap();
    assert_eq!(r.chunks.len(), MAX_POLL_CHUNKS);
    assert_eq!(r.chunks[0].seq, 5);
    assert_eq!(r.chunks[0].data, "\r\n[openhuman terminal: session exited]\r\n");
    assert_eq!(r.chunks[MAX_POLL_CHUNKS - 1].seq, 4 + MAX_POLL_CHUNKS as u64);
    assert_eq!(r.next_seq, (MAX_BUFFER_CHUNKS + 4) as u64);
}

#[test]
fn reader_end_and_error_banners() {
    let mut m = manager_with("s1", TerminalKind::Local);
    assert!(!m.handle_read_at("s1", ReadOutcome::Eof, at(101)));
    let r = m.poll_output_at(&poll("s1", None, None), ChildPoll::StillRunning, at(102)).unwrap();
    assert_eq!(r.status, TerminalStatus::Exited);
    assert_eq!(r.chunks[0].data, "\r\n[openhuman terminal: session exited]\r\n");

    let mut m = manager_with("s2", TerminalKind::Ssh);
    assert!(!m.handle_read_at("s2", ReadOutcome::Failed("password=hunter2hunter2".into()), at(101)));
    let r = m.poll_output_at(&poll("s2", None, None), ChildPoll::StillRunning, at(102)).unwrap();
    assert_eq!(r.status, TerminalStatus::Error);
    assert_eq!(r.chunks[0].data, "\r\n[openhuman terminal: read error: password=hunt*[REDACTED]]\r\n");

    // unknown sessions are ignored
    assert!(m.handle_read_at("nope", ReadOutcome::Data("x".into()), at(103)));
    assert!(!m.handle_read_at("nope", ReadOutcome::Eof, at(103)));
}

#[test]
fn output_is_scrubbed() {
    let mut m = manager_with("s1", TerminalKind::Local);
    m.handle_read_at("s1", ReadOutcome::Data("export TOKEN=abcdefghijkl done".into()), at(101));
    let r = m.poll_output_at(&poll("s1", None, None), ChildPoll::StillRunning, at(102)).unwrap();
    assert_eq!(r.chunks[0].data, "export TOKEN=abcd*[REDACTED] done");
}

#[test]
fn write_admission_rules() {
    let mut m = manager_with("s1", TerminalKind::Local);
    assert!(m.write(&write_req("s1", "ls\n", None), ChildPoll::StillRunning).is_ok());
    let big = "a".repeat(MAX_WRITE_BYTES + 1);
    let e = m.write(&write_req("s1", &big, None), ChildPoll::StillRunning).unwrap_err();
    assert!(matches!(e, TerminalError::WriteTooLarge));
    assert_eq!(e.message(), "terminal write too large; max 65536 bytes per call");
    let exact = "a".repeat(MAX_WRITE_BYTES);
    assert!(m.write(&write_req("s1", &exact, None), ChildPoll::StillRunning).is_ok());
    let e = m.write(&write_req("zz", "x", None), ChildPoll::StillRunning).unwrap_err();
    assert_eq!(e.message(), "terminal session not found: zz");
    let e = m.write(&write_req("s1", "x", None), ChildPoll::Exited).unwrap_err();
    assert!(matches!(e, TerminalError::NotRunning { status: TerminalStatus::Exited }));
    assert_eq!(e.message(), "terminal session is not running: Exited");
    // the refreshed status sticks
    let e = m.write(&write_req("s1", "x", None), ChildPoll::StillRunning).unwrap_err();
    assert!(matches!(e, TerminalError::NotRunning { status: TerminalStatus::Exited }));

    let mut m = manager_with("s2", TerminalKind::Local);
    let e = m.write(&write_req("s2", "x", None), ChildPoll::Failed).unwrap_err();
    assert!(matches!(e, TerminalError::NotRunning { status: TerminalStatus::Error }));
}

#[test]
fn completed_write_reports_bytes_and_audit() {
    let mut m = manager_with("s1", TerminalKind::Ssh);
    let (resp, audit) = m.complete_write_at(&write_req("s1", "héllo", None), at(200)).unwrap();
    assert_eq!(resp.session_id, "s1");
    assert_eq!(resp.bytes_written, 6);
    assert_eq!(audit.command, "terminal write by user: 6 bytes");
    assert_eq!(audit.risk_level, "high");
    assert_eq!(audit.channel, "terminal");
    assert!(audit.approved && audit.allowed && audit.success);
    assert_eq!(audit.duration_ms, 0);
    let (_, audit) = m.complete_write_at(&write_req("s1", "ab", Some("agent-7")), at(201)).unwrap();
    assert_eq!(audit.command, "terminal write by agent-7: 2 bytes");
    let list = listing(&mut m, 202);
    assert_eq!(list[0].updated_at, at(201));
    assert!(m.complete_write_at(&write_req("nope", "x", None), at(202)).is_err());
}

#[test]
fn resize_normalizes_and_records() {
    let mut m = manager_with("s1", TerminalKind::Local);
    let req = ResizeRequest { session_id: "s1".into(), rows: 0, cols: 1000 };
    let (rows, cols) = m.resize(&req).unwrap();
    assert_eq!((rows, cols), (24, 500));
    let resp = m.complete_resize_at(&req, rows, cols, at(300));
    assert_eq!((resp.rows, resp.cols), (24, 500));
    let s = &listing(&mut m, 300)[0];
    assert_eq!((s.rows, s.cols), (24, 500));
    assert_eq!(s.updated_at, at(300));
    assert_eq!(s.created_at, at(100));
    let bad = ResizeRequest { session_id: "x".into(), rows: 10, cols: 10 };
    assert!(matches!(m.resize(&bad), Err(TerminalError::SessionNotFound { .. })));
}

#[test]
fn close_removes_session() {
    let mut m = manager_with("s1", TerminalKind::Local);
    m.register_session_at("s2".into(), TerminalKind::Ssh, None, 10, 20, at(150));
    let (resp, audit) = m.close(&CloseRequest { session_id: "s1".into() }).unwrap();
    assert_eq!(resp.session_id, "s1");
    assert_eq!(resp.status, TerminalStatus::Closed);
    assert_eq!(audit.command, "terminal close");
    assert_eq!(audit.risk_level, "medium");
    assert!(m.get_session("s1").is_err());
    let ids: Vec<String> = listing(&mut m, 200).into_iter().map(|s| s.session_id).collect();
    assert_eq!(ids, vec!["s2".to_string()]);
    assert!(m.close(&CloseRequest { session_id: "s1".into() }).is_err());
}

#[test]
fn register_replaces_same_id() {
    let mut m = manager_with("s1", TerminalKind::Local);
    m.handle_read_at("s1", ReadOutcome::Data("old".into()), at(101));
    m.register_session_at("s1".into(), TerminalKind::Ssh, Some(7), 30, 90, at(400));
    let list = listing(&mut m, 400);
    assert_eq!(list.len(), 1);
    assert_eq!(list[0].kind, TerminalKind::Ssh);
    assert_eq!(list[0].pid, Some(7));
    let r = m.poll_output_at(&poll("s1", None, None), ChildPoll::StillRunning, at(401)).unwrap();
    assert!(r.chunks.is_empty());
}

#[test]
fn random_ids_are_registered() {
    let mut m = TerminalSessionManager::new();
    let a = m.register_session(TerminalKind::Local, Some(1), 24, 80);
    let b = m.register_session(TerminalKind::Local, Some(2), 24, 80);
    assert_ne!(a.session_id, b.session_id);
    let (closed, list) = m.list_sessions(&vec![]);
    assert!(closed.is_empty());
    assert_eq!(list.len(), 2);
    assert!(m.get_session(&a.session_id).is_ok());
}

#[test]
fn idle_sessions_are_closed_after_an_hour() {
    let mut m = manager_with("old", TerminalKind::Local);
    m.register_session_at("edge".into(), TerminalKind::Ssh, None, 24, 80, at(500));
    m.register_session_at("new".into(), TerminalKind::Local, None, 24, 80, at(3000));
    let closed = m.cleanup_idle_at(at(500 + 3600));
    let ids: Vec<&str> = closed.iter().map(|c| c.session_id.as_str()).collect();
    assert_eq!(ids, vec!["old"]);
    assert_eq!(closed[0].audit.command, "terminal close");
    let left: Vec<String> = listing(&mut m, 500 + 3600).into_iter().map(|s| s.session_id).collect();
    assert_eq!(left, vec!["edge".to_string(), "new".to_string()]);
    let closed = m.cleanup_idle_at(Timestamp { secs: 500 + 3600, nanos: 1 });
    assert_eq!(closed.len(), 1);
    assert_eq!(closed[0].session_id, "edge");
    assert_eq!(closed[0].audit.risk_level, "high");
}

#[test]
fn refresh_and_list() {
    let mut m = manager_with("s1", TerminalKind::Local);
    m.refresh_status("s1", ChildPoll::StillRunning);
    assert_eq!(listing(&mut m, 101)[0].status, TerminalStatus::Running);
    m.refresh_status("s1", ChildPoll::Exited);
    let s = &listing(&mut m, 101)[0];
    assert_eq!(s.status, TerminalStatus::Exited);
    assert_eq!(s.kind, TerminalKind::Local);
    assert_eq!(s.pid, Some(42));
    assert_eq!(m.session_ids(), vec!["s1".to_string()]);
}

fn start_request(kind: TerminalKind) -> StartSessionRequest {
    StartSessionRequest {
        kind,
        command: None,
        shell: None,
        cwd: None,
        rows: Some(0),
        cols: Some(132),
        ssh: None,
        approved: false,
        actor: None,
    }
}

#[test]
fn start_session_plans() {
    let mut m = manager_with("old", TerminalKind::Local);
    let (closed, plan) = m.start_session_at(&start_request(TerminalKind::Local), Ok("/ws".into()), at(100 + 3601));
    assert_eq!(closed.len(), 1);
    let plan = plan.unwrap();
    assert_eq!(plan.command_label, "local-shell:/ws");
    assert_eq!((plan.rows, plan.cols), (24, 132));

    let mut req = start_request(TerminalKind::Local);
    req.command = Some("echo hi".into());
    let (_, plan) = m.start_session_at(&req, Ok("/ws/sub".into()), at(0));
    assert_eq!(plan.unwrap().command_label, "local:/ws/sub:echo hi");

    let (_, plan) = m.start_session_at(&req, Err(TerminalError::Failed { message: "terminal cwd does not exist: /x".into() }), at(0));
    assert_eq!(plan.unwrap_err().message(), "terminal cwd does not exist: /x");

    let mut req = start_request(TerminalKind::Ssh);
    req.ssh = Some(SshSessionRequest {
        host: "example.com".into(),
        user: Some("alice".into()),
        port: Some(2222),
        request_tty: false,
        extra_args: vec![],
    });
    let (_, plan) = m.start_session_at(&req, Err(TerminalError::Failed { message: "ignored".into() }), at(0));
    let plan = plan.unwrap();
    assert_eq!(plan.command_label, "ssh:alice@example.com:2222");
    assert_eq!(plan.kind, TerminalKind::Ssh);

    let req = start_request(TerminalKind::Ssh);
    let (_, plan) = m.start_session_at(&req, Ok("/ws".into()), at(0));
    assert!(matches!(plan, Err(TerminalError::SshParamsMissing)));
}

#[test]
fn session_summary_refreshes_status() {
    let mut s = TerminalSession::new("x".into(), TerminalKind::Ssh, Some(9), 30, 100, at(7));
    let summary = s.summary(ChildPoll::StillRunning);
    assert_eq!(summary.session_id, "x");
    assert_eq!(summary.status, TerminalStatus::Running);
    assert_eq!((summary.rows, summary.cols), (30, 100));
    assert_eq!(summary.created_at, at(7));
    let summary = s.summary(ChildPoll::Failed);
    assert_eq!(summary.status, TerminalStatus::Error);
    s.close();
    let summary = s.summary(ChildPoll::Exited);
    assert_eq!(summary.status, TerminalStatus::Closed);
    assert!(s.ensure_running(ChildPoll::StillRunning).is_err());
}

#[test]
fn append_keeps_numbering_and_touches() {
    let mut s = TerminalSession::new("x".into(), TerminalKind::Local, None, 24, 80, at(1));
    s.append_output("a".into(), at(2));
    s.append_output("b".into(), at(3));
    assert_eq!(s.next_seq, 3);
    assert_eq!(s.updated_at, at(3));
    let (chunks, next) = s.select_output(0, 10);
    assert_eq!(chunks.iter().map(|c| c.seq).collect::<Vec<_>>(), vec![1, 2]);
    assert_eq!(next, 2);
    // the counter wraps: an empty buffer may start from any number
    let mut s = TerminalSession::new("y".into(), TerminalKind::Local, None, 24, 80, at(1));
    s.next_seq = u64::MAX;
    s.append_output("c".into(), at(4));
    assert_eq!(s.next_seq, 0);
    assert_eq!(s.buffer.back().unwrap().seq, u64::MAX);
}

#[test]
fn listing_polls_each_child_and_closes_idle_ones() {
    let mut m = manager_with("s1", TerminalKind::Local);
    m.register_session_at("s2".into(), TerminalKind::Ssh, Some(5), 24, 80, at(2000));
    m.register_session_at("s3".into(), TerminalKind::Local, None, 24, 80, at(2000));
    let polls = vec![
        ("s2".to_string(), ChildPoll::Exited),
        ("s2".to_string(), ChildPoll::Failed),
        ("nope".to_string(), ChildPoll::Failed),
    ];
    let (closed, list) = m.list_sessions_at(&polls, at(100 + 3601));
    assert_eq!(closed.len(), 1);
    assert_eq!(closed[0].session_id, "s1");
    assert_eq!(closed[0].audit.command, "terminal close");
    assert_eq!(closed[0].audit.risk_level, "medium");
    let ids: Vec<&str> = list.iter().map(|s| s.session_id.as_str()).collect();
    assert_eq!(ids, vec!["s2", "s3"]);
    // the first poll given for an id counts; a session without one is running
    assert_eq!(list[0].status, TerminalStatus::Exited);
    assert_eq!(list[0].kind, TerminalKind::Ssh);
    assert_eq!(list[0].pid, Some(5));
    assert_eq!(list[1].status, TerminalStatus::Running);
    // the refreshed status is kept by the registry
    let list = listing(&mut m, 3800);
    assert_eq!(list[0].status, TerminalStatus::Exited);
}

fn planned(m: &mut TerminalSessionManager, kind: TerminalKind) -> openhuman_terminal::manager::SessionPlan {
    let mut req = start_request(kind);
    if kind == TerminalKind::Ssh {
        req.ssh = Some(SshSessionRequest {
            host: "example.com".into(),
            user: None,
            port: None,
            request_tty: true,
            extra_args: vec![],
        });
    }
    m.start_session_at(&req, Ok("/ws".into()), at(100)).1.unwrap()
}

#[test]
fn finished_start_registers_the_spawned_process() {
    let mut m = manager_with("s1", TerminalKind::Local);
    let plan = planned(&mut m, TerminalKind::Ssh);
    let approval = ApprovalResult { approved: true, request_id: Some("req-9".into()) };
    let (result, record, audit) = m.finish_start_at("s2".into(), at(150), &plan, &approval, Ok(77), 12);
    let resp = result.unwrap();
    assert_eq!(resp.session_id, "s2");
    assert_eq!(resp.kind, TerminalKind::Ssh);
    assert_eq!(resp.status, TerminalStatus::Running);
    assert_eq!(resp.pid, Some(77));
    assert_eq!((resp.rows, resp.cols), (24, 132));
    assert!(m.get_session("s2").is_ok());
    let rec = record.unwrap();
    assert_eq!(rec.request_id, "req-9");
    assert_eq!(rec.outcome, ExecutionOutcome::Success);
    assert_eq!(audit.command, "ssh:example.com:22");
    assert_eq!(audit.risk_level, "high");
    assert!(audit.approved && audit.allowed && audit.success);
    assert_eq!(audit.duration_ms, 12);
    let list = listing(&mut m, 160);
    assert_eq!(list.len(), 2);
    assert_eq!(list[1].created_at, at(150));
}

#[test]
fn failed_spawn_leaves_the_registry_alone() {
    let mut m = manager_with("s1", TerminalKind::Local);
    let plan = planned(&mut m, TerminalKind::Local);
    let approval = ApprovalResult { approved: true, request_id: Some("req-1".into()) };
    let err = TerminalError::Failed { message: "spawn failed token=abcdefghijk".into() };
    let (result, record, audit) = m.finish_start_at("s2".into(), at(150), &plan, &approval, Err(err), 3);
    assert_eq!(result.unwrap_err().message(), "spawn failed token=abcdefghijk");
    assert!(m.get_session("s2").is_err());
    assert_eq!(listing(&mut m, 160).len(), 1);
    let rec = record.unwrap();
    assert_eq!(rec.outcome, ExecutionOutcome::Failure);
    assert_eq!(rec.message.as_deref(), Some("spawn failed token=abcd*[REDACTED]"));
    assert_eq!(audit.command, "local-shell:/ws");
    assert_eq!(audit.risk_level, "medium");
    assert!(audit.approved && audit.allowed);
    assert!(!audit.success);
    assert_eq!(audit.duration_ms, 3);
    let approval = ApprovalResult { approved: true, request_id: None };
    let (result, record, _) = m.finish_start_at("s3".into(), at(151), &plan, &approval, Ok(8), 0);
    assert!(result.is_ok());
    assert!(record.is_none());
}
