//! The daemon's table of sessions.

use bytes::{Bytes, BytesMut};
use gritty::daemon::{pid_file_path, runtime_files, Action, Daemon};
use gritty::negotiation::{Negotiation, Outcome};
use gritty::protocol::{Frame, FrameCodec, SessionEntry};
use gritty::server::SessionMetadata;

fn create(d: &mut Daemon, name: &str) -> u32 {
    let a = d.handle(Frame::NewSession { name: name.to_string() });
    match a.action {
        Action::Start { id, name: given } => {
            assert_eq!(a.reply, Frame::SessionCreated { id: id.to_string() });
            let wanted = if name.is_empty() { None } else { Some(name.to_string()) };
            assert_eq!(given, wanted);
            id
        }
        other => panic!("expected a start, got {other:?}"),
    }
}

fn list(d: &mut Daemon) -> Vec<SessionEntry> {
    let a = d.handle(Frame::ListSessions);
    assert_eq!(a.action, Action::Nothing);
    match a.reply {
        Frame::SessionInfo { sessions } => sessions,
        other => panic!("expected SessionInfo, got {other:?}"),
    }
}

fn kill(d: &mut Daemon, session: &str) -> (Frame, Action) {
    let a = d.handle(Frame::KillSession { session: session.to_string() });
    (a.reply, a.action)
}

fn attach(d: &mut Daemon, session: &str) -> (Frame, Action) {
    let a = d.handle(Frame::Attach { session: session.to_string() });
    (a.reply, a.action)
}

fn error(message: &str) -> Frame {
    Frame::Error { message: message.to_string() }
}

fn running(pid: u32) -> SessionMetadata {
    SessionMetadata {
        pty_path: "/dev/pts/3".to_string(),
        shell_pid: pid,
        created_at: 1_700_000_000,
        attached: true,
        last_heartbeat: 1_700_000_100,
    }
}

#[test]
fn daemon_creates_and_lists_sessions() {
    let mut d = Daemon::new();
    let id = create(&mut d, "mytest");
    let sessions = list(&mut d);
    assert_eq!(sessions.len(), 1);
    assert_eq!(sessions[0].id, id.to_string());
    assert_eq!(sessions[0].name, "mytest");
    assert_eq!(sessions[0].shell_pid, 0);
}

#[test]
fn daemon_rejects_duplicate_name() {
    let mut d = Daemon::new();
    create(&mut d, "dupname");
    let a = d.handle(Frame::NewSession { name: "dupname".to_string() });
    assert_eq!(a.reply, error("session name already exists: dupname"));
    assert_eq!(a.action, Action::Nothing);
    assert_eq!(list(&mut d).len(), 1);
}

#[test]
fn daemon_allows_multiple_unnamed_sessions() {
    let mut d = Daemon::new();
    let id1 = create(&mut d, "");
    let id2 = create(&mut d, "");
    assert_ne!(id1, id2);
    assert_eq!(list(&mut d).len(), 2, "expected 2 sessions");
}

#[test]
fn daemon_kills_session() {
    let mut d = Daemon::new();
    let id = create(&mut d, "killme");
    assert_eq!(kill(&mut d, &id.to_string()), (Frame::Okay, Action::Abort { id }));
    assert!(list(&mut d).is_empty(), "expected no sessions after kill");
}

#[test]
fn daemon_kills_session_by_name() {
    let mut d = Daemon::new();
    let id = create(&mut d, "named-kill");
    assert_eq!(kill(&mut d, "named-kill"), (Frame::Okay, Action::Abort { id }));
    assert!(list(&mut d).is_empty(), "expected no sessions after kill by name");
}

#[test]
fn daemon_kills_server() {
    let mut d = Daemon::new();
    let a = create(&mut d, "doomed");
    let b = create(&mut d, "");
    let answer = d.handle(Frame::KillServer);
    assert_eq!(answer.reply, Frame::Okay);
    assert_eq!(answer.action, Action::Stop { aborted: vec![a, b] });
    assert!(list(&mut d).is_empty());
}

#[test]
fn kill_server_no_sessions() {
    let mut d = Daemon::new();
    let answer = d.handle(Frame::KillServer);
    assert_eq!(answer.reply, Frame::Okay);
    assert_eq!(answer.action, Action::Stop { aborted: vec![] });
}

#[test]
fn create_after_kill_same_name() {
    let mut d = Daemon::new();
    let id1 = create(&mut d, "reuse");
    assert_eq!(kill(&mut d, &id1.to_string()).0, Frame::Okay);
    let id2 = create(&mut d, "reuse");
    assert_ne!(id1, id2, "should get a new id");
    d.observe(id2, Some(running(77)), false, false);
    let sessions = list(&mut d);
    assert_eq!(sessions.len(), 1);
    assert_eq!(sessions[0].id, id2.to_string());
    assert_eq!(sessions[0].name, "reuse");
    assert_eq!(sessions[0].shell_pid, 77);
}

#[test]
fn multiple_concurrent_sessions() {
    let mut d = Daemon::new();
    let mut made = vec![];
    for i in 0..12 {
        made.push(create(&mut d, &format!("sess-{i}")).to_string());
    }
    let listed: Vec<String> = list(&mut d).iter().map(|s| s.id.clone()).collect();
    assert_eq!(listed, made, "ascending by number, not by text");
}

#[test]
fn daemon_unexpected_frame() {
    let mut d = Daemon::new();
    create(&mut d, "keep");
    for frame in [
        Frame::Data(Bytes::from("hello")),
        Frame::Resize { cols: 80, rows: 24 },
        Frame::Okay,
        Frame::Ping,
    ] {
        let a = d.handle(frame);
        assert_eq!(a.reply, error("unexpected frame type"));
        assert_eq!(a.action, Action::Nothing);
    }
    assert_eq!(list(&mut d).len(), 1);
}

#[test]
fn kill_nonexistent_session() {
    let mut d = Daemon::new();
    assert_eq!(kill(&mut d, "999"), (error("no such session: 999"), Action::Nothing));
}

#[test]
fn session_natural_exit_reaps_from_list() {
    let mut d = Daemon::new();
    let id = create(&mut d, "reapme");
    let other = create(&mut d, "stay");
    d.observe(id, Some(running(5)), true, true);
    d.reap();
    let sessions = list(&mut d);
    assert_eq!(sessions.len(), 1);
    assert_eq!(sessions[0].id, other.to_string());
}

#[test]
fn session_metadata_has_pty_and_pid() {
    let mut d = Daemon::new();
    let id = create(&mut d, "metacheck");
    d.observe(id, Some(running(1234)), false, false);
    assert_eq!(
        list(&mut d),
        vec![SessionEntry {
            id: "0".to_string(),
            name: "metacheck".to_string(),
            pty_path: "/dev/pts/3".to_string(),
            shell_pid: 1234,
            created_at: 1_700_000_000,
            attached: true,
            last_heartbeat: 1_700_000_100,
        }]
    );
    d.observe(99, Some(running(1)), false, false);
    assert_eq!(list(&mut d).len(), 1, "an unknown session stays unknown");
}

#[test]
fn attach_by_id_and_by_name() {
    let mut d = Daemon::new();
    let id = create(&mut d, "namedattach");
    assert_eq!(attach(&mut d, "namedattach"), (Frame::Okay, Action::HandOver { id }));
    assert_eq!(attach(&mut d, "0"), (Frame::Okay, Action::HandOver { id }));
    assert_eq!(attach(&mut d, "+0"), (Frame::Okay, Action::HandOver { id }));
}

#[test]
fn names_count_before_ids() {
    let mut d = Daemon::new();
    let a = create(&mut d, "1");
    let b = create(&mut d, "");
    assert_eq!((a, b), (0, 1));
    assert_eq!(attach(&mut d, "1"), (Frame::Okay, Action::HandOver { id: a }));
    assert_eq!(d.resolve("1"), Some(a));
    assert_eq!(d.resolve("0"), Some(a));
    assert_eq!(d.resolve("2"), None);
    assert_eq!(d.resolve(""), None);
    assert_eq!(d.resolve("-1"), None);
    assert_eq!(d.resolve("4294967296"), None);
}

#[test]
fn attach_nonexistent_returns_error() {
    let mut d = Daemon::new();
    assert_eq!(
        attach(&mut d, "nonexistent"),
        (error("no such session: nonexistent"), Action::Nothing)
    );
}

#[test]
fn attach_dead_session_returns_error() {
    let mut d = Daemon::new();
    let id = create(&mut d, "dying");
    d.observe(id, None, true, true);
    assert_eq!(attach(&mut d, "0"), (error("no such session: 0"), Action::Nothing));
    let id = create(&mut d, "closing");
    d.observe(id, None, false, true);
    assert_eq!(attach(&mut d, "closing"), (error("no such session: closing"), Action::Nothing));
    assert!(list(&mut d).is_empty());
}

#[test]
fn kill_dead_session_returns_error() {
    let mut d = Daemon::new();
    let id = create(&mut d, "dying2");
    d.observe(id, None, true, false);
    assert_eq!(kill(&mut d, "0"), (error("no such session: 0"), Action::Nothing));
}

#[test]
fn killing_one_session_keeps_the_others() {
    let mut d = Daemon::new();
    create(&mut d, "a");
    create(&mut d, "b");
    create(&mut d, "c");
    kill(&mut d, "b");
    let names: Vec<String> = list(&mut d).iter().map(|s| s.name.clone()).collect();
    assert_eq!(names, ["a", "c"]);
    assert_eq!(create(&mut d, "d"), 3, "ids are never given out twice");
}

#[test]
fn ids_count_the_accepted_requests() {
    let mut d = Daemon::new();
    let mut k = 0;
    for round in 0..5 {
        assert_eq!(create(&mut d, "same"), k);
        assert_eq!(create(&mut d, ""), k + 1);
        d.handle(Frame::NewSession { name: "same".to_string() });
        d.observe(k + 1, None, true, true);
        d.reap();
        if round % 2 == 0 {
            kill(&mut d, "same");
        } else {
            d.observe(k, None, true, true);
            d.reap();
        }
        k += 2;
        assert_eq!(d.next_id(), k);
    }
}

#[test]
fn shutdown_lists_sessions_and_files() {
    let mut d = Daemon::new();
    create(&mut d, "a");
    create(&mut d, "b");
    let s = d.shutdown(b"/run/user/1/gritty/ctl.sock");
    assert_eq!(s.aborted, [0, 1]);
    assert_eq!(
        s.files,
        [b"/run/user/1/gritty/ctl.sock".to_vec(), b"/run/user/1/gritty/daemon.pid".to_vec()]
    );
    assert_eq!(s.files, runtime_files(b"/run/user/1/gritty/ctl.sock"));
    assert!(list(&mut d).is_empty());
}

#[test]
fn pid_file_is_a_sibling_of_the_socket() {
    assert_eq!(pid_file_path(b"/a/b/ctl.sock"), b"/a/b/daemon.pid");
    assert_eq!(pid_file_path(b"ctl.sock"), b"daemon.pid");
    assert_eq!(pid_file_path(b"/ctl.sock"), b"/daemon.pid");
    assert_eq!(pid_file_path(b"/a/b/"), b"/a/daemon.pid");
    assert_eq!(pid_file_path(b"/"), b"/daemon.pid");
    assert_eq!(pid_file_path(b"/a/.."), b"/a/../daemon.pid");
}

#[test]
fn connecting_by_name_finds_or_makes_the_session() {
    let mut d = Daemon::new();
    // Nothing is there: the session is made.
    let (mut n, request) = Negotiation::start(Some("work".to_string()), false);
    let reply = d.handle(request).reply;
    let frame = match n.reply(Some(Ok(reply))) {
        Outcome::Send { frame } => frame,
        other => panic!("unexpected outcome {other:?}"),
    };
    let reply = d.handle(frame).reply;
    assert!(matches!(n.reply(Some(Ok(reply))), Outcome::Created { .. }));
    // It is there: the session is attached to.
    let (mut n, request) = Negotiation::start(Some("work".to_string()), false);
    let a = d.handle(request);
    assert_eq!(a.action, Action::HandOver { id: 0 });
    assert!(matches!(n.reply(Some(Ok(a.reply))), Outcome::Attached { .. }));
    // Insisting on a new one fails.
    let (mut n, request) = Negotiation::start(Some("work".to_string()), true);
    let reply = d.handle(request).reply;
    match n.reply(Some(Ok(reply))) {
        Outcome::Failed { message } => {
            assert_eq!(message, "session name already exists: work");
        }
        other => panic!("unexpected outcome {other:?}"),
    }
}

#[test]
fn listing_survives_the_wire() {
    let mut d = Daemon::new();
    let id = create(&mut d, "work");
    create(&mut d, "");
    d.observe(id, Some(running(1234)), false, false);
    let reply = d.handle(Frame::ListSessions).reply;
    let mut codec = FrameCodec;
    let mut buf = BytesMut::new();
    codec.encode(reply.clone(), &mut buf).unwrap();
    assert_eq!(codec.decode(&mut buf).unwrap().unwrap(), reply);
    assert!(buf.is_empty());
}
