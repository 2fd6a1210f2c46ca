//! A session and its clients.

use bytes::Bytes;
use gritty::protocol::Frame;
use gritty::server::{
    shell_plan, startup, FirstFrame, Phase, Session, SessionAction, SessionEvent, SessionMetadata,
};

fn relaying() -> Session {
    let mut s = Session::new();
    assert!(matches!(s.step(SessionEvent::ClientArrived, 1), SessionAction::Adopt));
    assert!(s.attached());
    s
}

fn frame(f: Frame) -> SessionEvent {
    SessionEvent::ClientFrame { frame: f }
}

#[test]
fn keys_go_to_the_terminal_and_output_to_the_client() {
    let mut s = relaying();
    match s.step(frame(Frame::Data(Bytes::from("ls\n"))), 2) {
        SessionAction::WritePty { data } => assert_eq!(&data[..], b"ls\n"),
        other => panic!("unexpected action {other:?}"),
    }
    match s.step(SessionEvent::PtyOutput { data: b"out".to_vec() }, 3) {
        SessionAction::Send { frame } => assert_eq!(frame, Frame::Data(Bytes::from("out"))),
        other => panic!("unexpected action {other:?}"),
    }
    match s.step(frame(Frame::Resize { cols: 132, rows: 43 }), 4) {
        SessionAction::SetSize { cols, rows } => assert_eq!((cols, rows), (132, 43)),
        other => panic!("unexpected action {other:?}"),
    }
    assert_eq!(s.last_heartbeat, 0);
}

#[test]
fn sizes_are_clamped() {
    let mut s = relaying();
    match s.step(frame(Frame::Resize { cols: 0, rows: 65535 }), 4) {
        SessionAction::SetSize { cols, rows } => assert_eq!((cols, rows), (1, 10_000)),
        other => panic!("unexpected action {other:?}"),
    }
}

#[test]
fn metadata_follows_the_session() {
    let known = SessionMetadata {
        pty_path: "/dev/pts/3".to_string(),
        shell_pid: 77,
        created_at: 5,
        attached: false,
        last_heartbeat: 0,
    };
    let mut s = relaying();
    s.step(frame(Frame::Ping), 99);
    let m = s.refresh(known.clone());
    assert!(m.attached);
    assert_eq!(m.last_heartbeat, 99);
    s.step(SessionEvent::ClientClosed, 100);
    let m = s.refresh(m);
    assert!(!m.attached);
    s.step(SessionEvent::ClientArrived, 101);
    let m = s.refresh(m);
    assert_eq!(m, SessionMetadata { attached: true, last_heartbeat: 99, ..known });
}

#[test]
fn reconnect_preserves_session() {
    let mut s = relaying();
    for _ in 0..10 {
        assert!(matches!(s.step(SessionEvent::ClientClosed, 2), SessionAction::DropClient));
        assert!(!s.attached());
        assert!(matches!(s.step(SessionEvent::ClientArrived, 3), SessionAction::Adopt));
        assert!(s.attached());
    }
}

#[test]
fn a_broken_connection_is_like_closing() {
    for event in [
        SessionEvent::ClientFailed { invalid: false },
        SessionEvent::SendFailed,
        SessionEvent::ClientClosed,
    ] {
        let mut s = relaying();
        assert!(matches!(s.step(event, 2), SessionAction::DropClient));
        assert_eq!(s.phase, Phase::Waiting);
    }
}

#[test]
fn explicit_exit_is_like_closing() {
    let mut s = relaying();
    assert!(matches!(s.step(frame(Frame::Exit { code: 3 }), 2), SessionAction::DropClient));
    assert_eq!(s.phase, Phase::Waiting);
}

#[test]
fn second_client_takes_over() {
    let mut s = relaying();
    match s.step(SessionEvent::ClientArrived, 2) {
        SessionAction::TakeOver { farewell } => assert_eq!(farewell, Frame::Detached),
        other => panic!("unexpected action {other:?}"),
    }
    assert!(s.attached());
}

#[test]
fn control_frames_are_ignored() {
    let mut s = relaying();
    for f in [
        Frame::ListSessions,
        Frame::KillServer,
        Frame::NewSession { name: "bogus".to_string() },
        Frame::Env { vars: vec![] },
        Frame::Detached,
        Frame::Pong,
        Frame::Okay,
    ] {
        assert!(matches!(s.step(frame(f), 2), SessionAction::Nothing));
    }
    assert_eq!(s.phase, Phase::Relaying);
}

#[test]
fn ping_is_answered_and_noted() {
    let mut s = relaying();
    match s.step(frame(Frame::Ping), 1_700_000_000) {
        SessionAction::Send { frame } => assert_eq!(frame, Frame::Pong),
        other => panic!("unexpected action {other:?}"),
    }
    assert_eq!(s.last_heartbeat, 1_700_000_000);
}

#[test]
fn shell_exit_is_reported() {
    for (event, expected) in [
        (SessionEvent::ShellExited { code: Some(42) }, 42),
        (SessionEvent::ShellExited { code: Some(0) }, 0),
        (SessionEvent::ShellExited { code: None }, 1),
    ] {
        let mut s = relaying();
        match s.step(event, 2) {
            SessionAction::Finish { code } => assert_eq!(code, expected),
            other => panic!("unexpected action {other:?}"),
        }
        assert_eq!(s.phase, Phase::Over);
        assert!(matches!(s.step(SessionEvent::ClientArrived, 3), SessionAction::Nothing));
    }
}

#[test]
fn shell_is_awaited_when_the_terminal_ends_first() {
    for ended in
        [SessionEvent::PtyOutput { data: vec![] }, SessionEvent::PtyFailed { hangup: true }]
    {
        let mut s = relaying();
        assert!(matches!(s.step(ended, 2), SessionAction::AwaitShell { ms: 1_000 }));
        assert_eq!(s.phase, Phase::Closing);
        assert!(s.attached());
        assert!(matches!(s.step(SessionEvent::ClientClosed, 3), SessionAction::Nothing));
        match s.step(SessionEvent::ShellExited { code: Some(42) }, 4) {
            SessionAction::Finish { code } => assert_eq!(code, 42),
            other => panic!("unexpected action {other:?}"),
        }
        assert_eq!(s.phase, Phase::Over);
        assert!(!s.attached());
    }
}

#[test]
fn session_ends_when_the_shell_outlives_its_terminal() {
    let mut s = relaying();
    s.step(SessionEvent::PtyFailed { hangup: true }, 2);
    match s.step(SessionEvent::WaitExpired, 3) {
        SessionAction::Finish { code } => assert_eq!(code, 0),
        other => panic!("unexpected action {other:?}"),
    }
    assert_eq!(s.phase, Phase::Over);
    // Elsewhere it means nothing.
    let mut s = relaying();
    assert!(matches!(s.step(SessionEvent::WaitExpired, 3), SessionAction::Nothing));
    let mut s = Session::new();
    assert!(matches!(s.step(SessionEvent::WaitExpired, 3), SessionAction::Nothing));
    assert_eq!(s.phase, Phase::Waiting);
}

#[test]
fn output_waits_for_a_client() {
    let mut s = Session::new();
    assert!(!s.reads_terminal());
    s.step(SessionEvent::ClientArrived, 1);
    assert!(s.reads_terminal());
    s.step(SessionEvent::ClientClosed, 2);
    assert!(!s.reads_terminal());
    s.step(SessionEvent::ClientArrived, 3);
    assert!(s.reads_terminal());
    s.step(SessionEvent::PtyFailed { hangup: true }, 4);
    assert!(!s.reads_terminal());
}

#[test]
fn shell_exit_without_a_client_ends_the_session() {
    let mut s = Session::new();
    let gone = SessionEvent::ShellExited { code: Some(5) };
    assert!(matches!(s.step(gone, 2), SessionAction::End));
    assert_eq!(s.phase, Phase::Over);
}

#[test]
fn failures_end_the_session() {
    let mut s = relaying();
    let nonsense = SessionEvent::ClientFailed { invalid: true };
    assert!(matches!(s.step(nonsense, 2), SessionAction::Fail));
    assert_eq!(s.phase, Phase::Over);
    let mut s = relaying();
    let broken = SessionEvent::PtyFailed { hangup: false };
    assert!(matches!(s.step(broken, 2), SessionAction::Fail));
    assert_eq!(s.phase, Phase::Over);
}

#[test]
fn first_frame_decides_the_environment() {
    let vars = vec![("TERM".to_string(), "xterm-test-42".to_string())];
    let s = startup(FirstFrame::Frame { frame: Frame::Env { vars: vars.clone() } });
    assert_eq!(s.vars, vars);
    assert!(s.pending.is_none());
    let s = startup(FirstFrame::Frame { frame: Frame::Resize { cols: 80, rows: 24 } });
    assert!(s.vars.is_empty());
    match s.pending {
        Some(SessionEvent::ClientFrame { frame }) => {
            assert_eq!(frame, Frame::Resize { cols: 80, rows: 24 });
        }
        other => panic!("unexpected pending event {other:?}"),
    }
    let s = startup(FirstFrame::Closed);
    assert!(matches!(s.pending, Some(SessionEvent::ClientClosed)));
    let s = startup(FirstFrame::Failed { invalid: true });
    assert!(matches!(s.pending, Some(SessionEvent::ClientFailed { invalid: true })));
    let s = startup(FirstFrame::TimedOut);
    assert!(s.vars.is_empty() && s.pending.is_none());
}

#[test]
fn shell_is_a_login_shell_at_home() {
    let p = shell_plan(Some("/usr/bin/zsh".to_string()), Some("/home/u".to_string()));
    assert_eq!(p.program, "/usr/bin/zsh");
    assert_eq!(p.arg0, "-zsh");
    assert_eq!(p.dir.as_deref(), Some("/home/u"));
    let p = shell_plan(None, None);
    assert_eq!(p.program, "/bin/sh");
    assert_eq!(p.arg0, "-sh");
    assert_eq!(p.dir, None);
    assert_eq!(shell_plan(Some("fish".to_string()), None).arg0, "-fish");
}
