//! Client, daemon and session together, with the codec between them.

use bytes::BytesMut;
use gritty::client::{ClientAction, ClientEvent, ClientRelay};
use gritty::connect::local_socket_path;
use gritty::daemon::{Action, Daemon};
use gritty::protocol::{Frame, FrameCodec};
use gritty::server::{Session, SessionAction, SessionEvent};

/// The frame as it comes out at the other end.
fn over_the_wire(frame: Frame) -> Frame {
    let mut buf = BytesMut::new();
    FrameCodec.encode(frame, &mut buf).unwrap();
    let got = FrameCodec.decode(&mut buf).unwrap().unwrap();
    assert!(buf.is_empty());
    got
}

fn attached() -> (ClientRelay, Session) {
    let mut s = Session::new();
    s.step(SessionEvent::ClientArrived, 0);
    (ClientRelay::new(false, 0), s)
}

#[test]
fn keys_reach_the_shell() {
    let (mut c, mut s) = attached();
    let action = c.step(ClientEvent::Keys { data: b"echo hi\n".to_vec() }, 0);
    let frame = match action {
        ClientAction::Typed { frame: Some(frame), help: false, detach: false } => frame,
        other => panic!("unexpected action {other:?}"),
    };
    match s.step(SessionEvent::ClientFrame { frame: over_the_wire(frame) }, 0) {
        SessionAction::WritePty { data } => assert_eq!(&data[..], b"echo hi\n"),
        other => panic!("unexpected action {other:?}"),
    }
}

#[test]
fn output_reaches_the_terminal() {
    let (mut c, mut s) = attached();
    let frame = match s.step(SessionEvent::PtyOutput { data: vec![0, 255, 10] }, 0) {
        SessionAction::Send { frame } => frame,
        other => panic!("unexpected action {other:?}"),
    };
    match c.step(ClientEvent::Server { frame: over_the_wire(frame) }, 0) {
        ClientAction::Print { data } => assert_eq!(&data[..], [0, 255, 10]),
        other => panic!("unexpected action {other:?}"),
    }
}

#[test]
fn heartbeat_comes_back() {
    let (mut c, mut s) = attached();
    let ping = match c.step(ClientEvent::Tick, 5_000) {
        ClientAction::Send { frame } => frame,
        other => panic!("unexpected action {other:?}"),
    };
    let pong = match s.step(SessionEvent::ClientFrame { frame: over_the_wire(ping) }, 77) {
        SessionAction::Send { frame } => frame,
        other => panic!("unexpected action {other:?}"),
    };
    assert_eq!(s.last_heartbeat, 77);
    c.step(ClientEvent::Server { frame: over_the_wire(pong) }, 5_100);
    assert_eq!(c.last_pong, 5_100);
}

#[test]
fn exit_code_reaches_the_client() {
    let (mut c, mut s) = attached();
    let code = match s.step(SessionEvent::ShellExited { code: Some(-7) }, 0) {
        SessionAction::Finish { code } => code,
        other => panic!("unexpected action {other:?}"),
    };
    let frame = over_the_wire(Frame::Exit { code });
    let action = c.step(ClientEvent::Server { frame }, 0);
    assert!(matches!(action, ClientAction::Exit { code: -7 }));
}

#[test]
fn exit_code_reaches_the_client_when_the_terminal_ends_first() {
    let (mut c, mut s) = attached();
    let ended = SessionEvent::PtyFailed { hangup: true };
    assert!(matches!(s.step(ended, 0), SessionAction::AwaitShell { ms: 1_000 }));
    let code = match s.step(SessionEvent::ShellExited { code: Some(42) }, 0) {
        SessionAction::Finish { code } => code,
        other => panic!("unexpected action {other:?}"),
    };
    let frame = over_the_wire(Frame::Exit { code });
    let action = c.step(ClientEvent::Server { frame }, 0);
    assert!(matches!(action, ClientAction::Exit { code: 42 }));
}

#[test]
fn takeover_ends_the_old_client() {
    let (mut c, mut s) = attached();
    let farewell = match s.step(SessionEvent::ClientArrived, 0) {
        SessionAction::TakeOver { farewell } => farewell,
        other => panic!("unexpected action {other:?}"),
    };
    let action = c.step(ClientEvent::Server { frame: over_the_wire(farewell) }, 0);
    assert!(matches!(action, ClientAction::Exit { code: 0 }));
}

#[test]
fn a_refused_request_keeps_live_sessions() {
    let mut d = Daemon::new();
    for name in ["a", "b", "c"] {
        d.handle(over_the_wire(Frame::NewSession { name: name.to_string() }));
    }
    d.observe(1, None, true, false);
    for frame in [
        Frame::NewSession { name: "a".to_string() },
        Frame::Attach { session: "b".to_string() },
        Frame::KillSession { session: "zzz".to_string() },
        Frame::Pong,
    ] {
        let answer = d.handle(over_the_wire(frame));
        assert!(matches!(answer.reply, Frame::Error { .. }));
        assert_eq!(answer.action, Action::Nothing);
        assert!(d.contains(0) && d.contains(2));
        assert_eq!(d.next_id(), 3);
    }
    assert!(!d.contains(1), "what has ended is cleared away");
}

#[test]
fn processes_do_not_share_tunnel_sockets() {
    let a = local_socket_path(Some("/run/user/1"), 1, 12);
    let b = local_socket_path(Some("/run/user/1"), 1, 123);
    assert_ne!(a, b);
}
