//! The client: keyboard, server, clock and reconnecting.

use bytes::Bytes;
use gritty::client::{
    forwarded_env, reconnect, relay_opening, ClientAction, ClientEvent, ClientRelay, Entry,
    EscapeReader, ReconnectAction, ReconnectEvent, StdoutWrite, WriteAction, WriteEvent,
};
use gritty::collect_env_vars;
use gritty::protocol::Frame;

fn keys(data: &[u8]) -> ClientEvent {
    ClientEvent::Keys { data: data.to_vec() }
}

fn typed(c: &mut ClientRelay, data: &[u8]) -> (Option<Frame>, bool, bool) {
    match c.step(keys(data), 0) {
        ClientAction::Typed { frame, help, detach } => (frame, help, detach),
        other => panic!("unexpected action {other:?}"),
    }
}

fn data(s: &'static str) -> Option<Frame> {
    Some(Frame::Data(Bytes::from(s)))
}

#[test]
fn plain_keys_are_sent() {
    let mut c = ClientRelay::new(false, 0);
    assert_eq!(typed(&mut c, b"ls\n"), (data("ls\n"), false, false));
}

#[test]
fn detach_sequence() {
    let mut c = ClientRelay::new(false, 0);
    assert_eq!(typed(&mut c, b"ab~.cd"), (data("ab"), false, true));
    let mut c = ClientRelay::new(false, 0);
    assert_eq!(typed(&mut c, b"~."), (None, false, true));
}

#[test]
fn sequences_may_be_cut() {
    let mut c = ClientRelay::new(false, 0);
    assert_eq!(typed(&mut c, b"a~"), (data("a"), false, false));
    assert_eq!(typed(&mut c, b"."), (None, false, true));
    let mut c = ClientRelay::new(false, 0);
    assert_eq!(typed(&mut c, b"~"), (None, false, false));
    assert_eq!(typed(&mut c, b"x"), (data("~x"), false, false));
}

#[test]
fn help_sequence() {
    let mut c = ClientRelay::new(false, 0);
    assert_eq!(typed(&mut c, b"a~?b~?c"), (data("abc"), true, false));
    assert_eq!(typed(&mut c, b"d"), (data("d"), false, false));
}

#[test]
fn other_sequences_pass() {
    let mut c = ClientRelay::new(false, 0);
    assert_eq!(typed(&mut c, b"cd ~/x ~~. y"), (data("cd ~/x ~~. y"), false, false));
}

#[test]
fn escapes_can_be_off() {
    let mut c = ClientRelay::new(true, 0);
    assert_eq!(typed(&mut c, b"~.~?~"), (data("~.~?~"), false, false));
    assert_eq!(typed(&mut c, b"."), (data("."), false, false));
    let mut r = EscapeReader::new(false);
    let t = r.read(b"~.");
    assert_eq!(t.forward, b"~.");
    assert!(!t.detach);
}

#[test]
fn end_of_keyboard_exits() {
    let mut c = ClientRelay::new(false, 0);
    assert!(matches!(c.step(keys(b""), 0), ClientAction::Exit { code: 0 }));
    assert!(matches!(c.step(ClientEvent::KeysFailed, 0), ClientAction::Fail));
}

#[test]
fn frames_of_the_server() {
    let mut c = ClientRelay::new(false, 0);
    match c.step(ClientEvent::Server { frame: Frame::Data(Bytes::from("out")) }, 0) {
        ClientAction::Print { data } => assert_eq!(&data[..], b"out"),
        other => panic!("unexpected action {other:?}"),
    }
    let exit = ClientEvent::Server { frame: Frame::Exit { code: 42 } };
    assert!(matches!(c.step(exit, 0), ClientAction::Exit { code: 42 }));
    let detached = ClientEvent::Server { frame: Frame::Detached };
    assert!(matches!(c.step(detached, 0), ClientAction::Exit { code: 0 }));
    let other = ClientEvent::Server { frame: Frame::Okay };
    assert!(matches!(c.step(other, 0), ClientAction::Nothing));
}

#[test]
fn lost_connections_reconnect() {
    let mut c = ClientRelay::new(false, 0);
    assert!(matches!(c.step(ClientEvent::ServerLost, 0), ClientAction::Reconnect));
    assert!(matches!(c.step(ClientEvent::SendFailed, 0), ClientAction::Reconnect));
}

#[test]
fn new_sizes_are_sent() {
    let mut c = ClientRelay::new(false, 0);
    match c.step(ClientEvent::Resized { cols: 100, rows: 50 }, 0) {
        ClientAction::Send { frame } => assert_eq!(frame, Frame::Resize { cols: 100, rows: 50 }),
        other => panic!("unexpected action {other:?}"),
    }
}

#[test]
fn heartbeat_notices_silence() {
    let mut c = ClientRelay::new(false, 1_000);
    for now in [6_000, 11_000, 16_000] {
        match c.step(ClientEvent::Tick, now) {
            ClientAction::Send { frame } => assert_eq!(frame, Frame::Ping),
            other => panic!("unexpected action {other:?}"),
        }
    }
    assert!(matches!(c.step(ClientEvent::Tick, 16_001), ClientAction::Reconnect));
    let pong = ClientEvent::Server { frame: Frame::Pong };
    assert!(matches!(c.step(pong, 16_001), ClientAction::Nothing));
    assert!(matches!(c.step(ClientEvent::Tick, 31_001), ClientAction::Send { .. }));
    assert!(matches!(c.step(ClientEvent::Tick, 31_002), ClientAction::Reconnect));
    // A clock that runs backwards is no silence.
    assert!(matches!(c.step(ClientEvent::Tick, 0), ClientAction::Send { .. }));
}

#[test]
fn opening_of_the_relay() {
    let vars = vec![("TERM".to_string(), "xterm".to_string())];
    let resize = Frame::Resize { cols: 80, rows: 24 };
    assert_eq!(
        relay_opening(vars.clone(), 80, 24, false),
        [Frame::Env { vars: vars.clone() }, resize.clone()]
    );
    assert_eq!(
        relay_opening(vec![], 80, 24, true),
        [resize.clone(), Frame::Data(Bytes::from("\x0c"))]
    );
    assert_eq!(relay_opening(vec![], 80, 24, false), [resize]);
}

#[test]
fn only_new_sessions_get_the_environment() {
    let vars = vec![("TERM".to_string(), "xterm".to_string())];
    assert_eq!(forwarded_env(Entry::Created, vars.clone()), vars);
    assert!(forwarded_env(Entry::Attached, vars).is_empty());
}

#[test]
fn reconnecting_goes_on_until_attached() {
    let retry = ReconnectAction::RetryAfter { ms: 1_000 };
    assert_eq!(reconnect(ReconnectEvent::ConnectFailed), retry);
    assert_eq!(reconnect(ReconnectEvent::Replied { result: None }), retry);
    let failed = ReconnectEvent::Replied { result: Some(Err("x".to_string())) };
    assert_eq!(reconnect(failed), retry);
    let refused = Frame::Error { message: "no such session: 1".to_string() };
    assert_eq!(reconnect(ReconnectEvent::Replied { result: Some(Ok(refused)) }), retry);
    assert_eq!(
        reconnect(ReconnectEvent::Replied { result: Some(Ok(Frame::Okay)) }),
        ReconnectAction::Resume
    );
}

#[test]
fn reconnecting_can_be_interrupted() {
    assert_eq!(
        reconnect(ReconnectEvent::Keys { data: vec![0x61, 0x03] }),
        ReconnectAction::Exit { code: 130 }
    );
    assert_eq!(
        reconnect(ReconnectEvent::Keys { data: vec![0x61] }),
        ReconnectAction::KeepTrying
    );
}

#[test]
fn writing_goes_on_behind_what_was_taken() {
    let (mut w, a) = StdoutWrite::start(10);
    assert_eq!(a, WriteAction::Write { from: 0 });
    assert_eq!(w.step(WriteEvent::Wrote { n: 4 }), WriteAction::Write { from: 4 });
    assert_eq!(w.step(WriteEvent::WouldBlock), WriteAction::YieldAndWrite { from: 4 });
    assert_eq!(w.step(WriteEvent::Interrupted), WriteAction::Write { from: 4 });
    assert_eq!(w.step(WriteEvent::Failed), WriteAction::Fail);
    assert_eq!(w.step(WriteEvent::Wrote { n: 6 }), WriteAction::Flush);
    assert_eq!(StdoutWrite::start(0).1, WriteAction::Flush);
}

#[test]
fn environment_to_forward() {
    let s = |t: &str| Some(t.to_string());
    assert_eq!(
        collect_env_vars(s("xterm"), s("C"), s("truecolor")),
        vec![
            ("TERM".to_string(), "xterm".to_string()),
            ("LANG".to_string(), "C".to_string()),
            ("COLORTERM".to_string(), "truecolor".to_string()),
        ]
    );
    assert_eq!(
        collect_env_vars(None, s("C"), None),
        vec![("LANG".to_string(), "C".to_string())]
    );
    assert!(collect_env_vars(None, None, None).is_empty());
}
