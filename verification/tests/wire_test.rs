//! The codec in its corners: exact bytes, every error, and bytes that arrive in pieces.

use bytes::{Bytes, BytesMut};
use gritty::errors::ErrorKind;
use gritty::protocol::{Frame, FrameCodec, ProtocolError, SessionEntry, MAX_FRAME_SIZE};

fn bytes_of(frame: Frame) -> Vec<u8> {
    let mut buf = BytesMut::new();
    FrameCodec.encode(frame, &mut buf).unwrap();
    buf.to_vec()
}

fn decode(bytes: &[u8]) -> (Result<Option<Frame>, ProtocolError>, Vec<u8>) {
    let mut buf = BytesMut::from(bytes);
    let r = FrameCodec.decode(&mut buf);
    (r, buf.to_vec())
}

fn text_frame(ty: u8, text: &str) -> Vec<u8> {
    let mut v = vec![ty];
    v.extend_from_slice(&(text.len() as u32).to_be_bytes());
    v.extend_from_slice(text.as_bytes());
    v
}

fn var(k: &str, v: &str) -> (String, String) {
    (k.to_string(), v.to_string())
}

fn entry(id: &str, name: &str) -> SessionEntry {
    SessionEntry {
        id: id.to_string(),
        name: name.to_string(),
        pty_path: "/dev/pts/9".to_string(),
        shell_pid: u32::MAX,
        created_at: u64::MAX,
        attached: true,
        last_heartbeat: 10,
    }
}

fn all_frames() -> Vec<Frame> {
    vec![
        Frame::Data(Bytes::from("hello")),
        Frame::Resize { cols: 0x1234, rows: 0xabcd },
        Frame::Exit { code: -2 },
        Frame::Exit { code: i32::MIN },
        Frame::Exit { code: i32::MAX },
        Frame::Detached,
        Frame::Ping,
        Frame::Pong,
        Frame::Env { vars: vec![] },
        Frame::Env { vars: vec![var("TERM", "xterm"), var("LANG", ""), var("", "x=y\r")] },
        Frame::NewSession { name: "w\u{f6}rk".to_string() },
        Frame::Attach { session: "a\tb\nc".to_string() },
        Frame::ListSessions,
        Frame::KillSession { session: "7".to_string() },
        Frame::KillServer,
        Frame::SessionCreated { id: "4294967295".to_string() },
        Frame::SessionInfo { sessions: vec![] },
        Frame::SessionInfo { sessions: vec![entry("1", "w\r"), entry("", "")] },
        Frame::Okay,
        Frame::Error { message: "no".to_string() },
    ]
}

#[test]
fn exact_bytes() {
    assert_eq!(bytes_of(Frame::Data(Bytes::from("hi"))), [1, 0, 0, 0, 2, 0x68, 0x69]);
    assert_eq!(
        bytes_of(Frame::Resize { cols: 0x1234, rows: 0xabcd }),
        [2, 0, 0, 0, 4, 0x12, 0x34, 0xab, 0xcd]
    );
    assert_eq!(bytes_of(Frame::Exit { code: -2 }), [3, 0, 0, 0, 4, 0xff, 0xff, 0xff, 0xfe]);
    assert_eq!(bytes_of(Frame::Detached), [4, 0, 0, 0, 0]);
    assert_eq!(bytes_of(Frame::Ping), [5, 0, 0, 0, 0]);
    assert_eq!(bytes_of(Frame::Pong), [6, 0, 0, 0, 0]);
    assert_eq!(
        bytes_of(Frame::Env { vars: vec![var("A", "b"), var("C", "")] }),
        text_frame(7, "A=b\nC=")
    );
    assert_eq!(bytes_of(Frame::NewSession { name: "n".to_string() }), text_frame(0x10, "n"));
    assert_eq!(bytes_of(Frame::Attach { session: "s".to_string() }), text_frame(0x11, "s"));
    assert_eq!(bytes_of(Frame::ListSessions), [0x12, 0, 0, 0, 0]);
    assert_eq!(bytes_of(Frame::KillSession { session: "s".to_string() }), text_frame(0x13, "s"));
    assert_eq!(bytes_of(Frame::KillServer), [0x14, 0, 0, 0, 0]);
    assert_eq!(bytes_of(Frame::SessionCreated { id: "0".to_string() }), text_frame(0x20, "0"));
    let mut e = entry("1", "n");
    e.attached = false;
    assert_eq!(
        bytes_of(Frame::SessionInfo { sessions: vec![e, entry("2", "")] }),
        text_frame(
            0x21,
            "1\tn\t/dev/pts/9\t4294967295\t18446744073709551615\t0\t10\n\
             2\t\t/dev/pts/9\t4294967295\t18446744073709551615\t1\t10"
        )
    );
    assert_eq!(bytes_of(Frame::Okay), [0x22, 0, 0, 0, 0]);
    assert_eq!(bytes_of(Frame::Error { message: "e".to_string() }), text_frame(0x23, "e"));
}

#[test]
fn ordinary_frames_have_room() {
    let buf = BytesMut::from(&b"before"[..]);
    for f in all_frames() {
        assert!(FrameCodec.has_room(&f, &buf));
    }
}

#[test]
fn encoding_appends() {
    let mut buf = BytesMut::from(&b"before"[..]);
    FrameCodec.encode(Frame::Ping, &mut buf).unwrap();
    assert_eq!(&buf[..], b"before\x05\0\0\0\0");
}

#[test]
fn every_frame_roundtrips_and_leaves_the_rest() {
    for f in all_frames() {
        let mut bytes = bytes_of(f.clone());
        bytes.extend_from_slice(b"rest");
        let (r, left) = decode(&bytes);
        assert_eq!(r.unwrap().unwrap(), f);
        assert_eq!(left, b"rest");
    }
}

#[test]
fn every_prefix_waits_and_stays() {
    for f in all_frames() {
        let bytes = bytes_of(f);
        for n in 0..bytes.len() {
            let (r, left) = decode(&bytes[..n]);
            assert!(r.unwrap().is_none());
            assert_eq!(left, &bytes[..n]);
        }
    }
}

#[test]
fn a_stream_cut_anywhere_gives_the_same_frames() {
    let frames = all_frames();
    let mut bytes = vec![];
    for f in &frames {
        bytes.extend_from_slice(&bytes_of(f.clone()));
    }
    for size in [1, 2, 3, 7, 64] {
        let mut buf = BytesMut::new();
        let mut got = vec![];
        for chunk in bytes.chunks(size) {
            buf.extend_from_slice(chunk);
            while let Some(f) = FrameCodec.decode(&mut buf).unwrap() {
                got.push(f);
            }
        }
        assert_eq!(got, frames);
        assert!(buf.is_empty());
    }
}

#[test]
fn largest_payload_is_accepted() {
    let f = Frame::Data(Bytes::from(vec![7u8; MAX_FRAME_SIZE]));
    let (r, left) = decode(&bytes_of(f.clone()));
    assert_eq!(r.unwrap().unwrap(), f);
    assert!(left.is_empty());
}

#[test]
fn larger_payload_is_refused_and_stays() {
    let bytes = bytes_of(Frame::Data(Bytes::from(vec![7u8; MAX_FRAME_SIZE + 1])));
    let (r, left) = decode(&bytes);
    let e = r.unwrap_err();
    assert_eq!(e, ProtocolError::TooLarge { len: 1_048_577 });
    assert_eq!(e.message(), "frame payload too large: 1048577 bytes (max 1048576)");
    assert_eq!(e.kind(), ErrorKind::InvalidData);
    assert_eq!(left, bytes);
    // The header alone is enough for the refusal.
    let (r, left) = decode(&[1, 0xff, 0xff, 0xff, 0xff]);
    assert_eq!(
        r.unwrap_err().message(),
        "frame payload too large: 4294967295 bytes (max 1048576)"
    );
    assert_eq!(left.len(), 5);
}

#[test]
fn wrong_sizes_are_refused_and_taken_out() {
    let (r, left) = decode(&[2, 0, 0, 0, 5, 1, 2, 3, 4, 5, 9]);
    let e = r.unwrap_err();
    assert_eq!(e, ProtocolError::ResizeSize);
    assert_eq!(e.message(), "resize frame must be 4 bytes");
    assert_eq!(left, [9]);
    let (r, left) = decode(&[3, 0, 0, 0, 0, 9]);
    let e = r.unwrap_err();
    assert_eq!(e, ProtocolError::ExitSize);
    assert_eq!(e.message(), "exit frame must be 4 bytes");
    assert_eq!(left, [9]);
}

#[test]
fn unknown_types_are_refused_and_taken_out() {
    for (ty, words) in [
        (0x00, "unknown frame type: 0x00"),
        (0x08, "unknown frame type: 0x08"),
        (0x24, "unknown frame type: 0x24"),
        (0xff, "unknown frame type: 0xff"),
    ] {
        let (r, left) = decode(&[ty, 0, 0, 0, 1, 5, 9]);
        let e = r.unwrap_err();
        assert_eq!(e, ProtocolError::UnknownType { ty });
        assert_eq!(e.message(), words);
        assert_eq!(left, [9]);
    }
}

#[test]
fn text_that_is_not_utf8_is_refused_in_every_text_frame() {
    for ty in [0x07, 0x10, 0x11, 0x13, 0x20, 0x21, 0x23] {
        let (r, left) = decode(&[ty, 0, 0, 0, 2, 0x61, 0xff, 9]);
        let e = r.unwrap_err();
        assert_eq!(e.kind(), ErrorKind::InvalidData);
        let words = String::from_utf8(vec![0x61, 0xff]).unwrap_err().to_string();
        assert_eq!(e.message(), words);
        assert_eq!(left, [9]);
    }
}

#[test]
fn payload_of_empty_frames_is_ignored() {
    for (ty, f) in [
        (4, Frame::Detached),
        (5, Frame::Ping),
        (6, Frame::Pong),
        (0x12, Frame::ListSessions),
        (0x14, Frame::KillServer),
        (0x22, Frame::Okay),
    ] {
        let (r, left) = decode(&[ty, 0, 0, 0, 2, 1, 2]);
        assert_eq!(r.unwrap().unwrap(), f);
        assert!(left.is_empty());
    }
}

#[test]
fn variables_are_read_line_by_line() {
    let (r, _) = decode(&text_frame(7, "A=1\r\nnothing\nB=2=3\n\n=x\nC=4\r"));
    assert_eq!(
        r.unwrap().unwrap(),
        Frame::Env { vars: vec![var("A", "1"), var("B", "2=3"), var("", "x"), var("C", "4\r")] }
    );
}

#[test]
fn sessions_are_read_line_by_line() {
    let (r, _) = decode(&text_frame(
        0x21,
        "1\tn\tp\t5\t6\t1\t7\r\nfew\tfields\n2\t\t\tx\t+6\tyes\t18446744073709551616\n",
    ));
    let sessions = match r.unwrap().unwrap() {
        Frame::SessionInfo { sessions } => sessions,
        other => panic!("expected SessionInfo, got {other:?}"),
    };
    assert_eq!(sessions.len(), 2);
    assert_eq!(
        sessions[0],
        SessionEntry {
            id: "1".to_string(),
            name: "n".to_string(),
            pty_path: "p".to_string(),
            shell_pid: 5,
            created_at: 6,
            attached: true,
            last_heartbeat: 7,
        }
    );
    assert_eq!(sessions[1].shell_pid, 0, "what is no number counts as zero");
    assert_eq!(sessions[1].created_at, 6, "a plus sign is allowed");
    assert!(!sessions[1].attached);
    assert_eq!(sessions[1].last_heartbeat, 0, "too large a number counts as zero");
}

#[test]
fn expect_from_words() {
    assert_eq!(Frame::expect_from(Some(Ok(Frame::Ping))), Ok(Frame::Ping));
    assert_eq!(
        Frame::expect_from(Some(Err("broken".to_string()))),
        Err("daemon protocol error: broken".to_string())
    );
    assert_eq!(Frame::expect_from(None), Err("daemon closed connection".to_string()));
}

#[test]
fn data_can_be_shared() {
    let f = Frame::Data(Bytes::from("shared"));
    let g = f.clone();
    assert_eq!(bytes_of(f), bytes_of(g));
}
