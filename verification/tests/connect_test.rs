//! Destinations, SSH commands, the tunnel and the talk with the daemon.

use gritty::client::Entry;
use gritty::connect::{
    local_socket_path, read_remote_output, read_remote_texts, remote_command,
    remote_ready_command, remote_socket, timeout_message, tunnel_command, ConnectOpts, Destination,
    SocketWait, StreamMode, WaitStep,
};
use gritty::daemon::{control_socket_path, socket_dir};
use gritty::negotiation::{Negotiation, Outcome};
use gritty::paths::{file_name, parent};
use gritty::protocol::Frame;
use gritty::tunnel::{EndReason, TunnelAction, TunnelEvent, TunnelExit, TunnelMonitor};

fn as_text(bytes: Vec<u8>) -> String {
    String::from_utf8(bytes).unwrap()
}

#[test]
fn parse_destination_user_host() {
    let d = Destination::parse("user@host").unwrap();
    assert_eq!(d.user.as_deref(), Some("user"));
    assert_eq!(d.host, "host");
    assert_eq!(d.port, None);
}

#[test]
fn parse_destination_host_only() {
    let d = Destination::parse("myhost").unwrap();
    assert_eq!(d.user, None);
    assert_eq!(d.host, "myhost");
    assert_eq!(d.port, None);
}

#[test]
fn parse_destination_host_port() {
    let d = Destination::parse("host:2222").unwrap();
    assert_eq!(d.user, None);
    assert_eq!(d.host, "host");
    assert_eq!(d.port, Some(2222));
}

#[test]
fn parse_destination_user_host_port() {
    let d = Destination::parse("user@host:2222").unwrap();
    assert_eq!(d.user.as_deref(), Some("user"));
    assert_eq!(d.host, "host");
    assert_eq!(d.port, Some(2222));
}

#[test]
fn parse_destination_invalid_empty() {
    assert!(Destination::parse("").is_err());
}

#[test]
fn parse_destination_invalid_at_only() {
    assert!(Destination::parse("@host").is_err());
}

#[test]
fn parse_destination_invalid_colon_only() {
    assert!(Destination::parse(":2222").is_err());
}

#[test]
fn parse_destination_error_words() {
    assert_eq!(Destination::parse("").unwrap_err(), "empty destination");
    assert_eq!(Destination::parse("@host").unwrap_err(), "empty user in destination: @host");
    assert_eq!(Destination::parse(":2222").unwrap_err(), "empty host in destination: :2222");
    assert_eq!(Destination::parse("user@").unwrap_err(), "empty host in destination: user@");
    assert_eq!(
        Destination::parse("host:http").unwrap_err(),
        "invalid port in destination: host:http"
    );
    assert_eq!(
        Destination::parse("host:65536").unwrap_err(),
        "invalid port in destination: host:65536"
    );
    assert_eq!(Destination::parse("host:").unwrap_err(), "invalid port in destination: host:");
    assert_eq!(Destination::parse("host:-1").unwrap_err(), "invalid port in destination: host:-1");
}

#[test]
fn parse_destination_splits_at_first_at_and_last_colon() {
    let d = Destination::parse("a@b@c").unwrap();
    assert_eq!(d.user.as_deref(), Some("a"));
    assert_eq!(d.host, "b@c");
    let d = Destination::parse("::1:22").unwrap();
    assert_eq!(d.host, "::1");
    assert_eq!(d.port, Some(22));
    let d = Destination::parse("host:+22").unwrap();
    assert_eq!(d.port, Some(22));
    let d = Destination::parse("host:65535").unwrap();
    assert_eq!(d.port, Some(65535));
    let d = Destination::parse("b\u{fc}ro@m\u{fc}nchen:1").unwrap();
    assert_eq!(d.user.as_deref(), Some("b\u{fc}ro"));
    assert_eq!(d.host, "m\u{fc}nchen");
}

#[test]
fn destination_roundtrip() {
    for s in ["user@host:2222", "host", "alice@example.com", "host:1"] {
        let d = Destination::parse(s).unwrap();
        let mut written = d.ssh_dest();
        if let Some(p) = d.port {
            written = format!("{written}:{p}");
        }
        assert_eq!(written, s);
        assert_eq!(Destination::parse(&written).unwrap(), d);
    }
}

#[test]
fn tunnel_command_default_opts() {
    let dest = Destination::parse("user@host").unwrap();
    let cmd = tunnel_command(&dest, b"/tmp/local.sock", "/run/user/1000/gritty/ctl.sock", &[]);
    let args = cmd.args;
    assert!(args.contains(&"ServerAliveInterval=3".to_string()));
    assert!(args.contains(&"StreamLocalBindUnlink=yes".to_string()));
    assert!(args.contains(&"ExitOnForwardFailure=yes".to_string()));
    assert!(args.contains(&"ConnectTimeout=5".to_string()));
    assert!(args.contains(&"-N".to_string()));
    assert!(args.contains(&"-T".to_string()));
    assert!(args.contains(&"/tmp/local.sock:/run/user/1000/gritty/ctl.sock".to_string()));
    assert!(args.contains(&"user@host".to_string()));
}

#[test]
fn tunnel_command_extra_opts() {
    let dest = Destination::parse("host:2222").unwrap();
    let cmd = tunnel_command(
        &dest,
        b"/tmp/local.sock",
        "/tmp/remote.sock",
        &["ProxyJump=bastion".to_string()],
    );
    let args = cmd.args;
    assert!(args.contains(&"ProxyJump=bastion".to_string()));
    assert!(args.contains(&"-p".to_string()));
    assert!(args.contains(&"2222".to_string()));
}

#[test]
fn tunnel_command_exact_order() {
    let dest = Destination::parse("user@host:2222").unwrap();
    let cmd = tunnel_command(&dest, b"/l", "/r", &["A=1".to_string(), "B=2".to_string()]);
    let expected = [
        "-p",
        "2222",
        "-o",
        "ServerAliveInterval=3",
        "-o",
        "ServerAliveCountMax=2",
        "-o",
        "StreamLocalBindUnlink=yes",
        "-o",
        "ExitOnForwardFailure=yes",
        "-o",
        "ConnectTimeout=5",
        "-N",
        "-T",
        "-o",
        "A=1",
        "-o",
        "B=2",
        "-L",
        "/l:/r",
        "user@host",
    ];
    assert_eq!(cmd.args, expected);
    assert_eq!(cmd.stdin, StreamMode::Null);
    assert_eq!(cmd.stdout, StreamMode::Null);
    assert_eq!(cmd.stderr, StreamMode::Piped);
}

#[test]
fn tunnel_command_replaces_what_is_not_utf8() {
    let dest = Destination::parse("host").unwrap();
    let cmd = tunnel_command(&dest, &[0x2f, 0xff], "/r", &[]);
    assert!(cmd.args.contains(&"/\u{fffd}:/r".to_string()));
    let cmd = tunnel_command(&dest, "/\u{fc}".as_bytes(), "/r", &[]);
    assert_eq!(cmd.args[cmd.args.len() - 2], "/\u{fc}:/r");
}

#[test]
fn remote_command_exact_order() {
    let dest = Destination::parse("host:9").unwrap();
    let cmd = remote_command(&dest, "gritty ls", &["A=1".to_string()]);
    assert_eq!(
        cmd.args,
        ["-p", "9", "-o", "A=1", "-o", "ConnectTimeout=5", "host", "gritty ls"]
    );
    assert_eq!(cmd.stdin, StreamMode::Null);
    assert_eq!(cmd.stdout, StreamMode::Piped);
    assert_eq!(cmd.stderr, StreamMode::Piped);
}

#[test]
fn remote_output_is_trimmed() {
    assert_eq!(read_remote_texts(true, " \t/run/x.sock\r\n\n", "noise").unwrap(), "/run/x.sock");
    assert_eq!(read_remote_output(true, b"/run/x.sock\n", b"").unwrap(), "/run/x.sock");
    assert_eq!(read_remote_output(true, &[0x61, 0xff, 0x0a], b"").unwrap(), "a\u{fffd}");
    assert_eq!(read_remote_texts(true, "\u{a0}\u{3000} \n", "").unwrap(), "");
}

#[test]
fn remote_failure_words() {
    let missing = "gritty not found on remote host (is it in PATH?)";
    assert_eq!(
        read_remote_output(false, b"", b"bash: gritty: command not found\n").unwrap_err(),
        missing
    );
    assert_eq!(
        read_remote_texts(false, "", "sh: gritty: No such file or directory").unwrap_err(),
        missing
    );
    assert_eq!(
        read_remote_output(false, b"out", b"  Permission denied (publickey).\n").unwrap_err(),
        "ssh command failed: Permission denied (publickey)."
    );
    assert_eq!(read_remote_texts(false, "", "").unwrap_err(), "ssh command failed: ");
}

#[test]
fn remote_commands_and_socket() {
    assert_eq!(remote_ready_command(true), "gritty socket-path");
    assert_eq!(
        remote_ready_command(false),
        "SOCK=$(gritty socket-path) && \
         (gritty ls >/dev/null 2>&1 || \
         { nohup gritty daemon </dev/null >/dev/null 2>&1 & sleep 0.5; }) && \
         echo \"$SOCK\""
    );
    assert_eq!(remote_socket("/run/x".to_string()).unwrap(), "/run/x");
    assert_eq!(
        remote_socket(String::new()).unwrap_err(),
        "remote host returned empty socket path"
    );
    let mut opts = ConnectOpts {
        destination: "host".to_string(),
        target: None,
        force_new: false,
        list: true,
        no_redraw: false,
        no_escape: false,
        no_daemon_start: true,
        ssh_options: vec![],
    };
    assert_eq!(opts.first_command(), "gritty ls");
    opts.list = false;
    assert_eq!(opts.first_command(), "gritty socket-path");
}

#[test]
fn local_socket_path_format() {
    let path = local_socket_path(Some("/run/user/1000"), 1000, 4242);
    let filename = as_text(file_name(&path).unwrap());
    assert!(filename.starts_with("connect-"));
    assert!(filename.ends_with(".sock"));
    // Parent should be a gritty directory
    let dir = as_text(file_name(&parent(&path).unwrap()).unwrap());
    assert!(dir.contains("gritty"));
    assert_eq!(as_text(path), "/run/user/1000/gritty/connect-4242.sock");
    let path = local_socket_path(None, 1000, 7);
    let dir = as_text(file_name(&parent(&path).unwrap()).unwrap());
    assert!(dir.contains("gritty"));
    assert_eq!(as_text(path), "/tmp/gritty-1000/connect-7.sock");
}

#[test]
fn socket_paths() {
    assert_eq!(as_text(socket_dir(Some("/run/user/5"), 5)), "/run/user/5/gritty");
    assert_eq!(as_text(socket_dir(Some("/run/user/5/"), 5)), "/run/user/5/gritty");
    assert_eq!(as_text(socket_dir(Some(""), 5)), "gritty");
    assert_eq!(as_text(socket_dir(None, 0)), "/tmp/gritty-0");
    assert_eq!(as_text(control_socket_path(None, 501)), "/tmp/gritty-501/ctl.sock");
    assert_eq!(
        as_text(control_socket_path(Some("/run/user/5"), 5)),
        "/run/user/5/gritty/ctl.sock"
    );
}

#[test]
fn ssh_dest_with_user() {
    let d = Destination::parse("alice@example.com").unwrap();
    assert_eq!(d.ssh_dest(), "alice@example.com");
}

#[test]
fn ssh_dest_without_user() {
    let d = Destination::parse("example.com").unwrap();
    assert_eq!(d.ssh_dest(), "example.com");
}

#[test]
fn port_args_with_port() {
    let d = Destination::parse("host:9999").unwrap();
    assert_eq!(d.port_args(), vec!["-p", "9999"]);
}

#[test]
fn port_args_without_port() {
    let d = Destination::parse("host").unwrap();
    assert!(d.port_args().is_empty());
}

#[test]
fn socket_wait_polls_until_the_deadline() {
    let w = SocketWait::start(1_000);
    assert_eq!(w.step(false, 1_000), WaitStep::Sleep { ms: 200 });
    assert_eq!(w.step(false, 15_999), WaitStep::Sleep { ms: 200 });
    assert_eq!(w.step(false, 16_000), WaitStep::TimedOut);
    assert_eq!(w.step(true, 16_000), WaitStep::Ready);
    assert_eq!(w.step(true, 1_000), WaitStep::Ready);
    assert_eq!(
        timeout_message(b"/tmp/x.sock"),
        "timeout waiting for SSH tunnel socket at /tmp/x.sock"
    );
}

fn exited(exit: TunnelExit, now: u64) -> TunnelEvent {
    TunnelEvent::Exited { exit, stopping: false, now }
}

const SECOND: u64 = 1_000_000_000;

#[test]
fn tunnel_is_started_again_after_connection_errors() {
    let mut m = TunnelMonitor::new();
    assert_eq!(
        m.step(exited(TunnelExit::Code { code: 255 }, SECOND)),
        TunnelAction::Pause { ms: 1_000 }
    );
    assert_eq!(m.step(TunnelEvent::Paused { stopping: false }), TunnelAction::Respawn);
    assert_eq!(m.step(TunnelEvent::Respawned { ok: true }), TunnelAction::Watch);
    assert_eq!(
        m.step(exited(TunnelExit::Signalled, 2 * SECOND)),
        TunnelAction::Pause { ms: 1_000 }
    );
}

#[test]
fn tunnel_is_left_alone_after_other_failures() {
    let mut m = TunnelMonitor::new();
    assert_eq!(
        m.step(exited(TunnelExit::Code { code: 1 }, 0)),
        TunnelAction::End { why: EndReason::NotTransient { code: 1 } }
    );
    assert_eq!(
        m.step(exited(TunnelExit::Code { code: 0 }, 0)),
        TunnelAction::End { why: EndReason::NotTransient { code: 0 } }
    );
    assert_eq!(
        m.step(exited(TunnelExit::WaitFailed, 0)),
        TunnelAction::End { why: EndReason::WaitFailed }
    );
    assert_eq!(
        m.step(TunnelEvent::Respawned { ok: false }),
        TunnelAction::End { why: EndReason::RespawnFailed }
    );
    assert!(m.exit_times.is_empty());
}

#[test]
fn tunnel_is_left_alone_when_stopped() {
    let mut m = TunnelMonitor::new();
    assert_eq!(m.step(TunnelEvent::StopRequested), TunnelAction::Kill);
    assert_eq!(
        m.step(TunnelEvent::Exited { exit: TunnelExit::Signalled, stopping: true, now: 0 }),
        TunnelAction::End { why: EndReason::Stopped }
    );
    assert_eq!(
        m.step(TunnelEvent::Paused { stopping: true }),
        TunnelAction::End { why: EndReason::Stopped }
    );
}

#[test]
fn tunnel_gives_up_on_five_exits_in_ten_seconds() {
    let mut m = TunnelMonitor::new();
    for i in 0..4 {
        assert_eq!(
            m.step(exited(TunnelExit::Signalled, i * 2 * SECOND)),
            TunnelAction::Pause { ms: 1_000 }
        );
    }
    assert_eq!(
        m.step(exited(TunnelExit::Signalled, 10 * SECOND - 1)),
        TunnelAction::End { why: EndReason::TooFast }
    );
}

#[test]
fn tunnel_forgets_exits_after_ten_seconds() {
    let mut m = TunnelMonitor::new();
    for i in 0..4 {
        m.step(exited(TunnelExit::Signalled, i * 2 * SECOND));
    }
    assert_eq!(
        m.step(exited(TunnelExit::Signalled, 10 * SECOND)),
        TunnelAction::Pause { ms: 1_000 }
    );
    assert_eq!(m.exit_times, [2 * SECOND, 4 * SECOND, 6 * SECOND, 10 * SECOND]);
}

#[test]
fn negotiation_attaches_to_what_exists() {
    let (mut n, first) = Negotiation::start(Some("work".to_string()), false);
    assert_eq!(first, Frame::Attach { session: "work".to_string() });
    let outcome = n.reply(Some(Ok(Frame::Okay)));
    assert_eq!(outcome.entry(), Some(Entry::Attached));
    match outcome {
        Outcome::Attached { label, notice } => {
            assert_eq!(label, "work");
            assert_eq!(notice, "[attached]");
        }
        other => panic!("unexpected outcome {other:?}"),
    }
}

#[test]
fn negotiation_creates_what_does_not_exist() {
    let (mut n, _) = Negotiation::start(Some("work".to_string()), false);
    let refusal = Frame::Error { message: "no such session: work".to_string() };
    match n.reply(Some(Ok(refusal))) {
        Outcome::Send { frame } => {
            assert_eq!(frame, Frame::NewSession { name: "work".to_string() });
        }
        other => panic!("unexpected outcome {other:?}"),
    }
    let outcome = n.reply(Some(Ok(Frame::SessionCreated { id: "3".to_string() })));
    assert_eq!(outcome.entry(), Some(Entry::Created));
    match outcome {
        Outcome::Created { label, notice } => {
            assert_eq!(label, "3");
            assert_eq!(notice, "session created: work (id 3)");
        }
        other => panic!("unexpected outcome {other:?}"),
    }
}

#[test]
fn negotiation_creates_when_forced_or_unnamed() {
    let (_, first) = Negotiation::start(Some("work".to_string()), true);
    assert_eq!(first, Frame::NewSession { name: "work".to_string() });
    let (mut n, first) = Negotiation::start(None, false);
    assert_eq!(first, Frame::NewSession { name: String::new() });
    match n.reply(Some(Ok(Frame::SessionCreated { id: "0".to_string() }))) {
        Outcome::Created { label, notice } => {
            assert_eq!(label, "0");
            assert_eq!(notice, "session created: id 0");
        }
        other => panic!("unexpected outcome {other:?}"),
    }
}

#[test]
fn negotiation_failures() {
    let (mut n, _) = Negotiation::start(Some("work".to_string()), false);
    match n.reply(Some(Ok(Frame::Error { message: "busy".to_string() }))) {
        Outcome::Failed { message } => assert_eq!(message, "busy"),
        other => panic!("unexpected outcome {other:?}"),
    }
    assert_eq!(n.reply(None).entry(), None);
    match n.reply(None) {
        Outcome::Failed { message } => assert_eq!(message, "daemon closed connection"),
        other => panic!("unexpected outcome {other:?}"),
    }
    match n.reply(Some(Err("broken".to_string()))) {
        Outcome::Failed { message } => assert_eq!(message, "daemon protocol error: broken"),
        other => panic!("unexpected outcome {other:?}"),
    }
    match n.reply(Some(Ok(Frame::Pong))) {
        Outcome::Unexpected { frame } => assert_eq!(frame, Frame::Pong),
        other => panic!("unexpected outcome {other:?}"),
    }
    let (mut n, _) = Negotiation::start(Some("work".to_string()), true);
    let taken = "session name already exists: work".to_string();
    match n.reply(Some(Ok(Frame::Error { message: taken.clone() }))) {
        Outcome::Failed { message } => assert_eq!(message, taken),
        other => panic!("unexpected outcome {other:?}"),
    }
    match n.reply(Some(Ok(Frame::Okay))) {
        Outcome::Unexpected { frame } => assert_eq!(frame, Frame::Okay),
        other => panic!("unexpected outcome {other:?}"),
    }
}
