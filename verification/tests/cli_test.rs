//! What the command line makes of the daemon's replies.

use gritty::cli::{
    attach_wait, new_session_request, no_daemon_message, read_attach, read_kill_server,
    read_kill_session, read_new_session, read_response, read_sessions, session_line,
    waiting_message, AttachStep, CommandError,
};
use gritty::protocol::{Frame, SessionEntry};

fn words(text: &str) -> CommandError {
    CommandError::Message { text: text.to_string() }
}

fn entry() -> SessionEntry {
    SessionEntry {
        id: "3".to_string(),
        name: "work".to_string(),
        pty_path: "/dev/pts/5".to_string(),
        shell_pid: 1234,
        created_at: 1_700_000_000,
        attached: true,
        last_heartbeat: 1_700_000_100,
    }
}

#[test]
fn new_session_replies() {
    let name = Some("work".to_string());
    assert_eq!(
        new_session_request(name.clone()),
        Frame::NewSession { name: "work".to_string() }
    );
    assert_eq!(new_session_request(None), Frame::NewSession { name: String::new() });
    let made = || Some(Ok(Frame::SessionCreated { id: "3".to_string() }));
    assert_eq!(
        read_new_session(name.clone(), made()),
        Ok(("3".to_string(), "session created: work (id 3)".to_string()))
    );
    assert_eq!(
        read_new_session(None, made()),
        Ok(("3".to_string(), "session created: id 3".to_string()))
    );
    let refused = Frame::Error { message: "session name already exists: work".to_string() };
    assert_eq!(
        read_new_session(name, Some(Ok(refused))),
        Err(words("session name already exists: work"))
    );
    assert_eq!(
        read_new_session(None, Some(Err("broken".to_string()))),
        Err(words("daemon protocol error: broken"))
    );
    assert_eq!(
        read_new_session(None, None),
        Err(words("daemon closed connection (is it still running?)"))
    );
    assert_eq!(
        read_new_session(None, Some(Ok(Frame::Okay))),
        Err(CommandError::Unexpected { frame: Frame::Okay })
    );
}

#[test]
fn attach_replies() {
    assert_eq!(read_attach(Some(Ok(Frame::Okay))), Ok("[attached]".to_string()));
    let refused = Frame::Error { message: "no such session: x".to_string() };
    assert_eq!(read_attach(Some(Ok(refused))), Err(words("no such session: x")));
    assert_eq!(
        read_attach(Some(Err("broken".to_string()))),
        Err(words("daemon protocol error: broken"))
    );
    assert_eq!(
        read_attach(None),
        Err(words("daemon closed connection (is it still running?)"))
    );
    assert_eq!(
        read_attach(Some(Ok(Frame::Pong))),
        Err(CommandError::Unexpected { frame: Frame::Pong })
    );
}

#[test]
fn attaching_waits_for_the_daemon() {
    assert_eq!(attach_wait(false), AttachStep::TellAndRetry { ms: 1_000 });
    assert_eq!(attach_wait(true), AttachStep::Proceed);
}

#[test]
fn plain_responses() {
    assert_eq!(read_response(Some(Ok(Frame::Okay))), Ok(Frame::Okay));
    assert_eq!(read_response(Some(Err("broken".to_string()))), Err("broken".to_string()));
    assert_eq!(
        read_response(None),
        Err("daemon closed connection without response".to_string())
    );
}

#[test]
fn kill_replies() {
    assert_eq!(read_kill_session("work", Frame::Okay), Ok("session killed: work".to_string()));
    assert_eq!(read_kill_server(Frame::Okay), Ok("server killed".to_string()));
    let refused = || Frame::Error { message: "no".to_string() };
    assert_eq!(read_kill_session("work", refused()), Err(words("no")));
    assert_eq!(read_kill_server(refused()), Err(words("no")));
    assert_eq!(
        read_kill_session("work", Frame::Ping),
        Err(CommandError::Unexpected { frame: Frame::Ping })
    );
    assert_eq!(
        read_kill_server(Frame::Ping),
        Err(CommandError::Unexpected { frame: Frame::Ping })
    );
}

#[test]
fn session_lines() {
    let now = 1_700_000_103;
    let mut e = entry();
    assert_eq!(
        session_line(&e, now),
        "3: work /dev/pts/5 (pid 1234) (attached, heartbeat 3s ago)"
    );
    assert_eq!(
        session_line(&e, 5),
        "3: work /dev/pts/5 (pid 1234) (attached, heartbeat 0s ago)"
    );
    e.last_heartbeat = 0;
    assert_eq!(session_line(&e, now), "3: work /dev/pts/5 (pid 1234) (attached)");
    e.attached = false;
    e.name = String::new();
    assert_eq!(session_line(&e, now), "3 /dev/pts/5 (pid 1234) (detached)");
    e.shell_pid = 0;
    assert_eq!(session_line(&e, now), "3 (starting...)");
}

#[test]
fn session_lists() {
    let none = Frame::SessionInfo { sessions: vec![] };
    assert_eq!(read_sessions(none, 0), Ok(vec!["no active sessions".to_string()]));
    let mut second = entry();
    second.id = "4".to_string();
    second.shell_pid = 0;
    let two = Frame::SessionInfo { sessions: vec![entry(), second] };
    assert_eq!(
        read_sessions(two, 1_700_000_101),
        Ok(vec![
            "3: work /dev/pts/5 (pid 1234) (attached, heartbeat 1s ago)".to_string(),
            "4: work (starting...)".to_string(),
        ])
    );
    assert_eq!(
        read_sessions(Frame::Okay, 0),
        Err(CommandError::Unexpected { frame: Frame::Okay })
    );
    let refused = Frame::Error { message: "no".to_string() };
    assert_eq!(
        read_sessions(refused.clone(), 0),
        Err(CommandError::Unexpected { frame: refused })
    );
}

#[test]
fn words_about_the_daemon() {
    assert_eq!(
        no_daemon_message(b"/tmp/ctl.sock"),
        "no daemon running (could not connect to /tmp/ctl.sock)"
    );
    assert_eq!(
        waiting_message(b"/tmp/ctl.sock"),
        "waiting for daemon (/tmp/ctl.sock)... ctrl-c to abort"
    );
}
