//! The command line: what the daemon's replies come to, and how sessions are listed.

use vstd::prelude::*;

use crate::buffer::lossy_text;
use crate::paths::shown;
use crate::protocol::{entries, received, EntryModel, Frame, FrameModel, SessionEntry};
use crate::rows::texts;
use crate::server::opt_string;
use crate::text::{decimal, decimal_text, joined};

verus! {

/// Why a command fails.
#[derive(Debug, Clone, PartialEq, Eq)]
pub enum CommandError {
    /// The words for it.
    Message { text: String },
    /// The daemon answered with a frame that makes no sense here.
    Unexpected { frame: Frame },
}

/// A failure as a mathematical value.
#[verifier::ext_equal]
pub enum CommandErrorModel {
    Message { text: Seq<char> },
    Unexpected { frame: FrameModel },
}

impl View for CommandError {
    type V = CommandErrorModel;

    open spec fn view(&self) -> CommandErrorModel {
        match self {
            CommandError::Message { text } => CommandErrorModel::Message { text: text@ },
            CommandError::Unexpected { frame } => CommandErrorModel::Unexpected { frame: frame@ },
        }
    }
}

/// The result of a command that yields text.
pub open spec fn command_text(r: Result<String, CommandError>) -> Result<
    Seq<char>,
    CommandErrorModel,
> {
    match r {
        Ok(s) => Ok(s@),
        Err(e) => Err(e@),
    }
}

/// The words for a failure that has words.
pub open spec fn failure<T>(text: Seq<char>) -> Result<T, CommandErrorModel> {
    Err(CommandErrorModel::Message { text })
}

// ---------------------------------------------------------------------------
// Making and attaching
// ---------------------------------------------------------------------------

/// The words for a new session.
pub open spec fn new_session_notice(name: Option<Seq<char>>, id: Seq<char>) -> Seq<char> {
    match name {
        Some(n) => "session created: "@ + n + " (id "@ + id + ")"@,
        None => "session created: id "@ + id,
    }
}

/// A reply that is neither the wished-for one nor an ordinary frame.
pub open spec fn bad_reply<T>(reply: Option<Result<FrameModel, Seq<char>>>) -> Result<
    T,
    CommandErrorModel,
> {
    match reply {
        Some(Ok(FrameModel::Error { message })) => failure(message),
        Some(Ok(frame)) => Err(CommandErrorModel::Unexpected { frame }),
        Some(Err(e)) => failure("daemon protocol error: "@ + e),
        None => failure("daemon closed connection (is it still running?)"@),
    }
}

/// What the reply to a request for a new session comes to: the session's id and what to
/// tell the user.
pub open spec fn new_session_result(
    name: Option<Seq<char>>,
    reply: Option<Result<FrameModel, Seq<char>>>,
) -> Result<(Seq<char>, Seq<char>), CommandErrorModel> {
    match reply {
        Some(Ok(FrameModel::SessionCreated { id })) => Ok((id, new_session_notice(name, id))),
        other => bad_reply(other),
    }
}

/// What the reply to a request to attach comes to: what to tell the user.
pub open spec fn attach_result(reply: Option<Result<FrameModel, Seq<char>>>) -> Result<
    Seq<char>,
    CommandErrorModel,
> {
    match reply {
        Some(Ok(FrameModel::Okay)) => Ok("[attached]"@),
        other => bad_reply(other),
    }
}

fn reply_error(reply: Option<Result<Frame, String>>) -> (e: CommandError)
    ensures
        bad_reply::<()>(received(reply)) == Err::<(), CommandErrorModel>(e@),
        bad_reply::<Seq<char>>(received(reply)) == Err::<Seq<char>, CommandErrorModel>(e@),
        bad_reply::<(Seq<char>, Seq<char>)>(received(reply)) == Err::<
            (Seq<char>, Seq<char>),
            CommandErrorModel,
        >(e@),
{
    match reply {
        Some(Ok(Frame::Error { message })) => CommandError::Message { text: message },
        Some(Ok(frame)) => CommandError::Unexpected { frame },
        Some(Err(e)) => CommandError::Message {
            text: joined("daemon protocol error: ", e.as_str()),
        },
        None => CommandError::Message {
            text: "daemon closed connection (is it still running?)".to_owned(),
        },
    }
}

/// The request for a new session; without a name the name is empty.
pub fn new_session_request(name: Option<String>) -> (f: Frame)
    ensures
        f@ == (FrameModel::NewSession {
            name: match name {
                Some(n) => n@,
                None => Seq::empty(),
            },
        }),
{
    match name {
        Some(n) => Frame::NewSession { name: n },
        None => Frame::NewSession { name: String::new() },
    }
}

/// Reads the reply to a request for a new session: the session's id and what to tell the
/// user.
pub fn read_new_session(name: Option<String>, reply: Option<Result<Frame, String>>) -> (r: Result<
    (String, String),
    CommandError,
>)
    ensures
        match r {
            Ok(p) => new_session_result(opt_string(name), received(reply)) == Ok::<
                (Seq<char>, Seq<char>),
                CommandErrorModel,
            >((p.0@, p.1@)),
            Err(e) => new_session_result(opt_string(name), received(reply)) == Err::<
                (Seq<char>, Seq<char>),
                CommandErrorModel,
            >(e@),
        },
{
    match reply {
        Some(Ok(Frame::SessionCreated { id })) => {
            let notice: String = match name {
                Some(n) => {
                    let mut s: String = joined("session created: ", n.as_str());
                    s.append(" (id ");
                    s.append(id.as_str());
                    s.append(")");
                    s
                },
                None => joined("session created: id ", id.as_str()),
            };
            Ok((id, notice))
        },
        other => Err(reply_error(other)),
    }
}

/// Reads the reply to a request to attach: what to tell the user.
pub fn read_attach(reply: Option<Result<Frame, String>>) -> (r: Result<String, CommandError>)
    ensures
        command_text(r) == attach_result(received(reply)),
{
    match reply {
        Some(Ok(Frame::Okay)) => Ok("[attached]".to_owned()),
        other => Err(reply_error(other)),
    }
}

/// The pause between two tries to reach the daemon, in milliseconds.
pub const DAEMON_RETRY_MS: u64 = 1_000;

/// What to do after a try to reach the daemon in order to attach.
#[derive(Debug, Clone, Copy, PartialEq, Eq, Structural)]
pub enum AttachStep {
    /// The daemon was reached; send the request.
    Proceed,
    /// Tell the user that the daemon is waited for, and try again after this many
    /// milliseconds.
    TellAndRetry { ms: u64 },
}

/// Decides after a try to reach the daemon in order to attach. The user is told after each
/// try that failed, and the tries go on until one succeeds.
pub fn attach_wait(reached: bool) -> (s: AttachStep)
    ensures
        s == if reached {
            AttachStep::Proceed
        } else {
            AttachStep::TellAndRetry { ms: 1_000 }
        },
{
    if reached {
        AttachStep::Proceed
    } else {
        AttachStep::TellAndRetry { ms: DAEMON_RETRY_MS }
    }
}

// ---------------------------------------------------------------------------
// Requests with one reply
// ---------------------------------------------------------------------------

/// Reads the reply to a control request.
pub fn read_response(reply: Option<Result<Frame, String>>) -> (r: Result<Frame, String>)
    ensures
        match r {
            Ok(f) => received(reply) == Some(Ok::<FrameModel, Seq<char>>(f@)),
            Err(e) => match received(reply) {
                Some(Ok(_)) => false,
                Some(Err(words)) => e@ == words,
                None => e@ == "daemon closed connection without response"@,
            },
        },
{
    match reply {
        Some(Ok(frame)) => Ok(frame),
        Some(Err(e)) => Err(e),
        None => Err("daemon closed connection without response".to_owned()),
    }
}

/// What a reply comes to where success is the daemon's okay.
pub open spec fn okay_result(reply: FrameModel, notice: Seq<char>) -> Result<
    Seq<char>,
    CommandErrorModel,
> {
    match reply {
        FrameModel::Okay => Ok(notice),
        FrameModel::Error { message } => failure(message),
        frame => Err(CommandErrorModel::Unexpected { frame }),
    }
}

fn read_okay(reply: Frame, notice: String) -> (r: Result<String, CommandError>)
    ensures
        command_text(r) == okay_result(reply@, notice@),
{
    match reply {
        Frame::Okay => Ok(notice),
        Frame::Error { message } => Err(CommandError::Message { text: message }),
        frame => Err(CommandError::Unexpected { frame }),
    }
}

/// Reads the reply to a request to end a session: what to tell the user.
pub fn read_kill_session(target: &str, reply: Frame) -> (r: Result<String, CommandError>)
    ensures
        command_text(r) == okay_result(reply@, "session killed: "@ + target@),
{
    read_okay(reply, joined("session killed: ", target))
}

/// Reads the reply to a request to end the daemon: what to tell the user.
pub fn read_kill_server(reply: Frame) -> (r: Result<String, CommandError>)
    ensures
        command_text(r) == okay_result(reply@, "server killed"@),
{
    read_okay(reply, "server killed".to_owned())
}

// ---------------------------------------------------------------------------
// Listing
// ---------------------------------------------------------------------------

/// Whether a session is attached, and how long ago its client gave a sign of life, in
/// seconds; a time in the future counts as now.
pub open spec fn status_text(e: EntryModel, now: u64) -> Seq<char> {
    if !e.attached {
        "detached"@
    } else if e.last_heartbeat == 0 {
        "attached"@
    } else {
        let ago = if now > e.last_heartbeat {
            now - e.last_heartbeat
        } else {
            0
        };
        "attached, heartbeat "@ + decimal(ago as nat) + "s ago"@
    }
}

/// The id of a session, and its name where it has one.
pub open spec fn label_text(e: EntryModel) -> Seq<char> {
    if e.name.len() == 0 {
        e.id
    } else {
        e.id + ": "@ + e.name
    }
}

/// The line for a session.
pub open spec fn session_text(e: EntryModel, now: u64) -> Seq<char> {
    if e.shell_pid > 0 {
        label_text(e) + " "@ + e.pty_path + " (pid "@ + decimal(e.shell_pid as nat) + ") ("@
            + status_text(e, now) + ")"@
    } else {
        label_text(e) + " (starting...)"@
    }
}

/// The lines for a list of sessions.
pub open spec fn list_lines(sessions: Seq<EntryModel>, now: u64) -> Seq<Seq<char>> {
    if sessions.len() == 0 {
        seq!["no active sessions"@]
    } else {
        sessions.map_values(|e: EntryModel| session_text(e, now))
    }
}

fn status_of(e: &SessionEntry, now: u64) -> (s: String)
    ensures
        s@ == status_text(e@, now),
{
    if !e.attached {
        "detached".to_owned()
    } else if e.last_heartbeat == 0 {
        "attached".to_owned()
    } else {
        let ago: u64 = if now > e.last_heartbeat {
            now - e.last_heartbeat
        } else {
            0
        };
        let mut s: String = joined("attached, heartbeat ", decimal_text(ago).as_str());
        s.append("s ago");
        s
    }
}

fn label_of(e: &SessionEntry) -> (s: String)
    ensures
        s@ == label_text(e@),
{
    if e.name.as_str().is_empty() {
        e.id.clone()
    } else {
        let mut s: String = joined(e.id.as_str(), ": ");
        s.append(e.name.as_str());
        s
    }
}

/// The line for a session.
pub fn session_line(e: &SessionEntry, now: u64) -> (s: String)
    ensures
        s@ == session_text(e@, now),
{
    let mut s: String = label_of(e);
    if e.shell_pid > 0 {
        s.append(" ");
        s.append(e.pty_path.as_str());
        s.append(" (pid ");
        s.append(decimal_text(e.shell_pid as u64).as_str());
        s.append(") (");
        s.append(status_of(e, now).as_str());
        s.append(")");
    } else {
        s.append(" (starting...)");
    }
    s
}

/// Reads the reply to a request for the sessions: the lines to print, at the time `now`
/// in seconds.
pub fn read_sessions(reply: Frame, now: u64) -> (r: Result<Vec<String>, CommandError>)
    ensures
        match r {
            Ok(lines) => match reply@ {
                FrameModel::SessionInfo { sessions } => texts(lines@) == list_lines(sessions, now),
                _ => false,
            },
            Err(e) => !(reply@ is SessionInfo) && e@ == (CommandErrorModel::Unexpected {
                frame: reply@,
            }),
        },
{
    match reply {
        Frame::SessionInfo { sessions } => {
            let mut lines: Vec<String> = Vec::new();
            if sessions.len() == 0 {
                lines.push("no active sessions".to_owned());
                proof {
                    assert(texts(lines@) =~= seq!["no active sessions"@]);
                }
                return Ok(lines);
            }
            let mut i: usize = 0;
            while i < sessions.len()
                invariant
                    i <= sessions@.len(),
                    lines@.len() == i,
                    forall|k: int|
                        0 <= k < i ==> (#[trigger] lines@[k])@ == session_text(sessions@[k]@, now),
                decreases sessions@.len() - i,
            {
                lines.push(session_line(&sessions[i], now));
                i = i + 1;
            }
            proof {
                assert(texts(lines@) =~= list_lines(entries(sessions@), now));
            }
            Ok(lines)
        },
        frame => Err(CommandError::Unexpected { frame }),
    }
}

// ---------------------------------------------------------------------------
// Words
// ---------------------------------------------------------------------------

/// The words for a daemon that cannot be reached.
pub fn no_daemon_message(ctl_path: &[u8]) -> (s: String)
    ensures
        s@ == "no daemon running (could not connect to "@ + lossy_text(ctl_path@) + ")"@,
{
    let mut s: String = joined(
        "no daemon running (could not connect to ",
        shown(ctl_path).as_str(),
    );
    s.append(")");
    s
}

/// The words for waiting until the daemon can be reached.
pub fn waiting_message(ctl_path: &[u8]) -> (s: String)
    ensures
        s@ == "waiting for daemon ("@ + lossy_text(ctl_path@) + ")... ctrl-c to abort"@,
{
    let mut s: String = joined("waiting for daemon (", shown(ctl_path).as_str());
    s.append(")... ctrl-c to abort");
    s
}

} // verus!
