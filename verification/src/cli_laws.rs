//! What the commands tell the user, said of the replies that they get.

use vstd::prelude::*;

use crate::buffer::lossy_text;
use crate::cli::{
    attach_wait, new_session_request, no_daemon_message, read_attach, read_kill_server,
    read_kill_session, read_new_session, read_response, read_sessions, session_line,
    waiting_message, AttachStep, CommandError, DAEMON_RETRY_MS,
};
use crate::protocol::{entries, Frame, SessionEntry};
use crate::rows::texts;
use crate::text::decimal;

verus! {

/// A request for a session asks for the name that was given, and for none where none was.
pub proof fn law_new_session_request(name: Option<String>, f: Frame)
    requires
        call_ensures(new_session_request, (name,), f),
    ensures
        f matches Frame::NewSession { name: asked } && match name {
            Some(n) => asked@ == n@,
            None => asked@.len() == 0,
        },
{
}

/// A session that was made is told with its id, and with its name where it was given one. A
/// refusal is told in the daemon's words, any other frame is handed back, and a connection
/// that failed or ended is told apart.
pub proof fn law_reply_to_new_session(
    name: Option<String>,
    reply: Option<Result<Frame, String>>,
    r: Result<(String, String), CommandError>,
)
    requires
        call_ensures(read_new_session, (name, reply), r),
    ensures
        match reply {
            Some(Ok(Frame::SessionCreated { id })) => r matches Ok(told) && told.0@ == id@
                && told.1@ == match name {
                Some(n) => "session created: "@ + n@ + " (id "@ + id@ + ")"@,
                None => "session created: id "@ + id@,
            },
            Some(Ok(Frame::Error { message })) => r matches Err(CommandError::Message { text })
                && text@ == message@,
            Some(Ok(other)) => r matches Err(CommandError::Unexpected { frame }) && frame@
                == other@,
            Some(Err(words)) => r matches Err(CommandError::Message { text }) && text@
                == "daemon protocol error: "@ + words@,
            None => r matches Err(CommandError::Message { text }) && text@
                == "daemon closed connection (is it still running?)"@,
        },
{
    assert(reply matches Some(Ok(f)) ==> (f is Error <==> f@ is Error));
}

/// The user learns that the client is attached when, and only when, the daemon says okay.
/// A refusal is told in the daemon's words, any other frame is handed back, and a
/// connection that failed or ended is told apart.
pub proof fn law_reply_to_attach(
    reply: Option<Result<Frame, String>>,
    r: Result<String, CommandError>,
)
    requires
        call_ensures(read_attach, (reply,), r),
    ensures
        match reply {
            Some(Ok(Frame::Okay)) => r matches Ok(told) && told@ == "[attached]"@,
            Some(Ok(Frame::Error { message })) => r matches Err(CommandError::Message { text })
                && text@ == message@,
            Some(Ok(other)) => r matches Err(CommandError::Unexpected { frame }) && frame@
                == other@,
            Some(Err(words)) => r matches Err(CommandError::Message { text }) && text@
                == "daemon protocol error: "@ + words@,
            None => r matches Err(CommandError::Message { text }) && text@
                == "daemon closed connection (is it still running?)"@,
        },
{
    assert(reply matches Some(Ok(f)) ==> (f is Error <==> f@ is Error));
}

/// The daemon is waited for until it is reached, with a second between two tries.
pub proof fn law_daemon_is_waited_for(reached: bool, s: AttachStep)
    requires
        call_ensures(attach_wait, (reached,), s),
    ensures
        reached <==> s == AttachStep::Proceed,
        !reached ==> s == (AttachStep::TellAndRetry { ms: 1_000 }),
        DAEMON_RETRY_MS == 1_000,
{
}

/// A reply is handed on as it is. Without one the user learns why there is none.
pub proof fn law_one_reply(reply: Option<Result<Frame, String>>, r: Result<Frame, String>)
    requires
        call_ensures(read_response, (reply,), r),
    ensures
        match reply {
            Some(Ok(f)) => r matches Ok(g) && g@ == f@,
            Some(Err(words)) => r matches Err(e) && e@ == words@,
            None => r matches Err(e) && e@ == "daemon closed connection without response"@,
        },
{
}

/// Ending a session or the daemon is told as done when, and only when, the daemon says
/// okay; what was ended is named. A refusal is told in the daemon's words, and any other
/// frame is handed back.
pub proof fn law_reply_to_kill(
    target: &str,
    reply: Frame,
    session: Result<String, CommandError>,
    server: Result<String, CommandError>,
)
    requires
        call_ensures(read_kill_session, (target, reply), session),
        call_ensures(read_kill_server, (reply,), server),
    ensures
        match reply {
            Frame::Okay => {
                &&& session matches Ok(told) && told@ == "session killed: "@ + target@
                &&& server matches Ok(told) && told@ == "server killed"@
            },
            Frame::Error { message } => {
                &&& session matches Err(CommandError::Message { text }) && text@ == message@
                &&& server matches Err(CommandError::Message { text }) && text@ == message@
            },
            other => {
                &&& session matches Err(CommandError::Unexpected { frame }) && frame@ == other@
                &&& server matches Err(CommandError::Unexpected { frame }) && frame@ == other@
            },
        },
{
    assert(reply is Error <==> reply@ is Error);
    assert(reply is Okay <==> reply@ is Okay);
}

/// The line of a session tells its id, its name where it has one, its terminal, its
/// process, and whether a client is attached; of one that is, how many seconds ago it gave
/// a sign of life, if it ever did. Of a session whose shell does not run yet it says that.
pub proof fn law_line_of_a_session(e: SessionEntry, now: u64, s: String)
    requires
        call_ensures(session_line, (&e, now), s),
    ensures
        ({
            let label = if e.name@.len() > 0 {
                e.id@ + ": "@ + e.name@
            } else {
                e.id@
            };
            let shell = label + " "@ + e.pty_path@ + " (pid "@ + decimal(e.shell_pid as nat)
                + ") ("@;
            &&& e.shell_pid == 0 ==> s@ == label + " (starting...)"@
            &&& e.shell_pid > 0 && !e.attached ==> s@ == shell + "detached"@ + ")"@
            &&& e.shell_pid > 0 && e.attached && e.last_heartbeat == 0 ==> s@ == shell
                + "attached"@ + ")"@
            &&& e.shell_pid > 0 && e.attached && 0 < e.last_heartbeat <= now ==> s@ == shell + (
            "attached, heartbeat "@ + decimal((now - e.last_heartbeat) as nat) + "s ago"@) + ")"@
            &&& e.shell_pid > 0 && e.attached && e.last_heartbeat > now ==> s@ == shell + (
            "attached, heartbeat "@ + decimal(0) + "s ago"@) + ")"@
        }),
{
}

/// A list is printed one line per session, in its order; an empty one is told in words. A
/// frame that is no list is handed back.
pub proof fn law_lines_of_a_list(
    reply: Frame,
    now: u64,
    r: Result<Vec<String>, CommandError>,
    i: int,
    line: String,
)
    requires
        call_ensures(read_sessions, (reply, now), r),
        reply matches Frame::SessionInfo { sessions } ==> 0 <= i < sessions@.len() ==> call_ensures(
            session_line,
            (&sessions@[i], now),
            line,
        ),
    ensures
        match reply {
            Frame::SessionInfo { sessions } => r matches Ok(out) && {
                &&& sessions@.len() == 0 ==> out@.len() == 1 && out@[0]@ == "no active sessions"@
                &&& sessions@.len() > 0 ==> out@.len() == sessions@.len()
                &&& 0 <= i < sessions@.len() ==> out@[i]@ == line@
            },
            other => r matches Err(CommandError::Unexpected { frame }) && frame@ == other@,
        },
{
    if let Frame::SessionInfo { sessions } = reply {
        if let Ok(out) = r {
            assert(entries(sessions@).len() == sessions@.len());
            assert(texts(out@).len() == out@.len());
            assert(0 <= i < out@.len() ==> texts(out@)[i] == out@[i]@);
            assert(out@.len() > 0 ==> texts(out@)[0] == out@[0]@);
        }
    }
}

/// Who cannot reach the daemon is told which socket was tried.
pub proof fn law_unreachable_daemon(path: &[u8], none: String, waiting: String)
    requires
        call_ensures(no_daemon_message, (path,), none),
        call_ensures(waiting_message, (path,), waiting),
    ensures
        none@ == "no daemon running (could not connect to "@ + lossy_text(path@) + ")"@,
        waiting@ == "waiting for daemon ("@ + lossy_text(path@) + ")... ctrl-c to abort"@,
{
}

} // verus!
