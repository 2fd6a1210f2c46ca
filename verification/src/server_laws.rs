//! What a session does on every event, said of its inputs and results.

use vstd::prelude::*;

use crate::protocol::{pairs, FrameModel};
use crate::server::{
    session_step, shell_plan, startup, ActionModel, EventModel, FirstFrame, Phase, Session,
    SessionMetadata, ShellPlan, Startup, FIRST_FRAME_WAIT_MS, SHELL_WAIT_MS,
};

verus! {

/// A session ends with its shell: whatever it was doing, and whatever the shell's code, it
/// is over afterwards. A client that is attached is told the code, or failure where a
/// signal ended the shell; without a client there is nobody to tell.
pub proof fn law_session_ends_with_the_shell(s: Session, code: Option<i32>, now: u64)
    requires
        s.phase != Phase::Over,
    ensures
        ({
            let (after, action) = session_step(s, EventModel::ShellExited { code }, now);
            &&& after.phase == Phase::Over
            &&& after.last_heartbeat == s.last_heartbeat
            &&& s.phase == Phase::Waiting ==> action == ActionModel::End
            &&& s.phase != Phase::Waiting ==> action == (ActionModel::Finish {
                code: match code {
                    Some(c) => c,
                    None => 1,
                },
            })
        }),
{
}

/// A session that is over does nothing more.
pub proof fn law_over_is_final(s: Session, e: EventModel, now: u64)
    requires
        s.phase == Phase::Over,
    ensures
        session_step(s, e, now) == (s, ActionModel::Nothing),
{
}

/// A session without a client takes in the one that comes, and nothing but that and the
/// shell's end moves it.
pub proof fn law_waiting_for_a_client(s: Session, e: EventModel, now: u64)
    requires
        s.phase == Phase::Waiting,
    ensures
        session_step(s, EventModel::ClientArrived, now).0.phase == Phase::Relaying,
        session_step(s, EventModel::ClientArrived, now).0.last_heartbeat == s.last_heartbeat,
        session_step(s, EventModel::ClientArrived, now).1 == ActionModel::Adopt,
        !(e is ClientArrived) && !(e is ShellExited) ==> session_step(s, e, now) == (
            s,
            ActionModel::Nothing,
        ),
{
}

/// What the attached client types is written to the terminal byte for byte.
pub proof fn law_typed_bytes_are_written(s: Session, data: Seq<u8>, now: u64)
    requires
        s.phase == Phase::Relaying,
    ensures
        session_step(s, EventModel::ClientFrame { frame: FrameModel::Data(data) }, now) == (
            s,
            ActionModel::WritePty { data },
        ),
{
}

/// A window size is handed on as it is where it is sane, and otherwise as the sane size
/// nearest to it; columns and rows do not mix.
pub proof fn law_nearest_sane_size(s: Session, cols: u16, rows: u16, now: u64)
    requires
        s.phase == Phase::Relaying,
    ensures
        ({
            let (after, action) = session_step(
                s,
                EventModel::ClientFrame { frame: FrameModel::Resize { cols, rows } },
                now,
            );
            &&& after == s
            &&& action matches ActionModel::SetSize { cols: c, rows: r } && {
                &&& c == if cols == 0 {
                    1
                } else if cols > 10_000 {
                    10_000
                } else {
                    cols as int
                }
                &&& r == if rows == 0 {
                    1
                } else if rows > 10_000 {
                    10_000
                } else {
                    rows as int
                }
            }
        }),
{
}

/// A ping is answered at once and notes the time; a client that says it exits is let go;
/// data and sizes go to the terminal; every other frame means nothing.
pub proof fn law_other_client_frames(s: Session, f: FrameModel, code: i32, now: u64)
    requires
        s.phase == Phase::Relaying,
    ensures
        session_step(s, EventModel::ClientFrame { frame: FrameModel::Ping }, now) == (
            Session { phase: Phase::Relaying, last_heartbeat: now },
            ActionModel::Send { frame: FrameModel::Pong },
        ),
        session_step(s, EventModel::ClientFrame { frame: FrameModel::Exit { code } }, now) == (
            Session { phase: Phase::Waiting, last_heartbeat: s.last_heartbeat },
            ActionModel::DropClient,
        ),
        !(f is Data) && !(f is Resize) && !(f is Ping) && !(f is Exit) ==> session_step(
            s,
            EventModel::ClientFrame { frame: f },
            now,
        ) == (s, ActionModel::Nothing),
{
}

/// A client that is lost, in whatever way, leaves the session waiting for the next; one
/// that sends what cannot be understood ends it; a second one takes over.
pub proof fn law_losing_and_changing_clients(s: Session, now: u64)
    requires
        s.phase == Phase::Relaying,
    ensures
        ({
            let waiting = (
                Session { phase: Phase::Waiting, last_heartbeat: s.last_heartbeat },
                ActionModel::DropClient,
            );
            &&& session_step(s, EventModel::ClientClosed, now) == waiting
            &&& session_step(s, EventModel::SendFailed, now) == waiting
            &&& session_step(s, EventModel::ClientFailed { invalid: false }, now) == waiting
            &&& session_step(s, EventModel::ClientFailed { invalid: true }, now) == (
                Session { phase: Phase::Over, last_heartbeat: s.last_heartbeat },
                ActionModel::Fail,
            )
            &&& session_step(s, EventModel::ClientArrived, now) == (
                s,
                ActionModel::TakeOver { farewell: FrameModel::Detached },
            )
            &&& session_step(s, EventModel::WaitExpired, now) == (s, ActionModel::Nothing)
        }),
{
}

/// What the terminal gives goes to the client byte for byte. At the terminal's end the
/// shell's own end is awaited for one second, and a terminal that fails otherwise ends the
/// session.
pub proof fn law_terminal_is_followed(s: Session, data: Seq<u8>, now: u64)
    requires
        s.phase == Phase::Relaying,
    ensures
        ({
            let closing = (
                Session { phase: Phase::Closing, last_heartbeat: s.last_heartbeat },
                ActionModel::AwaitShell { ms: 1_000 },
            );
            &&& data.len() > 0 ==> session_step(s, EventModel::PtyOutput { data }, now) == (
                s,
                ActionModel::Send { frame: FrameModel::Data(data) },
            )
            &&& data.len() == 0 ==> session_step(s, EventModel::PtyOutput { data }, now) == closing
            &&& session_step(s, EventModel::PtyFailed { hangup: true }, now) == closing
            &&& session_step(s, EventModel::PtyFailed { hangup: false }, now) == (
                Session { phase: Phase::Over, last_heartbeat: s.last_heartbeat },
                ActionModel::Fail,
            )
        }),
{
}

/// A session whose terminal has ended is over when the shell's end is not seen in time; the
/// code is zero then. Nothing but that and the shell's end moves it.
pub proof fn law_closing_comes_to_an_end(s: Session, e: EventModel, now: u64)
    requires
        s.phase == Phase::Closing,
    ensures
        session_step(s, EventModel::WaitExpired, now) == (
            Session { phase: Phase::Over, last_heartbeat: s.last_heartbeat },
            ActionModel::Finish { code: 0 },
        ),
        !(e is ShellExited) && !(e is WaitExpired) ==> session_step(s, e, now) == (
            s,
            ActionModel::Nothing,
        ),
{
}

/// A session is never over, except by its shell, by the end or failure of its terminal, or
/// by what cannot be understood; and it never comes back from being over.
pub proof fn law_only_these_end_a_session(s: Session, e: EventModel, now: u64)
    ensures
        s.phase != Phase::Over && session_step(s, e, now).0.phase == Phase::Over ==> {
            ||| e is ShellExited
            ||| e == (EventModel::PtyFailed { hangup: false })
            ||| e == (EventModel::ClientFailed { invalid: true })
            ||| e is WaitExpired && s.phase == Phase::Closing
        },
        s.phase == Phase::Over ==> session_step(s, e, now).0.phase == Phase::Over,
{
}

/// A session begins without a client and without a sign of life. It says that a client is
/// attached exactly from the client's arrival until it is gone, and its terminal is read
/// only while the client is served.
pub proof fn law_session_tells_its_state(s: Session, fresh: Session, attached: bool, reading: bool)
    requires
        call_ensures(Session::new, (), fresh),
        call_ensures(Session::attached, (&s,), attached),
        call_ensures(Session::reads_terminal, (&s,), reading),
    ensures
        fresh.phase == Phase::Waiting,
        fresh.last_heartbeat == 0,
        attached <==> s.phase == Phase::Relaying || s.phase == Phase::Closing,
        reading <==> s.phase == Phase::Relaying,
{
}

/// Refreshed metadata tells whether a client is attached and when it last gave a sign of
/// life, and keeps everything that is known of the shell.
pub proof fn law_refreshed_metadata(s: Session, m: SessionMetadata, r: SessionMetadata)
    requires
        call_ensures(Session::refresh, (&s, m), r),
    ensures
        r.pty_path@ == m.pty_path@,
        r.shell_pid == m.shell_pid,
        r.created_at == m.created_at,
        r.attached <==> s.phase == Phase::Relaying || s.phase == Phase::Closing,
        r.last_heartbeat == s.last_heartbeat,
{
}

/// The variables of a frame that comes first are the shell's environment, each of them and
/// in their order. Any other frame is not lost: it is handled once the shell runs. So is
/// what became of a client that sent none.
pub proof fn law_first_frame_is_used(first: FirstFrame, s: Startup)
    requires
        call_ensures(startup, (first,), s),
    ensures
        match first {
            FirstFrame::Frame { frame } => match frame@ {
                FrameModel::Env { vars } => pairs(s.vars@) == vars && s.pending is None,
                other => s.vars@.len() == 0 && (s.pending matches Some(e) && e@ == (
                EventModel::ClientFrame { frame: other })),
            },
            FirstFrame::Closed => s.vars@.len() == 0 && (s.pending matches Some(e) && e@
                == EventModel::ClientClosed),
            FirstFrame::Failed { invalid } => s.vars@.len() == 0 && (s.pending matches Some(e)
                && e@ == (EventModel::ClientFailed { invalid })),
            FirstFrame::TimedOut => s.vars@.len() == 0 && s.pending is None,
        },
{
    assert(pairs(s.vars@).len() == s.vars@.len());
}

/// The shell is the user's own where one is known, and `/bin/sh` otherwise. It is started
/// under the last part of its path with a dash in front, in the user's home.
pub proof fn law_shell_is_started_as_login_shell(
    shell: Option<String>,
    home: Option<String>,
    p: ShellPlan,
    dir: Seq<char>,
    name: Seq<char>,
)
    requires
        call_ensures(shell_plan, (shell, home), p),
        p.program@ == dir + name,
        dir.len() > 0 ==> dir.last() == '/',
        !name.contains('/'),
    ensures
        shell matches Some(own) ==> p.program@ == own@,
        shell is None ==> p.program@ == "/bin/sh"@,
        p.arg0@ == seq!['-'] + name,
        p.dir == home,
{
    let s = p.program@;
    let i = dir.len() - 1;
    assert forall|j: int| i < j < s.len() implies s[j] != '/' by {
        assert(s[j] == name[j - dir.len()]);
    }
    crate::text::lemma_last_at(s, '/', i);
    assert(s.skip(i + 1) =~= name);
}

/// How long a session waits: long enough for a client that sends its variables first, and
/// not so long that its shell would keep a client waiting.
pub proof fn law_session_waits()
    ensures
        FIRST_FRAME_WAIT_MS == 200,
        SHELL_WAIT_MS == 1_000,
{
}

} // verus!
