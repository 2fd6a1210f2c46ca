//! What the parts promise together: keys, output, heartbeats, exit codes and listings on
//! their way between client, daemon and session.

use vstd::prelude::*;

use crate::client::{
    client_step, law_plain_bytes_pass, ClientActionModel, ClientEventModel, ClientRelay, ESCAPE,
};
use crate::daemon::{
    control_step, entry_for, ids_of, in_order, name_taken, reaped, report, DaemonModel,
};
use crate::daemon_laws::law_list_is_complete;
use crate::protocol::{
    decode_step, frame_bytes, EntryModel, FrameModel, ProtocolErrorModel, MAX_FRAME_SIZE,
};
use crate::roundtrip::{clean_entry, clean_field, clean_frame, fits, law_roundtrip};
use crate::server::{
    after_events, law_shell_is_awaited, session_step, terminal_ended, ActionModel, EventModel,
    Phase, Session,
};
use crate::text::{decimal, is_digit, lemma_decimal_digits};

verus! {

/// The bytes of the frame hold the frame and nothing else.
pub open spec fn arrives(f: FrameModel) -> bool {
    decode_step(frame_bytes(f)) == (
        Ok::<Option<FrameModel>, ProtocolErrorModel>(Some(f)),
        Seq::<u8>::empty(),
    )
}

proof fn lemma_arrives(f: FrameModel)
    requires
        clean_frame(f),
        fits(f),
    ensures
        arrives(f),
{
    law_roundtrip(f, Seq::empty());
    assert(frame_bytes(f) + Seq::<u8>::empty() =~= frame_bytes(f));
}

/// What is typed reaches the shell: plain keys leave the client as one frame, the frame
/// survives the wire, and the session writes these bytes to its terminal.
pub proof fn law_keys_reach_the_shell(
    c: ClientRelay,
    s: Session,
    data: Seq<u8>,
    now: u64,
    later: u64,
)
    requires
        0 < data.len() <= MAX_FRAME_SIZE,
        c.keys.enabled ==> !c.keys.pending && !data.contains(ESCAPE),
        s.phase == Phase::Relaying,
    ensures
        client_step(c, ClientEventModel::Keys { data }, now) == (
            c,
            ClientActionModel::Typed {
                frame: Some(FrameModel::Data(data)),
                help: false,
                detach: false,
            },
        ),
        arrives(FrameModel::Data(data)),
        session_step(s, EventModel::ClientFrame { frame: FrameModel::Data(data) }, later) == (
            s,
            ActionModel::WritePty { data },
        ),
{
    lemma_arrives(FrameModel::Data(data));
    if c.keys.enabled {
        law_plain_bytes_pass(data);
    }
}

/// What the shell prints reaches the terminal of the attached client.
pub proof fn law_output_reaches_the_terminal(
    s: Session,
    c: ClientRelay,
    data: Seq<u8>,
    now: u64,
    later: u64,
)
    requires
        0 < data.len() <= MAX_FRAME_SIZE,
        s.phase == Phase::Relaying,
    ensures
        session_step(s, EventModel::PtyOutput { data }, now) == (
            s,
            ActionModel::Send { frame: FrameModel::Data(data) },
        ),
        arrives(FrameModel::Data(data)),
        client_step(c, ClientEventModel::Server { frame: FrameModel::Data(data) }, later) == (
            c,
            ClientActionModel::Print { data },
        ),
{
    lemma_arrives(FrameModel::Data(data));
}

/// A ping of the client comes back as a pong: the session notes the time, and the client
/// takes the connection for alive from then on.
pub proof fn law_heartbeat_comes_back(
    c: ClientRelay,
    s: Session,
    sent: u64,
    handled: u64,
    back: u64,
)
    requires
        s.phase == Phase::Relaying,
        sent - c.last_pong <= 15_000,
    ensures
        client_step(c, ClientEventModel::Tick, sent).1 == (ClientActionModel::Send {
            frame: FrameModel::Ping,
        }),
        arrives(FrameModel::Ping),
        session_step(s, EventModel::ClientFrame { frame: FrameModel::Ping }, handled) == (
            Session { phase: s.phase, last_heartbeat: handled },
            ActionModel::Send { frame: FrameModel::Pong },
        ),
        arrives(FrameModel::Pong),
        client_step(c, ClientEventModel::Server { frame: FrameModel::Pong }, back).0.last_pong
            == back,
{
    lemma_arrives(FrameModel::Ping);
    lemma_arrives(FrameModel::Pong);
}

/// The client exits with the code that the shell ended with, whether the session learns of
/// the shell's end at once or sees the terminal's end first and then the shell's in time.
pub proof fn law_exit_code_reaches_the_client(
    s: Session,
    c: ClientRelay,
    ended: EventModel,
    between: Seq<(EventModel, u64)>,
    code: i32,
    now: u64,
    later: u64,
)
    requires
        s.phase == Phase::Relaying,
        terminal_ended(ended),
        forall|i: int|
            0 <= i < between.len() ==> !((#[trigger] between[i]).0 is ShellExited)
                && !(between[i].0 is WaitExpired),
    ensures
        session_step(s, EventModel::ShellExited { code: Some(code) }, now).1 == (
        ActionModel::Finish { code }),
        session_step(
            after_events(session_step(s, ended, now).0, between),
            EventModel::ShellExited { code: Some(code) },
            later,
        ).1 == (ActionModel::Finish { code }),
        arrives(FrameModel::Exit { code }),
        client_step(c, ClientEventModel::Server { frame: FrameModel::Exit { code } }, later).1 == (
        ClientActionModel::Exit { code }),
{
    lemma_arrives(FrameModel::Exit { code });
    law_shell_is_awaited(s, ended, between, Some(code), now, later);
}

/// A client whose session is taken over is told so and exits in good order.
pub proof fn law_takeover_ends_the_old_client(s: Session, c: ClientRelay, now: u64, later: u64)
    requires
        s.phase == Phase::Relaying,
    ensures
        session_step(s, EventModel::ClientArrived, now).1 == (ActionModel::TakeOver {
            farewell: FrameModel::Detached,
        }),
        arrives(FrameModel::Detached),
        client_step(c, ClientEventModel::Server { frame: FrameModel::Detached }, later).1 == (
        ClientActionModel::Exit { code: 0 }),
{
    lemma_arrives(FrameModel::Detached);
}

/// The names and terminals in the table can stand in a listing.
pub open spec fn listable(d: DaemonModel) -> bool {
    forall|id: u32| #[trigger]
        d.sessions.contains_key(id) ==> {
            &&& d.sessions[id].name matches Some(n) ==> clean_field(n)
            &&& d.sessions[id].metadata matches Some(m) ==> clean_field(m.pty_path)
        }
}

/// The list of sessions arrives as the daemon made it, as long as it is not too large for
/// one frame and no name or terminal holds a tab or a newline.
pub proof fn law_list_arrives(d: DaemonModel)
    requires
        listable(d),
        fits(control_step(d, FrameModel::ListSessions).reply),
    ensures
        control_step(d, FrameModel::ListSessions).reply == (FrameModel::SessionInfo {
            sessions: report(reaped(d.sessions)),
        }),
        arrives(control_step(d, FrameModel::ListSessions).reply),
{
    let t = reaped(d.sessions);
    law_list_is_complete(t);
    let sessions = report(t);
    assert forall|i: int| 0 <= i < sessions.len() implies clean_entry(#[trigger] sessions[i]) by {
        let id = ids_of(t)[i];
        assert(sessions[i] == entry_for(id, t[id]));
        assert(t.contains_key(id));
        assert(d.sessions.contains_key(id));
        lemma_decimal_digits(id as nat);
        let digits = decimal(id as nat);
        assert forall|j: int| 0 <= j < digits.len() implies digits[j] != '\t' && digits[j]
            != '\n' by {
            assert(is_digit(digits[j]));
        }
        assert(clean_field(Seq::<char>::empty()));
    }
    lemma_arrives(FrameModel::SessionInfo { sessions });
}

/// A session that was just made stands in the next list, under its id and its name.
pub proof fn law_created_session_is_listed(d: DaemonModel, name: Seq<char>)
    requires
        in_order(d),
        d.next_id < u32::MAX,
        name.len() == 0 || !name_taken(d.sessions, name),
    ensures
        ({
            let made = control_step(d, FrameModel::NewSession { name });
            let listed = control_step(made.after, FrameModel::ListSessions).reply;
            &&& made.reply == (FrameModel::SessionCreated { id: decimal(d.next_id as nat) })
            &&& listed matches FrameModel::SessionInfo { sessions } && sessions.contains(
                EntryModel {
                    id: decimal(d.next_id as nat),
                    name,
                    pty_path: Seq::empty(),
                    shell_pid: 0,
                    created_at: 0,
                    attached: false,
                    last_heartbeat: 0,
                },
            )
        }),
{
    let made = control_step(d, FrameModel::NewSession { name });
    let t = reaped(made.after.sessions);
    let id = d.next_id;
    assert(made.after.sessions.contains_key(id));
    assert(t.contains_key(id));
    law_list_is_complete(t);
    assert(report(t).contains(entry_for(id, t[id])));
    if name.len() == 0 {
        assert(name =~= Seq::empty());
    }
}

} // verus!
