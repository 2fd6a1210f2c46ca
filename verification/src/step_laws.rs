//! The running parts of the library do what their steps say, and what is known of a value
//! is what it holds.

use std::collections::HashMap;

use bytes::BytesMut;
use vstd::prelude::*;
use vstd::utf8::encode_utf8;

use crate::buffer::{buffered, held};
use crate::client::{
    client_step, scan_bytes, write_step, ClientAction, ClientActionModel, ClientEvent,
    ClientEventModel, ClientRelay, EscapeReader, Scan, StdoutWrite, Typed, WriteAction, WriteEvent,
};
use crate::daemon::{
    control_step, id_left, in_order, lemma_ids_of, lemma_reaped, reap_sessions, reaped, resolve,
    shutdown, table, Action, ActionModel, Answer, Daemon, SessionState, Shutdown,
};
use crate::negotiation::{talk_step, Negotiation, Outcome, OutcomeModel};
use crate::paths::sibling;
use crate::protocol::{
    decode_step, frame_bytes, Frame, FrameCodec, FrameModel, ProtocolError, ProtocolErrorModel,
    SessionEntry,
};
use crate::security::{
    bind_step, dir_step, BindAction, BindEvent, Binding, DirAction, DirActionModel, DirEvent,
    DirWalk, SecurityError, SecurityErrorModel,
};
use crate::server::{
    session_step, ActionModel as StepModel, EventModel, Session, SessionAction, SessionEvent,
    SessionMetadata,
};
use crate::tunnel::{tunnel_step, TunnelAction, TunnelEvent, TunnelMonitor};

verus! {

// ---------------------------------------------------------------------------
// Sessions and clients
// ---------------------------------------------------------------------------

/// A session goes from state to state, and acts, as its step says.
pub proof fn law_session_takes_its_steps(
    s: &mut Session,
    e: SessionEvent,
    now: u64,
    a: SessionAction,
)
    requires
        call_ensures(Session::step, (s, e, now), a),
    ensures
        *final(s) == session_step(*old(s), e@, now).0,
        a@ == session_step(*old(s), e@, now).1,
{
}

/// A client goes from state to state, and acts, as its step says.
pub proof fn law_client_takes_its_steps(
    c: &mut ClientRelay,
    e: ClientEvent,
    now: u64,
    a: ClientAction,
)
    requires
        call_ensures(ClientRelay::step, (c, e, now), a),
    ensures
        *final(c) == client_step(*old(c), e@, now).0,
        a@ == client_step(*old(c), e@, now).1,
{
}

/// The keyboard is read as the scan of its bytes says, from where it was left; without
/// escape sequences every byte is forwarded and nothing is held back.
pub proof fn law_keyboard_is_read(k: &mut EscapeReader, input: &[u8], t: Typed)
    requires
        call_ensures(EscapeReader::read, (k, input), t),
    ensures
        ({
            let s = scan_bytes(
                Scan {
                    forward: Seq::empty(),
                    helps: 0,
                    detach: false,
                    pending: old(k).pending,
                },
                input@,
            );
            &&& final(k).enabled == old(k).enabled
            &&& old(k).enabled ==> {
                &&& t.forward@ == s.forward
                &&& t.help <==> s.helps > 0
                &&& t.detach <==> s.detach
                &&& final(k).pending <==> s.pending
            }
            &&& !old(k).enabled ==> {
                &&& t.forward@ == input@
                &&& !t.help
                &&& !t.detach
                &&& final(k).pending == old(k).pending
            }
        }),
{
}

/// Writing goes on as its step says.
pub proof fn law_writing_takes_its_steps(w: &mut StdoutWrite, e: WriteEvent, a: WriteAction)
    requires
        call_ensures(StdoutWrite::step, (w, e), a),
    ensures
        *final(w) == write_step(*old(w), e).0,
        a == write_step(*old(w), e).1,
{
}

// ---------------------------------------------------------------------------
// The daemon
// ---------------------------------------------------------------------------

/// The daemon answers a request, and changes its table, as its step says.
pub proof fn law_daemon_takes_its_steps(d: &mut Daemon, f: Frame, a: Answer)
    requires
        in_order(old(d)@),
        id_left(old(d)@, f@),
        call_ensures(Daemon::handle, (d, f), a),
    ensures
        final(d)@ == control_step(old(d)@, f@).after,
        a.reply@ == control_step(old(d)@, f@).reply,
        a.action@ == control_step(old(d)@, f@).action,
{
}

/// What the daemon finds for a target is what the target stands for.
pub proof fn law_daemon_resolves(d: Daemon, target: &str, r: Option<u32>)
    requires
        call_ensures(Daemon::resolve, (&d, target), r),
    ensures
        r == resolve(d@.sessions, target@),
{
}

/// A look at a session replaces what the daemon knows of it, but for its name, and touches
/// no other.
pub proof fn law_daemon_observes(
    d: &mut Daemon,
    id: u32,
    m: Option<SessionMetadata>,
    finished: bool,
    closed: bool,
    x: u32,
)
    requires
        in_order(old(d)@),
        call_ensures(Daemon::observe, (d, id, m, finished, closed), ()),
    ensures
        ({
            let before = old(d)@.sessions;
            let after = final(d)@.sessions;
            &&& final(d)@.next_id == old(d)@.next_id
            &&& after.contains_key(x) <==> before.contains_key(x)
            &&& before.contains_key(x) && x != id ==> after[x] == before[x]
            &&& before.contains_key(id) ==> {
                &&& after[id].name == before[id].name
                &&& m matches Some(known) ==> after[id].metadata == Some(known@)
                &&& m is None ==> after[id].metadata is None
                &&& after[id].finished == finished
                &&& after[id].closed == closed
            }
        }),
{
}

/// Reaping takes exactly the sessions that have ended out of the table.
pub proof fn law_daemon_reaps(
    d: &mut Daemon,
    sessions: &mut HashMap<u32, SessionState>,
    x: u32,
)
    requires
        in_order(old(d)@),
        call_ensures(Daemon::reap, (d,), ()),
        call_ensures(reap_sessions, (sessions,), ()),
    ensures
        final(d)@.next_id == old(d)@.next_id,
        final(d)@.sessions.contains_key(x) <==> old(d)@.sessions.contains_key(x)
            && !old(d)@.sessions[x].finished,
        final(d)@.sessions.contains_key(x) ==> final(d)@.sessions[x] == old(d)@.sessions[x],
        final(sessions)@.contains_key(x) <==> old(sessions)@.contains_key(x)
            && !old(sessions)@[x].finished,
        final(sessions)@.contains_key(x) ==> final(sessions)@[x]@ == old(sessions)@[x]@,
{
    lemma_reaped(old(d)@.sessions);
    let before = table(old(sessions)@);
    let after = table(final(sessions)@);
    lemma_reaped(before);
    assert(after.contains_key(x) <==> reaped(before).contains_key(x));
    assert(before.contains_key(x) <==> old(sessions)@.contains_key(x));
    assert(after.contains_key(x) <==> final(sessions)@.contains_key(x));
}

/// Shutting down aborts every session, in ascending order of the ids, empties the table and
/// removes the daemon's two files.
pub proof fn law_daemon_shuts_down(
    d: &mut Daemon,
    sessions: &mut HashMap<u32, SessionState>,
    ctl: &[u8],
    s: Shutdown,
    q: Shutdown,
    x: u32,
)
    requires
        call_ensures(Daemon::shutdown, (d, ctl), s),
        call_ensures(shutdown, (sessions, ctl), q),
    ensures
        !final(d)@.sessions.contains_key(x),
        final(d)@.next_id == old(d)@.next_id,
        s.aborted@.contains(x) <==> old(d)@.sessions.contains_key(x),
        forall|i: int, j: int| 0 <= i < j < s.aborted@.len() ==> s.aborted@[i] < s.aborted@[j],
        s.files@.len() == 2,
        s.files@[0]@ == ctl@,
        s.files@[1]@ == sibling(ctl@, encode_utf8("daemon.pid"@)),
        !final(sessions)@.contains_key(x),
        q.aborted@.contains(x) <==> old(sessions)@.contains_key(x),
        forall|i: int, j: int| 0 <= i < j < q.aborted@.len() ==> q.aborted@[i] < q.aborted@[j],
        q.files@.len() == 2,
        q.files@[0]@ == ctl@,
        q.files@[1]@ == sibling(ctl@, encode_utf8("daemon.pid"@)),
{
    lemma_ids_of(old(d)@.sessions);
    let before = table(old(sessions)@);
    let after = table(final(sessions)@);
    lemma_ids_of(before);
    assert(before.contains_key(x) <==> old(sessions)@.contains_key(x));
    assert(after.contains_key(x) <==> final(sessions)@.contains_key(x));
}

// ---------------------------------------------------------------------------
// The wire, the talk, the tunnel and the file system
// ---------------------------------------------------------------------------

/// Encoding puts the bytes of the frame behind what stands in the buffer, and does not
/// fail.
pub proof fn law_encoding_appends(
    c: &mut FrameCodec,
    f: Frame,
    dst: &mut BytesMut,
    r: Result<(), ProtocolError>,
)
    requires
        call_ensures(FrameCodec::encode, (c, f, dst), r),
    ensures
        r is Ok,
        buffered(*final(dst)) == buffered(*old(dst)) + frame_bytes(f@),
{
}

/// Decoding gives what its step says, and leaves the bytes that its step leaves.
pub proof fn law_decoding_takes_its_steps(
    c: &mut FrameCodec,
    src: &mut BytesMut,
    r: Result<Option<Frame>, ProtocolError>,
)
    requires
        call_ensures(FrameCodec::decode, (c, src), r),
    ensures
        buffered(*final(src)) == decode_step(buffered(*old(src))).1,
        match decode_step(buffered(*old(src))).0 {
            Ok(Some(f)) => r matches Ok(Some(g)) && g@ == f,
            Ok(None) => r matches Ok(None),
            Err(e) => r matches Err(x) && x@ == e,
        },
{
}

/// The talk about a session goes on as its step says.
pub proof fn law_talk_takes_its_steps(
    n: &mut Negotiation,
    reply: Option<Result<Frame, String>>,
    o: Outcome,
)
    requires
        call_ensures(Negotiation::reply, (n, reply), o),
    ensures
        ({
            let said: Option<Result<FrameModel, Seq<char>>> = match reply {
                Some(Ok(f)) => Some(Ok(f@)),
                Some(Err(e)) => Some(Err(e@)),
                None => None,
            };
            &&& final(n)@ == talk_step(old(n)@, said).0
            &&& o@ == talk_step(old(n)@, said).1
            &&& final(n)@.session_name == final(n).session_name@
            &&& final(n)@.attaching == final(n).attaching
        }),
{
}

/// The watch over the tunnel goes on as its step says.
pub proof fn law_watch_takes_its_steps(m: &mut TunnelMonitor, e: TunnelEvent, a: TunnelAction)
    requires
        call_ensures(TunnelMonitor::step, (m, e), a),
    ensures
        final(m).exit_times@ == tunnel_step(old(m).exit_times@, e).0,
        a == tunnel_step(old(m).exit_times@, e).1,
{
}

/// The walk along a path, and the binding of a socket, go on as their steps say.
pub proof fn law_walk_and_binding_take_their_steps(
    w: &mut DirWalk,
    xdg: Option<&str>,
    uid: u32,
    e: DirEvent,
    a: DirAction,
    b: &mut Binding,
    event: BindEvent,
    action: BindAction,
)
    requires
        call_ensures(DirWalk::step, (w, xdg, uid, e), a),
        call_ensures(Binding::step, (b, event), action),
    ensures
        ({
            let dir: Option<Seq<char>> = match xdg {
                Some(x) => Some(x@),
                None => None,
            };
            &&& final(w)@ == dir_step(old(w)@, dir, uid, e).0
            &&& a@ == dir_step(old(w)@, dir, uid, e).1
        }),
        *final(b) == bind_step(*old(b), event).0,
        action == bind_step(*old(b), event).1,
{
}

// ---------------------------------------------------------------------------
// What is known of a value
// ---------------------------------------------------------------------------

/// What is known of a frame is its kind and everything that it carries.
pub proof fn law_what_is_known_of_a_frame(f: Frame)
    ensures
        match f {
            Frame::Data(data) => f@ == FrameModel::Data(held(data)),
            Frame::Resize { cols, rows } => f@ == (FrameModel::Resize { cols, rows }),
            Frame::Exit { code } => f@ == (FrameModel::Exit { code }),
            Frame::Detached => f@ == FrameModel::Detached,
            Frame::Ping => f@ == FrameModel::Ping,
            Frame::Pong => f@ == FrameModel::Pong,
            Frame::Env { vars } => f@ matches FrameModel::Env { vars: v } && v.len() == vars@.len()
                && forall|i: int|
                0 <= i < v.len() ==> (#[trigger] v[i]).0 == vars@[i].0@ && v[i].1 == vars@[i].1@,
            Frame::NewSession { name } => f@ == (FrameModel::NewSession { name: name@ }),
            Frame::Attach { session } => f@ == (FrameModel::Attach { session: session@ }),
            Frame::ListSessions => f@ == FrameModel::ListSessions,
            Frame::KillSession { session } => f@ == (FrameModel::KillSession {
                session: session@,
            }),
            Frame::KillServer => f@ == FrameModel::KillServer,
            Frame::SessionCreated { id } => f@ == (FrameModel::SessionCreated { id: id@ }),
            Frame::SessionInfo { sessions } => f@ matches FrameModel::SessionInfo { sessions: v }
                && v.len() == sessions@.len() && forall|i: int|
                0 <= i < v.len() ==> (#[trigger] v[i]) == sessions@[i]@,
            Frame::Okay => f@ == FrameModel::Okay,
            Frame::Error { message } => f@ == (FrameModel::Error { message: message@ }),
        },
{
}

/// What is known of an entry, of metadata and of a session's state is each of their parts.
pub proof fn law_what_is_known_of_a_session(e: SessionEntry, m: SessionMetadata, s: SessionState)
    ensures
        e@.id == e.id@,
        e@.name == e.name@,
        e@.pty_path == e.pty_path@,
        e@.shell_pid == e.shell_pid,
        e@.created_at == e.created_at,
        e@.attached == e.attached,
        e@.last_heartbeat == e.last_heartbeat,
        m@.pty_path == m.pty_path@,
        m@.shell_pid == m.shell_pid,
        m@.created_at == m.created_at,
        m@.attached == m.attached,
        m@.last_heartbeat == m.last_heartbeat,
        s.name is None <==> s@.name is None,
        s.name matches Some(n) ==> s@.name == Some(n@),
        s.metadata is None <==> s@.metadata is None,
        s.metadata matches Some(k) ==> s@.metadata == Some(k@),
        s@.finished == s.finished,
        s@.closed == s.closed,
{
}

/// What is known of an event of a session, and of what it does on one, is its kind and
/// everything that it carries.
pub proof fn law_what_is_known_of_a_step(e: SessionEvent, a: SessionAction)
    ensures
        match e {
            SessionEvent::ClientArrived => e@ is ClientArrived,
            SessionEvent::ClientFrame { frame } => e@ == (EventModel::ClientFrame {
                frame: frame@,
            }),
            SessionEvent::ClientClosed => e@ is ClientClosed,
            SessionEvent::ClientFailed { invalid } => e@ == (EventModel::ClientFailed { invalid }),
            SessionEvent::SendFailed => e@ is SendFailed,
            SessionEvent::PtyOutput { data } => e@ == (EventModel::PtyOutput { data: data@ }),
            SessionEvent::PtyFailed { hangup } => e@ == (EventModel::PtyFailed { hangup }),
            SessionEvent::ShellExited { code } => e@ == (EventModel::ShellExited { code }),
            SessionEvent::WaitExpired => e@ is WaitExpired,
        },
        match a {
            SessionAction::Nothing => a@ is Nothing,
            SessionAction::Adopt => a@ is Adopt,
            SessionAction::TakeOver { farewell } => a@ == (StepModel::TakeOver {
                farewell: farewell@,
            }),
            SessionAction::WritePty { data } => a@ == (StepModel::WritePty { data: held(data) }),
            SessionAction::SetSize { cols, rows } => a@ == (StepModel::SetSize { cols, rows }),
            SessionAction::Send { frame } => a@ == (StepModel::Send { frame: frame@ }),
            SessionAction::DropClient => a@ is DropClient,
            SessionAction::AwaitShell { ms } => a@ == (StepModel::AwaitShell { ms }),
            SessionAction::Finish { code } => a@ == (StepModel::Finish { code }),
            SessionAction::End => a@ is End,
            SessionAction::Fail => a@ is Fail,
        },
{
}

/// What is known of an event of a client, and of what it does on one, is its kind and
/// everything that it carries.
pub proof fn law_what_is_known_of_a_client_step(e: ClientEvent, a: ClientAction)
    ensures
        match e {
            ClientEvent::Keys { data } => e@ == (ClientEventModel::Keys { data: data@ }),
            ClientEvent::KeysFailed => e@ is KeysFailed,
            ClientEvent::Server { frame } => e@ == (ClientEventModel::Server { frame: frame@ }),
            ClientEvent::ServerLost => e@ is ServerLost,
            ClientEvent::Resized { cols, rows } => e@ == (ClientEventModel::Resized {
                cols,
                rows,
            }),
            ClientEvent::Tick => e@ is Tick,
            ClientEvent::SendFailed => e@ is SendFailed,
        },
        match a {
            ClientAction::Nothing => a@ is Nothing,
            ClientAction::Typed { frame, help, detach } => {
                &&& frame is None ==> a@ == (ClientActionModel::Typed {
                    frame: None,
                    help,
                    detach,
                })
                &&& frame matches Some(f) ==> a@ == (ClientActionModel::Typed {
                    frame: Some(f@),
                    help,
                    detach,
                })
            },
            ClientAction::Send { frame } => a@ == (ClientActionModel::Send { frame: frame@ }),
            ClientAction::Print { data } => a@ == (ClientActionModel::Print { data: held(data) }),
            ClientAction::Exit { code } => a@ == (ClientActionModel::Exit { code }),
            ClientAction::Reconnect => a@ is Reconnect,
            ClientAction::Fail => a@ is Fail,
        },
{
}

/// What is known of what the daemon does is its kind and everything that it carries.
pub proof fn law_what_is_known_of_an_action(a: Action)
    ensures
        match a {
            Action::Nothing => a@ == ActionModel::Nothing,
            Action::Start { id, name } => {
                &&& name is None ==> a@ == (ActionModel::Start { id, name: None })
                &&& name matches Some(n) ==> a@ == (ActionModel::Start { id, name: Some(n@) })
            },
            Action::HandOver { id } => a@ == (ActionModel::HandOver { id }),
            Action::Abort { id } => a@ == (ActionModel::Abort { id }),
            Action::Stop { aborted } => a@ == (ActionModel::Stop { aborted: aborted@ }),
        },
{
}

/// What is known of an outcome of a talk is its kind and everything that it carries.
pub proof fn law_what_is_known_of_an_outcome(o: Outcome)
    ensures
        match o {
            Outcome::Send { frame } => o@ == (OutcomeModel::Send { frame: frame@ }),
            Outcome::Attached { label, notice } => o@ == (OutcomeModel::Attached {
                label: label@,
                notice: notice@,
            }),
            Outcome::Created { label, notice } => o@ == (OutcomeModel::Created {
                label: label@,
                notice: notice@,
            }),
            Outcome::Failed { message } => o@ == (OutcomeModel::Failed { message: message@ }),
            Outcome::Unexpected { frame } => o@ == (OutcomeModel::Unexpected { frame: frame@ }),
        },
{
}

/// What is known of an error is its kind and everything that it names.
pub proof fn law_what_is_known_of_an_error(p: ProtocolError, s: SecurityError, d: DirAction)
    ensures
        match p {
            ProtocolError::TooLarge { len } => p@ == (ProtocolErrorModel::TooLarge {
                len: len as int,
            }),
            ProtocolError::ResizeSize => p@ is ResizeSize,
            ProtocolError::ExitSize => p@ is ExitSize,
            ProtocolError::InvalidUtf8 { detail } => p@ == (ProtocolErrorModel::InvalidUtf8 {
                detail: detail@,
            }),
            ProtocolError::UnknownType { ty } => p@ == (ProtocolErrorModel::UnknownType { ty }),
        },
        match s {
            SecurityError::Symlink { path } => s@ == (SecurityErrorModel::Symlink { path: path@ }),
            SecurityError::NotDirectory { path } => s@ == (SecurityErrorModel::NotDirectory {
                path: path@,
            }),
            SecurityError::ForeignOwner { path, owner, expected } => s@ == (
            SecurityErrorModel::ForeignOwner { path: path@, owner, expected }),
            SecurityError::InUse { path } => s@ == (SecurityErrorModel::InUse { path: path@ }),
            SecurityError::ForeignPeer { peer, expected } => s@ == (
            SecurityErrorModel::ForeignPeer { peer, expected }),
        },
        match d {
            DirAction::Probe { path } => d@ == (DirActionModel::Probe { path: path@ }),
            DirAction::Inspect { path } => d@ == (DirActionModel::Inspect { path: path@ }),
            DirAction::Create { path, mode } => d@ == (DirActionModel::Create {
                path: path@,
                mode,
            }),
            DirAction::Done => d@ is Done,
            DirAction::Refuse { error } => d@ == (DirActionModel::Refuse { error: error@ }),
        },
{
}

// ---------------------------------------------------------------------------
// What is accepted
// ---------------------------------------------------------------------------

/// A daemon whose table is in order takes every request for which an id is left, every look
/// at a session and every target.
pub proof fn law_daemon_takes_every_request(
    d: &mut Daemon,
    f: Frame,
    id: u32,
    m: Option<SessionMetadata>,
    finished: bool,
    closed: bool,
    target: &str,
)
    requires
        in_order(old(d)@),
    ensures
        !(f is NewSession) || old(d)@.next_id < u32::MAX ==> call_requires(Daemon::handle, (d, f)),
        call_requires(Daemon::observe, (d, id, m, finished, closed)),
        call_requires(Daemon::reap, (d,)),
        call_requires(Daemon::resolve, (&*old(d), target)),
{
}

} // verus!
