//! One session: the shell behind a pseudo-terminal, and whichever client is attached.

use bytes::Bytes;
use vstd::prelude::*;
use vstd::slice::slice_subrange;

use crate::buffer::held;
use crate::protocol::{pairs, Frame, FrameModel};
use crate::security::{clamp_winsize, clamped};
use crate::text::{chars_of, find_last, last_at, push_char, text_of};

verus! {

/// What is known of a session's shell once it runs.
#[derive(Debug, Clone, PartialEq, Eq)]
pub struct SessionMetadata {
    pub pty_path: String,
    pub shell_pid: u32,
    pub created_at: u64,
    pub attached: bool,
    pub last_heartbeat: u64,
}

/// The metadata as a mathematical value.
#[verifier::ext_equal]
pub struct MetadataModel {
    pub pty_path: Seq<char>,
    pub shell_pid: u32,
    pub created_at: u64,
    pub attached: bool,
    pub last_heartbeat: u64,
}

impl View for SessionMetadata {
    type V = MetadataModel;

    open spec fn view(&self) -> MetadataModel {
        MetadataModel {
            pty_path: self.pty_path@,
            shell_pid: self.shell_pid,
            created_at: self.created_at,
            attached: self.attached,
            last_heartbeat: self.last_heartbeat,
        }
    }
}

// ---------------------------------------------------------------------------
// Starting the shell
// ---------------------------------------------------------------------------

/// How long a new session waits for the first frame of its client, in milliseconds.
pub const FIRST_FRAME_WAIT_MS: u64 = 200;

/// How long a session whose terminal has ended waits for its shell to end, in milliseconds.
pub const SHELL_WAIT_MS: u64 = 1_000;

/// What the first client of a session did first.
#[derive(Debug)]
pub enum FirstFrame {
    /// It sent this frame.
    Frame { frame: Frame },
    /// It went away.
    Closed,
    /// The connection failed. `invalid` says whether what it sent could not be understood.
    Failed { invalid: bool },
    /// It sent nothing in time.
    TimedOut,
}

/// The variables that the shell is started with, and what is still to be handled
/// afterwards.
#[derive(Debug)]
pub struct Startup {
    pub vars: Vec<(String, String)>,
    pub pending: Option<SessionEvent>,
}

/// The variables in the first frame; they count only when they come first.
pub open spec fn startup_vars(first: FirstFrame) -> Seq<(Seq<char>, Seq<char>)> {
    match first {
        FirstFrame::Frame { frame } => match frame@ {
            FrameModel::Env { vars } => vars,
            _ => Seq::empty(),
        },
        _ => Seq::empty(),
    }
}

/// What is still to be handled once the shell runs.
pub open spec fn startup_pending(first: FirstFrame) -> Option<EventModel> {
    match first {
        FirstFrame::Frame { frame } => match frame@ {
            FrameModel::Env { .. } => None,
            f => Some(EventModel::ClientFrame { frame: f }),
        },
        FirstFrame::Closed => Some(EventModel::ClientClosed),
        FirstFrame::Failed { invalid } => Some(EventModel::ClientFailed { invalid }),
        FirstFrame::TimedOut => None,
    }
}

/// Decides what the shell is started with, from what its first client did first.
pub fn startup(first: FirstFrame) -> (s: Startup)
    ensures
        pairs(s.vars@) == startup_vars(first),
        opt_event(s.pending) == startup_pending(first),
{
    let none: Vec<(String, String)> = Vec::new();
    proof {
        assert(pairs(none@) =~= Seq::empty());
    }
    match first {
        FirstFrame::Frame { frame } => {
            match frame {
                Frame::Env { vars } => Startup { vars, pending: None },
                other => Startup {
                    vars: none,
                    pending: Some(SessionEvent::ClientFrame { frame: other }),
                },
            }
        },
        FirstFrame::Closed => Startup { vars: none, pending: Some(SessionEvent::ClientClosed) },
        FirstFrame::Failed { invalid } => Startup {
            vars: none,
            pending: Some(SessionEvent::ClientFailed { invalid }),
        },
        FirstFrame::TimedOut => Startup { vars: none, pending: None },
    }
}

/// How the shell is started.
#[derive(Debug, Clone, PartialEq, Eq)]
pub struct ShellPlan {
    pub program: String,
    /// The name under which the shell is started; the dash in front makes it a login
    /// shell.
    pub arg0: String,
    /// The directory in which the shell starts, where one is known.
    pub dir: Option<String>,
}

/// The program that is the shell.
pub open spec fn shell_program(shell: Option<Seq<char>>) -> Seq<char> {
    match shell {
        Some(s) => s,
        None => "/bin/sh"@,
    }
}

/// The text of an optional string.
pub open spec fn opt_string(s: Option<String>) -> Option<Seq<char>> {
    match s {
        Some(t) => Some(t@),
        None => None,
    }
}

/// Plans the start of the shell from the values of `SHELL` and `HOME`.
pub fn shell_plan(shell: Option<String>, home: Option<String>) -> (p: ShellPlan)
    ensures
        p.program@ == shell_program(opt_string(shell)),
        p.arg0@ == seq!['-'] + p.program@.skip(last_at(p.program@, '/') + 1),
        p.dir == home,
{
    let program: String = match shell {
        Some(s) => s,
        None => "/bin/sh".to_owned(),
    };
    let chars = chars_of(program.as_str());
    let all: &[char] = chars.as_slice();
    let end: usize = all.len();
    let start: usize = match find_last(all, '/') {
        Some(i) => i + 1,
        None => 0,
    };
    let name = slice_subrange(all, start, end);
    let mut arg0: String = String::new();
    push_char(&mut arg0, '-');
    arg0.append(text_of(name).as_str());
    proof {
        assert(name@ =~= program@.skip(last_at(program@, '/') + 1));
        assert(arg0@ =~= seq!['-'] + name@);
    }
    ShellPlan { program, arg0, dir: home }
}

// ---------------------------------------------------------------------------
// Relaying
// ---------------------------------------------------------------------------

/// Where a session stands.
#[derive(Debug, Clone, Copy, PartialEq, Eq, Structural)]
pub enum Phase {
    /// The shell runs and no client is attached.
    Waiting,
    /// A client is attached.
    Relaying,
    /// A client is attached, the terminal is at its end, and the shell's own end is still
    /// to come.
    Closing,
    /// The session is over.
    Over,
}

/// What happens to a session.
#[derive(Debug)]
pub enum SessionEvent {
    /// A client was handed over.
    ClientArrived,
    /// The client sent a frame.
    ClientFrame { frame: Frame },
    /// The client went away.
    ClientClosed,
    /// The connection to the client failed. `invalid` says whether what the client sent
    /// could not be understood.
    ClientFailed { invalid: bool },
    /// The client takes nothing more.
    SendFailed,
    /// The terminal was read. Where nothing was there to read, it is at its end.
    PtyOutput { data: Vec<u8> },
    /// The terminal could not be read or written. `hangup` says whether its other side is gone, as
    /// it is when the shell has ended.
    PtyFailed { hangup: bool },
    /// The shell ended, with a code unless a signal ended it.
    ShellExited { code: Option<i32> },
    /// The shell did not end within the time that was given for it.
    WaitExpired,
}

/// What a session does about it.
#[derive(Debug)]
pub enum SessionAction {
    /// Nothing.
    Nothing,
    /// Relay between the new client and the terminal.
    Adopt,
    /// Tell the old client that it is detached, and relay for the new one.
    TakeOver { farewell: Frame },
    /// Write to the terminal.
    WritePty { data: Bytes },
    /// Set the size of the terminal.
    SetSize { cols: u16, rows: u16 },
    /// Send this to the client.
    Send { frame: Frame },
    /// Forget the client and wait for another.
    DropClient,
    /// Wait for the shell to end, and for nothing else, for this many milliseconds.
    AwaitShell { ms: u64 },
    /// Tell the client the exit code, and end.
    Finish { code: i32 },
    /// End without a client to tell.
    End,
    /// End with an error.
    Fail,
}

/// An event as a mathematical value.
#[verifier::ext_equal]
pub enum EventModel {
    ClientArrived,
    ClientFrame { frame: FrameModel },
    ClientClosed,
    ClientFailed { invalid: bool },
    SendFailed,
    PtyOutput { data: Seq<u8> },
    PtyFailed { hangup: bool },
    ShellExited { code: Option<i32> },
    WaitExpired,
}

/// An action as a mathematical value.
#[verifier::ext_equal]
pub enum ActionModel {
    Nothing,
    Adopt,
    TakeOver { farewell: FrameModel },
    WritePty { data: Seq<u8> },
    SetSize { cols: u16, rows: u16 },
    Send { frame: FrameModel },
    DropClient,
    AwaitShell { ms: u64 },
    Finish { code: i32 },
    End,
    Fail,
}

impl View for SessionEvent {
    type V = EventModel;

    open spec fn view(&self) -> EventModel {
        match self {
            SessionEvent::ClientArrived => EventModel::ClientArrived,
            SessionEvent::ClientFrame { frame } => EventModel::ClientFrame { frame: frame@ },
            SessionEvent::ClientClosed => EventModel::ClientClosed,
            SessionEvent::ClientFailed { invalid } => EventModel::ClientFailed {
                invalid: *invalid,
            },
            SessionEvent::SendFailed => EventModel::SendFailed,
            SessionEvent::PtyOutput { data } => EventModel::PtyOutput { data: data@ },
            SessionEvent::PtyFailed { hangup } => EventModel::PtyFailed { hangup: *hangup },
            SessionEvent::ShellExited { code } => EventModel::ShellExited { code: *code },
            SessionEvent::WaitExpired => EventModel::WaitExpired,
        }
    }
}

/// The model of an optional event.
pub open spec fn opt_event(e: Option<SessionEvent>) -> Option<EventModel> {
    match e {
        Some(e) => Some(e@),
        None => None,
    }
}

impl View for SessionAction {
    type V = ActionModel;

    open spec fn view(&self) -> ActionModel {
        match self {
            SessionAction::Nothing => ActionModel::Nothing,
            SessionAction::Adopt => ActionModel::Adopt,
            SessionAction::TakeOver { farewell } => ActionModel::TakeOver { farewell: farewell@ },
            SessionAction::WritePty { data } => ActionModel::WritePty { data: held(*data) },
            SessionAction::SetSize { cols, rows } => ActionModel::SetSize {
                cols: *cols,
                rows: *rows,
            },
            SessionAction::Send { frame } => ActionModel::Send { frame: frame@ },
            SessionAction::DropClient => ActionModel::DropClient,
            SessionAction::AwaitShell { ms } => ActionModel::AwaitShell { ms: *ms },
            SessionAction::Finish { code } => ActionModel::Finish { code: *code },
            SessionAction::End => ActionModel::End,
            SessionAction::Fail => ActionModel::Fail,
        }
    }
}

/// A session: where it stands, and when its client last gave a sign of life, in seconds.
#[derive(Debug, Clone, Copy, PartialEq, Eq, Structural)]
pub struct Session {
    pub phase: Phase,
    pub last_heartbeat: u64,
}

/// The code that stands for a shell's end; a signal counts as failure.
pub open spec fn code_or_failure(code: Option<i32>) -> i32 {
    match code {
        Some(c) => c,
        None => 1,
    }
}

/// The session in another phase.
pub open spec fn in_phase(s: Session, phase: Phase) -> Session {
    Session { phase, last_heartbeat: s.last_heartbeat }
}

/// A client is attached.
pub open spec fn is_attached(s: Session) -> bool {
    s.phase == Phase::Relaying || s.phase == Phase::Closing
}

/// The terminal is read.
pub open spec fn reads(s: Session) -> bool {
    s.phase == Phase::Relaying
}

/// What is known of the session's shell, brought up to date.
pub open spec fn refreshed(s: Session, m: MetadataModel) -> MetadataModel {
    MetadataModel { attached: is_attached(s), last_heartbeat: s.last_heartbeat, ..m }
}

/// What a frame of the attached client does. A window size is brought into the sane range.
pub open spec fn frame_step(s: Session, f: FrameModel, now: u64) -> (Session, ActionModel) {
    match f {
        FrameModel::Data(data) => (s, ActionModel::WritePty { data }),
        FrameModel::Resize { cols, rows } => (
            s,
            ActionModel::SetSize { cols: clamped(cols), rows: clamped(rows) },
        ),
        FrameModel::Ping => (
            Session { phase: s.phase, last_heartbeat: now },
            ActionModel::Send { frame: FrameModel::Pong },
        ),
        FrameModel::Exit { .. } => (in_phase(s, Phase::Waiting), ActionModel::DropClient),
        _ => (s, ActionModel::Nothing),
    }
}

/// Where a session stands after an event at the time `now`, and what it does.
pub open spec fn session_step(s: Session, e: EventModel, now: u64) -> (Session, ActionModel) {
    match s.phase {
        Phase::Over => (s, ActionModel::Nothing),
        Phase::Closing => match e {
            EventModel::ShellExited { code } => (
                in_phase(s, Phase::Over),
                ActionModel::Finish { code: code_or_failure(code) },
            ),
            EventModel::WaitExpired => (
                in_phase(s, Phase::Over),
                ActionModel::Finish { code: 0 },
            ),
            _ => (s, ActionModel::Nothing),
        },
        Phase::Waiting => match e {
            EventModel::ClientArrived => (in_phase(s, Phase::Relaying), ActionModel::Adopt),
            EventModel::ShellExited { .. } => (in_phase(s, Phase::Over), ActionModel::End),
            _ => (s, ActionModel::Nothing),
        },
        Phase::Relaying => match e {
            EventModel::ClientArrived => (
                s,
                ActionModel::TakeOver { farewell: FrameModel::Detached },
            ),
            EventModel::ClientFrame { frame } => frame_step(s, frame, now),
            EventModel::ClientClosed => (in_phase(s, Phase::Waiting), ActionModel::DropClient),
            EventModel::ClientFailed { invalid } => if invalid {
                (in_phase(s, Phase::Over), ActionModel::Fail)
            } else {
                (in_phase(s, Phase::Waiting), ActionModel::DropClient)
            },
            EventModel::SendFailed => (in_phase(s, Phase::Waiting), ActionModel::DropClient),
            EventModel::PtyOutput { data } => if data.len() == 0 {
                (in_phase(s, Phase::Closing), ActionModel::AwaitShell { ms: SHELL_WAIT_MS })
            } else {
                (s, ActionModel::Send { frame: FrameModel::Data(data) })
            },
            EventModel::PtyFailed { hangup } => if hangup {
                (in_phase(s, Phase::Closing), ActionModel::AwaitShell { ms: SHELL_WAIT_MS })
            } else {
                (in_phase(s, Phase::Over), ActionModel::Fail)
            },
            EventModel::ShellExited { code } => (
                in_phase(s, Phase::Over),
                ActionModel::Finish { code: code_or_failure(code) },
            ),
            EventModel::WaitExpired => (s, ActionModel::Nothing),
        },
    }
}

impl Session {
    /// A session whose shell runs and that no client is attached to.
    pub fn new() -> (s: Session)
        ensures
            s == (Session { phase: Phase::Waiting, last_heartbeat: 0 }),
    {
        Session { phase: Phase::Waiting, last_heartbeat: 0 }
    }

    /// Whether a client is attached.
    pub fn attached(&self) -> (r: bool)
        ensures
            r == is_attached(*self),
    {
        match self.phase {
            Phase::Relaying => true,
            Phase::Closing => true,
            _ => false,
        }
    }

    /// Whether the terminal is to be read. As long as no client is attached it is not, so
    /// that what the shell prints stays where it is.
    pub fn reads_terminal(&self) -> (r: bool)
        ensures
            r == reads(*self),
            r == (self.phase == Phase::Relaying),
    {
        match self.phase {
            Phase::Relaying => true,
            _ => false,
        }
    }

    /// Brings up to date what is known of the session's shell: whether a client is attached
    /// and when it last gave a sign of life. The rest stays.
    pub fn refresh(&self, metadata: SessionMetadata) -> (m: SessionMetadata)
        ensures
            m@ == refreshed(*self, metadata@),
    {
        SessionMetadata {
            pty_path: metadata.pty_path,
            shell_pid: metadata.shell_pid,
            created_at: metadata.created_at,
            attached: self.attached(),
            last_heartbeat: self.last_heartbeat,
        }
    }

    /// Handles an event at the time `now`, in seconds.
    pub fn step(&mut self, event: SessionEvent, now: u64) -> (a: SessionAction)
        ensures
            (*final(self), a@) == session_step(*old(self), event@, now),
    {
        match self.phase {
            Phase::Over => SessionAction::Nothing,
            Phase::Closing => {
                match event {
                    SessionEvent::ShellExited { code } => self.shell_exited(code),
                    SessionEvent::WaitExpired => {
                        self.phase = Phase::Over;
                        SessionAction::Finish { code: 0 }
                    },
                    _ => SessionAction::Nothing,
                }
            },
            Phase::Waiting => {
                match event {
                    SessionEvent::ClientArrived => {
                        self.phase = Phase::Relaying;
                        SessionAction::Adopt
                    },
                    SessionEvent::ShellExited { .. } => {
                        self.phase = Phase::Over;
                        SessionAction::End
                    },
                    _ => SessionAction::Nothing,
                }
            },
            Phase::Relaying => {
                match event {
                    SessionEvent::ClientArrived => {
                        SessionAction::TakeOver { farewell: Frame::Detached }
                    },
                    SessionEvent::ClientFrame { frame } => self.client_frame(frame, now),
                    SessionEvent::ClientClosed => {
                        self.phase = Phase::Waiting;
                        SessionAction::DropClient
                    },
                    SessionEvent::ClientFailed { invalid } => {
                        if invalid {
                            self.phase = Phase::Over;
                            SessionAction::Fail
                        } else {
                            self.phase = Phase::Waiting;
                            SessionAction::DropClient
                        }
                    },
                    SessionEvent::SendFailed => {
                        self.phase = Phase::Waiting;
                        SessionAction::DropClient
                    },
                    SessionEvent::PtyOutput { data } => {
                        if data.len() == 0 {
                            self.phase = Phase::Closing;
                            SessionAction::AwaitShell { ms: SHELL_WAIT_MS }
                        } else {
                            let bytes = Bytes::copy_from_slice(data.as_slice());
                            SessionAction::Send { frame: Frame::Data(bytes) }
                        }
                    },
                    SessionEvent::PtyFailed { hangup } => {
                        if hangup {
                            self.phase = Phase::Closing;
                            SessionAction::AwaitShell { ms: SHELL_WAIT_MS }
                        } else {
                            self.phase = Phase::Over;
                            SessionAction::Fail
                        }
                    },
                    SessionEvent::ShellExited { code } => self.shell_exited(code),
                    SessionEvent::WaitExpired => SessionAction::Nothing,
                }
            },
        }
    }

    fn shell_exited(&mut self, code: Option<i32>) -> (a: SessionAction)
        ensures
            *final(self) == in_phase(*old(self), Phase::Over),
            a@ == (ActionModel::Finish { code: code_or_failure(code) }),
    {
        self.phase = Phase::Over;
        let code: i32 = match code {
            Some(c) => c,
            None => 1,
        };
        SessionAction::Finish { code }
    }

    fn client_frame(&mut self, frame: Frame, now: u64) -> (a: SessionAction)
        ensures
            (*final(self), a@) == frame_step(*old(self), frame@, now),
    {
        match frame {
            Frame::Data(data) => SessionAction::WritePty { data },
            Frame::Resize { cols, rows } => {
                let (cols, rows): (u16, u16) = clamp_winsize(cols, rows);
                SessionAction::SetSize { cols, rows }
            },
            Frame::Ping => {
                self.last_heartbeat = now;
                SessionAction::Send { frame: Frame::Pong }
            },
            Frame::Exit { .. } => {
                self.phase = Phase::Waiting;
                SessionAction::DropClient
            },
            _ => SessionAction::Nothing,
        }
    }
}

// ---------------------------------------------------------------------------
// What a session promises as a whole
// ---------------------------------------------------------------------------

/// A session after several events, each with its time.
pub open spec fn after_events(s: Session, es: Seq<(EventModel, u64)>) -> Session
    decreases es.len(),
{
    if es.len() == 0 {
        s
    } else {
        let before = after_events(s, es.drop_last());
        session_step(before, es.last().0, es.last().1).0
    }
}

/// The event ends a session that a client is attached to: the shell or its terminal came
/// to an end, or the client sent what cannot be understood.
pub open spec fn fatal(e: EventModel) -> bool {
    match e {
        EventModel::ShellExited { .. } => true,
        EventModel::PtyOutput { data } => data.len() == 0,
        EventModel::PtyFailed { .. } => true,
        EventModel::ClientFailed { invalid } => invalid,
        _ => false,
    }
}

/// The session serves clients: one is attached, or the next one is waited for.
pub open spec fn serving(s: Session) -> bool {
    s.phase == Phase::Waiting || s.phase == Phase::Relaying
}

/// A session outlives its clients: however often clients come, go and take over, it goes
/// on serving as long as the shell does and what arrives can be understood.
pub proof fn law_session_outlives_clients(s: Session, es: Seq<(EventModel, u64)>)
    requires
        serving(s),
        forall|i: int| 0 <= i < es.len() ==> !fatal((#[trigger] es[i]).0),
    ensures
        serving(after_events(s, es)),
    decreases es.len(),
{
    if es.len() > 0 {
        let front = es.drop_last();
        assert forall|i: int| 0 <= i < front.len() implies !fatal((#[trigger] front[i]).0) by {
            assert(front[i] == es[i]);
        }
        law_session_outlives_clients(s, front);
        assert(!fatal(es[es.len() - 1].0));
    }
}

/// The client of a session goes away: it closes the connection, says so, cannot be reached
/// any more, or its connection breaks.
pub open spec fn goes_away(e: EventModel) -> bool {
    match e {
        EventModel::ClientClosed => true,
        EventModel::ClientFrame { frame } => frame is Exit,
        EventModel::ClientFailed { invalid } => !invalid,
        EventModel::SendFailed => true,
        _ => false,
    }
}

/// When the client of a session goes away, the session goes on without one and does
/// nothing to its shell. Whatever then happens short of the shell's end, the next client is
/// taken in. What is known of the shell stays the same, and says whether a client is
/// attached.
pub proof fn law_client_can_come_back(
    s: Session,
    e: EventModel,
    between: Seq<(EventModel, u64)>,
    m: MetadataModel,
    now: u64,
    later: u64,
)
    requires
        s.phase == Phase::Relaying,
        goes_away(e),
        forall|i: int|
            0 <= i < between.len() ==> !((#[trigger] between[i]).0 is ShellExited)
                && !(between[i].0 is ClientArrived),
    ensures
        session_step(s, e, now) == (
            Session { phase: Phase::Waiting, last_heartbeat: s.last_heartbeat },
            ActionModel::DropClient,
        ),
        ({
            let gone = session_step(s, e, now).0;
            let alone = after_events(gone, between);
            let (back, action) = session_step(alone, EventModel::ClientArrived, later);
            &&& alone == gone
            &&& (back, action) == (s, ActionModel::Adopt)
            &&& refreshed(alone, m) == MetadataModel {
                attached: false,
                last_heartbeat: s.last_heartbeat,
                ..m
            }
            &&& refreshed(back, m) == MetadataModel {
                attached: true,
                last_heartbeat: s.last_heartbeat,
                ..m
            }
        }),
    decreases between.len(),
{
    if between.len() > 0 {
        let front = between.drop_last();
        assert forall|i: int| 0 <= i < front.len() implies !((#[trigger] front[i]).0 is ShellExited)
            && !(front[i].0 is ClientArrived) by {
            assert(front[i] == between[i]);
        }
        law_client_can_come_back(s, e, front, m, now, later);
        let last = between[between.len() - 1];
        assert(!(last.0 is ShellExited) && !(last.0 is ClientArrived));
    }
}

/// A second client takes over: the first one is told that it is detached, and the session
/// stays attached.
pub proof fn law_second_client_takes_over(s: Session, now: u64)
    requires
        s.phase == Phase::Relaying,
    ensures
        session_step(s, EventModel::ClientArrived, now) == (
            s,
            ActionModel::TakeOver { farewell: FrameModel::Detached },
        ),
{
}

/// Control requests mean nothing to a session.
pub proof fn law_control_frames_are_ignored(s: Session, f: FrameModel, now: u64)
    requires
        f is NewSession || f is Attach || f is ListSessions || f is KillSession || f is KillServer
            || f is SessionCreated || f is SessionInfo || f is Okay || f is Error || f is Env,
    ensures
        session_step(s, EventModel::ClientFrame { frame: f }, now) == (s, ActionModel::Nothing),
{
}

/// A ping is answered with a pong and counts as a sign of life; nothing else does.
pub proof fn law_heartbeat(s: Session, e: EventModel, now: u64)
    ensures
        s.phase == Phase::Relaying && e == (EventModel::ClientFrame { frame: FrameModel::Ping })
            ==> session_step(s, e, now) == (
            Session { phase: Phase::Relaying, last_heartbeat: now },
            ActionModel::Send { frame: FrameModel::Pong },
        ),
        e != (EventModel::ClientFrame { frame: FrameModel::Ping }) ==> session_step(
            s,
            e,
            now,
        ).0.last_heartbeat == s.last_heartbeat,
{
}

/// The end of the shell is told to the client that is attached, with the shell's own code.
/// Another code is told only where the terminal has ended and the shell did not end in
/// time: zero.
pub proof fn law_exit_is_reported(s: Session, e: EventModel, now: u64)
    ensures
        is_attached(s) && e is ShellExited ==> session_step(s, e, now) == (
            Session { phase: Phase::Over, last_heartbeat: s.last_heartbeat },
            ActionModel::Finish { code: code_or_failure(e->code) },
        ),
        session_step(s, e, now).1 matches ActionModel::Finish { code } ==> {
            ||| is_attached(s) && e is ShellExited && code == code_or_failure(e->code)
            ||| s.phase == Phase::Closing && e is WaitExpired && code == 0
        },
{
}

/// What the shell prints reaches a client and is never thrown away: the terminal is read
/// only while a client is attached, and what is read then is sent to it. Between two
/// clients it is not read, and it is read again for the next one.
pub proof fn law_output_waits_for_a_client(
    s: Session,
    data: Seq<u8>,
    e: EventModel,
    now: u64,
    later: u64,
)
    requires
        data.len() > 0,
    ensures
        reads(s) ==> session_step(s, EventModel::PtyOutput { data }, now) == (
            s,
            ActionModel::Send { frame: FrameModel::Data(data) },
        ),
        reads(s) && goes_away(e) ==> !reads(session_step(s, e, now).0),
        s.phase == Phase::Waiting ==> !reads(s) && reads(
            session_step(s, EventModel::ClientArrived, later).0,
        ),
{
}

/// The terminal has come to its end: nothing is left to read, or its other side is gone.
pub open spec fn terminal_ended(e: EventModel) -> bool {
    match e {
        EventModel::PtyOutput { data } => data.len() == 0,
        EventModel::PtyFailed { hangup } => hangup,
        _ => false,
    }
}

/// A terminal that ends before the shell's own end is known: the session waits for the
/// shell, whatever else happens, and tells the shell's own code. When the time for that is
/// over, the session ends all the same, with the code zero.
pub proof fn law_shell_is_awaited(
    s: Session,
    e: EventModel,
    between: Seq<(EventModel, u64)>,
    code: Option<i32>,
    now: u64,
    later: u64,
)
    requires
        s.phase == Phase::Relaying,
        terminal_ended(e),
        forall|i: int|
            0 <= i < between.len() ==> !((#[trigger] between[i]).0 is ShellExited)
                && !(between[i].0 is WaitExpired),
    ensures
        session_step(s, e, now) == (
            Session { phase: Phase::Closing, last_heartbeat: s.last_heartbeat },
            ActionModel::AwaitShell { ms: 1_000 },
        ),
        after_events(session_step(s, e, now).0, between) == session_step(s, e, now).0,
        session_step(
            after_events(session_step(s, e, now).0, between),
            EventModel::ShellExited { code },
            later,
        ) == (
            Session { phase: Phase::Over, last_heartbeat: s.last_heartbeat },
            ActionModel::Finish { code: code_or_failure(code) },
        ),
        session_step(
            after_events(session_step(s, e, now).0, between),
            EventModel::WaitExpired,
            later,
        ) == (
            Session { phase: Phase::Over, last_heartbeat: s.last_heartbeat },
            ActionModel::Finish { code: 0 },
        ),
    decreases between.len(),
{
    if between.len() > 0 {
        let front = between.drop_last();
        assert forall|i: int| 0 <= i < front.len() implies !((#[trigger] front[i]).0 is ShellExited)
            && !(front[i].0 is WaitExpired) by {
            assert(front[i] == between[i]);
        }
        law_shell_is_awaited(s, e, front, code, now, later);
        let last = between[between.len() - 1];
        assert(!(last.0 is ShellExited) && !(last.0 is WaitExpired));
    }
}

/// The terminal never gets a size of zero or an absurd one.
pub proof fn law_sizes_are_sane(s: Session, e: EventModel, now: u64)
    ensures
        session_step(s, e, now).1 matches ActionModel::SetSize { cols, rows } ==> 1 <= cols
            <= 10_000 && 1 <= rows <= 10_000,
        s.phase == Phase::Relaying ==> forall|cols: u16, rows: u16|
            1 <= cols <= 10_000 && 1 <= rows <= 10_000 ==> (#[trigger] session_step(
                s,
                EventModel::ClientFrame { frame: FrameModel::Resize { cols, rows } },
                now,
            )).1 == (ActionModel::SetSize { cols, rows }),
{
}

} // verus!
