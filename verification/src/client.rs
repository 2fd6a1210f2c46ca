//! The client: what the keyboard, the server and the clock make it do.

use bytes::Bytes;
use vstd::prelude::*;

use crate::buffer::held;
use crate::protocol::{pairs, received, Frame, FrameModel};

verus! {

/// The client sends a ping this often, in milliseconds.
pub const HEARTBEAT_INTERVAL_MS: u64 = 5_000;

/// Without a pong for longer than this, in milliseconds, the connection counts as dead.
pub const HEARTBEAT_TIMEOUT_MS: u64 = 15_000;

/// A frame that could not be sent within this time, in milliseconds, counts as lost.
pub const SEND_TIMEOUT_MS: u64 = 5_000;

/// The pause between two tries to reconnect, in milliseconds.
pub const RECONNECT_DELAY_MS: u64 = 1_000;

/// The exit code of a client that the user interrupted.
pub const INTERRUPTED_CODE: i32 = 130;

/// The byte that introduces an escape sequence: `~`.
pub const ESCAPE: u8 = 0x7e;

/// Behind the escape byte: detach, `.`.
pub const ESCAPE_DETACH: u8 = 0x2e;

/// Behind the escape byte: help, `?`.
pub const ESCAPE_HELP: u8 = 0x3f;

/// The byte of Ctrl-C.
pub const CTRL_C: u8 = 0x03;

/// The byte of Ctrl-L, on which programs draw the screen anew.
pub const CTRL_L: u8 = 0x0c;

// ---------------------------------------------------------------------------
// Writing to the terminal
// ---------------------------------------------------------------------------

/// Writing a run of bytes to a stream that may refuse to take them all at once.
#[derive(Debug, Clone, Copy, PartialEq, Eq, Structural)]
pub struct StdoutWrite {
    pub written: usize,
    pub total: usize,
}

/// What became of an attempt to write.
#[derive(Debug, Clone, Copy, PartialEq, Eq, Structural)]
pub enum WriteEvent {
    /// This many bytes were taken.
    Wrote { n: usize },
    /// The stream takes nothing for now.
    WouldBlock,
    /// A signal interrupted the attempt.
    Interrupted,
    /// The stream is broken.
    Failed,
}

/// What to do next.
#[derive(Debug, Clone, Copy, PartialEq, Eq, Structural)]
pub enum WriteAction {
    /// Write what begins at this place.
    Write { from: usize },
    /// Let others run, and then write what begins at this place.
    YieldAndWrite { from: usize },
    /// Everything is written; flush.
    Flush,
    /// Stop with the stream's error.
    Fail,
}

/// What is left to be written after an attempt.
pub open spec fn write_on(w: StdoutWrite) -> WriteAction {
    if w.written < w.total {
        WriteAction::Write { from: w.written }
    } else {
        WriteAction::Flush
    }
}

/// Where writing stands after an attempt, and what to do next.
pub open spec fn write_step(w: StdoutWrite, e: WriteEvent) -> (StdoutWrite, WriteAction) {
    match e {
        WriteEvent::Wrote { n } => {
            let written = if w.written + n <= w.total {
                (w.written + n) as usize
            } else {
                w.total
            };
            let next = StdoutWrite { written, total: w.total };
            (next, write_on(next))
        },
        WriteEvent::WouldBlock => (w, WriteAction::YieldAndWrite { from: w.written }),
        WriteEvent::Interrupted => (w, WriteAction::Write { from: w.written }),
        WriteEvent::Failed => (w, WriteAction::Fail),
    }
}

impl StdoutWrite {
    /// Begins to write `total` bytes.
    pub fn start(total: usize) -> (r: (StdoutWrite, WriteAction))
        ensures
            r.0 == (StdoutWrite { written: 0, total }),
            r.1 == write_on(r.0),
    {
        let w = StdoutWrite { written: 0, total };
        if total > 0 {
            (w, WriteAction::Write { from: 0 })
        } else {
            (w, WriteAction::Flush)
        }
    }

    /// Goes on after an attempt.
    pub fn step(&mut self, event: WriteEvent) -> (a: WriteAction)
        ensures
            (*final(self), a) == write_step(*old(self), event),
    {
        match event {
            WriteEvent::Wrote { n } => {
                if self.written <= self.total && n <= self.total - self.written {
                    self.written = self.written + n;
                } else {
                    self.written = self.total;
                }
                if self.written < self.total {
                    WriteAction::Write { from: self.written }
                } else {
                    WriteAction::Flush
                }
            },
            WriteEvent::WouldBlock => WriteAction::YieldAndWrite { from: self.written },
            WriteEvent::Interrupted => WriteAction::Write { from: self.written },
            WriteEvent::Failed => WriteAction::Fail,
        }
    }
}

/// Writing resumes exactly behind what was taken, and is not done before everything was.
pub proof fn law_nothing_is_written_twice_or_skipped(w: StdoutWrite, e: WriteEvent)
    requires
        w.written < w.total,
        e matches WriteEvent::Wrote { n } ==> n <= w.total - w.written,
    ensures
        write_step(w, e).0.written == match e {
            WriteEvent::Wrote { n } => w.written + n,
            _ => w.written as int,
        },
        write_step(w, e).1 == WriteAction::Flush <==> write_step(w, e).0.written == w.total,
        write_step(w, e).1 matches WriteAction::Write { from } ==> from == write_step(
            w,
            e,
        ).0.written,
        write_step(w, e).1 matches WriteAction::YieldAndWrite { from } ==> from == w.written,
{
}

// ---------------------------------------------------------------------------
// Escape sequences
// ---------------------------------------------------------------------------

/// What reading the keyboard has come to.
#[verifier::ext_equal]
pub struct Scan {
    /// What goes to the server.
    pub forward: Seq<u8>,
    /// How often help was asked for.
    pub helps: nat,
    /// The user wants to detach; what follows is not read.
    pub detach: bool,
    /// An escape byte was read, and what it introduces is still to come.
    pub pending: bool,
}

/// Nothing read yet; an escape byte may be pending.
pub open spec fn scan_start(pending: bool) -> Scan {
    Scan { forward: Seq::empty(), helps: 0, detach: false, pending }
}

/// Reading one byte more.
pub open spec fn scan_byte(s: Scan, b: u8) -> Scan {
    if s.detach {
        s
    } else if s.pending {
        if b == ESCAPE_DETACH {
            Scan { detach: true, pending: false, ..s }
        } else if b == ESCAPE_HELP {
            Scan { helps: s.helps + 1, pending: false, ..s }
        } else {
            Scan { forward: s.forward.push(ESCAPE).push(b), pending: false, ..s }
        }
    } else if b == ESCAPE {
        Scan { pending: true, ..s }
    } else {
        Scan { forward: s.forward.push(b), ..s }
    }
}

/// Reading a run of bytes.
pub open spec fn scan_bytes(s: Scan, input: Seq<u8>) -> Scan
    decreases input.len(),
{
    if input.len() == 0 {
        s
    } else {
        scan_byte(scan_bytes(s, input.drop_last()), input.last())
    }
}

/// What came of some bytes from the keyboard.
#[derive(Debug)]
pub struct Typed {
    /// What goes to the server.
    pub forward: Vec<u8>,
    /// Help was asked for.
    pub help: bool,
    /// The user wants to detach.
    pub detach: bool,
}

/// Reads the keyboard and picks out escape sequences.
#[derive(Debug, Clone, Copy, PartialEq, Eq, Structural)]
pub struct EscapeReader {
    /// Escape sequences are looked for.
    pub enabled: bool,
    /// An escape byte was read, and what it introduces is still to come.
    pub pending: bool,
}

impl EscapeReader {
    /// A reader that has read nothing yet.
    pub fn new(enabled: bool) -> (r: EscapeReader)
        ensures
            r == (EscapeReader { enabled, pending: false }),
    {
        EscapeReader { enabled, pending: false }
    }

    /// Reads some bytes. Where escape sequences are not looked for, everything goes to the
    /// server as it is.
    pub fn read(&mut self, input: &[u8]) -> (t: Typed)
        ensures
            final(self).enabled == old(self).enabled,
            old(self).enabled ==> {
                let s = scan_bytes(scan_start(old(self).pending), input@);
                &&& t.forward@ == s.forward
                &&& t.help == (s.helps > 0)
                &&& t.detach == s.detach
                &&& final(self).pending == s.pending
            },
            !old(self).enabled ==> t.forward@ == input@ && !t.help && !t.detach
                && final(self).pending == old(self).pending,
    {
        let mut forward: Vec<u8> = Vec::new();
        if !self.enabled {
            forward.extend_from_slice(input);
            proof {
                assert(forward@ =~= input@);
            }
            return Typed { forward, help: false, detach: false };
        }
        let ghost start = scan_start(self.pending);
        let mut help = false;
        let mut detach = false;
        let mut pending = self.pending;
        let mut i: usize = 0;
        proof {
            assert(forward@ =~= start.forward);
        }
        while i < input.len()
            invariant
                i <= input@.len(),
                ({
                    let s = scan_bytes(start, input@.take(i as int));
                    &&& forward@ == s.forward
                    &&& help == (s.helps > 0)
                    &&& detach == s.detach
                    &&& pending == s.pending
                }),
            decreases input@.len() - i,
        {
            let b: u8 = input[i];
            proof {
                let part = input@.take(i + 1);
                assert(part.drop_last() =~= input@.take(i as int));
                assert(part.last() == b);
            }
            if !detach {
                if pending {
                    pending = false;
                    if b == ESCAPE_DETACH {
                        detach = true;
                    } else if b == ESCAPE_HELP {
                        help = true;
                    } else {
                        forward.push(ESCAPE);
                        forward.push(b);
                    }
                } else if b == ESCAPE {
                    pending = true;
                } else {
                    forward.push(b);
                }
            }
            i = i + 1;
        }
        proof {
            assert(input@.take(i as int) =~= input@);
        }
        self.pending = pending;
        Typed { forward, help, detach }
    }
}

/// How the keyboard's bytes are cut into pieces makes no difference.
pub proof fn law_chunks_do_not_matter(s: Scan, a: Seq<u8>, b: Seq<u8>)
    ensures
        scan_bytes(scan_bytes(s, a), b) == scan_bytes(s, a + b),
    decreases b.len(),
{
    if b.len() == 0 {
        assert(a + b =~= a);
    } else {
        law_chunks_do_not_matter(s, a, b.drop_last());
        assert((a + b).drop_last() =~= a + b.drop_last());
    }
}

/// Bytes without an escape byte go to the server as they are.
pub proof fn law_plain_bytes_pass(input: Seq<u8>)
    requires
        !input.contains(ESCAPE),
    ensures
        scan_bytes(scan_start(false), input) == (Scan {
            forward: input,
            helps: 0,
            detach: false,
            pending: false,
        }),
    decreases input.len(),
{
    if input.len() == 0 {
        assert(input =~= Seq::empty());
    } else {
        let front = input.drop_last();
        assert forall|i: int| 0 <= i < front.len() implies front[i] != ESCAPE by {
            assert(input.contains(input[i]));
        }
        law_plain_bytes_pass(front);
        assert(input.contains(input.last()));
        assert(front.push(input.last()) =~= input);
    }
}

/// The sequence for detaching detaches, whatever plain bytes came before it, and what
/// came before it still goes to the server.
pub proof fn law_detach_sequence(before: Seq<u8>, after: Seq<u8>)
    requires
        !before.contains(ESCAPE),
    ensures
        scan_bytes(scan_start(false), before + seq![ESCAPE, ESCAPE_DETACH] + after) == (Scan {
            forward: before,
            helps: 0,
            detach: true,
            pending: false,
        }),
{
    law_plain_bytes_pass(before);
    let keys = seq![ESCAPE, ESCAPE_DETACH];
    let s = scan_start(false);
    law_chunks_do_not_matter(s, before, keys);
    law_chunks_do_not_matter(s, before + keys, after);
    reveal_with_fuel(scan_bytes, 3);
    assert(keys.drop_last() =~= seq![ESCAPE]);
    assert(keys.drop_last().drop_last() =~= Seq::empty());
    lemma_detached_stays(scan_bytes(s, before + keys), after);
}

proof fn lemma_detached_stays(s: Scan, input: Seq<u8>)
    requires
        s.detach,
    ensures
        scan_bytes(s, input) == s,
    decreases input.len(),
{
    if input.len() > 0 {
        lemma_detached_stays(s, input.drop_last());
    }
}

// ---------------------------------------------------------------------------
// Relaying
// ---------------------------------------------------------------------------

/// What happens to a client that is attached.
#[derive(Debug)]
pub enum ClientEvent {
    /// The keyboard was read. Where nothing was there to read, it is at its end.
    Keys { data: Vec<u8> },
    /// The keyboard could not be read.
    KeysFailed,
    /// The server sent a frame.
    Server { frame: Frame },
    /// The server closed the connection, or the connection failed.
    ServerLost,
    /// The window has a new size.
    Resized { cols: u16, rows: u16 },
    /// It is time for a sign of life.
    Tick,
    /// A frame could not be sent in time.
    SendFailed,
}

/// What the client does about it.
#[derive(Debug)]
pub enum ClientAction {
    /// Nothing.
    Nothing,
    /// Send the frame, if there is one; show the help, if it was asked for; and then exit,
    /// if the user wants to detach.
    Typed { frame: Option<Frame>, help: bool, detach: bool },
    /// Send this to the server.
    Send { frame: Frame },
    /// Write this to the terminal.
    Print { data: Bytes },
    /// Exit with this code.
    Exit { code: i32 },
    /// Give the connection up and connect again.
    Reconnect,
    /// Stop with an error.
    Fail,
}

/// An event as a mathematical value.
#[verifier::ext_equal]
pub enum ClientEventModel {
    Keys { data: Seq<u8> },
    KeysFailed,
    Server { frame: FrameModel },
    ServerLost,
    Resized { cols: u16, rows: u16 },
    Tick,
    SendFailed,
}

/// An action as a mathematical value.
#[verifier::ext_equal]
pub enum ClientActionModel {
    Nothing,
    Typed { frame: Option<FrameModel>, help: bool, detach: bool },
    Send { frame: FrameModel },
    Print { data: Seq<u8> },
    Exit { code: i32 },
    Reconnect,
    Fail,
}

impl View for ClientEvent {
    type V = ClientEventModel;

    open spec fn view(&self) -> ClientEventModel {
        match self {
            ClientEvent::Keys { data } => ClientEventModel::Keys { data: data@ },
            ClientEvent::KeysFailed => ClientEventModel::KeysFailed,
            ClientEvent::Server { frame } => ClientEventModel::Server { frame: frame@ },
            ClientEvent::ServerLost => ClientEventModel::ServerLost,
            ClientEvent::Resized { cols, rows } => ClientEventModel::Resized {
                cols: *cols,
                rows: *rows,
            },
            ClientEvent::Tick => ClientEventModel::Tick,
            ClientEvent::SendFailed => ClientEventModel::SendFailed,
        }
    }
}

impl View for ClientAction {
    type V = ClientActionModel;

    open spec fn view(&self) -> ClientActionModel {
        match self {
            ClientAction::Nothing => ClientActionModel::Nothing,
            ClientAction::Typed { frame, help, detach } => ClientActionModel::Typed {
                frame: match frame {
                    Some(f) => Some(f@),
                    None => None,
                },
                help: *help,
                detach: *detach,
            },
            ClientAction::Send { frame } => ClientActionModel::Send { frame: frame@ },
            ClientAction::Print { data } => ClientActionModel::Print { data: held(*data) },
            ClientAction::Exit { code } => ClientActionModel::Exit { code: *code },
            ClientAction::Reconnect => ClientActionModel::Reconnect,
            ClientAction::Fail => ClientActionModel::Fail,
        }
    }
}

/// A client that is attached: how it reads its keyboard, and when the server last gave a
/// sign of life, in milliseconds.
#[derive(Debug, Clone, Copy, PartialEq, Eq, Structural)]
pub struct ClientRelay {
    pub keys: EscapeReader,
    pub last_pong: u64,
}

/// What goes to the server, as a frame; nothing makes no frame.
pub open spec fn data_frame(data: Seq<u8>) -> Option<FrameModel> {
    if data.len() == 0 {
        None
    } else {
        Some(FrameModel::Data(data))
    }
}

/// What typed keys do.
pub open spec fn keys_step(c: ClientRelay, data: Seq<u8>) -> (ClientRelay, ClientActionModel) {
    if c.keys.enabled {
        let s = scan_bytes(scan_start(c.keys.pending), data);
        (
            ClientRelay {
                keys: EscapeReader { enabled: true, pending: s.pending },
                last_pong: c.last_pong,
            },
            ClientActionModel::Typed {
                frame: data_frame(s.forward),
                help: s.helps > 0,
                detach: s.detach,
            },
        )
    } else {
        (
            c,
            ClientActionModel::Typed { frame: data_frame(data), help: false, detach: false },
        )
    }
}

/// The client after an event at the time `now`, and what it does.
pub open spec fn client_step(c: ClientRelay, e: ClientEventModel, now: u64) -> (
    ClientRelay,
    ClientActionModel,
) {
    match e {
        ClientEventModel::Keys { data } => if data.len() == 0 {
            (c, ClientActionModel::Exit { code: 0 })
        } else {
            keys_step(c, data)
        },
        ClientEventModel::KeysFailed => (c, ClientActionModel::Fail),
        ClientEventModel::Server { frame } => match frame {
            FrameModel::Data(data) => (c, ClientActionModel::Print { data }),
            FrameModel::Exit { code } => (c, ClientActionModel::Exit { code }),
            FrameModel::Detached => (c, ClientActionModel::Exit { code: 0 }),
            FrameModel::Pong => (
                ClientRelay { keys: c.keys, last_pong: now },
                ClientActionModel::Nothing,
            ),
            _ => (c, ClientActionModel::Nothing),
        },
        ClientEventModel::ServerLost => (c, ClientActionModel::Reconnect),
        ClientEventModel::Resized { cols, rows } => (
            c,
            ClientActionModel::Send { frame: FrameModel::Resize { cols, rows } },
        ),
        ClientEventModel::Tick => if now - c.last_pong > HEARTBEAT_TIMEOUT_MS {
            (c, ClientActionModel::Reconnect)
        } else {
            (c, ClientActionModel::Send { frame: FrameModel::Ping })
        },
        ClientEventModel::SendFailed => (c, ClientActionModel::Reconnect),
    }
}

impl ClientRelay {
    /// A client that was attached at the time `now`, in milliseconds.
    pub fn new(no_escape: bool, now: u64) -> (c: ClientRelay)
        ensures
            c == (ClientRelay {
                keys: EscapeReader { enabled: !no_escape, pending: false },
                last_pong: now,
            }),
    {
        ClientRelay { keys: EscapeReader::new(!no_escape), last_pong: now }
    }

    /// Handles an event at the time `now`, in milliseconds.
    pub fn step(&mut self, event: ClientEvent, now: u64) -> (a: ClientAction)
        ensures
            (*final(self), a@) == client_step(*old(self), event@, now),
    {
        match event {
            ClientEvent::Keys { data } => {
                if data.len() == 0 {
                    return ClientAction::Exit { code: 0 };
                }
                let typed = self.keys.read(data.as_slice());
                let frame: Option<Frame> = if typed.forward.len() == 0 {
                    None
                } else {
                    Some(Frame::Data(Bytes::copy_from_slice(typed.forward.as_slice())))
                };
                ClientAction::Typed { frame, help: typed.help, detach: typed.detach }
            },
            ClientEvent::KeysFailed => ClientAction::Fail,
            ClientEvent::Server { frame } => {
                match frame {
                    Frame::Data(data) => ClientAction::Print { data },
                    Frame::Exit { code } => ClientAction::Exit { code },
                    Frame::Detached => ClientAction::Exit { code: 0 },
                    Frame::Pong => {
                        self.last_pong = now;
                        ClientAction::Nothing
                    },
                    _ => ClientAction::Nothing,
                }
            },
            ClientEvent::ServerLost => ClientAction::Reconnect,
            ClientEvent::Resized { cols, rows } => {
                ClientAction::Send { frame: Frame::Resize { cols, rows } }
            },
            ClientEvent::Tick => {
                if now > self.last_pong && now - self.last_pong > HEARTBEAT_TIMEOUT_MS {
                    ClientAction::Reconnect
                } else {
                    ClientAction::Send { frame: Frame::Ping }
                }
            },
            ClientEvent::SendFailed => ClientAction::Reconnect,
        }
    }
}

/// How a client came to its session.
#[derive(Debug, Clone, Copy, PartialEq, Eq, Structural)]
pub enum Entry {
    /// The session was made for it.
    Created,
    /// The session was there before.
    Attached,
}

/// The environment that a client sends: what was collected goes to a session that was made
/// for the client, and nothing to one that was there before.
pub open spec fn env_for(entry: Entry, collected: Seq<(Seq<char>, Seq<char>)>) -> Seq<
    (Seq<char>, Seq<char>),
> {
    match entry {
        Entry::Created => collected,
        Entry::Attached => Seq::empty(),
    }
}

/// The environment that a client sends, out of what was collected.
pub fn forwarded_env(entry: Entry, collected: Vec<(String, String)>) -> (vars: Vec<
    (String, String),
>)
    ensures
        pairs(vars@) == env_for(entry, pairs(collected@)),
{
    match entry {
        Entry::Created => collected,
        Entry::Attached => {
            let none: Vec<(String, String)> = Vec::new();
            proof {
                assert(pairs(none@) =~= Seq::empty());
            }
            none
        },
    }
}

/// What a client sends when it has been attached: the environment where there is one to
/// send, the size of its window, and Ctrl-L where the screen is to be drawn anew.
pub open spec fn opening_frames(
    vars: Seq<(Seq<char>, Seq<char>)>,
    cols: u16,
    rows: u16,
    redraw: bool,
) -> Seq<FrameModel> {
    let env = if vars.len() == 0 {
        Seq::empty()
    } else {
        seq![FrameModel::Env { vars }]
    };
    let drawing = if redraw {
        seq![FrameModel::Data(seq![CTRL_L])]
    } else {
        Seq::empty()
    };
    env + seq![FrameModel::Resize { cols, rows }] + drawing
}

/// The models of a list of frames.
pub open spec fn frames(v: Seq<Frame>) -> Seq<FrameModel> {
    v.map_values(|f: Frame| f@)
}

/// What a client sends when it has been attached.
pub fn relay_opening(vars: Vec<(String, String)>, cols: u16, rows: u16, redraw: bool) -> (out: Vec<
    Frame,
>)
    ensures
        frames(out@) == opening_frames(pairs(vars@), cols, rows, redraw),
{
    let mut out: Vec<Frame> = Vec::new();
    let ghost mvars = pairs(vars@);
    if vars.len() > 0 {
        out.push(Frame::Env { vars });
    }
    out.push(Frame::Resize { cols, rows });
    if redraw {
        let mut key: Vec<u8> = Vec::new();
        key.push(CTRL_L);
        out.push(Frame::Data(Bytes::copy_from_slice(key.as_slice())));
        proof {
            assert(key@ =~= seq![CTRL_L]);
        }
    }
    proof {
        assert(frames(out@) =~= opening_frames(mvars, cols, rows, redraw));
    }
    out
}

// ---------------------------------------------------------------------------
// Reconnecting
// ---------------------------------------------------------------------------

/// What happens while a client tries to reconnect.
#[derive(Debug)]
pub enum ReconnectEvent {
    /// There is no connection to be had.
    ConnectFailed,
    /// The daemon answered the request to attach, or the connection ended.
    Replied { result: Option<Result<Frame, String>> },
    /// Keys were typed.
    Keys { data: Vec<u8> },
}

/// What the client does about it.
#[derive(Debug, Clone, Copy, PartialEq, Eq, Structural)]
pub enum ReconnectAction {
    /// Go on relaying.
    Resume,
    /// Try again after this many milliseconds.
    RetryAfter { ms: u64 },
    /// Go on trying.
    KeepTrying,
    /// Exit with this code.
    Exit { code: i32 },
}

/// What a client does while it tries to reconnect. It goes on until it is attached again
/// or the user presses Ctrl-C.
pub open spec fn reconnect_step(e: ReconnectEvent) -> ReconnectAction {
    match e {
        ReconnectEvent::ConnectFailed => ReconnectAction::RetryAfter { ms: RECONNECT_DELAY_MS },
        ReconnectEvent::Replied { result } => if received(result) == Some(
            Ok::<FrameModel, Seq<char>>(FrameModel::Okay),
        ) {
            ReconnectAction::Resume
        } else {
            ReconnectAction::RetryAfter { ms: RECONNECT_DELAY_MS }
        },
        ReconnectEvent::Keys { data } => if data@.contains(CTRL_C) {
            ReconnectAction::Exit { code: INTERRUPTED_CODE }
        } else {
            ReconnectAction::KeepTrying
        },
    }
}

fn contains_byte(data: &[u8], b: u8) -> (r: bool)
    ensures
        r == data@.contains(b),
{
    let mut i: usize = 0;
    while i < data.len()
        invariant
            i <= data@.len(),
            forall|j: int| 0 <= j < i ==> data@[j] != b,
        decreases data@.len() - i,
    {
        if data[i] == b {
            return true;
        }
        i = i + 1;
    }
    false
}

/// Decides what to do while trying to reconnect.
pub fn reconnect(event: ReconnectEvent) -> (a: ReconnectAction)
    ensures
        a == reconnect_step(event),
{
    match event {
        ReconnectEvent::ConnectFailed => ReconnectAction::RetryAfter { ms: RECONNECT_DELAY_MS },
        ReconnectEvent::Replied { result } => {
            match result {
                Some(Ok(Frame::Okay)) => ReconnectAction::Resume,
                _ => ReconnectAction::RetryAfter { ms: RECONNECT_DELAY_MS },
            }
        },
        ReconnectEvent::Keys { data } => {
            if contains_byte(data.as_slice(), CTRL_C) {
                ReconnectAction::Exit { code: INTERRUPTED_CODE }
            } else {
                ReconnectAction::KeepTrying
            }
        },
    }
}

// ---------------------------------------------------------------------------
// What a client promises as a whole
// ---------------------------------------------------------------------------

/// A connection counts as dead exactly when no pong has arrived for more than the time
/// allowed; until then every tick sends a ping.
pub proof fn law_dead_connection_is_given_up(c: ClientRelay, now: u64)
    ensures
        client_step(c, ClientEventModel::Tick, now).1 == ClientActionModel::Reconnect <==> now
            - c.last_pong > 15_000,
        now - c.last_pong <= 15_000 ==> client_step(c, ClientEventModel::Tick, now).1 == (
        ClientActionModel::Send { frame: FrameModel::Ping }),
{
}

/// A pong keeps the connection alive for the time allowed.
pub proof fn law_pong_keeps_alive(c: ClientRelay, now: u64, later: u64)
    requires
        now <= later <= now + 15_000,
    ensures
        client_step(
            client_step(c, ClientEventModel::Server { frame: FrameModel::Pong }, now).0,
            ClientEventModel::Tick,
            later,
        ).1 == (ClientActionModel::Send { frame: FrameModel::Ping }),
{
}

/// A lost connection is never the end of a client: it is given up only to connect again.
pub proof fn law_lost_connection_reconnects(c: ClientRelay, e: ClientEventModel, now: u64)
    requires
        e is ServerLost || e is SendFailed,
    ensures
        client_step(c, e, now) == (c, ClientActionModel::Reconnect),
{
}

/// With escape sequences off, what is typed reaches the server byte for byte.
pub proof fn law_no_escape_passes_everything(c: ClientRelay, data: Seq<u8>, now: u64)
    requires
        !c.keys.enabled,
        data.len() > 0,
    ensures
        client_step(c, ClientEventModel::Keys { data }, now) == (
            c,
            ClientActionModel::Typed {
                frame: Some(FrameModel::Data(data)),
                help: false,
                detach: false,
            },
        ),
{
}

} // verus!
