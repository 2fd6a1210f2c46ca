//! The wire protocol: frames, and the codec that turns them into bytes and back.
//!
//! A frame on the wire is one type byte, the length of the payload as four bytes with
//! the most significant first, and the payload.

use bytes::{Bytes, BytesMut};
use vstd::prelude::*;
use vstd::slice::slice_subrange;
use vstd::utf8::{decode_utf8, encode_utf8, valid_utf8};

use crate::buffer::{
    append_i32, append_u16, append_u32, append_u8, as_signed, as_unsigned, be16, be16_value, be32,
    be32_value, buffered, buffered_vec, byte_at, can_hold, drop_front, held, lemma_be32_low,
    read_i32, read_u16, read_u32, run_slice, text_from_utf8, utf8_complaint,
};
use crate::errors::ErrorKind;
use crate::rows::{join, join_texts, lines, pieces, split, split_fields, split_lines, texts};
use crate::text::{
    chars_of, decimal, decimal_text, find_first, first_at, hex_byte, hex_text, joined, number,
    parse_number, push_char, text_of,
};

verus! {

pub const TYPE_DATA: u8 = 0x01;

pub const TYPE_RESIZE: u8 = 0x02;

pub const TYPE_EXIT: u8 = 0x03;

pub const TYPE_DETACHED: u8 = 0x04;

pub const TYPE_PING: u8 = 0x05;

pub const TYPE_PONG: u8 = 0x06;

pub const TYPE_ENV: u8 = 0x07;

pub const TYPE_NEW_SESSION: u8 = 0x10;

pub const TYPE_ATTACH: u8 = 0x11;

pub const TYPE_LIST_SESSIONS: u8 = 0x12;

pub const TYPE_KILL_SESSION: u8 = 0x13;

pub const TYPE_KILL_SERVER: u8 = 0x14;

pub const TYPE_SESSION_CREATED: u8 = 0x20;

pub const TYPE_SESSION_INFO: u8 = 0x21;

pub const TYPE_OK: u8 = 0x22;

pub const TYPE_ERROR: u8 = 0x23;

/// The length of a frame's header: the type byte and the length of the payload.
pub const HEADER_LEN: usize = 5;

/// The largest payload that a receiver accepts: one mebibyte.
pub const MAX_FRAME_SIZE: usize = 0x10_0000;

// ---------------------------------------------------------------------------
// Frames
// ---------------------------------------------------------------------------

/// Metadata for one session, returned in `SessionInfo`.
#[derive(Debug, Clone, PartialEq, Eq)]
pub struct SessionEntry {
    pub id: String,
    pub name: String,
    pub pty_path: String,
    pub shell_pid: u32,
    pub created_at: u64,
    pub attached: bool,
    pub last_heartbeat: u64,
}

/// One message of the protocol.
#[derive(Debug, Clone, PartialEq, Eq)]
pub enum Frame {
    /// Bytes from or for the terminal.
    Data(Bytes),
    /// The size of the client's terminal.
    Resize { cols: u16, rows: u16 },
    /// The shell has ended with this code.
    Exit { code: i32 },
    /// Sent to a client when another client takes over the session.
    Detached,
    /// Heartbeat request, from the client.
    Ping,
    /// Heartbeat reply, from the server.
    Pong,
    /// Environment variables, sent by the client of a new session before its first size.
    Env { vars: Vec<(String, String)> },
    /// Control request: make a session; an empty name means none.
    NewSession { name: String },
    /// Control request: attach to the session with this name or id.
    Attach { session: String },
    /// Control request: list the sessions.
    ListSessions,
    /// Control request: end the session with this name or id.
    KillSession { session: String },
    /// Control request: end the daemon and all sessions.
    KillServer,
    /// Control reply: the session was made.
    SessionCreated { id: String },
    /// Control reply: the sessions.
    SessionInfo { sessions: Vec<SessionEntry> },
    /// Control reply: done.
    Okay,
    /// Control reply: refused.
    Error { message: String },
}

/// A session entry as a mathematical value.
#[verifier::ext_equal]
pub struct EntryModel {
    pub id: Seq<char>,
    pub name: Seq<char>,
    pub pty_path: Seq<char>,
    pub shell_pid: u32,
    pub created_at: u64,
    pub attached: bool,
    pub last_heartbeat: u64,
}

/// A frame as a mathematical value.
#[verifier::ext_equal]
pub enum FrameModel {
    Data(Seq<u8>),
    Resize { cols: u16, rows: u16 },
    Exit { code: i32 },
    Detached,
    Ping,
    Pong,
    Env { vars: Seq<(Seq<char>, Seq<char>)> },
    NewSession { name: Seq<char> },
    Attach { session: Seq<char> },
    ListSessions,
    KillSession { session: Seq<char> },
    KillServer,
    SessionCreated { id: Seq<char> },
    SessionInfo { sessions: Seq<EntryModel> },
    Okay,
    Error { message: Seq<char> },
}

impl View for SessionEntry {
    type V = EntryModel;

    open spec fn view(&self) -> EntryModel {
        EntryModel {
            id: self.id@,
            name: self.name@,
            pty_path: self.pty_path@,
            shell_pid: self.shell_pid,
            created_at: self.created_at,
            attached: self.attached,
            last_heartbeat: self.last_heartbeat,
        }
    }
}

/// The texts in a list of pairs.
pub open spec fn pairs(v: Seq<(String, String)>) -> Seq<(Seq<char>, Seq<char>)> {
    v.map_values(|p: (String, String)| (p.0@, p.1@))
}

/// The models of a list of entries.
pub open spec fn entries(v: Seq<SessionEntry>) -> Seq<EntryModel> {
    v.map_values(|e: SessionEntry| e@)
}

impl View for Frame {
    type V = FrameModel;

    open spec fn view(&self) -> FrameModel {
        match self {
            Frame::Data(data) => FrameModel::Data(held(*data)),
            Frame::Resize { cols, rows } => FrameModel::Resize { cols: *cols, rows: *rows },
            Frame::Exit { code } => FrameModel::Exit { code: *code },
            Frame::Detached => FrameModel::Detached,
            Frame::Ping => FrameModel::Ping,
            Frame::Pong => FrameModel::Pong,
            Frame::Env { vars } => FrameModel::Env { vars: pairs(vars@) },
            Frame::NewSession { name } => FrameModel::NewSession { name: name@ },
            Frame::Attach { session } => FrameModel::Attach { session: session@ },
            Frame::ListSessions => FrameModel::ListSessions,
            Frame::KillSession { session } => FrameModel::KillSession { session: session@ },
            Frame::KillServer => FrameModel::KillServer,
            Frame::SessionCreated { id } => FrameModel::SessionCreated { id: id@ },
            Frame::SessionInfo { sessions } => FrameModel::SessionInfo {
                sessions: entries(sessions@),
            },
            Frame::Okay => FrameModel::Okay,
            Frame::Error { message } => FrameModel::Error { message: message@ },
        }
    }
}

// ---------------------------------------------------------------------------
// What goes over the wire
// ---------------------------------------------------------------------------

/// One environment variable as a line.
pub open spec fn env_line(var: (Seq<char>, Seq<char>)) -> Seq<char> {
    var.0.push('=') + var.1
}

/// Environment variables as text, one per line.
pub open spec fn env_text(vars: Seq<(Seq<char>, Seq<char>)>) -> Seq<char> {
    join(vars.map_values(|p: (Seq<char>, Seq<char>)| env_line(p)), '\n')
}

/// The flag for an attached session.
pub open spec fn attached_flag(attached: bool) -> Seq<char> {
    if attached {
        seq!['1']
    } else {
        seq!['0']
    }
}

/// The fields of a session entry, as text.
pub open spec fn entry_fields(e: EntryModel) -> Seq<Seq<char>> {
    seq![
        e.id,
        e.name,
        e.pty_path,
        decimal(e.shell_pid as nat),
        decimal(e.created_at as nat),
        attached_flag(e.attached),
        decimal(e.last_heartbeat as nat),
    ]
}

/// A session entry as a line of fields between tabs.
pub open spec fn entry_line(e: EntryModel) -> Seq<char> {
    join(entry_fields(e), '\t')
}

/// Session entries as text, one per line.
pub open spec fn sessions_text(sessions: Seq<EntryModel>) -> Seq<char> {
    join(sessions.map_values(|e: EntryModel| entry_line(e)), '\n')
}

/// The type byte of a frame.
pub open spec fn frame_type(f: FrameModel) -> u8 {
    match f {
        FrameModel::Data(_) => TYPE_DATA,
        FrameModel::Resize { .. } => TYPE_RESIZE,
        FrameModel::Exit { .. } => TYPE_EXIT,
        FrameModel::Detached => TYPE_DETACHED,
        FrameModel::Ping => TYPE_PING,
        FrameModel::Pong => TYPE_PONG,
        FrameModel::Env { .. } => TYPE_ENV,
        FrameModel::NewSession { .. } => TYPE_NEW_SESSION,
        FrameModel::Attach { .. } => TYPE_ATTACH,
        FrameModel::ListSessions => TYPE_LIST_SESSIONS,
        FrameModel::KillSession { .. } => TYPE_KILL_SESSION,
        FrameModel::KillServer => TYPE_KILL_SERVER,
        FrameModel::SessionCreated { .. } => TYPE_SESSION_CREATED,
        FrameModel::SessionInfo { .. } => TYPE_SESSION_INFO,
        FrameModel::Okay => TYPE_OK,
        FrameModel::Error { .. } => TYPE_ERROR,
    }
}

/// The payload of a frame.
pub open spec fn payload(f: FrameModel) -> Seq<u8> {
    match f {
        FrameModel::Data(data) => data,
        FrameModel::Resize { cols, rows } => be16(cols as int) + be16(rows as int),
        FrameModel::Exit { code } => be32(as_unsigned(code as int)),
        FrameModel::Env { vars } => encode_utf8(env_text(vars)),
        FrameModel::NewSession { name } => encode_utf8(name),
        FrameModel::Attach { session } => encode_utf8(session),
        FrameModel::KillSession { session } => encode_utf8(session),
        FrameModel::SessionCreated { id } => encode_utf8(id),
        FrameModel::SessionInfo { sessions } => encode_utf8(sessions_text(sessions)),
        FrameModel::Error { message } => encode_utf8(message),
        _ => Seq::empty(),
    }
}

/// A frame of the given type and payload, as bytes. The length field keeps the lowest 32
/// bits of the payload's length.
pub open spec fn framed(ty: u8, payload: Seq<u8>) -> Seq<u8> {
    seq![ty] + be32(payload.len() as int) + payload
}

/// A frame as bytes.
pub open spec fn frame_bytes(f: FrameModel) -> Seq<u8> {
    framed(frame_type(f), payload(f))
}

/// One environment variable out of a line: what stands before the first equals sign and
/// what stands after it.
pub open spec fn env_var(line: Seq<char>) -> Option<(Seq<char>, Seq<char>)> {
    let i = first_at(line, '=');
    if i >= line.len() {
        None
    } else {
        Some((line.take(i), line.skip(i + 1)))
    }
}

/// The environment variables in lines; a line without an equals sign is passed over.
pub open spec fn env_vars(ls: Seq<Seq<char>>) -> Seq<(Seq<char>, Seq<char>)>
    decreases ls.len(),
{
    if ls.len() == 0 {
        Seq::empty()
    } else {
        let before = env_vars(ls.drop_last());
        match env_var(ls.last()) {
            Some(var) => before.push(var),
            None => before,
        }
    }
}

/// A number in a field; what is no number counts as zero.
pub open spec fn field_number(s: Seq<char>, max: nat) -> nat {
    match number(s, max) {
        Some(n) => n,
        None => 0,
    }
}

/// A session entry out of a line of seven fields between tabs.
pub open spec fn entry_of(line: Seq<char>) -> Option<EntryModel> {
    let f = split(line, '\t');
    if f.len() == 7 {
        Some(
            EntryModel {
                id: f[0],
                name: f[1],
                pty_path: f[2],
                shell_pid: field_number(f[3], u32::MAX as nat) as u32,
                created_at: field_number(f[4], u64::MAX as nat) as u64,
                attached: f[5] == seq!['1'],
                last_heartbeat: field_number(f[6], u64::MAX as nat) as u64,
            },
        )
    } else {
        None
    }
}

/// The session entries in lines; a line with another number of fields is passed over.
pub open spec fn entries_of(ls: Seq<Seq<char>>) -> Seq<EntryModel>
    decreases ls.len(),
{
    if ls.len() == 0 {
        Seq::empty()
    } else {
        let before = entries_of(ls.drop_last());
        match entry_of(ls.last()) {
            Some(e) => before.push(e),
            None => before,
        }
    }
}

// ---------------------------------------------------------------------------
// Errors
// ---------------------------------------------------------------------------

/// Why bytes are no frame. Encoding shares this type and never fails.
#[derive(Debug, Clone, PartialEq, Eq)]
pub enum ProtocolError {
    /// The header announces a payload larger than `MAX_FRAME_SIZE`.
    TooLarge { len: usize },
    /// The payload of a resize frame is not four bytes long.
    ResizeSize,
    /// The payload of an exit frame is not four bytes long.
    ExitSize,
    /// A text payload is not UTF-8.
    InvalidUtf8 { detail: String },
    /// No frame has this type byte.
    UnknownType { ty: u8 },
}

/// A protocol error as a mathematical value.
#[verifier::ext_equal]
pub enum ProtocolErrorModel {
    TooLarge { len: int },
    ResizeSize,
    ExitSize,
    InvalidUtf8 { detail: Seq<char> },
    UnknownType { ty: u8 },
}

impl View for ProtocolError {
    type V = ProtocolErrorModel;

    open spec fn view(&self) -> ProtocolErrorModel {
        match self {
            ProtocolError::TooLarge { len } => ProtocolErrorModel::TooLarge { len: *len as int },
            ProtocolError::ResizeSize => ProtocolErrorModel::ResizeSize,
            ProtocolError::ExitSize => ProtocolErrorModel::ExitSize,
            ProtocolError::InvalidUtf8 { detail } => ProtocolErrorModel::InvalidUtf8 {
                detail: detail@,
            },
            ProtocolError::UnknownType { ty } => ProtocolErrorModel::UnknownType { ty: *ty },
        }
    }
}

/// The words for a protocol error.
pub open spec fn protocol_message(e: ProtocolErrorModel) -> Seq<char> {
    match e {
        ProtocolErrorModel::TooLarge { len } => "frame payload too large: "@ + decimal(len as nat)
            + " bytes (max 1048576)"@,
        ProtocolErrorModel::ResizeSize => "resize frame must be 4 bytes"@,
        ProtocolErrorModel::ExitSize => "exit frame must be 4 bytes"@,
        ProtocolErrorModel::InvalidUtf8 { detail } => detail,
        ProtocolErrorModel::UnknownType { ty } => "unknown frame type: 0x"@ + hex_byte(ty),
    }
}

impl ProtocolError {
    /// Every protocol error is about invalid data.
    pub fn kind(&self) -> (k: ErrorKind)
        ensures
            k == ErrorKind::InvalidData,
    {
        ErrorKind::InvalidData
    }

    /// The words for this error.
    pub fn message(&self) -> (s: String)
        ensures
            s@ == protocol_message(self@),
    {
        match self {
            ProtocolError::TooLarge { len } => {
                let mut s: String = "frame payload too large: ".to_owned();
                s.append(decimal_text(*len as u64).as_str());
                s.append(" bytes (max 1048576)");
                s
            },
            ProtocolError::ResizeSize => "resize frame must be 4 bytes".to_owned(),
            ProtocolError::ExitSize => "exit frame must be 4 bytes".to_owned(),
            ProtocolError::InvalidUtf8 { detail } => detail.clone(),
            ProtocolError::UnknownType { ty } => {
                joined("unknown frame type: 0x", hex_text(*ty).as_str())
            },
        }
    }
}

/// What a complete frame of the given type and payload stands for.
pub open spec fn frame_of(ty: u8, p: Seq<u8>) -> Result<FrameModel, ProtocolErrorModel> {
    if ty == TYPE_DATA {
        Ok(FrameModel::Data(p))
    } else if ty == TYPE_RESIZE {
        if p.len() != 4 {
            Err(ProtocolErrorModel::ResizeSize)
        } else {
            Ok(
                FrameModel::Resize {
                    cols: be16_value(p) as u16,
                    rows: be16_value(p.skip(2)) as u16,
                },
            )
        }
    } else if ty == TYPE_EXIT {
        if p.len() != 4 {
            Err(ProtocolErrorModel::ExitSize)
        } else {
            Ok(FrameModel::Exit { code: as_signed(be32_value(p)) as i32 })
        }
    } else if ty == TYPE_DETACHED {
        Ok(FrameModel::Detached)
    } else if ty == TYPE_PING {
        Ok(FrameModel::Ping)
    } else if ty == TYPE_PONG {
        Ok(FrameModel::Pong)
    } else if ty == TYPE_LIST_SESSIONS {
        Ok(FrameModel::ListSessions)
    } else if ty == TYPE_KILL_SERVER {
        Ok(FrameModel::KillServer)
    } else if ty == TYPE_OK {
        Ok(FrameModel::Okay)
    } else if is_text_type(ty) {
        if valid_utf8(p) {
            Ok(text_frame(ty, decode_utf8(p)))
        } else {
            Err(ProtocolErrorModel::InvalidUtf8 { detail: utf8_complaint(p) })
        }
    } else {
        Err(ProtocolErrorModel::UnknownType { ty })
    }
}

/// The types whose payload is text.
pub open spec fn is_text_type(ty: u8) -> bool {
    ty == TYPE_ENV || ty == TYPE_NEW_SESSION || ty == TYPE_ATTACH || ty == TYPE_KILL_SESSION || ty
        == TYPE_SESSION_CREATED || ty == TYPE_SESSION_INFO || ty == TYPE_ERROR
}

/// The frame of a type whose payload is text.
pub open spec fn text_frame(ty: u8, text: Seq<char>) -> FrameModel
    recommends
        is_text_type(ty),
{
    if ty == TYPE_ENV {
        FrameModel::Env { vars: env_vars(lines(text)) }
    } else if ty == TYPE_NEW_SESSION {
        FrameModel::NewSession { name: text }
    } else if ty == TYPE_ATTACH {
        FrameModel::Attach { session: text }
    } else if ty == TYPE_KILL_SESSION {
        FrameModel::KillSession { session: text }
    } else if ty == TYPE_SESSION_CREATED {
        FrameModel::SessionCreated { id: text }
    } else if ty == TYPE_SESSION_INFO {
        FrameModel::SessionInfo { sessions: entries_of(lines(text)) }
    } else {
        FrameModel::Error { message: text }
    }
}

/// The payload length that a header announces.
pub open spec fn announced(s: Seq<u8>) -> int {
    be32_value(s.skip(1))
}

/// What one call of the decoder does with the bytes `s`: its result, and the bytes that
/// stay. A frame that is not complete yet stays as it is, and so does one that announces
/// too much; a complete frame is taken out whether it makes sense or not.
pub open spec fn decode_step(s: Seq<u8>) -> (
    Result<Option<FrameModel>, ProtocolErrorModel>,
    Seq<u8>,
) {
    if s.len() < HEADER_LEN {
        (Ok(None), s)
    } else if announced(s) > MAX_FRAME_SIZE {
        (Err(ProtocolErrorModel::TooLarge { len: announced(s) }), s)
    } else if s.len() < HEADER_LEN + announced(s) {
        (Ok(None), s)
    } else {
        let end = HEADER_LEN + announced(s);
        (
            match frame_of(s[0], s.subrange(HEADER_LEN as int, end)) {
                Ok(f) => Ok(Some(f)),
                Err(e) => Err(e),
            },
            s.skip(end),
        )
    }
}

/// The result of a decoder call as a mathematical value.
pub open spec fn decoded(r: Result<Option<Frame>, ProtocolError>) -> Result<
    Option<FrameModel>,
    ProtocolErrorModel,
> {
    match r {
        Ok(Some(f)) => Ok(Some(f@)),
        Ok(None) => Ok(None),
        Err(e) => Err(e@),
    }
}

// ---------------------------------------------------------------------------
// Decoding
// ---------------------------------------------------------------------------

fn decode_string(payload: BytesMut) -> (r: Result<String, ProtocolError>)
    ensures
        match r {
            Ok(s) => valid_utf8(buffered(payload)) && s@ == decode_utf8(buffered(payload)),
            Err(e) => !valid_utf8(buffered(payload)) && e@ == (ProtocolErrorModel::InvalidUtf8 {
                detail: utf8_complaint(buffered(payload)),
            }),
        },
{
    match text_from_utf8(buffered_vec(&payload)) {
        Ok(s) => Ok(s),
        Err(detail) => Err(ProtocolError::InvalidUtf8 { detail }),
    }
}

fn decode_env(text: &str) -> (vars: Vec<(String, String)>)
    ensures
        pairs(vars@) == env_vars(lines(text@)),
{
    let chars = chars_of(text);
    let ls = split_lines(chars.as_slice());
    let mut vars: Vec<(String, String)> = Vec::new();
    let ghost all = lines(text@);
    let mut n: usize = 0;
    proof {
        assert(pairs(vars@) =~= env_vars(all.take(0)));
    }
    while n < ls.len()
        invariant
            n <= ls@.len(),
            all == pieces(ls@),
            pairs(vars@) == env_vars(all.take(n as int)),
        decreases ls@.len() - n,
    {
        let line: &[char] = ls[n];
        let ghost before = vars@;
        proof {
            let t = all.take(n + 1);
            assert(t.drop_last() =~= all.take(n as int));
            assert(t.last() == line@);
        }
        let i: usize = find_first(line, '=');
        if i < line.len() {
            let key = slice_subrange(line, 0, i);
            let value = slice_subrange(line, i + 1, line.len());
            vars.push((text_of(key), text_of(value)));
            proof {
                assert(key@ =~= line@.take(i as int));
                assert(value@ =~= line@.skip(i + 1));
                assert(pairs(vars@) =~= pairs(before).push((key@, value@)));
            }
        }
        n = n + 1;
    }
    proof {
        assert(all.take(n as int) =~= all);
    }
    vars
}

/// A number in a field; what is no number counts as zero.
fn parse_or_zero(s: &[char], max: u64) -> (n: u64)
    ensures
        n == field_number(s@, max as nat),
        n <= max,
{
    match parse_number(s, max) {
        Some(n) => n,
        None => 0,
    }
}

fn decode_entry(line: &[char]) -> (r: Option<SessionEntry>)
    ensures
        match r {
            Some(e) => entry_of(line@) == Some(e@),
            None => entry_of(line@) is None,
        },
{
    let parts = split_fields(line, '\t');
    let ghost f = split(line@, '\t');
    proof {
        assert(forall|i: int| 0 <= i < parts@.len() ==> (#[trigger] parts@[i])@ == f[i]);
    }
    if parts.len() != 7 {
        return None;
    }
    let flag: &[char] = parts[5];
    let attached = flag.len() == 1 && flag[0] == '1';
    proof {
        if attached {
            assert(f[5] =~= seq!['1']);
        }
    }
    Some(
        SessionEntry {
            id: text_of(parts[0]),
            name: text_of(parts[1]),
            pty_path: text_of(parts[2]),
            shell_pid: parse_or_zero(parts[3], u32::MAX as u64) as u32,
            created_at: parse_or_zero(parts[4], u64::MAX),
            attached,
            last_heartbeat: parse_or_zero(parts[6], u64::MAX),
        },
    )
}

fn decode_sessions(text: &str) -> (sessions: Vec<SessionEntry>)
    ensures
        entries(sessions@) == entries_of(lines(text@)),
{
    let chars = chars_of(text);
    let ls = split_lines(chars.as_slice());
    let mut sessions: Vec<SessionEntry> = Vec::new();
    let ghost all = lines(text@);
    let mut n: usize = 0;
    proof {
        assert(entries(sessions@) =~= entries_of(all.take(0)));
    }
    while n < ls.len()
        invariant
            n <= ls@.len(),
            all == pieces(ls@),
            entries(sessions@) == entries_of(all.take(n as int)),
        decreases ls@.len() - n,
    {
        let line: &[char] = ls[n];
        let ghost before = sessions@;
        proof {
            let t = all.take(n + 1);
            assert(t.drop_last() =~= all.take(n as int));
            assert(t.last() == line@);
        }
        match decode_entry(line) {
            Some(e) => {
                sessions.push(e);
                proof {
                    assert(entries(sessions@) =~= entries(before).push(e@));
                }
            },
            None => {},
        }
        n = n + 1;
    }
    proof {
        assert(all.take(n as int) =~= all);
    }
    sessions
}

fn decode_payload(ty: u8, payload: BytesMut) -> (r: Result<Frame, ProtocolError>)
    ensures
        match r {
            Ok(f) => frame_of(ty, buffered(payload)) == Ok::<FrameModel, ProtocolErrorModel>(f@),
            Err(e) => frame_of(ty, buffered(payload)) == Err::<FrameModel, ProtocolErrorModel>(e@),
        },
{
    let ghost p = buffered(payload);
    proof {
        assert(p.skip(0) =~= p);
    }
    match ty {
        TYPE_DATA => Ok(Frame::Data(payload.freeze())),
        TYPE_RESIZE => {
            if payload.len() != 4 {
                return Err(ProtocolError::ResizeSize);
            }
            let cols: u16 = read_u16(&payload, 0);
            let rows: u16 = read_u16(&payload, 2);
            Ok(Frame::Resize { cols, rows })
        },
        TYPE_EXIT => {
            if payload.len() != 4 {
                return Err(ProtocolError::ExitSize);
            }
            let code: i32 = read_i32(&payload, 0);
            Ok(Frame::Exit { code })
        },
        TYPE_DETACHED => Ok(Frame::Detached),
        TYPE_PING => Ok(Frame::Ping),
        TYPE_PONG => Ok(Frame::Pong),
        TYPE_ENV => {
            match decode_string(payload) {
                Ok(text) => Ok(Frame::Env { vars: decode_env(text.as_str()) }),
                Err(e) => Err(e),
            }
        },
        TYPE_NEW_SESSION => {
            match decode_string(payload) {
                Ok(name) => Ok(Frame::NewSession { name }),
                Err(e) => Err(e),
            }
        },
        TYPE_ATTACH => {
            match decode_string(payload) {
                Ok(session) => Ok(Frame::Attach { session }),
                Err(e) => Err(e),
            }
        },
        TYPE_LIST_SESSIONS => Ok(Frame::ListSessions),
        TYPE_KILL_SESSION => {
            match decode_string(payload) {
                Ok(session) => Ok(Frame::KillSession { session }),
                Err(e) => Err(e),
            }
        },
        TYPE_KILL_SERVER => Ok(Frame::KillServer),
        TYPE_SESSION_CREATED => {
            match decode_string(payload) {
                Ok(id) => Ok(Frame::SessionCreated { id }),
                Err(e) => Err(e),
            }
        },
        TYPE_SESSION_INFO => {
            match decode_string(payload) {
                Ok(text) => Ok(Frame::SessionInfo { sessions: decode_sessions(text.as_str()) }),
                Err(e) => Err(e),
            }
        },
        TYPE_OK => Ok(Frame::Okay),
        TYPE_ERROR => {
            match decode_string(payload) {
                Ok(message) => Ok(Frame::Error { message }),
                Err(e) => Err(e),
            }
        },
        _ => Err(ProtocolError::UnknownType { ty }),
    }
}

// ---------------------------------------------------------------------------
// Encoding
// ---------------------------------------------------------------------------

fn put_header(dst: &mut BytesMut, ty: u8, payload_len: usize)
    requires
        can_hold(buffered(*old(dst)).len() + HEADER_LEN as nat),
    ensures
        buffered(*final(dst)) == buffered(*old(dst)) + (seq![ty] + be32(payload_len as int)),
{
    append_u8(dst, ty);
    let low: u32 = (payload_len as u64 % 0x1_0000_0000) as u32;
    append_u32(dst, low);
    proof {
        lemma_be32_low(payload_len as int);
        assert(buffered(*dst) =~= buffered(*old(dst)) + (seq![ty] + be32(payload_len as int)));
    }
}

fn encode_empty(dst: &mut BytesMut, ty: u8)
    requires
        can_hold(buffered(*old(dst)).len() + framed(ty, Seq::empty()).len()),
    ensures
        buffered(*final(dst)) == buffered(*old(dst)) + framed(ty, Seq::empty()),
{
    put_header(dst, ty, 0);
    proof {
        assert(buffered(*dst) =~= buffered(*old(dst)) + framed(ty, Seq::empty()));
    }
}

fn encode_run(dst: &mut BytesMut, ty: u8, payload: &[u8])
    requires
        can_hold(buffered(*old(dst)).len() + framed(ty, payload@).len()),
    ensures
        buffered(*final(dst)) == buffered(*old(dst)) + framed(ty, payload@),
{
    put_header(dst, ty, payload.len());
    dst.extend_from_slice(payload);
    proof {
        assert(buffered(*dst) =~= buffered(*old(dst)) + framed(ty, payload@));
    }
}

fn encode_str(dst: &mut BytesMut, ty: u8, s: &str)
    requires
        can_hold(buffered(*old(dst)).len() + framed(ty, encode_utf8(s@)).len()),
    ensures
        buffered(*final(dst)) == buffered(*old(dst)) + framed(ty, encode_utf8(s@)),
{
    encode_run(dst, ty, s.as_bytes());
}

fn env_to_text(vars: &Vec<(String, String)>) -> (text: String)
    ensures
        text@ == env_text(pairs(vars@)),
{
    let mut ls: Vec<String> = Vec::new();
    let mut i: usize = 0;
    while i < vars.len()
        invariant
            i <= vars@.len(),
            ls@.len() == i,
            forall|j: int|
                0 <= j < i ==> (#[trigger] ls@[j])@ == env_line((vars@[j].0@, vars@[j].1@)),
        decreases vars@.len() - i,
    {
        let mut line: String = vars[i].0.clone();
        push_char(&mut line, '=');
        line.append(vars[i].1.as_str());
        ls.push(line);
        i = i + 1;
    }
    proof {
        assert(texts(ls@) =~= pairs(vars@).map_values(
            |p: (Seq<char>, Seq<char>)| env_line(p),
        ));
    }
    join_texts(ls.as_slice(), '\n')
}

fn entry_to_line(e: &SessionEntry) -> (line: String)
    ensures
        line@ == entry_line(e@),
{
    let flag: String = if e.attached {
        let mut one: String = String::new();
        push_char(&mut one, '1');
        one
    } else {
        let mut zero: String = String::new();
        push_char(&mut zero, '0');
        zero
    };
    let mut fields: Vec<String> = Vec::new();
    fields.push(e.id.clone());
    fields.push(e.name.clone());
    fields.push(e.pty_path.clone());
    fields.push(decimal_text(e.shell_pid as u64));
    fields.push(decimal_text(e.created_at));
    fields.push(flag);
    fields.push(decimal_text(e.last_heartbeat));
    proof {
        assert(flag@ =~= attached_flag(e.attached));
        assert(texts(fields@) =~= entry_fields(e@));
    }
    join_texts(fields.as_slice(), '\t')
}

fn sessions_to_text(sessions: &Vec<SessionEntry>) -> (text: String)
    ensures
        text@ == sessions_text(entries(sessions@)),
{
    let mut ls: Vec<String> = Vec::new();
    let mut i: usize = 0;
    while i < sessions.len()
        invariant
            i <= sessions@.len(),
            ls@.len() == i,
            forall|j: int| 0 <= j < i ==> (#[trigger] ls@[j])@ == entry_line(sessions@[j]@),
        decreases sessions@.len() - i,
    {
        ls.push(entry_to_line(&sessions[i]));
        i = i + 1;
    }
    proof {
        assert(texts(ls@) =~= entries(sessions@).map_values(|e: EntryModel| entry_line(e)));
    }
    join_texts(ls.as_slice(), '\n')
}

/// The length of a frame's payload.
fn payload_len(frame: &Frame) -> (n: usize)
    ensures
        n == payload(frame@).len(),
{
    match frame {
        Frame::Data(data) => run_slice(data).len(),
        Frame::Resize { .. } => 4,
        Frame::Exit { .. } => 4,
        Frame::Env { vars } => env_to_text(vars).as_str().as_bytes().len(),
        Frame::NewSession { name } => name.as_str().as_bytes().len(),
        Frame::Attach { session } => session.as_str().as_bytes().len(),
        Frame::KillSession { session } => session.as_str().as_bytes().len(),
        Frame::SessionCreated { id } => id.as_str().as_bytes().len(),
        Frame::SessionInfo { sessions } => sessions_to_text(sessions).as_str().as_bytes().len(),
        Frame::Error { message } => message.as_str().as_bytes().len(),
        _ => 0,
    }
}

/// Turns frames into bytes and bytes into frames.
pub struct FrameCodec;

impl FrameCodec {
    /// Takes the first frame out of the buffer, when it is complete.
    pub fn decode(&mut self, src: &mut BytesMut) -> (r: Result<Option<Frame>, ProtocolError>)
        ensures
            decoded(r) == decode_step(buffered(*old(src))).0,
            buffered(*final(src)) == decode_step(buffered(*old(src))).1,
    {
        let ghost s = buffered(*src);
        let have: usize = src.len();
        if have < HEADER_LEN {
            return Ok(None);
        }
        let frame_type: u8 = byte_at(src, 0);
        let payload_len: usize = read_u32(src, 1) as usize;
        if payload_len > MAX_FRAME_SIZE {
            return Err(ProtocolError::TooLarge { len: payload_len });
        }
        if have < HEADER_LEN + payload_len {
            src.reserve(HEADER_LEN + payload_len - have);
            return Ok(None);
        }
        drop_front(src, HEADER_LEN);
        let payload = src.split_to(payload_len);
        proof {
            let end = HEADER_LEN + announced(s);
            assert(buffered(payload) =~= s.subrange(HEADER_LEN as int, end));
            assert(buffered(*src) =~= s.skip(end));
        }
        match decode_payload(frame_type, payload) {
            Ok(f) => Ok(Some(f)),
            Err(e) => Err(e),
        }
    }

    /// Whether the buffer can grow enough to take the frame.
    pub fn has_room(&self, frame: &Frame, dst: &BytesMut) -> (r: bool)
        ensures
            r == can_hold(buffered(*dst).len() + frame_bytes(frame@).len()),
    {
        let have: usize = dst.len();
        let payload: usize = payload_len(frame);
        let limit: usize = isize::MAX as usize / 4;
        have <= limit && payload <= limit - have && HEADER_LEN <= limit - have - payload
    }

    /// Appends a frame to the buffer. This never fails.
    pub fn encode(&mut self, frame: Frame, dst: &mut BytesMut) -> (r: Result<(), ProtocolError>)
        requires
            can_hold(buffered(*old(dst)).len() + frame_bytes(frame@).len()),
        ensures
            r is Ok,
            buffered(*final(dst)) == buffered(*old(dst)) + frame_bytes(frame@),
    {
        let ghost before = buffered(*dst);
        match frame {
            Frame::Data(data) => encode_run(dst, TYPE_DATA, run_slice(&data)),
            Frame::Resize { cols, rows } => {
                put_header(dst, TYPE_RESIZE, 4);
                append_u16(dst, cols);
                append_u16(dst, rows);
                proof {
                    assert(buffered(*dst) =~= before + frame_bytes(frame@));
                }
            },
            Frame::Exit { code } => {
                put_header(dst, TYPE_EXIT, 4);
                append_i32(dst, code);
                proof {
                    assert(buffered(*dst) =~= before + frame_bytes(frame@));
                }
            },
            Frame::Detached => encode_empty(dst, TYPE_DETACHED),
            Frame::Ping => encode_empty(dst, TYPE_PING),
            Frame::Pong => encode_empty(dst, TYPE_PONG),
            Frame::Env { vars } => encode_str(dst, TYPE_ENV, env_to_text(&vars).as_str()),
            Frame::NewSession { name } => encode_str(dst, TYPE_NEW_SESSION, name.as_str()),
            Frame::Attach { session } => encode_str(dst, TYPE_ATTACH, session.as_str()),
            Frame::ListSessions => encode_empty(dst, TYPE_LIST_SESSIONS),
            Frame::KillSession { session } => encode_str(dst, TYPE_KILL_SESSION, session.as_str()),
            Frame::KillServer => encode_empty(dst, TYPE_KILL_SERVER),
            Frame::SessionCreated { id } => encode_str(dst, TYPE_SESSION_CREATED, id.as_str()),
            Frame::SessionInfo { sessions } => {
                encode_str(dst, TYPE_SESSION_INFO, sessions_to_text(&sessions).as_str())
            },
            Frame::Okay => encode_empty(dst, TYPE_OK),
            Frame::Error { message } => encode_str(dst, TYPE_ERROR, message.as_str()),
        }
        Ok(())
    }
}

/// The frame that came out of a connection, or the words for why there is none. The
/// connection may have ended, or failed with an error whose words are given.
pub open spec fn expected(result: Option<Result<FrameModel, Seq<char>>>) -> Result<
    FrameModel,
    Seq<char>,
> {
    match result {
        Some(Ok(frame)) => Ok(frame),
        Some(Err(e)) => Err("daemon protocol error: "@ + e),
        None => Err("daemon closed connection"@),
    }
}

/// What came out of a connection, as a mathematical value.
pub open spec fn received(result: Option<Result<Frame, String>>) -> Option<
    Result<FrameModel, Seq<char>>,
> {
    match result {
        Some(Ok(frame)) => Some(Ok(frame@)),
        Some(Err(e)) => Some(Err(e@)),
        None => None,
    }
}

impl Frame {
    /// The frame that came out of a connection. When the connection ended or failed
    /// instead, the words for that.
    pub fn expect_from(result: Option<Result<Frame, String>>) -> (r: Result<Frame, String>)
        ensures
            match r {
                Ok(f) => expected(received(result)) == Ok::<FrameModel, Seq<char>>(f@),
                Err(e) => expected(received(result)) == Err::<FrameModel, Seq<char>>(e@),
            },
    {
        match result {
            Some(Ok(frame)) => Ok(frame),
            Some(Err(e)) => Err(joined("daemon protocol error: ", e.as_str())),
            None => Err("daemon closed connection".to_owned()),
        }
    }
}

} // verus!
