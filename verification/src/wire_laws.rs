//! How frames stand on the wire, byte for byte, and what any bytes are read as.

use bytes::BytesMut;
use vstd::prelude::*;
use vstd::utf8::{decode_utf8, encode_utf8, valid_utf8};

use crate::buffer::{buffered, utf8_complaint};
use crate::errors::ErrorKind;
use crate::protocol::{
    decode_step, entries_of, entry_fields, entry_line, entry_of, env_line, env_text, env_var,
    env_vars, frame_bytes, payload, sessions_text, EntryModel, Frame, FrameCodec, FrameModel,
    ProtocolError, ProtocolErrorModel,
};
use crate::rows::{join, lemma_split_join, lines, };
use crate::text::{decimal, hex_byte, lemma_first_at, number};
use crate::text_laws::law_joining_parts;

verus! {

// ---------------------------------------------------------------------------
// Writing
// ---------------------------------------------------------------------------

/// Each kind of frame has a type byte of its own, and it stands in front.
pub proof fn law_type_bytes(f: FrameModel)
    ensures
        frame_bytes(f)[0] == match f {
            FrameModel::Data(_) => 0x01u8,
            FrameModel::Resize { .. } => 0x02u8,
            FrameModel::Exit { .. } => 0x03u8,
            FrameModel::Detached => 0x04u8,
            FrameModel::Ping => 0x05u8,
            FrameModel::Pong => 0x06u8,
            FrameModel::Env { .. } => 0x07u8,
            FrameModel::NewSession { .. } => 0x10u8,
            FrameModel::Attach { .. } => 0x11u8,
            FrameModel::ListSessions => 0x12u8,
            FrameModel::KillSession { .. } => 0x13u8,
            FrameModel::KillServer => 0x14u8,
            FrameModel::SessionCreated { .. } => 0x20u8,
            FrameModel::SessionInfo { .. } => 0x21u8,
            FrameModel::Okay => 0x22u8,
            FrameModel::Error { .. } => 0x23u8,
        },
{
}

/// Behind the type byte stands the length of what follows, as four bytes with the most
/// significant first, and then nothing but that.
pub proof fn law_length_stands_in_the_header(f: FrameModel)
    requires
        frame_bytes(f).len() < 0x1_0000_0000,
    ensures
        frame_bytes(f).len() >= 5,
        ({
            let b = frame_bytes(f);
            b[1] * 0x100_0000 + b[2] * 0x1_0000 + b[3] * 0x100 + b[4] == b.len() - 5
        }),
{
    let p = payload(f);
    crate::buffer::lemma_be32(p.len() as int);
    let b = frame_bytes(f);
    let h = crate::buffer::be32(p.len() as int);
    assert(b[1] == h[0] && b[2] == h[1] && b[3] == h[2] && b[4] == h[3]);
}

/// Behind the header stands what the frame carries: bytes as they are, the columns and the
/// rows as two bytes each, a code as four bytes in two's complement, a text in UTF-8, and
/// nothing where there is nothing to carry.
pub proof fn law_payload_is_carried(f: FrameModel)
    ensures
        ({
            let p = frame_bytes(f).skip(5);
            match f {
                FrameModel::Data(data) => p == data,
                FrameModel::Resize { cols, rows } => {
                    &&& p.len() == 4
                    &&& p[0] * 0x100 + p[1] == cols
                    &&& p[2] * 0x100 + p[3] == rows
                },
                FrameModel::Exit { code } => {
                    &&& p.len() == 4
                    &&& p[0] * 0x100_0000 + p[1] * 0x1_0000 + p[2] * 0x100 + p[3] == if code < 0 {
                        code + 0x1_0000_0000
                    } else {
                        code as int
                    }
                },
                FrameModel::NewSession { name } => p == encode_utf8(name),
                FrameModel::Attach { session } => p == encode_utf8(session),
                FrameModel::KillSession { session } => p == encode_utf8(session),
                FrameModel::SessionCreated { id } => p == encode_utf8(id),
                FrameModel::Error { message } => p == encode_utf8(message),
                FrameModel::Env { vars } => p == encode_utf8(env_text(vars)),
                FrameModel::SessionInfo { sessions } => p == encode_utf8(sessions_text(sessions)),
                _ => p.len() == 0,
            }
        }),
{
    let p = frame_bytes(f).skip(5);
    assert(p =~= payload(f));
    if let FrameModel::Resize { cols, rows } = f {
        crate::buffer::lemma_be16(cols as int);
        crate::buffer::lemma_be16(rows as int);
        let c = crate::buffer::be16(cols as int);
        let r = crate::buffer::be16(rows as int);
        assert(p[0] == c[0] && p[1] == c[1] && p[2] == r[0] && p[3] == r[1]);
    }
    if let FrameModel::Exit { code } = f {
        crate::buffer::lemma_signed(code);
        crate::buffer::lemma_be32(crate::buffer::as_unsigned(code as int));
    }
}

/// Variables stand in lines, each as its name, an equals sign and its value, in their
/// order.
pub proof fn law_variables_stand_in_lines(
    vars: Seq<(Seq<char>, Seq<char>)>,
    name: Seq<char>,
    value: Seq<char>,
)
    ensures
        env_text(Seq::empty()).len() == 0,
        env_text(seq![(name, value)]) == name + seq!['='] + value,
        vars.len() > 0 ==> env_text(vars.push((name, value))) == env_text(vars) + seq!['\n'] + name
            + seq!['='] + value,
{
    let line = name.push('=') + value;
    assert(line =~= name + seq!['='] + value);
    let each = |p: (Seq<char>, Seq<char>)| env_line(p);
    assert(vars.push((name, value)).map_values(each) =~= vars.map_values(each).push(line));
    assert(seq![(name, value)].map_values(each) =~= seq![line]);
    law_joining_parts(vars.map_values(each), line, '\n');
    let none = Seq::<(Seq<char>, Seq<char>)>::empty();
    assert(none.map_values(each) =~= Seq::empty());
    if vars.len() > 0 {
        assert(env_text(vars.push((name, value))) =~= env_text(vars) + seq!['\n'] + name + seq!['=']
            + value);
    }
}

/// Sessions stand in lines, each with its seven fields between tabs, in their order.
pub proof fn law_sessions_stand_in_lines(sessions: Seq<EntryModel>, e: EntryModel)
    ensures
        ({
            let tab = seq!['\t'];
            let flag = if e.attached {
                seq!['1']
            } else {
                seq!['0']
            };
            let line = e.id + tab + e.name + tab + e.pty_path + tab + decimal(e.shell_pid as nat)
                + tab + decimal(e.created_at as nat) + tab + flag + tab + decimal(
                e.last_heartbeat as nat,
            );
            &&& sessions_text(Seq::empty()).len() == 0
            &&& sessions_text(seq![e]) == line
            &&& sessions.len() > 0 ==> sessions_text(sessions.push(e)) == sessions_text(sessions)
                + seq!['\n'] + line
        }),
{
    let tab = seq!['\t'];
    let flag = if e.attached {
        seq!['1']
    } else {
        seq!['0']
    };
    let f = entry_fields(e);
    law_joining_parts(f.take(1), f[1], '\t');
    law_joining_parts(f.take(2), f[2], '\t');
    law_joining_parts(f.take(3), f[3], '\t');
    law_joining_parts(f.take(4), f[4], '\t');
    law_joining_parts(f.take(5), f[5], '\t');
    law_joining_parts(f.take(6), f[6], '\t');
    law_joining_parts(Seq::empty(), f[0], '\t');
    assert(f.take(1) =~= seq![f[0]]);
    assert(f.take(1).push(f[1]) =~= f.take(2));
    assert(f.take(2).push(f[2]) =~= f.take(3));
    assert(f.take(3).push(f[3]) =~= f.take(4));
    assert(f.take(4).push(f[4]) =~= f.take(5));
    assert(f.take(5).push(f[5]) =~= f.take(6));
    assert(f.take(6).push(f[6]) =~= f);
    let line = entry_line(e);
    assert(line == e.id + tab + e.name + tab + e.pty_path + tab + decimal(e.shell_pid as nat) + tab
        + decimal(e.created_at as nat) + tab + flag + tab + decimal(e.last_heartbeat as nat));
    let each = |x: EntryModel| entry_line(x);
    assert(sessions.push(e).map_values(each) =~= sessions.map_values(each).push(line));
    assert(seq![e].map_values(each) =~= seq![line]);
    let none = Seq::<EntryModel>::empty();
    assert(none.map_values(each) =~= Seq::empty());
    law_joining_parts(sessions.map_values(each), line, '\n');
}

// ---------------------------------------------------------------------------
// Reading
// ---------------------------------------------------------------------------

/// What any bytes are read as, up to the payload: less than a header waits; a header that
/// announces more than a mebibyte is refused at once, and nothing is taken; a payload that
/// is not there yet is waited for; and what is complete is taken, exactly that.
pub proof fn law_reading_any_bytes(s: Seq<u8>)
    ensures
        ({
            let n = s[1] * 0x100_0000 + s[2] * 0x1_0000 + s[3] * 0x100 + s[4];
            let (r, left) = decode_step(s);
            &&& s.len() < 5 ==> r == Ok::<Option<FrameModel>, ProtocolErrorModel>(None) && left == s
            &&& s.len() >= 5 && n > 1_048_576 ==> r == Err::<
                Option<FrameModel>,
                ProtocolErrorModel,
            >(ProtocolErrorModel::TooLarge { len: n }) && left == s
            &&& s.len() >= 5 && n <= 1_048_576 && s.len() < 5 + n ==> r == Ok::<
                Option<FrameModel>,
                ProtocolErrorModel,
            >(None) && left == s
            &&& s.len() >= 5 && n <= 1_048_576 && s.len() >= 5 + n ==> {
                &&& !(r matches Ok(None))
                &&& !(r matches Err(ProtocolErrorModel::TooLarge { .. }))
                &&& left == s.skip(5 + n)
            }
        }),
{
    if s.len() >= 5 {
        assert(s.skip(1)[0] == s[1]);
        assert(s.skip(1)[1] == s[2]);
        assert(s.skip(1)[2] == s[3]);
        assert(s.skip(1)[3] == s[4]);
    }
}

/// What a complete frame is read as, by its type byte and its payload. A size and a code
/// must be four bytes long. A text must be UTF-8. Where nothing is carried, the payload
/// means nothing. A type byte that no frame has is refused.
pub proof fn law_reading_a_complete_frame(s: Seq<u8>, p: Seq<u8>, rest: Seq<u8>)
    requires
        s.len() >= 5,
        s[1] * 0x100_0000 + s[2] * 0x1_0000 + s[3] * 0x100 + s[4] == p.len(),
        p.len() <= 1_048_576,
        s.skip(5) == p + rest,
    ensures
        ({
            let ty = s[0];
            let r = decode_step(s).0;
            let text = decode_utf8(p);
            let is_text = ty == 0x07 || ty == 0x10 || ty == 0x11 || ty == 0x13 || ty == 0x20 || ty
                == 0x21 || ty == 0x23;
            let is_bare = ty == 0x04 || ty == 0x05 || ty == 0x06 || ty == 0x12 || ty == 0x14 || ty
                == 0x22;
            &&& ty == 0x01 ==> (r matches Ok(Some(f)) && f == FrameModel::Data(p))
            &&& ty == 0x02 && p.len() == 4 ==> (r matches Ok(Some(FrameModel::Resize { cols, rows }))
                && cols == p[0] * 0x100 + p[1] && rows == p[2] * 0x100 + p[3])
            &&& ty == 0x02 && p.len() != 4 ==> (r matches Err(e) && e is ResizeSize)
            &&& ty == 0x03 && p.len() == 4 ==> (r matches Ok(Some(FrameModel::Exit { code })) && {
                let n = p[0] * 0x100_0000 + p[1] * 0x1_0000 + p[2] * 0x100 + p[3];
                code == if n >= 0x8000_0000 {
                    n - 0x1_0000_0000
                } else {
                    n
                }
            })
            &&& ty == 0x03 && p.len() != 4 ==> (r matches Err(e) && e is ExitSize)
            &&& ty == 0x04 ==> (r matches Ok(Some(f)) && f is Detached)
            &&& ty == 0x05 ==> (r matches Ok(Some(f)) && f is Ping)
            &&& ty == 0x06 ==> (r matches Ok(Some(f)) && f is Pong)
            &&& ty == 0x12 ==> (r matches Ok(Some(f)) && f is ListSessions)
            &&& ty == 0x14 ==> (r matches Ok(Some(f)) && f is KillServer)
            &&& ty == 0x22 ==> (r matches Ok(Some(f)) && f is Okay)
            &&& is_text && !valid_utf8(p) ==> (r matches Err(e) && e == (
            ProtocolErrorModel::InvalidUtf8 { detail: utf8_complaint(p) }))
            &&& is_text && valid_utf8(p) ==> (r matches Ok(Some(f)) && f == if ty == 0x07 {
                FrameModel::Env { vars: env_vars(lines(text)) }
            } else if ty == 0x10 {
                FrameModel::NewSession { name: text }
            } else if ty == 0x11 {
                FrameModel::Attach { session: text }
            } else if ty == 0x13 {
                FrameModel::KillSession { session: text }
            } else if ty == 0x20 {
                FrameModel::SessionCreated { id: text }
            } else if ty == 0x21 {
                FrameModel::SessionInfo { sessions: entries_of(lines(text)) }
            } else {
                FrameModel::Error { message: text }
            })
            &&& !is_text && !is_bare && ty != 0x01 && ty != 0x02 && ty != 0x03 ==> (r matches Err(e)
                && e == (ProtocolErrorModel::UnknownType { ty }))
        }),
{
    law_reading_any_bytes(s);
    assert(s.len() == 5 + p.len() + rest.len()) by {
        assert(s.skip(5).len() == p.len() + rest.len());
    }
    assert(s.subrange(5, 5 + p.len() as int) =~= p) by {
        assert forall|i: int| 0 <= i < p.len() implies s.subrange(5, 5 + p.len() as int)[i]
            == p[i] by {
            assert(s.skip(5)[i] == s[5 + i]);
        }
    }
    assert(s.skip(1)[0] == s[1]);
    assert(s.skip(1)[1] == s[2]);
    assert(s.skip(1)[2] == s[3]);
    assert(s.skip(1)[3] == s[4]);
    if p.len() == 4 {
        assert(p.skip(2)[0] == p[2]);
        assert(p.skip(2)[1] == p[3]);
    }
}

/// Lines are read as variables one by one, in their order: what stands before the first
/// equals sign is the name, what stands behind it the value. A line without one is passed
/// over.
pub proof fn law_lines_are_read_as_variables(
    before: Seq<Seq<char>>,
    name: Seq<char>,
    value: Seq<char>,
    other: Seq<char>,
)
    requires
        !name.contains('='),
        !other.contains('='),
    ensures
        env_vars(Seq::empty()).len() == 0,
        env_vars(before.push(name + seq!['='] + value)) == env_vars(before).push((name, value)),
        env_vars(before.push(other)) == env_vars(before),
{
    let line = name + seq!['='] + value;
    assert(line[name.len() as int] == '=');
    assert forall|j: int| 0 <= j < name.len() implies line[j] != '=' by {
        assert(line[j] == name[j]);
    }
    lemma_first_at(line, '=', name.len() as int);
    assert(line.take(name.len() as int) =~= name);
    assert(line.skip(name.len() as int + 1) =~= value);
    assert(env_var(line) == Some((name, value)));
    assert forall|j: int| 0 <= j < other.len() implies other[j] != '=' by {}
    lemma_first_at(other, '=', other.len() as int);
    assert(before.push(line).drop_last() =~= before);
    assert(before.push(other).drop_last() =~= before);
}

/// Lines are read as sessions one by one, in their order. Each field is found in its place:
/// what is no number counts as zero, and only `1` means attached.
pub proof fn law_lines_are_read_as_sessions(before: Seq<Seq<char>>, f: Seq<Seq<char>>)
    requires
        f.len() > 0,
        forall|i: int| 0 <= i < f.len() ==> !(#[trigger] f[i]).contains('\t'),
    ensures
        ({
            let after = entries_of(before.push(join(f, '\t')));
            &&& entries_of(Seq::empty()).len() == 0
            &&& f.len() != 7 ==> after == entries_of(before)
            &&& f.len() == 7 ==> {
                let e = after.last();
                &&& after.len() == entries_of(before).len() + 1
                &&& after.drop_last() == entries_of(before)
                &&& e.id == f[0]
                &&& e.name == f[1]
                &&& e.pty_path == f[2]
                &&& e.shell_pid == number(f[3], 0xffff_ffff).unwrap_or(0)
                &&& e.created_at == number(f[4], 0xffff_ffff_ffff_ffff).unwrap_or(0)
                &&& e.attached <==> f[5].len() == 1 && f[5][0] == '1'
                &&& e.last_heartbeat == number(f[6], 0xffff_ffff_ffff_ffff).unwrap_or(0)
            }
        }),
{
    lemma_split_join(f, '\t');
    let line = join(f, '\t');
    assert(before.push(line).drop_last() =~= before);
    if f.len() == 7 {
        assert(entry_of(line) is Some);
        let e = entry_of(line)->0;
        assert(entries_of(before).push(e).drop_last() =~= entries_of(before));
        if f[5].len() == 1 && f[5][0] == '1' {
            assert(f[5] =~= seq!['1']);
        }
    }
}

// ---------------------------------------------------------------------------
// Errors
// ---------------------------------------------------------------------------

/// What is wrong with bytes is said in words that name the length, the type byte or what is
/// wrong with the text, and every such error is about invalid data.
pub proof fn law_protocol_errors_have_words(e: ProtocolError, s: String, k: ErrorKind)
    requires
        call_ensures(ProtocolError::message, (&e,), s),
        call_ensures(ProtocolError::kind, (&e,), k),
    ensures
        k == ErrorKind::InvalidData,
        s@ == match e {
            ProtocolError::TooLarge { len } => "frame payload too large: "@ + decimal(len as nat)
                + " bytes (max 1048576)"@,
            ProtocolError::ResizeSize => "resize frame must be 4 bytes"@,
            ProtocolError::ExitSize => "exit frame must be 4 bytes"@,
            ProtocolError::InvalidUtf8 { detail } => detail@,
            ProtocolError::UnknownType { ty } => "unknown frame type: 0x"@ + hex_byte(ty),
        },
{
}

/// A frame that came is handed on as it is. A connection that ended or failed is told
/// apart, and the words of a failure are kept.
pub proof fn law_expected_frame(result: Option<Result<Frame, String>>, r: Result<Frame, String>)
    requires
        call_ensures(Frame::expect_from, (result,), r),
    ensures
        match result {
            Some(Ok(f)) => r matches Ok(g) && g@ == f@,
            Some(Err(words)) => r matches Err(e) && e@ == "daemon protocol error: "@ + words@,
            None => r matches Err(e) && e@ == "daemon closed connection"@,
        },
{
}

/// There is room for a frame as long as the bytes that stand in the buffer and those of the
/// frame are together no more than a quarter of what can be addressed.
pub proof fn law_room_for_a_frame(c: FrameCodec, f: Frame, dst: BytesMut, r: bool)
    requires
        call_ensures(FrameCodec::has_room, (&c, &f, &dst), r),
    ensures
        r <==> 4 * (buffered(dst).len() + frame_bytes(f@).len()) <= isize::MAX,
{
}

} // verus!
