//! What the wire protocol promises as a whole: frames come out as they went in, however
//! the bytes arrive.

use vstd::prelude::*;

use crate::buffer::{as_unsigned, be16, be32, lemma_be16, lemma_be32, lemma_signed};
use crate::protocol::{
    announced, attached_flag, decode_step, entries_of, entry_fields, entry_line, entry_of, env_line,
    env_text, env_var, env_vars, frame_bytes, frame_of, frame_type, framed, payload, sessions_text,
    EntryModel, FrameModel, ProtocolErrorModel, HEADER_LEN, MAX_FRAME_SIZE,
};
use crate::rows::{clean_lines, join, lemma_lines_join, lemma_split_join, lines};
use crate::text::{decimal, is_digit, lemma_decimal_digits, lemma_first_at, lemma_number_of_decimal};

verus! {

/// A variable that can be told apart from its neighbours: the name holds no equals sign
/// and no newline, and the value holds no newline.
pub open spec fn clean_var(var: (Seq<char>, Seq<char>)) -> bool {
    !var.0.contains('=') && !var.0.contains('\n') && !var.1.contains('\n')
}

/// The variables survive the wire: each is clean, and only the last value may end with a
/// carriage return.
pub open spec fn clean_vars(vars: Seq<(Seq<char>, Seq<char>)>) -> bool {
    &&& forall|i: int| 0 <= i < vars.len() ==> clean_var(#[trigger] vars[i])
    &&& forall|i: int|
        0 <= i < vars.len() - 1 && (#[trigger] vars[i]).1.len() > 0 ==> vars[i].1.last() != '\r'
}

/// A text that can be a field of a line: it holds no tab and no newline.
pub open spec fn clean_field(s: Seq<char>) -> bool {
    !s.contains('\t') && !s.contains('\n')
}

/// The entry survives the wire.
pub open spec fn clean_entry(e: EntryModel) -> bool {
    clean_field(e.id) && clean_field(e.name) && clean_field(e.pty_path)
}

/// The frame survives the wire. Only variables and session entries can fail to.
pub open spec fn clean_frame(f: FrameModel) -> bool {
    match f {
        FrameModel::Env { vars } => clean_vars(vars),
        FrameModel::SessionInfo { sessions } => forall|i: int|
            0 <= i < sessions.len() ==> clean_entry(#[trigger] sessions[i]),
        _ => true,
    }
}

/// The frame's payload is no larger than a receiver accepts.
pub open spec fn fits(f: FrameModel) -> bool {
    payload(f).len() <= MAX_FRAME_SIZE
}

/// The parts of a frame that stands at the front of some bytes.
proof fn lemma_header(ty: u8, p: Seq<u8>, rest: Seq<u8>)
    requires
        p.len() < 0x1_0000_0000,
    ensures
        ({
            let s = framed(ty, p) + rest;
            &&& s.len() >= HEADER_LEN + p.len()
            &&& s[0] == ty
            &&& announced(s) == p.len()
            &&& s.subrange(HEADER_LEN as int, HEADER_LEN + p.len()) == p
            &&& s.skip((HEADER_LEN + p.len()) as int) == rest
        }),
{
    let s = framed(ty, p) + rest;
    let n = p.len() as int;
    lemma_be32(n);
    assert(s.skip(1)[0] == be32(n)[0]);
    assert(s.skip(1)[1] == be32(n)[1]);
    assert(s.skip(1)[2] == be32(n)[2]);
    assert(s.skip(1)[3] == be32(n)[3]);
    assert(s.subrange(HEADER_LEN as int, HEADER_LEN + p.len()) =~= p);
    assert(s.skip((HEADER_LEN + p.len()) as int) =~= rest);
}

/// A clean variable is read back from its line.
proof fn lemma_env_var(var: (Seq<char>, Seq<char>))
    requires
        clean_var(var),
    ensures
        env_var(env_line(var)) == Some(var),
{
    let line = env_line(var);
    assert forall|j: int| 0 <= j < var.0.len() implies line[j] != '=' by {
        assert(line[j] == var.0[j]);
        assert(!var.0.contains('='));
    }
    lemma_first_at(line, '=', var.0.len() as int);
    assert(line.take(var.0.len() as int) =~= var.0);
    assert(line.skip(var.0.len() as int + 1) =~= var.1);
}

/// Lines that each give a variable give these variables.
proof fn lemma_env_vars(vars: Seq<(Seq<char>, Seq<char>)>)
    requires
        forall|i: int| 0 <= i < vars.len() ==> clean_var(#[trigger] vars[i]),
    ensures
        env_vars(vars.map_values(|p: (Seq<char>, Seq<char>)| env_line(p))) == vars,
    decreases vars.len(),
{
    let ls = vars.map_values(|p: (Seq<char>, Seq<char>)| env_line(p));
    if vars.len() == 0 {
        assert(vars =~= Seq::empty());
    } else {
        let front = vars.drop_last();
        lemma_env_vars(front);
        assert(ls.drop_last() =~= front.map_values(|p: (Seq<char>, Seq<char>)| env_line(p)));
        assert(ls.last() == env_line(vars.last()));
        lemma_env_var(vars.last());
        assert(front.push(vars.last()) =~= vars);
    }
}

/// Clean variables are read back from their text.
proof fn lemma_env_text(vars: Seq<(Seq<char>, Seq<char>)>)
    requires
        clean_vars(vars),
    ensures
        env_vars(lines(env_text(vars))) == vars,
{
    let ls = vars.map_values(|p: (Seq<char>, Seq<char>)| env_line(p));
    assert forall|i: int| 0 <= i < ls.len() implies !(#[trigger] ls[i]).contains('\n') by {
        let var = vars[i];
        assert(clean_var(var));
        assert forall|j: int| 0 <= j < ls[i].len() implies ls[i][j] != '\n' by {
            if j < var.0.len() {
                assert(ls[i][j] == var.0[j]);
            } else if j > var.0.len() {
                assert(ls[i][j] == var.1[j - var.0.len() - 1]);
            }
        }
    }
    assert forall|i: int|
        0 <= i < ls.len() - 1 && (#[trigger] ls[i]).len() > 0 implies ls[i].last() != '\r' by {
        let var = vars[i];
        if var.1.len() > 0 {
            assert(ls[i].last() == var.1.last());
        } else {
            assert(ls[i].last() == '=');
        }
    }
    assert(clean_lines(ls));
    lemma_lines_join(ls);
    lemma_env_vars(vars);
}

/// A clean field between tabs; digits are clean.
proof fn lemma_digits_clean(n: nat)
    ensures
        clean_field(decimal(n)),
        decimal(n).len() > 0,
        decimal(n).last() != '\r',
{
    lemma_decimal_digits(n);
    let d = decimal(n);
    assert forall|i: int| 0 <= i < d.len() implies d[i] != '\t' && d[i] != '\n' && d[i]
        != '\r' by {
        assert(is_digit(d[i]));
    }
}

/// Joining clean parts gives a text without newlines that ends as its last part does.
proof fn lemma_join_clean(parts: Seq<Seq<char>>)
    requires
        parts.len() > 0,
        forall|i: int| 0 <= i < parts.len() ==> !(#[trigger] parts[i]).contains('\n'),
        parts.last().len() > 0,
    ensures
        !join(parts, '\t').contains('\n'),
        join(parts, '\t').len() > 0,
        join(parts, '\t').last() == parts.last().last(),
    decreases parts.len(),
{
    let s = join(parts, '\t');
    assert forall|j: int| 0 <= j < s.len() implies s[j] != '\n' by {
        lemma_join_no_newline(parts);
    }
}

proof fn lemma_join_no_newline(parts: Seq<Seq<char>>)
    requires
        forall|i: int| 0 <= i < parts.len() ==> !(#[trigger] parts[i]).contains('\n'),
    ensures
        !join(parts, '\t').contains('\n'),
    decreases parts.len(),
{
    let s = join(parts, '\t');
    if parts.len() > 1 {
        let front = parts.drop_last();
        assert forall|i: int| 0 <= i < front.len() implies !(#[trigger] front[i]).contains(
            '\n',
        ) by {
            assert(front[i] == parts[i]);
        }
        lemma_join_no_newline(front);
        let head = join(front, '\t');
        assert(!parts.last().contains('\n'));
        assert forall|j: int| 0 <= j < s.len() implies s[j] != '\n' by {
            if j < head.len() {
                assert(s[j] == head[j]);
            } else if j > head.len() {
                assert(s[j] == parts.last()[j - head.len() - 1]);
            }
        }
    }
}

/// A clean entry is read back from its line.
proof fn lemma_entry(e: EntryModel)
    requires
        clean_entry(e),
    ensures
        entry_of(entry_line(e)) == Some(e),
        !entry_line(e).contains('\n'),
        entry_line(e).len() > 0,
        entry_line(e).last() != '\r',
{
    let f = entry_fields(e);
    lemma_digits_clean(e.shell_pid as nat);
    lemma_digits_clean(e.created_at as nat);
    lemma_digits_clean(e.last_heartbeat as nat);
    lemma_number_of_decimal(e.shell_pid as nat, u32::MAX as nat);
    lemma_number_of_decimal(e.created_at as nat, u64::MAX as nat);
    lemma_number_of_decimal(e.last_heartbeat as nat, u64::MAX as nat);
    assert(f[5] == attached_flag(e.attached));
    assert(!f[5].contains('\t') && !f[5].contains('\n'));
    assert(f[5] == seq!['1'] <==> e.attached) by {
        if !e.attached {
            assert(f[5][0] == '0');
        }
    }
    assert forall|i: int| 0 <= i < f.len() implies !(#[trigger] f[i]).contains('\t')
        && !f[i].contains('\n') by {
        assert(i == 0 || i == 1 || i == 2 || i == 3 || i == 4 || i == 5 || i == 6);
    }
    lemma_split_join(f, '\t');
    lemma_join_clean(f);
    assert(f.last() == decimal(e.last_heartbeat as nat));
}

/// Lines that each give an entry give these entries.
proof fn lemma_entries(sessions: Seq<EntryModel>)
    requires
        forall|i: int| 0 <= i < sessions.len() ==> clean_entry(#[trigger] sessions[i]),
    ensures
        entries_of(sessions.map_values(|e: EntryModel| entry_line(e))) == sessions,
    decreases sessions.len(),
{
    let ls = sessions.map_values(|e: EntryModel| entry_line(e));
    if sessions.len() == 0 {
        assert(sessions =~= Seq::empty());
    } else {
        let front = sessions.drop_last();
        lemma_entries(front);
        assert(ls.drop_last() =~= front.map_values(|e: EntryModel| entry_line(e)));
        assert(ls.last() == entry_line(sessions.last()));
        lemma_entry(sessions.last());
        assert(front.push(sessions.last()) =~= sessions);
    }
}

/// Clean entries are read back from their text.
proof fn lemma_sessions_text(sessions: Seq<EntryModel>)
    requires
        forall|i: int| 0 <= i < sessions.len() ==> clean_entry(#[trigger] sessions[i]),
    ensures
        entries_of(lines(sessions_text(sessions))) == sessions,
{
    let ls = sessions.map_values(|e: EntryModel| entry_line(e));
    assert forall|i: int| 0 <= i < ls.len() implies !(#[trigger] ls[i]).contains('\n')
        && ls[i].len() > 0 && ls[i].last() != '\r' by {
        lemma_entry(sessions[i]);
    }
    assert(clean_lines(ls));
    lemma_lines_join(ls);
    lemma_entries(sessions);
}

/// A clean frame's type and payload stand for that frame.
proof fn lemma_frame_of(f: FrameModel)
    requires
        clean_frame(f),
    ensures
        frame_of(frame_type(f), payload(f)) == Ok::<FrameModel, ProtocolErrorModel>(f),
{
    broadcast use vstd::utf8::encode_utf8_valid_utf8, vstd::utf8::encode_utf8_decode_utf8;

    match f {
        FrameModel::Resize { cols, rows } => {
            let p = payload(f);
            lemma_be16(cols as int);
            lemma_be16(rows as int);
            assert(p[0] == be16(cols as int)[0] && p[1] == be16(cols as int)[1]);
            assert(p.skip(2)[0] == be16(rows as int)[0] && p.skip(2)[1] == be16(rows as int)[1]);
        },
        FrameModel::Exit { code } => {
            lemma_signed(code);
            lemma_be32(as_unsigned(code as int));
        },
        FrameModel::Env { vars } => {
            lemma_env_text(vars);
        },
        FrameModel::SessionInfo { sessions } => {
            lemma_sessions_text(sessions);
        },
        _ => {},
    }
}

/// What the decoder reads is what the encoder wrote: a clean frame that fits comes out
/// as it went in, and the bytes behind it stay untouched.
pub proof fn law_roundtrip(f: FrameModel, rest: Seq<u8>)
    requires
        clean_frame(f),
        fits(f),
    ensures
        decode_step(frame_bytes(f) + rest) == (
            Ok::<Option<FrameModel>, ProtocolErrorModel>(Some(f)),
            rest,
        ),
{
    lemma_header(frame_type(f), payload(f), rest);
    lemma_frame_of(f);
}

/// As long as a frame has not arrived completely, the decoder waits and takes nothing.
pub proof fn law_incomplete_waits(f: FrameModel, n: int)
    requires
        fits(f),
        0 <= n < frame_bytes(f).len(),
    ensures
        decode_step(frame_bytes(f).take(n)) == (
            Ok::<Option<FrameModel>, ProtocolErrorModel>(None),
            frame_bytes(f).take(n),
        ),
{
    let whole = frame_bytes(f);
    let s = whole.take(n);
    lemma_header(frame_type(f), payload(f), Seq::empty());
    assert(whole + Seq::<u8>::empty() =~= whole);
    if n >= HEADER_LEN {
        assert(s.skip(1)[0] == whole.skip(1)[0]);
        assert(s.skip(1)[1] == whole.skip(1)[1]);
        assert(s.skip(1)[2] == whole.skip(1)[2]);
        assert(s.skip(1)[3] == whole.skip(1)[3]);
    }
}

/// A frame with a larger payload than allowed is refused, and the refusal names the
/// length.
pub proof fn law_too_large_refused(f: FrameModel, rest: Seq<u8>)
    requires
        MAX_FRAME_SIZE < payload(f).len() <= u32::MAX,
    ensures
        decode_step(frame_bytes(f) + rest) == (
            Err::<Option<FrameModel>, ProtocolErrorModel>(
                ProtocolErrorModel::TooLarge { len: payload(f).len() as int },
            ),
            frame_bytes(f) + rest,
        ),
{
    lemma_header(frame_type(f), payload(f), rest);
}

/// Once the decoder has an answer, bytes that arrive later do not change it; they stand
/// behind what is left.
pub proof fn law_later_bytes_do_not_matter(s: Seq<u8>, more: Seq<u8>)
    requires
        decode_step(s).0 != Ok::<Option<FrameModel>, ProtocolErrorModel>(None),
    ensures
        decode_step(s + more) == (decode_step(s).0, decode_step(s).1 + more),
{
    let t = s + more;
    assert(t.skip(1)[0] == s.skip(1)[0]);
    assert(t.skip(1)[1] == s.skip(1)[1]);
    assert(t.skip(1)[2] == s.skip(1)[2]);
    assert(t.skip(1)[3] == s.skip(1)[3]);
    let end = HEADER_LEN + announced(s);
    if announced(s) <= MAX_FRAME_SIZE {
        assert(t.subrange(HEADER_LEN as int, end) =~= s.subrange(HEADER_LEN as int, end));
        assert(t.skip(end) =~= s.skip(end) + more);
    }
}

/// The decoder never invents or reorders bytes: what stays is the end of what was there,
/// and a frame costs at least its header.
pub proof fn law_decoder_takes_from_the_front(s: Seq<u8>)
    ensures
        decode_step(s).1.len() <= s.len(),
        decode_step(s).1 == s.skip(s.len() - decode_step(s).1.len()),
        decode_step(s).0 matches Ok(Some(_)) ==> decode_step(s).1.len() + HEADER_LEN <= s.len(),
        decode_step(s).0 matches Ok(None) ==> decode_step(s).1 == s,
{
    assert(s.skip(0) =~= s);
}

/// The bytes of several frames.
pub open spec fn stream_bytes(fs: Seq<FrameModel>) -> Seq<u8>
    decreases fs.len(),
{
    if fs.len() == 0 {
        Seq::empty()
    } else {
        frame_bytes(fs[0]) + stream_bytes(fs.skip(1))
    }
}

/// The frames that repeated decoding takes out of `s`, and the bytes that stay.
pub open spec fn decode_stream(s: Seq<u8>) -> (Seq<FrameModel>, Seq<u8>)
    decreases s.len(),
    via decode_stream_decreases
{
    match decode_step(s) {
        (Ok(Some(f)), rest) => {
            let (more, left) = decode_stream(rest);
            (seq![f] + more, left)
        },
        (_, rest) => (Seq::empty(), rest),
    }
}

#[via_fn]
proof fn decode_stream_decreases(s: Seq<u8>) {
    law_decoder_takes_from_the_front(s);
}

/// Decoding a stream, one frame at a time.
proof fn lemma_stream_step(
    s: Seq<u8>,
    f: FrameModel,
    rest: Seq<u8>,
    more: Seq<FrameModel>,
    left: Seq<u8>,
)
    requires
        decode_step(s) == (Ok::<Option<FrameModel>, ProtocolErrorModel>(Some(f)), rest),
        decode_stream(rest) == (more, left),
    ensures
        decode_stream(s) == (seq![f] + more, left),
{
}

/// Decoding a stream that holds no complete frame.
proof fn lemma_stream_end(s: Seq<u8>)
    requires
        decode_step(s).0 == Ok::<Option<FrameModel>, ProtocolErrorModel>(None),
    ensures
        decode_stream(s) == (Seq::<FrameModel>::empty(), s),
{
}

/// Frames sent one after another come out one after another, and what follows them is
/// left for later as long as it is no complete frame.
pub proof fn law_stream_roundtrip(fs: Seq<FrameModel>, rest: Seq<u8>)
    requires
        forall|i: int| 0 <= i < fs.len() ==> clean_frame(#[trigger] fs[i]) && fits(fs[i]),
        decode_step(rest).0 == Ok::<Option<FrameModel>, ProtocolErrorModel>(None),
    ensures
        decode_stream(stream_bytes(fs) + rest) == (fs, rest),
    decreases fs.len(),
{
    if fs.len() == 0 {
        assert(stream_bytes(fs) + rest =~= rest);
        lemma_stream_end(rest);
        assert(fs =~= Seq::empty());
    } else {
        let tail = fs.skip(1);
        assert forall|i: int| 0 <= i < tail.len() implies clean_frame(#[trigger] tail[i]) && fits(
            tail[i],
        ) by {
            assert(tail[i] == fs[i + 1]);
        }
        law_stream_roundtrip(tail, rest);
        let s = stream_bytes(fs) + rest;
        let behind = stream_bytes(tail) + rest;
        let first = frame_bytes(fs[0]);
        assert(s =~= first + behind);
        law_roundtrip(fs[0], behind);
        lemma_stream_step(s, fs[0], behind, tail, rest);
        assert(seq![fs[0]] + tail =~= fs);
    }
}

} // verus!
