//! Text made of lines and fields: taking it apart and putting it together.

use vstd::prelude::*;
use vstd::slice::slice_subrange;

use crate::text::{find_first, first_at, lemma_first_at, lemma_first_at_is, push_char};

verus! {

/// The parts one after another, with `sep` between neighbours.
pub open spec fn join(parts: Seq<Seq<char>>, sep: char) -> Seq<char>
    decreases parts.len(),
{
    if parts.len() == 0 {
        Seq::empty()
    } else if parts.len() == 1 {
        parts[0]
    } else {
        join(parts.drop_last(), sep).push(sep) + parts.last()
    }
}

/// The parts of `s` between the separators. A text without separators is one part.
pub open spec fn split(s: Seq<char>, sep: char) -> Seq<Seq<char>>
    decreases s.len(),
    via split_decreases
{
    let i = first_at(s, sep);
    if i >= s.len() {
        seq![s]
    } else {
        seq![s.take(i)] + split(s.skip(i + 1), sep)
    }
}

#[via_fn]
proof fn split_decreases(s: Seq<char>, sep: char) {
    lemma_first_at_is(s, sep);
}

/// A line without the carriage return at its end.
pub open spec fn without_return(s: Seq<char>) -> Seq<char> {
    if s.len() > 0 && s.last() == '\r' {
        s.drop_last()
    } else {
        s
    }
}

/// The lines of `s`. A line ends with a newline or a carriage return and a newline,
/// which do not belong to it; for the last line the ending may be missing.
pub open spec fn lines(s: Seq<char>) -> Seq<Seq<char>>
    decreases s.len(),
    via lines_decreases
{
    if s.len() == 0 {
        Seq::empty()
    } else {
        let i = first_at(s, '\n');
        if i >= s.len() {
            seq![s]
        } else {
            seq![without_return(s.take(i))] + lines(s.skip(i + 1))
        }
    }
}

#[via_fn]
proof fn lines_decreases(s: Seq<char>) {
    lemma_first_at_is(s, '\n');
}

/// The texts that slices of characters hold.
pub open spec fn pieces(v: Seq<&[char]>) -> Seq<Seq<char>> {
    v.map_values(|p: &[char]| p@)
}

/// The parts of `s` between the separators.
pub fn split_fields(s: &[char], sep: char) -> (out: Vec<&[char]>)
    ensures
        pieces(out@) == split(s@, sep),
{
    let mut out: Vec<&[char]> = Vec::new();
    let mut pos: usize = 0;
    proof {
        assert(s@.skip(0) =~= s@);
        assert(pieces(out@) + split(s@, sep) =~= split(s@, sep));
    }
    loop
        invariant
            pos <= s@.len(),
            pieces(out@) + split(s@.skip(pos as int), sep) == split(s@, sep),
        decreases s@.len() - pos,
    {
        let rest: &[char] = slice_subrange(s, pos, s.len());
        let ghost before = out@;
        proof {
            assert(rest@ =~= s@.skip(pos as int));
            lemma_first_at_is(rest@, sep);
        }
        let i: usize = find_first(rest, sep);
        let part: &[char] = slice_subrange(rest, 0, i);
        out.push(part);
        proof {
            assert(pieces(out@) =~= pieces(before).push(part@));
            assert(part@ =~= rest@.take(i as int));
        }
        if i == rest.len() {
            proof {
                assert(part@ =~= rest@);
                assert(pieces(out@) =~= pieces(before) + seq![rest@]);
            }
            return out;
        }
        proof {
            assert(rest@.skip(i + 1) =~= s@.skip(pos + i + 1));
            assert(pieces(out@) + split(s@.skip(pos + i + 1), sep) =~= pieces(before) + (
            seq![part@] + split(s@.skip(pos + i + 1), sep)));
        }
        pos = pos + i + 1;
    }
}

/// The lines of `s`.
pub fn split_lines(s: &[char]) -> (out: Vec<&[char]>)
    ensures
        pieces(out@) == lines(s@),
{
    let mut out: Vec<&[char]> = Vec::new();
    let mut pos: usize = 0;
    proof {
        assert(s@.skip(0) =~= s@);
        assert(pieces(out@) + lines(s@) =~= lines(s@));
    }
    while pos < s.len()
        invariant
            pos <= s@.len(),
            pieces(out@) + lines(s@.skip(pos as int)) == lines(s@),
        decreases s@.len() - pos,
    {
        let rest: &[char] = slice_subrange(s, pos, s.len());
        let ghost before = out@;
        proof {
            assert(rest@ =~= s@.skip(pos as int));
            lemma_first_at_is(rest@, '\n');
        }
        let i: usize = find_first(rest, '\n');
        if i == rest.len() {
            out.push(rest);
            proof {
                assert(pieces(out@) =~= pieces(before) + seq![rest@]);
            }
            return out;
        }
        let whole: &[char] = slice_subrange(rest, 0, i);
        let line: &[char] = if i > 0 && whole[i - 1] == '\r' {
            slice_subrange(whole, 0, i - 1)
        } else {
            whole
        };
        proof {
            assert(whole@ =~= rest@.take(i as int));
            assert(line@ =~= without_return(whole@));
        }
        out.push(line);
        proof {
            assert(pieces(out@) =~= pieces(before).push(line@));
            assert(rest@.skip(i + 1) =~= s@.skip(pos + i + 1));
            assert(pieces(out@) + lines(s@.skip(pos + i + 1)) =~= pieces(before) + (seq![line@]
                + lines(s@.skip(pos + i + 1))));
        }
        pos = pos + i + 1;
    }
    proof {
        assert(s@.skip(pos as int) =~= Seq::empty());
        assert(pieces(out@) + Seq::<Seq<char>>::empty() =~= pieces(out@));
    }
    out
}

/// The texts that strings hold.
pub open spec fn texts(v: Seq<String>) -> Seq<Seq<char>> {
    v.map_values(|s: String| s@)
}

/// The strings one after another, with `sep` between neighbours.
pub fn join_texts(parts: &[String], sep: char) -> (out: String)
    ensures
        out@ == join(texts(parts@), sep),
{
    let mut out: String = String::new();
    let mut i: usize = 0;
    let ghost all = texts(parts@);
    while i < parts.len()
        invariant
            i <= parts@.len(),
            all == texts(parts@),
            out@ == join(all.take(i as int), sep),
        decreases parts@.len() - i,
    {
        proof {
            let t = all.take(i + 1);
            assert(t.drop_last() =~= all.take(i as int));
            assert(t.last() == parts@[i as int]@);
        }
        if i > 0 {
            push_char(&mut out, sep);
        }
        out.append(parts[i].as_str());
        proof {
            if i == 0 {
                assert(out@ =~= parts@[0]@);
            }
        }
        i = i + 1;
    }
    proof {
        assert(all.take(i as int) =~= all);
    }
    out
}

/// Joining, seen from the front.
pub proof fn lemma_join_front(parts: Seq<Seq<char>>, sep: char)
    requires
        parts.len() >= 2,
    ensures
        join(parts, sep) == parts[0].push(sep) + join(parts.skip(1), sep),
    decreases parts.len(),
{
    if parts.len() == 2 {
        reveal_with_fuel(join, 2);
        assert(parts.drop_last() =~= seq![parts[0]]);
        assert(parts.skip(1) =~= seq![parts[1]]);
    } else {
        lemma_join_front(parts.drop_last(), sep);
        assert(parts.drop_last().skip(1) =~= parts.skip(1).drop_last());
        assert(join(parts, sep) =~= parts[0].push(sep) + join(parts.skip(1), sep));
    }
}

/// Splitting what was joined gives the parts back, when no part holds the separator.
pub proof fn lemma_split_join(parts: Seq<Seq<char>>, sep: char)
    requires
        parts.len() > 0,
        forall|i: int| 0 <= i < parts.len() ==> !(#[trigger] parts[i]).contains(sep),
    ensures
        split(join(parts, sep), sep) == parts,
    decreases parts.len(),
{
    let s = join(parts, sep);
    let head = parts[0];
    assert(forall|j: int| 0 <= j < head.len() ==> head[j] != sep) by {
        assert(!head.contains(sep));
    }
    if parts.len() == 1 {
        lemma_first_at(s, sep, s.len() as int);
        assert(seq![s] =~= parts);
    } else {
        let tail = parts.skip(1);
        lemma_join_front(parts, sep);
        assert forall|i: int| 0 <= i < tail.len() implies !(#[trigger] tail[i]).contains(sep) by {
            assert(tail[i] == parts[i + 1]);
        }
        lemma_split_join(tail, sep);
        lemma_first_at(s, sep, head.len() as int);
        assert(s.take(head.len() as int) =~= head);
        assert(s.skip(head.len() as int + 1) =~= join(tail, sep));
        assert(seq![head] + tail =~= parts);
    }
}

/// The parts are lines that survive a round trip: no part holds a newline, none but the
/// last ends with a carriage return, and the last is not empty.
pub open spec fn clean_lines(parts: Seq<Seq<char>>) -> bool {
    &&& forall|i: int| 0 <= i < parts.len() ==> !(#[trigger] parts[i]).contains('\n')
    &&& forall|i: int|
        0 <= i < parts.len() - 1 && (#[trigger] parts[i]).len() > 0 ==> parts[i].last() != '\r'
    &&& parts.len() > 0 ==> parts.last().len() > 0
}

/// The lines of joined lines are those lines.
pub proof fn lemma_lines_join(parts: Seq<Seq<char>>)
    requires
        clean_lines(parts),
    ensures
        lines(join(parts, '\n')) == parts,
    decreases parts.len(),
{
    let s = join(parts, '\n');
    if parts.len() == 0 {
        assert(parts =~= Seq::empty());
    } else {
        let head = parts[0];
        assert(forall|j: int| 0 <= j < head.len() ==> head[j] != '\n') by {
            assert(!head.contains('\n'));
        }
        if parts.len() == 1 {
            lemma_first_at(s, '\n', s.len() as int);
            assert(seq![s] =~= parts);
        } else {
            let tail = parts.skip(1);
            lemma_join_front(parts, '\n');
            assert forall|i: int| 0 <= i < tail.len() implies !(#[trigger] tail[i]).contains(
                '\n',
            ) by {
                assert(tail[i] == parts[i + 1]);
            }
            assert forall|i: int|
                0 <= i < tail.len() - 1 && (#[trigger] tail[i]).len() > 0 implies tail[i].last()
                != '\r' by {
                assert(tail[i] == parts[i + 1]);
            }
            assert(tail.last() == parts.last());
            lemma_lines_join(tail);
            lemma_first_at(s, '\n', head.len() as int);
            assert(s.take(head.len() as int) =~= head);
            assert(s.skip(head.len() as int + 1) =~= join(tail, '\n'));
            assert(seq![head] + tail =~= parts);
        }
    }
}

} // verus!
