//! Unix paths as runs of bytes: parents, file names, components.

use vstd::prelude::*;
use vstd::slice::{slice_subrange, slice_to_vec};
use vstd::utf8::{
    decode_utf8, encode_utf8, is_ascii_chars, is_ascii_chars_encode_utf8, valid_utf8,
};

use crate::buffer::{lossy_text, text_from_utf8_lossy};
use crate::text::{decimal, is_digit, lemma_decimal_digits};

verus! {

/// The separator between the components of a path.
pub const SLASH: u8 = 0x2f;

/// The byte that stands alone for the current directory.
pub const DOT: u8 = 0x2e;

/// A path without what adds nothing at its end: slashes, and single dots behind a slash.
/// The root stays.
pub open spec fn trim_tail(s: Seq<u8>) -> Seq<u8>
    decreases s.len(),
{
    if s.len() > 1 && (s.last() == SLASH || (s.last() == DOT && s[s.len() - 2] == SLASH)) {
        trim_tail(s.drop_last())
    } else {
        s
    }
}

/// Where the last component of a path begins.
pub open spec fn last_start(s: Seq<u8>) -> int
    decreases s.len(),
{
    if s.len() == 0 || s.last() == SLASH {
        s.len() as int
    } else {
        last_start(s.drop_last())
    }
}

/// The path without its last component. The root and the empty path have no parent.
pub open spec fn parent_path(s: Seq<u8>) -> Option<Seq<u8>> {
    let t = trim_tail(s);
    if t.len() == 0 || t == seq![SLASH] {
        None
    } else {
        Some(trim_tail(t.take(last_start(t))))
    }
}

/// The last component of a path, when it names something: not the root, and neither the
/// current nor the parent directory.
pub open spec fn name_part(s: Seq<u8>) -> Option<Seq<u8>> {
    let t = trim_tail(s);
    let name = t.skip(last_start(t));
    if t.len() == 0 || t == seq![SLASH] || name == seq![DOT] || name == seq![DOT, DOT] {
        None
    } else {
        Some(name)
    }
}

/// The path with a relative name appended to it.
pub open spec fn joined_path(s: Seq<u8>, name: Seq<u8>) -> Seq<u8> {
    if s.len() > 0 && s.last() != SLASH {
        s.push(SLASH) + name
    } else {
        s + name
    }
}

/// The path with another last component. Where there is no name to replace, the new one
/// is appended.
pub open spec fn sibling(s: Seq<u8>, name: Seq<u8>) -> Seq<u8> {
    match (name_part(s), parent_path(s)) {
        (Some(_), Some(p)) => joined_path(p, name),
        _ => joined_path(s, name),
    }
}

/// The position of the first slash, or the length where there is none.
pub open spec fn slash_at(s: Seq<u8>) -> int
    decreases s.len(),
{
    if s.len() == 0 || s[0] == SLASH {
        0
    } else {
        1 + slash_at(s.skip(1))
    }
}

proof fn lemma_slash_at_is(s: Seq<u8>)
    ensures
        0 <= slash_at(s) <= s.len(),
    decreases s.len(),
{
    if s.len() > 0 && s[0] != SLASH {
        lemma_slash_at_is(s.skip(1));
    }
}

proof fn lemma_slash_at(s: Seq<u8>, i: int)
    requires
        0 <= i <= s.len(),
        i < s.len() ==> s[i] == SLASH,
        forall|j: int| 0 <= j < i ==> s[j] != SLASH,
    ensures
        slash_at(s) == i,
    decreases s.len(),
{
    if i > 0 {
        let t = s.skip(1);
        assert(forall|j: int| 0 <= j < i - 1 ==> t[j] == s[j + 1]);
        assert(i < s.len() ==> t[i - 1] == s[i]);
        lemma_slash_at(t, i - 1);
    }
}

/// The components in `s`. Empty ones are passed over, and so are single dots, unless one
/// leads the path.
pub open spec fn components_from(s: Seq<u8>, leading: bool) -> Seq<Seq<u8>>
    decreases s.len(),
    via components_decreases
{
    if s.len() == 0 {
        Seq::empty()
    } else {
        let i = slash_at(s);
        let piece = s.take(i);
        let rest = if i >= s.len() {
            Seq::empty()
        } else {
            components_from(s.skip(i + 1), false)
        };
        if piece.len() == 0 || (piece == seq![DOT] && !leading) {
            rest
        } else {
            seq![piece] + rest
        }
    }
}

#[via_fn]
proof fn components_decreases(s: Seq<u8>, leading: bool) {
    lemma_slash_at_is(s);
}

/// The path begins at the root.
pub open spec fn rooted(s: Seq<u8>) -> bool {
    s.len() > 0 && s[0] == SLASH
}

/// Two paths are the same, component by component.
pub open spec fn same_path(a: Seq<u8>, b: Seq<u8>) -> bool {
    rooted(a) == rooted(b) && components_from(a, true) == components_from(b, true)
}

/// Trimming keeps what is left a prefix.
pub proof fn lemma_trim_tail(s: Seq<u8>)
    ensures
        trim_tail(s).len() <= s.len(),
        trim_tail(s) == s.take(trim_tail(s).len() as int),
        s.len() > 0 ==> trim_tail(s).len() > 0,
    decreases s.len(),
{
    if s.len() > 1 && (s.last() == SLASH || (s.last() == DOT && s[s.len() - 2] == SLASH)) {
        lemma_trim_tail(s.drop_last());
        assert(trim_tail(s) =~= s.take(trim_tail(s).len() as int));
    } else {
        assert(s.take(s.len() as int) =~= s);
    }
}

/// Where the last component begins, in plain words.
pub proof fn lemma_last_start(s: Seq<u8>)
    ensures
        0 <= last_start(s) <= s.len(),
        last_start(s) > 0 ==> s[last_start(s) - 1] == SLASH,
        forall|j: int| last_start(s) <= j < s.len() ==> s[j] != SLASH,
    decreases s.len(),
{
    if s.len() > 0 && s.last() != SLASH {
        let d = s.drop_last();
        lemma_last_start(d);
        assert forall|j: int| last_start(s) <= j < s.len() implies s[j] != SLASH by {
            if j < d.len() {
                assert(d[j] != SLASH);
            }
        }
    }
}

/// A parent is shorter than the path, so climbing comes to an end.
pub proof fn law_parent_is_shorter(s: Seq<u8>)
    requires
        parent_path(s) is Some,
    ensures
        parent_path(s)->0.len() < s.len(),
{
    let t = trim_tail(s);
    lemma_trim_tail(s);
    lemma_last_start(t);
    lemma_trim_tail(t.take(last_start(t)));
    if last_start(t) == t.len() {
        assert(t.last() == SLASH);
        assert(trim_tail(t) == t) by {
            lemma_trim_idempotent(s);
        }
        if t.len() > 1 {
            lemma_trim_tail(t.drop_last());
        }
        assert(t =~= seq![SLASH]);
    }
}

/// Nothing is left to trim after trimming.
pub proof fn lemma_trim_idempotent(s: Seq<u8>)
    ensures
        trim_tail(trim_tail(s)) == trim_tail(s),
    decreases s.len(),
{
    if s.len() > 1 && (s.last() == SLASH || (s.last() == DOT && s[s.len() - 2] == SLASH)) {
        lemma_trim_idempotent(s.drop_last());
    }
}

/// A name that can be the last component of a path.
pub open spec fn plain_name(name: Seq<u8>) -> bool {
    &&& name.len() > 0
    &&& !name.contains(SLASH)
    &&& name != seq![DOT]
    &&& name != seq![DOT, DOT]
}

/// `i` is where the last component begins when a slash stands before it, or the path
/// begins there, and no slash follows.
proof fn lemma_last_start_at(s: Seq<u8>, i: int)
    requires
        0 <= i <= s.len(),
        i > 0 ==> s[i - 1] == SLASH,
        forall|j: int| i <= j < s.len() ==> s[j] != SLASH,
    ensures
        last_start(s) == i,
    decreases s.len(),
{
    if i < s.len() {
        let d = s.drop_last();
        assert(forall|j: int| i <= j < d.len() ==> d[j] == s[j]);
        lemma_last_start_at(d, i);
    }
}

/// What is joined to a path is its last component, and the path is what it was joined to.
pub proof fn law_joined_name(s: Seq<u8>, name: Seq<u8>)
    requires
        plain_name(name),
    ensures
        name_part(joined_path(s, name)) == Some(name),
        parent_path(joined_path(s, name)) == Some(trim_tail(s)),
{
    let whole = joined_path(s, name);
    let start = whole.len() - name.len();
    assert(forall|j: int| start <= j < whole.len() ==> whole[j] == name[j - start]);
    assert forall|j: int| 0 <= j < name.len() implies name[j] != SLASH by {
        assert(!name.contains(SLASH));
    }
    lemma_joined_is_trimmed(s, name);
    lemma_last_start_at(whole, start);
    assert(whole.skip(start) =~= name);
    assert(whole != seq![SLASH]) by {
        assert(whole.last() != SLASH);
    }
    let front = whole.take(start);
    if s.len() > 0 && s.last() != SLASH {
        assert(front =~= s.push(SLASH));
        assert(s.push(SLASH).drop_last() =~= s);
        assert(trim_tail(front) == trim_tail(s));
    } else {
        assert(front =~= s);
    }
}

/// A path that ends with a plain name has nothing at its end to trim.
pub proof fn lemma_joined_is_trimmed(s: Seq<u8>, name: Seq<u8>)
    requires
        plain_name(name),
    ensures
        trim_tail(joined_path(s, name)) == joined_path(s, name),
{
    let whole = joined_path(s, name);
    assert(whole.last() == name.last());
    assert(name.contains(name.last()));
    if whole.len() > 1 && whole.last() == DOT && whole[whole.len() - 2] == SLASH {
        if name.len() > 1 {
            assert(whole[whole.len() - 2] == name[name.len() - 2]);
            assert(name.contains(name[name.len() - 2]));
        }
        assert(name =~= seq![DOT]);
    }
}

/// Text that is a plain name as a component of a path.
pub proof fn lemma_plain_text(name: Seq<char>)
    requires
        name.len() > 2,
        is_ascii_chars(name),
        !name.contains('/'),
    ensures
        plain_name(encode_utf8(name)),
        encode_utf8(name).len() == name.len(),
{
    is_ascii_chars_encode_utf8(name);
    let bytes = encode_utf8(name);
    assert forall|i: int| 0 <= i < bytes.len() implies bytes[i] != SLASH by {
        assert(name[i] != '/');
    }
}

/// A number can stand in a plain name.
pub proof fn lemma_digits_are_ascii(n: nat)
    ensures
        is_ascii_chars(decimal(n)),
        !decimal(n).contains('/'),
        decimal(n).len() > 0,
{
    lemma_decimal_digits(n);
    let d = decimal(n);
    assert forall|i: int| 0 <= i < d.len() implies '\0' <= #[trigger] d[i] <= '\u{7f}' && d[i]
        != '/' by {
        assert(is_digit(d[i]));
    }
}

/// The components of a path that is cut behind a slash.
pub proof fn lemma_components_concat(a: Seq<u8>, b: Seq<u8>, leading: bool)
    requires
        a.len() > 0 ==> a.last() == SLASH,
    ensures
        components_from(a + b, leading) == components_from(a, leading) + components_from(
            b,
            leading && a.len() == 0,
        ),
    decreases a.len(),
{
    if a.len() == 0 {
        assert(a + b =~= b);
        assert(components_from(a, leading) + components_from(b, leading) =~= components_from(
            b,
            leading,
        ));
    } else {
        let k = slash_at(a);
        lemma_slash_at_is(a);
        lemma_slash_at_points(a);
        let whole = a + b;
        assert(forall|j: int| 0 <= j < k ==> whole[j] == a[j]);
        lemma_slash_at(whole, k);
        assert(whole.take(k) =~= a.take(k));
        let rest = a.skip(k + 1);
        assert(whole.skip(k + 1) =~= rest + b);
        if rest.len() > 0 {
            assert(rest.last() == a.last());
        }
        lemma_components_concat(rest, b, false);
        assert(components_from(whole, leading) =~= components_from(a, leading) + components_from(
            b,
            false,
        ));
    }
}

/// Where the first slash stands, when the path ends with one.
proof fn lemma_slash_at_points(s: Seq<u8>)
    requires
        s.len() > 0,
        s.last() == SLASH,
    ensures
        slash_at(s) < s.len(),
        s[slash_at(s)] == SLASH,
        forall|j: int| 0 <= j < slash_at(s) ==> s[j] != SLASH,
    decreases s.len(),
{
    if s[0] != SLASH {
        let t = s.skip(1);
        assert(t.last() == s.last());
        lemma_slash_at_is(t);
        lemma_slash_at_points(t);
        assert(s[slash_at(s)] == t[slash_at(t)]);
        assert forall|j: int| 0 <= j < slash_at(s) implies s[j] != SLASH by {
            if j > 0 {
                assert(s[j] == t[j - 1]);
            }
        }
    }
}

/// The components of a piece without slashes, with or without a slash behind it.
pub proof fn lemma_components_piece(piece: Seq<u8>, leading: bool)
    requires
        !piece.contains(SLASH),
    ensures
        components_from(piece, leading) == if piece.len() == 0 || (piece == seq![DOT] && !leading) {
            Seq::<Seq<u8>>::empty()
        } else {
            seq![piece]
        },
        components_from(piece.push(SLASH), leading) == components_from(piece, leading),
{
    assert(forall|j: int| 0 <= j < piece.len() ==> piece[j] != SLASH);
    lemma_slash_at(piece, piece.len() as int);
    assert(piece.take(piece.len() as int) =~= piece);
    assert(seq![piece] + Seq::<Seq<u8>>::empty() =~= seq![piece]);
    let closed = piece.push(SLASH);
    lemma_slash_at(closed, piece.len() as int);
    assert(closed.take(piece.len() as int) =~= piece);
    assert(closed.skip(piece.len() as int + 1) =~= Seq::empty());
    assert(components_from(closed.skip(piece.len() as int + 1), false) =~= Seq::<
        Seq<u8>,
    >::empty());
}

/// A path and what stands in front of its last component.
pub proof fn lemma_split_last(s: Seq<u8>)
    ensures
        ({
            let i = last_start(s);
            let piece = s.skip(i);
            &&& s == s.take(i) + piece
            &&& !piece.contains(SLASH)
            &&& i > 0 ==> s.take(i).last() == SLASH
            &&& components_from(s, true) == components_from(s.take(i), true) + components_from(
                piece,
                i == 0,
            )
        }),
{
    let i = last_start(s);
    lemma_last_start(s);
    let a = s.take(i);
    let piece = s.skip(i);
    assert(s =~= a + piece);
    assert forall|j: int| 0 <= j < piece.len() implies piece[j] != SLASH by {
        assert(piece[j] == s[i + j]);
    }
    lemma_components_concat(a, piece, true);
}

/// Trimming the end of a path leaves its components as they are.
pub proof fn law_trimming_keeps_components(s: Seq<u8>)
    ensures
        same_path(trim_tail(s), s),
    decreases s.len(),
{
    if s.len() > 1 && (s.last() == SLASH || (s.last() == DOT && s[s.len() - 2] == SLASH)) {
        let t = s.drop_last();
        law_trimming_keeps_components(t);
        if s.last() == SLASH {
            lemma_split_last(t);
            let i = last_start(t);
            lemma_last_start(t);
            let a = t.take(i);
            let piece = t.skip(i);
            assert(s =~= a + piece.push(SLASH));
            lemma_components_concat(a, piece.push(SLASH), true);
            lemma_components_piece(piece, i == 0);
        } else {
            assert(s =~= t + seq![DOT]);
            lemma_components_concat(t, seq![DOT], true);
            lemma_components_piece(seq![DOT], false);
            assert(components_from(t, true) + Seq::<Seq<u8>>::empty() =~= components_from(t, true));
        }
    }
}

/// The parent of a path has the same components but the last.
pub proof fn law_parent_drops_the_last_component(s: Seq<u8>)
    requires
        parent_path(s) is Some,
    ensures
        components_from(s, true).len() > 0,
        components_from(parent_path(s)->0, true) == components_from(s, true).drop_last(),
        rooted(parent_path(s)->0) == rooted(s),
{
    let t = trim_tail(s);
    law_trimming_keeps_components(s);
    lemma_trim_idempotent(s);
    lemma_split_last(t);
    let i = last_start(t);
    lemma_last_start(t);
    let front = t.take(i);
    let piece = t.skip(i);
    law_trimming_keeps_components(front);
    lemma_components_piece(piece, i == 0);
    if t.last() == SLASH && t.len() > 1 {
        lemma_trim_tail(t.drop_last());
    }
    if piece.len() == 0 {
        assert(i == t.len());
        assert(t.last() == SLASH);
        assert(t =~= seq![SLASH]);
    }
    if piece == seq![DOT] && i > 0 {
        assert(t.last() == piece[0]);
        assert(t[t.len() - 2] == t[i - 1]);
        lemma_trim_tail(t.drop_last());
    }
    assert((components_from(front, true) + seq![piece]).drop_last() =~= components_from(
        front,
        true,
    ));
}

/// A plain name that is joined to a path becomes its last component.
pub proof fn law_joining_adds_a_component(s: Seq<u8>, name: Seq<u8>)
    requires
        plain_name(name),
    ensures
        components_from(joined_path(s, name), true) == components_from(s, true).push(name),
{
    law_joined_name(s, name);
    let whole = joined_path(s, name);
    law_parent_drops_the_last_component(whole);
    law_trimming_keeps_components(s);
    lemma_joined_is_trimmed(s, name);
    lemma_split_last(whole);
    let i = last_start(whole);
    assert(whole.skip(i) == name);
    lemma_components_piece(name, i == 0);
    let all = components_from(whole, true);
    assert(all.last() == name);
    assert(all =~= all.drop_last().push(name));
}

fn trim_tail_len(s: &[u8]) -> (n: usize)
    ensures
        n <= s@.len(),
        s@.take(n as int) == trim_tail(s@),
{
    let mut n: usize = s.len();
    proof {
        assert(s@.take(n as int) =~= s@);
    }
    while n > 1 && (s[n - 1] == SLASH || (s[n - 1] == DOT && s[n - 2] == SLASH))
        invariant
            n <= s@.len(),
            trim_tail(s@.take(n as int)) == trim_tail(s@),
        decreases n,
    {
        proof {
            assert(s@.take(n as int).drop_last() =~= s@.take(n - 1));
        }
        n = n - 1;
    }
    n
}

fn last_start_of(s: &[u8]) -> (i: usize)
    ensures
        i <= s@.len(),
        i == last_start(s@),
{
    let mut i: usize = s.len();
    proof {
        assert(s@.take(i as int) =~= s@);
    }
    while i > 0 && s[i - 1] != SLASH
        invariant
            i <= s@.len(),
            last_start(s@.take(i as int)) == last_start(s@),
        decreases i,
    {
        proof {
            assert(s@.take(i as int).drop_last() =~= s@.take(i - 1));
        }
        i = i - 1;
    }
    i
}

/// The path without its last component.
pub fn parent(s: &[u8]) -> (r: Option<Vec<u8>>)
    ensures
        match r {
            Some(p) => parent_path(s@) == Some(p@),
            None => parent_path(s@) is None,
        },
{
    let n: usize = trim_tail_len(s);
    let t: &[u8] = slice_subrange(s, 0, n);
    proof {
        assert(t@ =~= trim_tail(s@));
    }
    if n == 0 || (n == 1 && t[0] == SLASH) {
        proof {
            if n == 1 {
                assert(t@ =~= seq![SLASH]);
            }
        }
        return None;
    }
    proof {
        assert(t@ != seq![SLASH]) by {
            if n == 1 {
                assert(t@[0] != SLASH);
            }
        }
    }
    let i: usize = last_start_of(t);
    let front: &[u8] = slice_subrange(t, 0, i);
    let m: usize = trim_tail_len(front);
    proof {
        assert(front@ =~= t@.take(i as int));
    }
    let kept: &[u8] = slice_subrange(front, 0, m);
    proof {
        assert(kept@ =~= front@.take(m as int));
    }
    Some(slice_to_vec(kept))
}

/// The last component of a path, when it names something.
pub fn file_name(s: &[u8]) -> (r: Option<Vec<u8>>)
    ensures
        match r {
            Some(p) => name_part(s@) == Some(p@),
            None => name_part(s@) is None,
        },
{
    let n: usize = trim_tail_len(s);
    let t: &[u8] = slice_subrange(s, 0, n);
    proof {
        assert(t@ =~= trim_tail(s@));
    }
    if n == 0 || (n == 1 && t[0] == SLASH) {
        proof {
            if n == 1 {
                assert(t@ =~= seq![SLASH]);
            }
        }
        return None;
    }
    proof {
        assert(t@ != seq![SLASH]) by {
            if n == 1 {
                assert(t@[0] != SLASH);
            }
        }
    }
    let i: usize = last_start_of(t);
    let name: &[u8] = slice_subrange(t, i, n);
    proof {
        assert(name@ =~= t@.skip(i as int));
    }
    if name.len() == 1 && name[0] == DOT {
        proof {
            assert(name@ =~= seq![DOT]);
        }
        return None;
    }
    if name.len() == 2 && name[0] == DOT && name[1] == DOT {
        proof {
            assert(name@ =~= seq![DOT, DOT]);
        }
        return None;
    }
    proof {
        assert(name@ != seq![DOT]) by {
            if name@.len() == 1 {
                assert(name@[0] != DOT);
            }
        }
        assert(name@ != seq![DOT, DOT]) by {
            if name@.len() == 2 {
                assert(name@[0] != DOT || name@[1] != DOT);
            }
        }
    }
    Some(slice_to_vec(name))
}

/// The path with a relative name appended to it.
pub fn join_path(s: &[u8], name: &[u8]) -> (r: Vec<u8>)
    ensures
        r@ == joined_path(s@, name@),
{
    let mut r: Vec<u8> = slice_to_vec(s);
    if s.len() > 0 && s[s.len() - 1] != SLASH {
        r.push(SLASH);
    }
    r.extend_from_slice(name);
    r
}

/// The path with another last component.
pub fn with_file_name(s: &[u8], name: &[u8]) -> (r: Vec<u8>)
    ensures
        r@ == sibling(s@, name@),
{
    match (file_name(s), parent(s)) {
        (Some(_), Some(p)) => join_path(p.as_slice(), name),
        _ => join_path(s, name),
    }
}

/// Whether two runs of bytes are the same.
pub fn same_bytes(a: &[u8], b: &[u8]) -> (r: bool)
    ensures
        r == (a@ == b@),
{
    if a.len() != b.len() {
        return false;
    }
    let mut i: usize = 0;
    while i < a.len()
        invariant
            i <= a@.len(),
            a@.len() == b@.len(),
            forall|j: int| 0 <= j < i ==> a@[j] == b@[j],
        decreases a@.len() - i,
    {
        if a[i] != b[i] {
            return false;
        }
        i = i + 1;
    }
    proof {
        assert(a@ =~= b@);
    }
    true
}

/// The bytes that slices hold.
pub open spec fn chunks(v: Seq<&[u8]>) -> Seq<Seq<u8>> {
    v.map_values(|p: &[u8]| p@)
}

fn first_slash(s: &[u8]) -> (i: usize)
    ensures
        i == slash_at(s@),
        i <= s@.len(),
{
    let mut i: usize = 0;
    while i < s.len() && s[i] != SLASH
        invariant
            i <= s@.len(),
            forall|j: int| 0 <= j < i ==> s@[j] != SLASH,
        decreases s@.len() - i,
    {
        i = i + 1;
    }
    proof {
        lemma_slash_at(s@, i as int);
    }
    i
}

/// The components of a path.
fn components(s: &[u8]) -> (out: Vec<&[u8]>)
    ensures
        chunks(out@) == components_from(s@, true),
{
    let mut out: Vec<&[u8]> = Vec::new();
    let mut pos: usize = 0;
    proof {
        assert(s@.skip(0) =~= s@);
        assert(chunks(out@) + components_from(s@, true) =~= components_from(s@, true));
    }
    while pos < s.len()
        invariant
            pos <= s@.len(),
            chunks(out@) + components_from(s@.skip(pos as int), pos == 0) == components_from(
                s@,
                true,
            ),
        decreases s@.len() - pos,
    {
        let rest: &[u8] = slice_subrange(s, pos, s.len());
        let ghost before = out@;
        proof {
            assert(rest@ =~= s@.skip(pos as int));
        }
        let i: usize = first_slash(rest);
        let piece: &[u8] = slice_subrange(rest, 0, i);
        proof {
            assert(piece@ =~= rest@.take(i as int));
            if piece@.len() == 1 && piece@[0] == DOT {
                assert(piece@ =~= seq![DOT]);
            }
        }
        let dropped = piece.len() == 0 || (piece.len() == 1 && piece[0] == DOT && pos > 0);
        if !dropped {
            out.push(piece);
            proof {
                assert(chunks(out@) =~= chunks(before).push(piece@));
            }
        }
        if i == rest.len() {
            proof {
                assert(chunks(out@) =~= chunks(before) + components_from(rest@, pos == 0));
            }
            return out;
        }
        proof {
            assert(rest@.skip(i + 1) =~= s@.skip(pos + i + 1));
            let more = components_from(s@.skip(pos + i + 1), false);
            if dropped {
                assert(components_from(rest@, pos == 0) == more);
            } else {
                assert(components_from(rest@, pos == 0) == seq![piece@] + more);
                assert(chunks(out@) + more =~= chunks(before) + (seq![piece@] + more));
            }
        }
        pos = pos + i + 1;
    }
    proof {
        assert(s@.skip(pos as int) =~= Seq::empty());
        assert(chunks(out@) + Seq::<Seq<u8>>::empty() =~= chunks(out@));
    }
    out
}

/// Whether two paths are the same, component by component.
pub fn paths_equal(a: &[u8], b: &[u8]) -> (r: bool)
    ensures
        r == same_path(a@, b@),
{
    let a_rooted = a.len() > 0 && a[0] == SLASH;
    let b_rooted = b.len() > 0 && b[0] == SLASH;
    if a_rooted != b_rooted {
        return false;
    }
    let ca = components(a);
    let cb = components(b);
    let ghost ma = chunks(ca@);
    let ghost mb = chunks(cb@);
    if ca.len() != cb.len() {
        assert(ma.len() != mb.len());
        return false;
    }
    let mut i: usize = 0;
    while i < ca.len()
        invariant
            i <= ca@.len(),
            ca@.len() == cb@.len(),
            ma == chunks(ca@),
            mb == chunks(cb@),
            ma == components_from(a@, true),
            mb == components_from(b@, true),
            forall|j: int| 0 <= j < i ==> ma[j] == mb[j],
        decreases ca@.len() - i,
    {
        if !same_bytes(ca[i], cb[i]) {
            assert(ma[i as int] != mb[i as int]);
            return false;
        }
        i = i + 1;
    }
    proof {
        assert(ma =~= mb);
    }
    true
}

/// A path as text for a message; what is not UTF-8 is replaced.
pub fn shown(s: &[u8]) -> (t: String)
    ensures
        t@ == lossy_text(s@),
        valid_utf8(s@) ==> t@ == decode_utf8(s@),
{
    text_from_utf8_lossy(s)
}

} // verus!
