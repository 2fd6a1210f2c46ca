//! What the pieces of text mean from which everything else is read and written.

use vstd::prelude::*;
use vstd::utf8::{encode_utf8, encode_utf8_decode_utf8, encode_utf8_valid_utf8};

use crate::buffer::lossy_text;
use crate::paths::shown;
use crate::rows::{
    join, join_texts, lemma_join_front, lines, pieces, split, split_fields, split_lines, texts,
};
use crate::text::{
    all_digits, chars_of, contains_text, decimal, decimal_text, digits_value, find_first, find_last,
    first_at, hex_byte, hex_text, is_digit, is_space, joined, last_at, lemma_decimal_digits,
    lemma_decimal_value, lemma_first_at, lemma_first_at_is, lemma_last_at, number, occurs,
    parse_number, same_text, stands_at, text_of, trim_text, trimmed, trimmed_back, trimmed_front,
    without_plus,
};

verus! {

// ---------------------------------------------------------------------------
// Numbers
// ---------------------------------------------------------------------------

/// A number is written with its decimal digits, the highest first, without zeros in front.
pub proof fn law_decimal_form(n: nat)
    ensures
        n < 10 ==> decimal(n).len() == 1 && decimal(n)[0] as int == '0' as int + n,
        n >= 10 ==> decimal(n).len() > 1 && decimal(n).last() as int == '0' as int + n % 10
            && decimal(n).drop_last() == decimal(n / 10),
        forall|i: int| 0 <= i < decimal(n).len() ==> '0' <= #[trigger] decimal(n)[i] <= '9',
        n > 0 ==> decimal(n)[0] != '0',
    decreases n,
{
    lemma_decimal_digits(n);
    assert forall|i: int| 0 <= i < decimal(n).len() implies '0' <= #[trigger] decimal(n)[i]
        <= '9' by {
        assert(is_digit(decimal(n)[i]));
    }
    if n >= 10 {
        law_decimal_form(n / 10);
        assert(decimal(n).drop_last() =~= decimal(n / 10));
        assert(decimal(n)[0] == decimal(n / 10)[0]);
    }
}

/// Each further digit makes the number that is read ten times as large and adds itself.
pub proof fn law_digits_add_up(digits: Seq<char>, c: char, max: nat)
    requires
        digits.len() > 0,
        forall|i: int| 0 <= i < digits.len() ==> '0' <= #[trigger] digits[i] <= '9',
        '0' <= c <= '9',
    ensures
        number(digits, max) matches Some(n) ==> n <= max && number(digits.push(c), max) == (if 10
            * n + (c as int - '0' as int) <= max {
            Some((10 * n + (c as int - '0' as int)) as nat)
        } else {
            None
        }),
        number(digits, max) is None ==> number(digits.push(c), max) is None,
        number(seq![c], max) == (if c as int - '0' as int <= max {
            Some((c as int - '0' as int) as nat)
        } else {
            None
        }),
{
    assert(is_digit(digits[0])) by {
        assert('0' <= digits[0] <= '9');
    }
    assert(all_digits(digits)) by {
        assert forall|i: int| 0 <= i < digits.len() implies is_digit(#[trigger] digits[i]) by {
            assert('0' <= digits[i] <= '9');
        }
    }
    let longer = digits.push(c);
    assert(all_digits(longer));
    assert(longer[0] == digits[0]);
    assert(longer.drop_last() =~= digits);
    let one = seq![c];
    assert(all_digits(one));
    assert(one.drop_last() =~= Seq::<char>::empty());
    assert(digits_value(one.drop_last()) == 0);
    assert(digits_value(one) == c as int - 48);
}

/// A plus sign in front changes nothing, as long as digits follow it.
pub proof fn law_plus_sign_means_nothing(digits: Seq<char>, max: nat)
    requires
        digits.len() > 0 ==> digits[0] != '+',
    ensures
        number(seq!['+'] + digits, max) == number(digits, max),
{
    assert((seq!['+'] + digits).skip(1) =~= digits);
}

/// What is read as a number is digits, at least one, behind an optional plus sign, and the
/// number is within the limit. Nothing else is read as a number.
pub proof fn law_only_numbers_are_read(s: Seq<char>, max: nat)
    requires
        number(s, max) is Some,
    ensures
        number(s, max)->0 <= max,
        s.len() > 0,
        s[0] == '+' ==> s.len() > 1,
        s[0] == '+' || '0' <= s[0] <= '9',
        forall|i: int| 1 <= i < s.len() ==> '0' <= #[trigger] s[i] <= '9',
{
    let d = without_plus(s);
    assert(is_digit(d[0]));
    assert forall|i: int| 1 <= i < s.len() implies '0' <= #[trigger] s[i] <= '9' by {
        if s[0] == '+' {
            assert(d[i - 1] == s[i]);
            assert(is_digit(d[i - 1]));
        } else {
            assert(is_digit(d[i]));
        }
    }
}

/// A number that is written down is read back, if it is within the limit, and refused if
/// it is not.
pub proof fn law_number_roundtrip(n: nat, max: nat)
    ensures
        number(decimal(n), max) == (if n <= max {
            Some(n)
        } else {
            None
        }),
{
    lemma_decimal_digits(n);
    lemma_decimal_value(n);
    assert(is_digit(decimal(n)[0]));
}

/// A byte is written as two digits of base sixteen, the letters among them small.
pub proof fn law_hex_form(b: u8)
    ensures
        hex_byte(b).len() == 2,
        ({
            let digits = "0123456789abcdef"@;
            hex_byte(b)[0] == digits[b as int / 16] && hex_byte(b)[1] == digits[b as int % 16]
        }),
{
    reveal_strlit("0123456789abcdef");
}

// ---------------------------------------------------------------------------
// Searching and trimming
// ---------------------------------------------------------------------------

/// The first place of a character parts the text in one half without it and one that
/// begins with it; without the character, the first place is the end. The last place is
/// found likewise, and is minus one without the character.
pub proof fn law_first_and_last_place(before: Seq<char>, c: char, after: Seq<char>)
    ensures
        !before.contains(c) ==> first_at(before.push(c) + after, c) == before.len(),
        !before.contains(c) ==> first_at(before, c) == before.len(),
        !after.contains(c) ==> last_at(before.push(c) + after, c) == before.len(),
        !before.contains(c) ==> last_at(before, c) == -1,
{
    let s = before.push(c) + after;
    assert(s[before.len() as int] == c);
    if !before.contains(c) {
        assert forall|j: int| 0 <= j < before.len() implies s[j] != c && before[j] != c by {
            assert(s[j] == before[j]);
        }
        lemma_first_at(s, c, before.len() as int);
        lemma_first_at(before, c, before.len() as int);
        lemma_last_at(before, c, -1);
    }
    if !after.contains(c) {
        assert forall|j: int| before.len() < j < s.len() implies s[j] != c by {
            assert(s[j] == after[j - before.len() - 1]);
        }
        lemma_last_at(s, c, before.len() as int);
    }
}

/// A text holds a pattern exactly where it is made of something, the pattern and something
/// more.
pub proof fn law_pattern_occurs(s: Seq<char>, pat: Seq<char>)
    ensures
        occurs(s, pat) <==> exists|a: Seq<char>, b: Seq<char>| s == #[trigger] (a + pat + b),
{
    if occurs(s, pat) {
        let i = choose|i: int| #[trigger] stands_at(s, pat, i);
        assert(s =~= s.take(i) + pat + s.skip(i + pat.len()));
    }
    if exists|a: Seq<char>, b: Seq<char>| s == #[trigger] (a + pat + b) {
        let (a, b) = choose|a: Seq<char>, b: Seq<char>| s == #[trigger] (a + pat + b);
        assert(s.subrange(a.len() as int, (a.len() + pat.len()) as int) =~= pat);
        assert(stands_at(s, pat, a.len() as int));
    }
}

/// What counts as white space: blanks, tabs, line ends of every kind, and the wide and
/// narrow spaces of other scripts; no letter, digit or sign.
pub proof fn law_white_space(c: char)
    ensures
        is_space(c) <==> {
            ||| c == '\t' || c == '\n' || c == '\u{b}' || c == '\u{c}' || c == '\r' || c == ' '
            ||| c == '\u{85}' || c == '\u{a0}' || c == '\u{1680}'
            ||| '\u{2000}' <= c <= '\u{200a}'
            ||| c == '\u{2028}' || c == '\u{2029}' || c == '\u{202f}' || c == '\u{205f}'
            ||| c == '\u{3000}'
        },
{
}

/// Trimming takes white space away in front and at the end, and nothing else: neither
/// white space is left there, nor is anything but white space taken.
pub proof fn law_trimming_takes_white_space(s: Seq<char>) -> (ends: (Seq<char>, Seq<char>))
    ensures
        s == ends.0 + trimmed(s) + ends.1,
        forall|i: int| 0 <= i < ends.0.len() ==> is_space(#[trigger] ends.0[i]),
        forall|i: int| 0 <= i < ends.1.len() ==> is_space(#[trigger] ends.1[i]),
        trimmed(s).len() > 0 ==> !is_space(trimmed(s)[0]) && !is_space(trimmed(s).last()),
{
    let a = lemma_trimmed_front(s);
    let front = trimmed_front(s);
    let b = lemma_trimmed_back(front);
    assert(s =~= a + trimmed(s) + b);
    if trimmed(s).len() > 0 {
        assert(trimmed(s)[0] == front[0]);
    }
    (a, b)
}

/// What is trimmed is what stands between the white space, with all that is inside it. So
/// a text without white space around it stays as it is, line ends inside it too.
pub proof fn law_trimming_keeps_the_rest(a: Seq<char>, s: Seq<char>, b: Seq<char>)
    requires
        forall|i: int| 0 <= i < a.len() ==> is_space(#[trigger] a[i]),
        forall|i: int| 0 <= i < b.len() ==> is_space(#[trigger] b[i]),
        s.len() > 0 ==> !is_space(s[0]) && !is_space(s.last()),
    ensures
        trimmed(a + s + b) == s,
{
    if s.len() > 0 {
        lemma_front_of(a, s + b);
        assert(a + s + b =~= a + (s + b));
        lemma_back_of(s, b);
    } else {
        let all = a + s + b;
        assert forall|i: int| 0 <= i < all.len() implies is_space(#[trigger] all[i]) by {
            if i < a.len() {
                assert(is_space(a[i]));
            } else {
                assert(is_space(b[i - a.len()]));
            }
        }
        lemma_front_of(all, Seq::empty());
        assert(all + Seq::<char>::empty() =~= all);
        assert(trimmed(all) =~= s);
    }
}

proof fn lemma_trimmed_front(s: Seq<char>) -> (a: Seq<char>)
    ensures
        s == a + trimmed_front(s),
        forall|i: int| 0 <= i < a.len() ==> is_space(#[trigger] a[i]),
        trimmed_front(s).len() > 0 ==> !is_space(trimmed_front(s)[0]),
    decreases s.len(),
{
    if s.len() > 0 && is_space(s[0]) {
        let rest = lemma_trimmed_front(s.skip(1));
        let a = seq![s[0]] + rest;
        assert forall|i: int| 0 <= i < a.len() implies is_space(#[trigger] a[i]) by {
            if i > 0 {
                assert(is_space(rest[i - 1]));
            }
        }
        assert(s =~= seq![s[0]] + s.skip(1));
        assert(s =~= a + trimmed_front(s));
        a
    } else {
        assert(s =~= Seq::<char>::empty() + s);
        Seq::empty()
    }
}

proof fn lemma_trimmed_back(s: Seq<char>) -> (b: Seq<char>)
    ensures
        s == trimmed_back(s) + b,
        forall|i: int| 0 <= i < b.len() ==> is_space(#[trigger] b[i]),
        trimmed_back(s).len() > 0 ==> !is_space(trimmed_back(s).last()),
    decreases s.len(),
{
    if s.len() > 0 && is_space(s.last()) {
        let rest = lemma_trimmed_back(s.drop_last());
        let b = rest.push(s.last());
        assert(s =~= s.drop_last().push(s.last()));
        assert(s =~= trimmed_back(s) + b);
        b
    } else {
        assert(s =~= s + Seq::<char>::empty());
        Seq::empty()
    }
}

proof fn lemma_front_of(a: Seq<char>, s: Seq<char>)
    requires
        forall|i: int| 0 <= i < a.len() ==> is_space(#[trigger] a[i]),
        s.len() > 0 ==> !is_space(s[0]),
    ensures
        trimmed_front(a + s) == s,
    decreases a.len(),
{
    if a.len() > 0 {
        assert(is_space(a[0]));
        let rest = a.skip(1);
        assert forall|i: int| 0 <= i < rest.len() implies is_space(#[trigger] rest[i]) by {
            assert(is_space(a[i + 1]));
        }
        lemma_front_of(rest, s);
        assert((a + s).skip(1) =~= rest + s);
        assert((a + s)[0] == a[0]);
    } else {
        assert(a + s =~= s);
    }
}

proof fn lemma_back_of(s: Seq<char>, b: Seq<char>)
    requires
        forall|i: int| 0 <= i < b.len() ==> is_space(#[trigger] b[i]),
        s.len() > 0 ==> !is_space(s.last()),
    ensures
        trimmed_back(s + b) == s,
    decreases b.len(),
{
    if b.len() > 0 {
        assert(is_space(b[b.len() - 1]));
        let rest = b.drop_last();
        assert forall|i: int| 0 <= i < rest.len() implies is_space(#[trigger] rest[i]) by {
            assert(is_space(b[i]));
        }
        lemma_back_of(s, rest);
        assert((s + b).drop_last() =~= s + rest);
        assert((s + b).last() == b.last());
    } else {
        assert(s + b =~= s);
    }
}

// ---------------------------------------------------------------------------
// Lines and fields
// ---------------------------------------------------------------------------

/// A text is parted at each separator and nowhere else: no part holds one, there is always
/// a part, and the parts with separators between them are the text again.
pub proof fn law_parting_a_text(s: Seq<char>, sep: char)
    ensures
        split(s, sep).len() > 0,
        join(split(s, sep), sep) == s,
        forall|i: int|
            0 <= i < split(s, sep).len() ==> !(#[trigger] split(s, sep)[i]).contains(sep),
    decreases s.len(),
{
    let i = first_at(s, sep);
    lemma_first_at_is(s, sep);
    if i >= s.len() {
        assert(!s.contains(sep));
    } else {
        let rest = s.skip(i + 1);
        let head = s.take(i);
        law_parting_a_text(rest, sep);
        let parts = split(s, sep);
        assert(parts =~= seq![head] + split(rest, sep));
        assert(parts.skip(1) =~= split(rest, sep));
        lemma_join_front(parts, sep);
        assert(s =~= head.push(sep) + rest);
        assert forall|k: int| 0 <= k < parts.len() implies !(#[trigger] parts[k]).contains(
            sep,
        ) by {
            if k > 0 {
                assert(parts[k] == split(rest, sep)[k - 1]);
            } else {
                assert(!head.contains(sep));
            }
        }
    }
}

/// Joined parts stand one behind the other with the separator between them: joining one
/// part gives that part, and one more part adds a separator and the part.
pub proof fn law_joining_parts(parts: Seq<Seq<char>>, p: Seq<char>, sep: char)
    ensures
        join(Seq::empty(), sep).len() == 0,
        join(seq![p], sep) == p,
        parts.len() > 0 ==> join(parts.push(p), sep) == join(parts, sep) + seq![sep] + p,
{
    assert(parts.push(p).drop_last() =~= parts);
    if parts.len() > 0 {
        assert(join(parts.push(p), sep) =~= join(parts, sep) + seq![sep] + p);
    }
}

/// Each line ends at its newline. A carriage return before the newline belongs to the
/// ending. What stands behind the last newline is a line of its own, if it is anything.
pub proof fn law_lines_of_a_text(line: Seq<char>, rest: Seq<char>)
    requires
        !line.contains('\n'),
    ensures
        lines(Seq::empty()).len() == 0,
        line.len() > 0 ==> lines(line) == seq![line],
        !(line.len() > 0 && line.last() == '\r') ==> lines(line + seq!['\n'] + rest) == seq![line]
            + lines(rest),
        lines(line + seq!['\r', '\n'] + rest) == seq![line] + lines(rest),
{
    assert forall|j: int| 0 <= j < line.len() implies line[j] != '\n' by {
        assert(!line.contains('\n'));
    }
    lemma_first_at(line, '\n', line.len() as int);
    let s = line + seq!['\n'] + rest;
    lemma_first_at(s, '\n', line.len() as int);
    assert(s.take(line.len() as int) =~= line);
    assert(s.skip(line.len() as int + 1) =~= rest);
    let t = line + seq!['\r', '\n'] + rest;
    let n = line.len() + 1;
    assert forall|j: int| 0 <= j < n implies t[j] != '\n' by {
        if j < line.len() {
            assert(t[j] == line[j]);
        }
    }
    assert(t[n as int] == '\n');
    lemma_first_at(t, '\n', n as int);
    assert(t.take(n as int) =~= line.push('\r'));
    assert(line.push('\r').drop_last() =~= line);
    assert(t.skip(n as int + 1) =~= rest);
}

// ---------------------------------------------------------------------------
// Taking texts apart and putting them together
// ---------------------------------------------------------------------------

/// Numbers are written, and read within a limit, as their decimal form says.
pub proof fn law_numbers_are_written_and_read(
    n: u64,
    out: String,
    b: u8,
    hex: String,
    s: &[char],
    max: u64,
    r: Option<u64>,
)
    requires
        call_ensures(decimal_text, (n,), out),
        call_ensures(hex_text, (b,), hex),
        call_ensures(parse_number, (s, max), r),
    ensures
        out@ == decimal(n as nat),
        hex@ == hex_byte(b),
        r is Some <==> number(s@, max as nat) is Some,
        r matches Some(v) ==> number(s@, max as nat) == Some(v as nat),
{
}

/// A character is found at its first or last place, and a pattern wherever it stands.
pub proof fn law_searches_find(
    s: &[char],
    c: char,
    first: usize,
    last: Option<usize>,
    pat: &[char],
    there: bool,
)
    requires
        call_ensures(find_first, (s, c), first),
        call_ensures(find_last, (s, c), last),
        call_ensures(contains_text, (s, pat), there),
    ensures
        first <= s@.len(),
        first < s@.len() ==> s@[first as int] == c,
        forall|j: int| 0 <= j < first ==> s@[j] != c,
        last matches Some(i) ==> i < s@.len() && s@[i as int] == c && forall|j: int|
            i < j < s@.len() ==> s@[j] != c,
        last is None ==> !s@.contains(c),
        there <==> exists|a: Seq<char>, b: Seq<char>| s@ == #[trigger] (a + pat@ + b),
{
    lemma_first_at_is(s@, c);
    law_pattern_occurs(s@, pat@);
    lemma_last_at_is(s@, c);
}

proof fn lemma_last_at_is(s: Seq<char>, c: char)
    ensures
        -1 <= last_at(s, c) < s.len(),
        last_at(s, c) >= 0 ==> s[last_at(s, c)] == c,
        forall|j: int| last_at(s, c) < j < s.len() ==> s[j] != c,
    decreases s.len(),
{
    if s.len() > 0 && s.last() != c {
        let t = s.drop_last();
        lemma_last_at_is(t, c);
        assert forall|j: int| last_at(s, c) < j < s.len() implies s[j] != c by {
            if j < t.len() {
                assert(s[j] == t[j]);
            }
        }
    }
}

/// Texts are trimmed, compared and put together as they are.
pub proof fn law_texts_are_kept(
    s: &[char],
    cut: &[char],
    text: String,
    a: &str,
    b: &str,
    same: bool,
    both: String,
    chars: Vec<char>,
)
    requires
        call_ensures(trim_text, (s,), cut),
        call_ensures(text_of, (s,), text),
        call_ensures(same_text, (a, b), same),
        call_ensures(joined, (a, b), both),
        call_ensures(chars_of, (a,), chars),
    ensures
        cut@ == trimmed(s@),
        text@ == s@,
        same <==> a@ == b@,
        both@ == a@ + b@,
        chars@ == a@,
{
}

/// Fields and lines are those of the text, each in its place, and joined texts stand one
/// behind the other.
pub proof fn law_fields_and_lines(
    s: &[char],
    sep: char,
    fields: Vec<&[char]>,
    rows: Vec<&[char]>,
    parts: &[String],
    out: String,
    i: int,
)
    requires
        call_ensures(split_fields, (s, sep), fields),
        call_ensures(split_lines, (s,), rows),
        call_ensures(join_texts, (parts, sep), out),
    ensures
        fields@.len() == split(s@, sep).len(),
        0 <= i < fields@.len() ==> fields@[i]@ == split(s@, sep)[i],
        rows@.len() == lines(s@).len(),
        0 <= i < rows@.len() ==> rows@[i]@ == lines(s@)[i],
        out@ == join(texts(parts@), sep),
        texts(parts@).len() == parts@.len(),
        0 <= i < parts@.len() ==> texts(parts@)[i] == parts@[i]@,
{
    let f = pieces(fields@);
    let r = pieces(rows@);
    assert(f.len() == fields@.len());
    assert(r.len() == rows@.len());
    assert(0 <= i < fields@.len() ==> f[i] == fields@[i]@);
    assert(0 <= i < rows@.len() ==> r[i] == rows@[i]@);
}

/// A text in UTF-8 is shown as it is.
pub proof fn law_text_is_shown(text: Seq<char>, path: &[u8], s: String)
    requires
        call_ensures(shown, (path,), s),
        path@ == encode_utf8(text),
    ensures
        s@ == text,
        lossy_text(path@) == text,
{
    encode_utf8_valid_utf8(text);
    encode_utf8_decode_utf8(text);
}

} // verus!
