//! What paths mean: their components, their parents and their names, and where the sockets
//! stand.

use vstd::prelude::*;
use vstd::utf8::encode_utf8;

use crate::connect::local_socket_path;
use crate::daemon::{control_socket_path, pid_file_path, runtime_files, socket_dir};
use crate::daemon_laws::law_socket_dir_name;
use crate::paths::{
    components_from, file_name, join_path, joined_path, last_start, law_joining_adds_a_component,
    law_parent_drops_the_last_component, law_trimming_keeps_components, lemma_components_concat,
    lemma_components_piece, lemma_last_start, lemma_split_last, lemma_trim_idempotent,
    lemma_trim_tail, name_part, parent, parent_path, paths_equal, plain_name, rooted, same_bytes,
    sibling, trim_tail, with_file_name, DOT, SLASH,
};
use crate::text::decimal;

verus! {

/// The components of a path are the pieces between its slashes. Empty pieces count for
/// nothing, nor does a dot, unless the path begins with it.
pub proof fn law_components_of_a_path(s: Seq<u8>, piece: Seq<u8>)
    requires
        !piece.contains(0x2fu8),
    ensures
        piece.len() == 0 ==> components_from(piece, true).len() == 0,
        piece.len() > 0 ==> components_from(piece, true) == seq![piece],
        piece.len() == 0 || piece == seq![0x2eu8] ==> components_from(
            s + seq![0x2fu8] + piece,
            true,
        ) == components_from(s, true),
        piece.len() > 0 && piece != seq![0x2eu8] ==> components_from(
            s + seq![0x2fu8] + piece,
            true,
        ) == components_from(s, true).push(piece),
{
    lemma_components_piece(piece, true);
    lemma_components_piece(piece, false);
    let closed = s + seq![0x2fu8];
    lemma_components_concat(closed, piece, true);
    assert(components_from(closed, true) == components_from(s, true)) by {
        assert(closed.drop_last() =~= s);
        if s.len() > 0 {
            assert(trim_tail(closed) == trim_tail(s));
            law_trimming_keeps_components(closed);
            law_trimming_keeps_components(s);
        } else {
            let none = Seq::<u8>::empty();
            lemma_components_piece(none, true);
            assert(closed =~= none.push(SLASH));
            assert(s =~= none);
        }
    }
    assert(components_from(s, true) + Seq::<Seq<u8>>::empty() =~= components_from(s, true));
    assert(components_from(s, true) + seq![piece] =~= components_from(s, true).push(piece));
}

proof fn lemma_trimmed_end(s: Seq<u8>)
    ensures
        ({
            let t = trim_tail(s);
            t.len() > 1 ==> t.last() != SLASH && !(t.last() == DOT && t[t.len() - 2] == SLASH)
        }),
{
    let t = trim_tail(s);
    lemma_trim_idempotent(s);
    if t.len() > 1 {
        lemma_trim_tail(t.drop_last());
    }
}

proof fn lemma_last_piece(s: Seq<u8>)
    ensures
        ({
            let t = trim_tail(s);
            let piece = t.skip(last_start(t));
            &&& t.len() == 0 || t == seq![SLASH] ==> components_from(s, true).len() == 0
            &&& t.len() > 0 && t != seq![SLASH] ==> {
                &&& components_from(s, true).len() > 0
                &&& components_from(s, true).last() == piece
            }
        }),
{
    let t = trim_tail(s);
    law_trimming_keeps_components(s);
    lemma_trimmed_end(s);
    lemma_split_last(t);
    lemma_last_start(t);
    let i = last_start(t);
    let piece = t.skip(i);
    lemma_components_piece(piece, i == 0);
    lemma_components_piece(Seq::empty(), true);
    if t == seq![SLASH] {
        assert(t =~= Seq::<u8>::empty().push(SLASH));
    } else if t.len() == 0 {
        assert(t =~= Seq::empty());
    } else {
        if piece.len() == 0 {
            assert(i == t.len());
            assert(t.last() == SLASH);
            assert(t =~= seq![SLASH]);
        }
        if piece == seq![DOT] && i > 0 {
            assert(t.last() == piece[0]);
            assert(t[t.len() - 2] == t[i - 1]);
        }
    }
}

/// A path has a parent exactly where it has a component. The parent is the front of the
/// path as it is written, up to the last component and without a slash at its end, and has
/// all the components but that one.
pub proof fn law_parent_of_a_path(s: Seq<u8>)
    ensures
        parent_path(s) is None <==> components_from(s, true).len() == 0,
        parent_path(s) matches Some(p) ==> {
            &&& p.len() < s.len()
            &&& p == s.take(p.len() as int)
            &&& p.len() > 1 ==> p.last() != 0x2f && !(p.last() == 0x2e && p[p.len() - 2] == 0x2f)
            &&& components_from(p, true) == components_from(s, true).drop_last()
        },
{
    lemma_last_piece(s);
    let t = trim_tail(s);
    if parent_path(s) is Some {
        law_parent_drops_the_last_component(s);
        crate::paths::law_parent_is_shorter(s);
        let front = t.take(last_start(t));
        lemma_last_start(t);
        lemma_trim_tail(s);
        lemma_trim_tail(front);
        lemma_trimmed_end(front);
        let p = trim_tail(front);
        assert(p =~= s.take(p.len() as int));
    }
}

/// The name of a path is its last component, unless there is none or it is a dot or two.
pub proof fn law_name_of_a_path(s: Seq<u8>)
    ensures
        ({
            let c = components_from(s, true);
            name_part(s) == if c.len() == 0 || c.last() == seq![0x2eu8] || c.last() == seq![
                0x2eu8,
                0x2eu8,
            ] {
                None
            } else {
                Some(c.last())
            }
        }),
{
    lemma_last_piece(s);
}

/// A name is joined to a path with one slash between them, where there is none yet.
pub proof fn law_joined_path(s: Seq<u8>, name: Seq<u8>)
    ensures
        s.len() == 0 ==> joined_path(s, name) == name,
        joined_path(s + seq![0x2fu8], name) == s + seq![0x2fu8] + name,
        s.len() > 0 && s.last() != 0x2f ==> joined_path(s, name) == s + seq![0x2fu8] + name,
{
    assert(s.len() == 0 ==> s + name =~= name);
    assert(s.push(0x2f) + name =~= s + seq![0x2fu8] + name);
}

/// A sibling stands where the path stands: it has the same components but the last, and the
/// new name in its place. Where there is no name to replace, the new one is added.
pub proof fn law_sibling_of_a_path(s: Seq<u8>, name: Seq<u8>)
    requires
        plain_name(name),
    ensures
        ({
            let c = components_from(s, true);
            let kept = if name_part(s) is Some {
                c.drop_last()
            } else {
                c
            };
            components_from(sibling(s, name), true) == kept.push(name)
        }),
        (sibling(s, name)[0] == 0x2f) <==> (s.len() > 0 && s[0] == 0x2f),
{
    lemma_last_piece(s);
    law_joining_adds_a_component(s, name);
    assert(name.contains(name[0]));
    if let Some(p) = parent_path(s) {
        law_parent_drops_the_last_component(s);
        law_joining_adds_a_component(p, name);
        assert(rooted(p) == rooted(s));
        if p.len() > 0 {
            assert(joined_path(p, name)[0] == p[0]);
        } else {
            assert(joined_path(p, name)[0] == name[0]);
        }
    }
    if s.len() > 0 {
        assert(joined_path(s, name)[0] == s[0]);
    } else {
        assert(joined_path(s, name)[0] == name[0]);
    }
}

/// A plain name is neither empty nor a dot or two, and holds no slash.
pub proof fn law_plain_names(name: Seq<u8>)
    ensures
        plain_name(name) <==> {
            &&& name.len() > 0
            &&& forall|i: int| 0 <= i < name.len() ==> name[i] != 0x2f
            &&& !(name.len() == 1 && name[0] == 0x2e)
            &&& !(name.len() == 2 && name[0] == 0x2e && name[1] == 0x2e)
        },
{
    if name.len() == 1 && name[0] == 0x2e {
        assert(name =~= seq![DOT]);
    }
    if name.len() == 2 && name[0] == 0x2e && name[1] == 0x2e {
        assert(name =~= seq![DOT, DOT]);
    }
    if !name.contains(SLASH) {
        assert forall|i: int| 0 <= i < name.len() implies name[i] != 0x2f by {
            assert(name.contains(name[i]));
        }
    }
}

/// Two paths count as the same where both or neither begin at the root and their components
/// are the same, however many slashes and dots stand between and behind them.
pub proof fn law_paths_that_are_the_same(a: &[u8], b: &[u8], r: bool)
    requires
        call_ensures(paths_equal, (a, b), r),
    ensures
        r <==> {
            &&& (a@.len() > 0 && a@[0] == 0x2f) <==> (b@.len() > 0 && b@[0] == 0x2f)
            &&& components_from(a@, true) == components_from(b@, true)
        },
{
}

/// Parents, names, siblings and joined paths are those of the path.
pub proof fn law_parts_of_a_path(
    s: &[u8],
    name: &[u8],
    up: Option<Vec<u8>>,
    own: Option<Vec<u8>>,
    below: Vec<u8>,
    beside: Vec<u8>,
    same: bool,
)
    requires
        call_ensures(parent, (s,), up),
        call_ensures(file_name, (s,), own),
        call_ensures(join_path, (s, name), below),
        call_ensures(with_file_name, (s, name), beside),
        call_ensures(same_bytes, (s, name), same),
    ensures
        up is Some <==> parent_path(s@) is Some,
        up matches Some(p) ==> parent_path(s@) == Some(p@),
        own is Some <==> name_part(s@) is Some,
        own matches Some(n) ==> name_part(s@) == Some(n@),
        below@ == joined_path(s@, name@),
        beside@ == sibling(s@, name@),
        same <==> s@ == name@,
{
}

// ---------------------------------------------------------------------------
// Where the sockets stand
// ---------------------------------------------------------------------------

/// The sockets stand in `gritty` in the runtime directory where one is known, and otherwise
/// in a directory of `/tmp` with the user's id in its name.
pub proof fn law_where_the_sockets_stand(xdg: Option<&str>, uid: u32, dir: Vec<u8>)
    requires
        call_ensures(socket_dir, (xdg, uid), dir),
    ensures
        match xdg {
            Some(x) => {
                let front = encode_utf8(x@);
                dir@ == if front.len() > 0 && front.last() != 0x2f {
                    front + seq![0x2fu8] + encode_utf8("gritty"@)
                } else {
                    front + encode_utf8("gritty"@)
                }
            },
            None => dir@ == encode_utf8("/tmp/gritty-"@ + decimal(uid as nat)),
        },
{
    if let Some(x) = xdg {
        let front = encode_utf8(x@);
        assert(front.push(0x2f) + encode_utf8("gritty"@) =~= front + seq![0x2fu8] + encode_utf8(
            "gritty"@,
        ));
    }
}

/// The daemon's socket, the file with its process id and the sockets of tunnels stand side
/// by side in that directory, each under its own name.
pub proof fn law_names_of_the_sockets(
    xdg: Option<&str>,
    uid: u32,
    pid: u32,
    dir: Vec<u8>,
    ctl: Vec<u8>,
    tunnel: Vec<u8>,
)
    requires
        call_ensures(socket_dir, (xdg, uid), dir),
        call_ensures(control_socket_path, (xdg, uid), ctl),
        call_ensures(local_socket_path, (xdg, uid, pid), tunnel),
    ensures
        ctl@ == dir@ + seq![0x2fu8] + encode_utf8("ctl.sock"@),
        tunnel@ == dir@ + seq![0x2fu8] + encode_utf8("connect-"@ + decimal(pid as nat) + ".sock"@),
{
    law_socket_dir_name(crate::daemon::opt_text(xdg), uid);
    lemma_trimmed_end(dir@);
    law_name_of_a_path(dir@);
    assert(dir@.len() > 0 && dir@.last() != SLASH) by {
        if dir@.len() == 0 {
            lemma_last_piece(dir@);
        }
        if dir@.len() == 1 && dir@.last() == SLASH {
            assert(dir@ =~= seq![SLASH]);
            lemma_last_piece(dir@);
        }
    }
    law_joined_path(dir@, encode_utf8("ctl.sock"@));
    law_joined_path(dir@, encode_utf8("connect-"@ + decimal(pid as nat) + ".sock"@));
}

/// A daemon keeps two files: its socket, and beside it the one with its process id.
pub proof fn law_files_of_a_daemon(ctl: &[u8], files: Vec<Vec<u8>>, pid_file: Vec<u8>)
    requires
        call_ensures(runtime_files, (ctl,), files),
        call_ensures(pid_file_path, (ctl,), pid_file),
    ensures
        files@.len() == 2,
        files@[0]@ == ctl@,
        files@[1]@ == pid_file@,
        pid_file@ == sibling(ctl@, encode_utf8("daemon.pid"@)),
{
}

} // verus!
