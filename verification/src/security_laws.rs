//! What may be used and what is refused, said of what the system reports.

use vstd::prelude::*;
use vstd::utf8::encode_utf8;

use crate::buffer::lossy_text;
use crate::errors::ErrorKind;
use crate::paths::{components_from, parent_path};
use crate::security::{
    bind_step, clamp_winsize, dir_step, in_use_error, is_trusted_root, trusted_root, validate_dir,
    verify_peer_uid, BindAction, BindEvent, Binding, DirAction, DirActionModel, DirEvent, DirFacts,
    DirWalk, DirWalkModel, SecurityError, SecurityErrorModel, DIR_MODE, MAX_WINSIZE, SOCKET_MODE,
};
use crate::text::decimal;

verus! {

/// Every refusal says what was refused and why, and is of the kind that callers tell apart.
pub proof fn law_refusals_have_words(e: SecurityError, s: String, k: ErrorKind)
    requires
        call_ensures(SecurityError::message, (&e,), s),
        call_ensures(SecurityError::kind, (&e,), k),
    ensures
        match e {
            SecurityError::Symlink { path } => s@ == "refusing to use symlink at "@ + lossy_text(
                path@,
            ) && k == ErrorKind::InvalidInput,
            SecurityError::NotDirectory { path } => s@ == lossy_text(path@)
                + " is not a directory"@ && k == ErrorKind::InvalidInput,
            SecurityError::ForeignOwner { path, owner, expected } => s@ == lossy_text(path@)
                + " is owned by uid "@ + decimal(owner as nat) + ", expected uid "@ + decimal(
                expected as nat,
            ) + "; set $XDG_RUNTIME_DIR or use --ctl-socket"@ && k == ErrorKind::PermissionDenied,
            SecurityError::InUse { path } => s@ == lossy_text(path@)
                + " is already in use by a running process"@ && k == ErrorKind::AddrInUse,
            SecurityError::ForeignPeer { peer, expected } => s@ == "rejecting connection from uid "@
                + decimal(peer as nat) + " (expected "@ + decimal(expected as nat) + ")"@ && k
                == ErrorKind::PermissionDenied,
        },
{
}

/// A size becomes the nearest sane one: it stays as it is where it is sane, and otherwise
/// no sane size is nearer. Columns and rows are told apart.
pub proof fn law_size_is_nearest(cols: u16, rows: u16, r: (u16, u16), other: u16)
    requires
        call_ensures(clamp_winsize, (cols, rows), r),
        1 <= other <= 10_000,
    ensures
        1 <= r.0 <= 10_000,
        1 <= r.1 <= 10_000,
        1 <= cols <= 10_000 ==> r.0 == cols,
        1 <= rows <= 10_000 ==> r.1 == rows,
        cols < 1 ==> r.0 <= other,
        cols > 10_000 ==> r.0 >= other,
        rows < 1 ==> r.1 <= other,
        rows > 10_000 ==> r.1 >= other,
        MAX_WINSIZE == 10_000,
{
}

/// Only the same user is let in, and who is refused is told both ids.
pub proof fn law_only_the_same_user(peer: u32, my_uid: u32, r: Result<(), SecurityError>)
    requires
        call_ensures(verify_peer_uid, (peer, my_uid), r),
    ensures
        r is Ok <==> peer == my_uid,
        r matches Err(e) ==> e == (SecurityError::ForeignPeer { peer, expected: my_uid }),
{
}

/// The directories that are used unseen are the root, `/tmp`, `/run` and the runtime
/// directory, and no others.
pub proof fn law_directories_used_unseen(path: &[u8], xdg: Option<&str>, r: bool)
    requires
        call_ensures(is_trusted_root, (path, xdg), r),
    ensures
        r <==> {
            ||| path@ == encode_utf8("/"@)
            ||| path@ == encode_utf8("/tmp"@)
            ||| path@ == encode_utf8("/run"@)
            ||| xdg matches Some(x) && {
                let dir = encode_utf8(x@);
                &&& (path@.len() > 0 && path@[0] == 0x2f) <==> (dir.len() > 0 && dir[0] == 0x2f)
                &&& components_from(path@, true) == components_from(dir, true)
            }
        },
{
}

/// A directory may be used exactly where it is a directory, no link, and the user's own;
/// otherwise the first of these that fails is told.
pub proof fn law_usable_directories(
    path: &[u8],
    facts: DirFacts,
    uid: u32,
    r: Result<(), SecurityError>,
)
    requires
        call_ensures(validate_dir, (path, facts, uid), r),
    ensures
        r is Ok <==> !facts.is_symlink && facts.is_dir && facts.uid == uid,
        facts.is_symlink ==> (r matches Err(SecurityError::Symlink { path: p }) && p@ == path@),
        !facts.is_symlink && !facts.is_dir ==> (r matches Err(SecurityError::NotDirectory { path: p })
            && p@ == path@),
        !facts.is_symlink && facts.is_dir && facts.uid != uid ==> (r matches Err(
            SecurityError::ForeignOwner { path: p, owner, expected },
        ) && p@ == path@ && owner == facts.uid && expected == uid),
{
}

/// A walk begins with a look at the path itself, with nothing to make.
pub proof fn law_walk_begins_at_the_path(path: &[u8], r: (DirWalk, DirAction))
    requires
        call_ensures(DirWalk::start, (path,), r),
    ensures
        r.0.at@ == path@,
        r.0.missing@.len() == 0,
        r.1 matches DirAction::Probe { path: p } && p@ == path@,
{
    assert(r.0@.missing.len() == r.0.missing@.len());
}

/// What is missing is remembered, the deepest first, and the walk climbs to its parent.
/// Without a parent it begins to make what is missing, from the top down, each directory
/// for the owner alone.
pub proof fn law_walk_climbs(w: DirWalkModel, xdg: Option<Seq<char>>, uid: u32)
    ensures
        ({
            let (after, action) = dir_step(w, xdg, uid, DirEvent::Missing);
            &&& after.missing == w.missing.push(w.at)
            &&& parent_path(w.at) matches Some(up) ==> after.at == up && action == (
            DirActionModel::Probe { path: up })
            &&& parent_path(w.at) is None ==> after.at == w.at && action == (
            DirActionModel::Create { path: w.at, mode: 0o700 })
        }),
        ({
            let (after, action) = dir_step(w, xdg, uid, DirEvent::Created);
            &&& after.at == w.at
            &&& w.missing.len() <= 1 ==> after.missing.len() == 0 && action == DirActionModel::Done
            &&& w.missing.len() > 1 ==> after.missing == w.missing.drop_last() && action == (
            DirActionModel::Create { path: w.missing[w.missing.len() - 2], mode: 0o700 })
        }),
{
}

/// What exists is looked at, unless it is used unseen. A directory that may be used leads
/// to a look at its parent, and so on up to one that is used unseen or to the top. One that
/// may not be used ends the walk, and nothing is made.
pub proof fn law_walk_looks_before_it_makes(
    w: DirWalkModel,
    xdg: Option<Seq<char>>,
    uid: u32,
    facts: DirFacts,
)
    ensures
        ({
            let (after, action) = dir_step(w, xdg, uid, DirEvent::Exists);
            &&& after == w
            &&& !trusted_root(w.at, xdg) ==> action == (DirActionModel::Inspect { path: w.at })
            &&& trusted_root(w.at, xdg) && w.missing.len() == 0 ==> action == DirActionModel::Done
            &&& trusted_root(w.at, xdg) && w.missing.len() > 0 ==> action == (
            DirActionModel::Create { path: w.missing.last(), mode: 0o700 })
        }),
        ({
            let (after, action) = dir_step(w, xdg, uid, DirEvent::Looked { facts });
            let usable = !facts.is_symlink && facts.is_dir && facts.uid == uid;
            &&& after.missing == w.missing
            &&& facts.is_symlink ==> action == (DirActionModel::Refuse {
                error: SecurityErrorModel::Symlink { path: w.at },
            })
            &&& !facts.is_symlink && !facts.is_dir ==> action == (DirActionModel::Refuse {
                error: SecurityErrorModel::NotDirectory { path: w.at },
            })
            &&& !facts.is_symlink && facts.is_dir && facts.uid != uid ==> action == (
            DirActionModel::Refuse {
                error: SecurityErrorModel::ForeignOwner {
                    path: w.at,
                    owner: facts.uid,
                    expected: uid,
                },
            })
            &&& usable ==> match parent_path(w.at) {
                Some(up) => if up.len() > 0 {
                    &&& after.at == up
                    &&& action == dir_step(after, xdg, uid, DirEvent::Exists).1
                } else {
                    &&& after.at == w.at
                    &&& w.missing.len() == 0 ==> action == DirActionModel::Done
                    &&& w.missing.len() > 0 ==> action == (DirActionModel::Create {
                        path: w.missing.last(),
                        mode: 0o700,
                    })
                },
                None => {
                    &&& after.at == w.at
                    &&& w.missing.len() == 0 ==> action == DirActionModel::Done
                    &&& w.missing.len() > 0 ==> action == (DirActionModel::Create {
                        path: w.missing.last(),
                        mode: 0o700,
                    })
                },
            }
        }),
{
}

/// A socket is bound at once where its address is free. Where it is not, the socket that is
/// there is tried once: one that answers is kept, one that does not is removed, and binding
/// is tried again. What fails otherwise is given up.
pub proof fn law_binding_a_socket(b: Binding, start: (Binding, BindAction))
    requires
        call_ensures(Binding::start, (), start),
    ensures
        start == (Binding { cleared: false }, BindAction::Bind),
        bind_step(b, BindEvent::Bound) == (b, BindAction::SetMode { mode: 0o600 }),
        bind_step(b, BindEvent::BindFailed { in_use: true }) == (
            b,
            if b.cleared {
                BindAction::Fail
            } else {
                BindAction::Probe
            },
        ),
        bind_step(b, BindEvent::BindFailed { in_use: false }) == (b, BindAction::Fail),
        bind_step(b, BindEvent::Probed { answered: true }) == (b, BindAction::RefuseInUse),
        bind_step(b, BindEvent::Probed { answered: false }) == (b, BindAction::Remove),
        bind_step(b, BindEvent::Removed { ok: true }) == (
            Binding { cleared: true },
            BindAction::Bind,
        ),
        bind_step(b, BindEvent::Removed { ok: false }) == (b, BindAction::Fail),
        bind_step(b, BindEvent::ModeSet { ok: true }) == (b, BindAction::Done),
        bind_step(b, BindEvent::ModeSet { ok: false }) == (b, BindAction::Fail),
        DIR_MODE == 0o700,
        SOCKET_MODE == 0o600,
{
}

/// Who is refused a socket is told which.
pub proof fn law_socket_in_use_is_named(path: &[u8], e: SecurityError)
    requires
        call_ensures(in_use_error, (path,), e),
    ensures
        e matches SecurityError::InUse { path: p } && p@ == path@,
{
}

} // verus!
