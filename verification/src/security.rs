//! The rules about directories, sockets, peers and window sizes.

use vstd::prelude::*;
use vstd::slice::slice_to_vec;
use vstd::utf8::encode_utf8;

use crate::buffer::lossy_text;
use crate::daemon::opt_text;
use crate::errors::ErrorKind;
use crate::paths::{
    law_parent_is_shorter, parent, parent_path, paths_equal, same_bytes, same_path, shown,
};
use crate::text::{decimal, decimal_text, joined};

verus! {

/// The largest number of columns or rows.
pub const MAX_WINSIZE: u16 = 10_000;

/// The mode of directories that are made: access for the owner only.
pub const DIR_MODE: u32 = 0o700;

/// The mode of sockets: access for the owner only.
pub const SOCKET_MODE: u32 = 0o600;

// ---------------------------------------------------------------------------
// Errors
// ---------------------------------------------------------------------------

/// What is refused for the sake of safety.
#[derive(Debug, Clone, PartialEq, Eq)]
pub enum SecurityError {
    /// The path is a symbolic link.
    Symlink { path: Vec<u8> },
    /// The path is something else than a directory.
    NotDirectory { path: Vec<u8> },
    /// The directory belongs to another user.
    ForeignOwner { path: Vec<u8>, owner: u32, expected: u32 },
    /// The socket is in use.
    InUse { path: Vec<u8> },
    /// The other end of a connection belongs to another user.
    ForeignPeer { peer: u32, expected: u32 },
}

/// A refusal as a mathematical value.
#[verifier::ext_equal]
pub enum SecurityErrorModel {
    Symlink { path: Seq<u8> },
    NotDirectory { path: Seq<u8> },
    ForeignOwner { path: Seq<u8>, owner: u32, expected: u32 },
    InUse { path: Seq<u8> },
    ForeignPeer { peer: u32, expected: u32 },
}

impl View for SecurityError {
    type V = SecurityErrorModel;

    open spec fn view(&self) -> SecurityErrorModel {
        match self {
            SecurityError::Symlink { path } => SecurityErrorModel::Symlink { path: path@ },
            SecurityError::NotDirectory { path } => SecurityErrorModel::NotDirectory {
                path: path@,
            },
            SecurityError::ForeignOwner { path, owner, expected } => {
                SecurityErrorModel::ForeignOwner {
                    path: path@,
                    owner: *owner,
                    expected: *expected,
                }
            },
            SecurityError::InUse { path } => SecurityErrorModel::InUse { path: path@ },
            SecurityError::ForeignPeer { peer, expected } => SecurityErrorModel::ForeignPeer {
                peer: *peer,
                expected: *expected,
            },
        }
    }
}

/// The kind of a refusal.
pub open spec fn refusal_kind(e: SecurityErrorModel) -> ErrorKind {
    match e {
        SecurityErrorModel::Symlink { .. } => ErrorKind::InvalidInput,
        SecurityErrorModel::NotDirectory { .. } => ErrorKind::InvalidInput,
        SecurityErrorModel::ForeignOwner { .. } => ErrorKind::PermissionDenied,
        SecurityErrorModel::InUse { .. } => ErrorKind::AddrInUse,
        SecurityErrorModel::ForeignPeer { .. } => ErrorKind::PermissionDenied,
    }
}

/// The words for a refusal.
pub open spec fn refusal_words(e: SecurityErrorModel) -> Seq<char> {
    match e {
        SecurityErrorModel::Symlink { path } => "refusing to use symlink at "@ + lossy_text(path),
        SecurityErrorModel::NotDirectory { path } => lossy_text(path) + " is not a directory"@,
        SecurityErrorModel::ForeignOwner { path, owner, expected } => lossy_text(path)
            + " is owned by uid "@ + decimal(owner as nat) + ", expected uid "@ + decimal(
            expected as nat,
        ) + "; set $XDG_RUNTIME_DIR or use --ctl-socket"@,
        SecurityErrorModel::InUse { path } => lossy_text(path)
            + " is already in use by a running process"@,
        SecurityErrorModel::ForeignPeer { peer, expected } => "rejecting connection from uid "@
            + decimal(peer as nat) + " (expected "@ + decimal(expected as nat) + ")"@,
    }
}

impl SecurityError {
    /// The kind of this refusal.
    pub fn kind(&self) -> (k: ErrorKind)
        ensures
            k == refusal_kind(self@),
    {
        match self {
            SecurityError::Symlink { .. } => ErrorKind::InvalidInput,
            SecurityError::NotDirectory { .. } => ErrorKind::InvalidInput,
            SecurityError::ForeignOwner { .. } => ErrorKind::PermissionDenied,
            SecurityError::InUse { .. } => ErrorKind::AddrInUse,
            SecurityError::ForeignPeer { .. } => ErrorKind::PermissionDenied,
        }
    }

    /// The words for this refusal.
    pub fn message(&self) -> (s: String)
        ensures
            s@ == refusal_words(self@),
    {
        match self {
            SecurityError::Symlink { path } => {
                joined("refusing to use symlink at ", shown(path.as_slice()).as_str())
            },
            SecurityError::NotDirectory { path } => {
                joined(shown(path.as_slice()).as_str(), " is not a directory")
            },
            SecurityError::ForeignOwner { path, owner, expected } => {
                let mut s: String = shown(path.as_slice());
                s.append(" is owned by uid ");
                s.append(decimal_text(*owner as u64).as_str());
                s.append(", expected uid ");
                s.append(decimal_text(*expected as u64).as_str());
                s.append("; set $XDG_RUNTIME_DIR or use --ctl-socket");
                s
            },
            SecurityError::InUse { path } => {
                joined(
                    shown(path.as_slice()).as_str(),
                    " is already in use by a running process",
                )
            },
            SecurityError::ForeignPeer { peer, expected } => {
                let mut s: String = joined(
                    "rejecting connection from uid ",
                    decimal_text(*peer as u64).as_str(),
                );
                s.append(" (expected ");
                s.append(decimal_text(*expected as u64).as_str());
                s.append(")");
                s
            },
        }
    }
}

// ---------------------------------------------------------------------------
// Window sizes and peers
// ---------------------------------------------------------------------------

/// A number of columns or rows brought into the sane range.
pub open spec fn clamped(n: u16) -> u16 {
    if n < 1 {
        1
    } else if n > MAX_WINSIZE {
        MAX_WINSIZE
    } else {
        n
    }
}

fn clamp_one(n: u16) -> (r: u16)
    ensures
        r == clamped(n),
{
    if n < 1 {
        1
    } else if n > MAX_WINSIZE {
        MAX_WINSIZE
    } else {
        n
    }
}

/// Brings a window size into a sane range: never zero, never absurdly large.
pub fn clamp_winsize(cols: u16, rows: u16) -> (r: (u16, u16))
    ensures
        r == (clamped(cols), clamped(rows)),
        1 <= r.0 <= MAX_WINSIZE,
        1 <= r.1 <= MAX_WINSIZE,
{
    (clamp_one(cols), clamp_one(rows))
}

/// Whether the peer on a connection is the same user.
pub fn verify_peer_uid(peer: u32, my_uid: u32) -> (r: Result<(), SecurityError>)
    ensures
        match r {
            Ok(()) => peer == my_uid,
            Err(e) => peer != my_uid && e@ == (SecurityErrorModel::ForeignPeer {
                peer,
                expected: my_uid,
            }),
        },
{
    if peer != my_uid {
        Err(SecurityError::ForeignPeer { peer, expected: my_uid })
    } else {
        Ok(())
    }
}

// ---------------------------------------------------------------------------
// Directories
// ---------------------------------------------------------------------------

/// The directories that need no check: `/`, `/tmp`, `/run`, and the runtime directory.
pub open spec fn trusted_root(path: Seq<u8>, xdg: Option<Seq<char>>) -> bool {
    ||| path == encode_utf8("/"@)
    ||| path == encode_utf8("/tmp"@)
    ||| path == encode_utf8("/run"@)
    ||| xdg matches Some(dir) && same_path(path, encode_utf8(dir))
}

/// Whether a directory needs no check, given the value of `XDG_RUNTIME_DIR`.
pub fn is_trusted_root(path: &[u8], xdg: Option<&str>) -> (r: bool)
    ensures
        r == trusted_root(path@, opt_text(xdg)),
{
    if same_bytes(path, "/".as_bytes()) || same_bytes(path, "/tmp".as_bytes()) || same_bytes(
        path,
        "/run".as_bytes(),
    ) {
        return true;
    }
    match xdg {
        Some(dir) => paths_equal(path, dir.as_bytes()),
        None => false,
    }
}

/// What the file system says about a path, links not followed.
#[derive(Debug, Clone, Copy, PartialEq, Eq)]
pub struct DirFacts {
    pub is_symlink: bool,
    pub is_dir: bool,
    pub uid: u32,
}

/// What speaks against using a directory.
pub open spec fn dir_fault(path: Seq<u8>, facts: DirFacts, uid: u32) -> Option<
    SecurityErrorModel,
> {
    if facts.is_symlink {
        Some(SecurityErrorModel::Symlink { path })
    } else if !facts.is_dir {
        Some(SecurityErrorModel::NotDirectory { path })
    } else if facts.uid != uid {
        Some(SecurityErrorModel::ForeignOwner { path, owner: facts.uid, expected: uid })
    } else {
        None
    }
}

/// Whether a directory may be used: no link, a directory indeed, and the user's own.
pub fn validate_dir(path: &[u8], facts: DirFacts, uid: u32) -> (r: Result<(), SecurityError>)
    ensures
        match r {
            Ok(()) => dir_fault(path@, facts, uid) is None,
            Err(e) => dir_fault(path@, facts, uid) == Some(e@),
        },
{
    if facts.is_symlink {
        return Err(SecurityError::Symlink { path: slice_to_vec(path) });
    }
    if !facts.is_dir {
        return Err(SecurityError::NotDirectory { path: slice_to_vec(path) });
    }
    if facts.uid != uid {
        return Err(
            SecurityError::ForeignOwner {
                path: slice_to_vec(path),
                owner: facts.uid,
                expected: uid,
            },
        );
    }
    Ok(())
}

/// Making a directory and whatever it needs above it. The walk climbs from the path until
/// something exists. From there it goes on to climb and checks each directory, until it
/// comes to one that needs no check. Then it makes what is missing, from the top down.
#[derive(Debug)]
pub struct DirWalk {
    /// Where the walk stands.
    pub at: Vec<u8>,
    /// What is missing, the deepest first.
    pub missing: Vec<Vec<u8>>,
}

/// The walk as a mathematical value.
#[verifier::ext_equal]
pub struct DirWalkModel {
    pub at: Seq<u8>,
    pub missing: Seq<Seq<u8>>,
}

/// The bytes in a list of paths.
pub open spec fn path_list(v: Seq<Vec<u8>>) -> Seq<Seq<u8>> {
    v.map_values(|p: Vec<u8>| p@)
}

impl View for DirWalk {
    type V = DirWalkModel;

    open spec fn view(&self) -> DirWalkModel {
        DirWalkModel { at: self.at@, missing: path_list(self.missing@) }
    }
}

/// What the file system said.
#[derive(Debug, Clone, Copy, PartialEq, Eq)]
pub enum DirEvent {
    /// The path that was probed does not exist.
    Missing,
    /// The path that was probed exists.
    Exists,
    /// The path that was inspected looks like this.
    Looked { facts: DirFacts },
    /// The directory was made and its mode set.
    Created,
}

/// What to ask of the file system next.
#[derive(Debug, Clone, PartialEq, Eq)]
pub enum DirAction {
    /// Say whether this path exists.
    Probe { path: Vec<u8> },
    /// Say what this path looks like, links not followed.
    Inspect { path: Vec<u8> },
    /// Make this directory and give it this mode.
    Create { path: Vec<u8>, mode: u32 },
    /// Nothing more.
    Done,
    /// Stop with this refusal.
    Refuse { error: SecurityError },
}

/// An action as a mathematical value.
#[verifier::ext_equal]
pub enum DirActionModel {
    Probe { path: Seq<u8> },
    Inspect { path: Seq<u8> },
    Create { path: Seq<u8>, mode: u32 },
    Done,
    Refuse { error: SecurityErrorModel },
}

impl View for DirAction {
    type V = DirActionModel;

    open spec fn view(&self) -> DirActionModel {
        match self {
            DirAction::Probe { path } => DirActionModel::Probe { path: path@ },
            DirAction::Inspect { path } => DirActionModel::Inspect { path: path@ },
            DirAction::Create { path, mode } => DirActionModel::Create { path: path@, mode: *mode },
            DirAction::Done => DirActionModel::Done,
            DirAction::Refuse { error } => DirActionModel::Refuse { error: error@ },
        }
    }
}

/// Making the topmost of what is missing.
pub open spec fn make_next(missing: Seq<Seq<u8>>) -> DirActionModel {
    if missing.len() == 0 {
        DirActionModel::Done
    } else {
        DirActionModel::Create { path: missing.last(), mode: DIR_MODE }
    }
}

/// The directory above a path that is still a part of the path. Above the first component
/// of a relative path there is none.
pub open spec fn above(path: Seq<u8>) -> Option<Seq<u8>> {
    match parent_path(path) {
        Some(up) => if up.len() > 0 {
            Some(up)
        } else {
            None
        },
        None => None,
    }
}

/// Checking the directory at which the walk stands, unless it needs no check.
pub open spec fn check_next(w: DirWalkModel, xdg: Option<Seq<char>>) -> DirActionModel {
    if trusted_root(w.at, xdg) {
        make_next(w.missing)
    } else {
        DirActionModel::Inspect { path: w.at }
    }
}

/// Where the walk stands after an event, and what to do next.
pub open spec fn dir_step(
    w: DirWalkModel,
    xdg: Option<Seq<char>>,
    uid: u32,
    e: DirEvent,
) -> (DirWalkModel, DirActionModel) {
    match e {
        DirEvent::Missing => {
            let missing = w.missing.push(w.at);
            match parent_path(w.at) {
                Some(up) => (
                    DirWalkModel { at: up, missing },
                    DirActionModel::Probe { path: up },
                ),
                None => (DirWalkModel { at: w.at, missing }, make_next(missing)),
            }
        },
        DirEvent::Exists => (w, check_next(w, xdg)),
        DirEvent::Looked { facts } => match (dir_fault(w.at, facts, uid), above(w.at)) {
            (Some(error), _) => (w, DirActionModel::Refuse { error }),
            (None, Some(up)) => {
                let next = DirWalkModel { at: up, missing: w.missing };
                (next, check_next(next, xdg))
            },
            (None, None) => (w, make_next(w.missing)),
        },
        DirEvent::Created => {
            let missing = if w.missing.len() == 0 {
                w.missing
            } else {
                w.missing.drop_last()
            };
            (DirWalkModel { at: w.at, missing }, make_next(missing))
        },
    }
}

/// Each missing directory belongs into the one that follows it in the list.
pub open spec fn chained(missing: Seq<Seq<u8>>) -> bool {
    forall|i: int|
        0 <= i < missing.len() - 1 ==> parent_path(#[trigger] missing[i]) == Some(missing[i + 1])
}

impl DirWalk {
    /// Begins the walk; the first thing to do is to probe the path.
    pub fn start(path: &[u8]) -> (r: (DirWalk, DirAction))
        ensures
            r.0@ == (DirWalkModel { at: path@, missing: Seq::empty() }),
            r.1@ == (DirActionModel::Probe { path: path@ }),
    {
        let walk = DirWalk { at: slice_to_vec(path), missing: Vec::new() };
        proof {
            assert(path_list(walk.missing@) =~= Seq::empty());
        }
        (walk, DirAction::Probe { path: slice_to_vec(path) })
    }

    /// Goes on after an event, given the value of `XDG_RUNTIME_DIR` and the user's id.
    pub fn step(&mut self, xdg: Option<&str>, uid: u32, event: DirEvent) -> (a: DirAction)
        ensures
            (final(self)@, a@) == dir_step(old(self)@, opt_text(xdg), uid, event),
    {
        let ghost before = self@;
        match event {
            DirEvent::Missing => {
                let up = parent(self.at.as_slice());
                let here = slice_to_vec(self.at.as_slice());
                self.missing.push(here);
                proof {
                    assert(path_list(self.missing@) =~= before.missing.push(before.at));
                }
                match up {
                    Some(p) => {
                        self.at = slice_to_vec(p.as_slice());
                        DirAction::Probe { path: p }
                    },
                    None => self.make_next_dir(),
                }
            },
            DirEvent::Exists => self.check_next_dir(xdg),
            DirEvent::Looked { facts } => {
                match validate_dir(self.at.as_slice(), facts, uid) {
                    Ok(()) => {
                        match parent(self.at.as_slice()) {
                            Some(up) => {
                                if up.len() > 0 {
                                    self.at = up;
                                    self.check_next_dir(xdg)
                                } else {
                                    self.make_next_dir()
                                }
                            },
                            None => self.make_next_dir(),
                        }
                    },
                    Err(error) => DirAction::Refuse { error },
                }
            },
            DirEvent::Created => {
                if self.missing.len() > 0 {
                    self.missing.pop();
                    proof {
                        assert(path_list(self.missing@) =~= before.missing.drop_last());
                    }
                }
                self.make_next_dir()
            },
        }
    }

    fn check_next_dir(&self, xdg: Option<&str>) -> (a: DirAction)
        ensures
            a@ == check_next(self@, opt_text(xdg)),
    {
        if is_trusted_root(self.at.as_slice(), xdg) {
            self.make_next_dir()
        } else {
            DirAction::Inspect { path: slice_to_vec(self.at.as_slice()) }
        }
    }

    fn make_next_dir(&self) -> (a: DirAction)
        ensures
            a@ == make_next(self@.missing),
    {
        let n: usize = self.missing.len();
        if n == 0 {
            DirAction::Done
        } else {
            DirAction::Create { path: slice_to_vec(self.missing[n - 1].as_slice()), mode: DIR_MODE }
        }
    }
}

/// Where the walk stops climbing when `exists` are the paths that exist.
pub open spec fn climb(
    w: DirWalkModel,
    exists: Set<Seq<u8>>,
    xdg: Option<Seq<char>>,
    uid: u32,
) -> DirWalkModel
    decreases w.at.len(),
    via climb_decreases
{
    if exists.contains(w.at) {
        w
    } else {
        let (next, action) = dir_step(w, xdg, uid, DirEvent::Missing);
        if action is Probe {
            climb(next, exists, xdg, uid)
        } else {
            next
        }
    }
}

#[via_fn]
proof fn climb_decreases(
    w: DirWalkModel,
    exists: Set<Seq<u8>>,
    xdg: Option<Seq<char>>,
    uid: u32,
) {
    if parent_path(w.at) is Some {
        law_parent_is_shorter(w.at);
    }
}

/// The directories that the walk makes, in the order in which it makes them.
pub open spec fn made(w: DirWalkModel, xdg: Option<Seq<char>>, uid: u32) -> Seq<Seq<u8>>
    decreases w.missing.len(),
{
    match make_next(w.missing) {
        DirActionModel::Create { path, .. } => seq![path] + made(
            dir_step(w, xdg, uid, DirEvent::Created).0,
            xdg,
            uid,
        ),
        _ => Seq::empty(),
    }
}

/// What is true of a walk that has found `w.missing` missing on its way up to `w.at`.
pub open spec fn on_the_way(
    path: Seq<u8>,
    w: DirWalkModel,
    exists: Set<Seq<u8>>,
) -> bool {
    &&& chained(w.missing)
    &&& forall|i: int| 0 <= i < w.missing.len() ==> !exists.contains(#[trigger] w.missing[i])
    &&& w.missing.len() == 0 ==> w.at == path
    &&& w.missing.len() > 0 ==> w.missing[0] == path
}

proof fn lemma_climb(
    path: Seq<u8>,
    w: DirWalkModel,
    exists: Set<Seq<u8>>,
    xdg: Option<Seq<char>>,
    uid: u32,
)
    requires
        on_the_way(path, w, exists),
        w.missing.len() > 0 ==> parent_path(w.missing.last()) == Some(w.at),
    ensures
        ({
            let top = climb(w, exists, xdg, uid);
            &&& on_the_way(path, top, exists)
            &&& exists.contains(top.at) && top.missing.len() > 0 ==> parent_path(
                top.missing.last(),
            ) == Some(top.at)
            &&& !exists.contains(top.at) ==> top.missing.len() > 0 && parent_path(
                top.missing.last(),
            ) is None
        }),
    decreases w.at.len(),
{
    if !exists.contains(w.at) {
        let missing = w.missing.push(w.at);
        assert forall|i: int| 0 <= i < missing.len() - 1 implies parent_path(
            #[trigger] missing[i],
        ) == Some(missing[i + 1]) by {
            if i < w.missing.len() - 1 {
                assert(parent_path(w.missing[i]) == Some(w.missing[i + 1]));
            }
        }
        assert forall|i: int| 0 <= i < missing.len() implies !exists.contains(
            #[trigger] missing[i],
        ) by {
            if i < w.missing.len() {
                assert(!exists.contains(w.missing[i]));
            }
        }
        let next = dir_step(w, xdg, uid, DirEvent::Missing).0;
        if parent_path(w.at) is Some {
            law_parent_is_shorter(w.at);
            lemma_climb(path, next, exists, xdg, uid);
        }
    }
}

proof fn lemma_made(w: DirWalkModel, xdg: Option<Seq<char>>, uid: u32)
    ensures
        made(w, xdg, uid) == w.missing.reverse(),
    decreases w.missing.len(),
{
    if w.missing.len() > 0 {
        let next = dir_step(w, xdg, uid, DirEvent::Created).0;
        lemma_made(next, xdg, uid);
        assert(made(w, xdg, uid) =~= w.missing.reverse());
    } else {
        assert(w.missing.reverse() =~= Seq::empty());
    }
}

/// The directories to check from `path` upwards: each one that is a part of the path, up
/// to the first that needs no check.
pub open spec fn to_check(path: Seq<u8>, xdg: Option<Seq<char>>) -> Seq<Seq<u8>>
    decreases path.len(),
    via to_check_decreases
{
    if trusted_root(path, xdg) {
        Seq::empty()
    } else {
        match above(path) {
            Some(up) => seq![path] + to_check(up, xdg),
            None => seq![path],
        }
    }
}

#[via_fn]
proof fn to_check_decreases(path: Seq<u8>, xdg: Option<Seq<char>>) {
    if parent_path(path) is Some {
        law_parent_is_shorter(path);
    }
}

/// Nothing speaks against any of these directories; `facts` is what they look like.
pub open spec fn sound(paths: Seq<Seq<u8>>, facts: Map<Seq<u8>, DirFacts>, uid: u32) -> bool {
    forall|i: int|
        0 <= i < paths.len() ==> dir_fault(#[trigger] paths[i], facts[paths[i]], uid) is None
}

/// What speaks against the first of these directories that something speaks against.
pub open spec fn first_fault(
    paths: Seq<Seq<u8>>,
    facts: Map<Seq<u8>, DirFacts>,
    uid: u32,
) -> Option<SecurityErrorModel>
    decreases paths.len(),
{
    if paths.len() == 0 {
        None
    } else {
        match dir_fault(paths[0], facts[paths[0]], uid) {
            Some(e) => Some(e),
            None => first_fault(paths.skip(1), facts, uid),
        }
    }
}

/// Where the checks end that begin at `w.at`, and what is to be done then.
pub open spec fn check_up(
    w: DirWalkModel,
    facts: Map<Seq<u8>, DirFacts>,
    xdg: Option<Seq<char>>,
    uid: u32,
) -> (DirWalkModel, DirActionModel)
    decreases w.at.len(),
    via check_up_decreases
{
    let (next, action) = dir_step(w, xdg, uid, DirEvent::Looked { facts: facts[w.at] });
    if action is Inspect {
        check_up(next, facts, xdg, uid)
    } else {
        (next, action)
    }
}

#[via_fn]
proof fn check_up_decreases(
    w: DirWalkModel,
    facts: Map<Seq<u8>, DirFacts>,
    xdg: Option<Seq<char>>,
    uid: u32,
) {
    if parent_path(w.at) is Some {
        law_parent_is_shorter(w.at);
    }
}

/// The walk from `path` up to the point where it knows what is missing and has checked
/// what exists: where it stands then, and whether it refuses, is done, or begins to make
/// directories. `exists` are the paths that exist, and `facts` is what they look like.
pub open spec fn settle(
    path: Seq<u8>,
    exists: Set<Seq<u8>>,
    facts: Map<Seq<u8>, DirFacts>,
    xdg: Option<Seq<char>>,
    uid: u32,
) -> (DirWalkModel, DirActionModel) {
    let top = climb(DirWalkModel { at: path, missing: Seq::empty() }, exists, xdg, uid);
    if !exists.contains(top.at) {
        (top, make_next(top.missing))
    } else {
        let (w, action) = dir_step(top, xdg, uid, DirEvent::Exists);
        if action is Inspect {
            check_up(w, facts, xdg, uid)
        } else {
            (w, action)
        }
    }
}

proof fn lemma_first_fault(paths: Seq<Seq<u8>>, facts: Map<Seq<u8>, DirFacts>, uid: u32)
    ensures
        first_fault(paths, facts, uid) is None <==> sound(paths, facts, uid),
    decreases paths.len(),
{
    if paths.len() > 0 {
        let rest = paths.skip(1);
        lemma_first_fault(rest, facts, uid);
        if sound(paths, facts, uid) {
            assert forall|i: int| 0 <= i < rest.len() implies dir_fault(
                #[trigger] rest[i],
                facts[rest[i]],
                uid,
            ) is None by {
                assert(rest[i] == paths[i + 1]);
            }
            assert(dir_fault(paths[0], facts[paths[0]], uid) is None);
        } else {
            let i = choose|i: int|
                0 <= i < paths.len() && dir_fault(
                    #[trigger] paths[i],
                    facts[paths[i]],
                    uid,
                ) is Some;
            if i > 0 {
                assert(rest[i - 1] == paths[i]);
            }
        }
    }
}

proof fn lemma_check_up(
    w: DirWalkModel,
    facts: Map<Seq<u8>, DirFacts>,
    xdg: Option<Seq<char>>,
    uid: u32,
)
    requires
        !trusted_root(w.at, xdg),
    ensures
        check_up(w, facts, xdg, uid).0.missing == w.missing,
        check_up(w, facts, xdg, uid).1 == match first_fault(to_check(w.at, xdg), facts, uid) {
            Some(error) => DirActionModel::Refuse { error },
            None => make_next(w.missing),
        },
    decreases w.at.len(),
{
    let paths = to_check(w.at, xdg);
    assert(paths[0] == w.at);
    if dir_fault(w.at, facts[w.at], uid) is None {
        match above(w.at) {
            Some(up) => {
                law_parent_is_shorter(w.at);
                assert(paths.skip(1) =~= to_check(up, xdg));
                let next = DirWalkModel { at: up, missing: w.missing };
                if !trusted_root(up, xdg) {
                    lemma_check_up(next, facts, xdg, uid);
                } else {
                    assert(first_fault(to_check(up, xdg), facts, uid) is None);
                }
            },
            None => {
                assert(paths.skip(1) =~= Seq::empty());
                assert(first_fault(paths.skip(1), facts, uid) is None);
            },
        }
    }
}

/// The directories to check begin with the path, each is followed by the one above it, and
/// they end only where nothing is above any more or a directory that needs no check is.
pub proof fn law_all_components_are_checked(path: Seq<u8>, xdg: Option<Seq<char>>)
    ensures
        to_check(path, xdg).len() == 0 <==> trusted_root(path, xdg),
        to_check(path, xdg).len() > 0 ==> to_check(path, xdg)[0] == path,
        forall|i: int|
            0 <= i < to_check(path, xdg).len() ==> !trusted_root(
                #[trigger] to_check(path, xdg)[i],
                xdg,
            ),
        forall|i: int|
            0 <= i < to_check(path, xdg).len() - 1 ==> above(#[trigger] to_check(path, xdg)[i])
                == Some(to_check(path, xdg)[i + 1]),
        to_check(path, xdg).len() > 0 ==> match above(to_check(path, xdg).last()) {
            Some(up) => trusted_root(up, xdg),
            None => true,
        },
    decreases path.len(),
{
    if !trusted_root(path, xdg) {
        if let Some(up) = above(path) {
            law_parent_is_shorter(path);
            law_all_components_are_checked(up, xdg);
            let rest = to_check(up, xdg);
            let all = to_check(path, xdg);
            assert forall|i: int| 0 <= i < all.len() implies !trusted_root(
                #[trigger] all[i],
                xdg,
            ) by {
                if i > 0 {
                    assert(all[i] == rest[i - 1]);
                }
            }
            assert forall|i: int| 0 <= i < all.len() - 1 implies above(#[trigger] all[i]) == Some(
                all[i + 1],
            ) by {
                if i > 0 {
                    assert(all[i] == rest[i - 1]);
                    assert(all[i + 1] == rest[i]);
                }
            }
            if rest.len() > 0 {
                assert(all.last() == rest.last());
            }
        }
    }
}

/// The walk makes exactly the directories that are missing between the path and the
/// nearest one above it that exists, each inside the one before it, and leaves alone what
/// exists. From the one that exists upwards every directory is checked, up to the first
/// that needs no check. The first fault ends the walk with nothing made; without a fault
/// the walk goes on.
pub proof fn law_directories_are_made_safely(
    path: Seq<u8>,
    exists: Set<Seq<u8>>,
    facts: Map<Seq<u8>, DirFacts>,
    xdg: Option<Seq<char>>,
    uid: u32,
)
    ensures
        ({
            let top = climb(DirWalkModel { at: path, missing: Seq::empty() }, exists, xdg, uid);
            let (w, action) = settle(path, exists, facts, xdg, uid);
            let checked = if exists.contains(top.at) {
                to_check(top.at, xdg)
            } else {
                Seq::empty()
            };
            let order = made(w, xdg, uid);
            &&& on_the_way(path, top, exists)
            &&& action == match first_fault(checked, facts, uid) {
                Some(error) => DirActionModel::Refuse { error },
                None => make_next(top.missing),
            }
            &&& action is Refuse <==> !sound(checked, facts, uid)
            &&& order == top.missing.reverse()
            &&& exists.contains(top.at) && order.len() > 0 ==> parent_path(order[0]) == Some(
                top.at,
            )
            &&& forall|i: int|
                0 < i < order.len() ==> parent_path(#[trigger] order[i]) == Some(order[i - 1])
            &&& forall|i: int| 0 <= i < order.len() ==> !exists.contains(#[trigger] order[i])
            &&& !exists.contains(path) ==> order.len() > 0 && order.last() == path
            &&& exists.contains(path) ==> order.len() == 0 && top.at == path
        }),
{
    let start = DirWalkModel { at: path, missing: Seq::empty() };
    lemma_climb(path, start, exists, xdg, uid);
    let top = climb(start, exists, xdg, uid);
    let (w, action) = settle(path, exists, facts, xdg, uid);
    lemma_first_fault(to_check(top.at, xdg), facts, uid);
    lemma_first_fault(Seq::empty(), facts, uid);
    if exists.contains(top.at) && !trusted_root(top.at, xdg) {
        lemma_check_up(top, facts, xdg, uid);
    }
    lemma_made(w, xdg, uid);
    let order = made(w, xdg, uid);
    assert forall|i: int| 0 < i < order.len() implies parent_path(#[trigger] order[i]) == Some(
        order[i - 1],
    ) by {
        let k = top.missing.len() - 1 - i;
        assert(order[i] == top.missing[k]);
        assert(order[i - 1] == top.missing[k + 1]);
    }
    assert forall|i: int| 0 <= i < order.len() implies !exists.contains(#[trigger] order[i]) by {
        assert(order[i] == top.missing[top.missing.len() - 1 - i]);
    }
    if !exists.contains(path) {
        assert(top.missing.len() > 0);
        assert(order.last() == top.missing[0]);
    }
}

/// Whatever the walk makes is for the owner only.
pub proof fn law_made_directories_are_private(
    w: DirWalkModel,
    xdg: Option<Seq<char>>,
    uid: u32,
    e: DirEvent,
)
    ensures
        dir_step(w, xdg, uid, e).1 matches DirActionModel::Create { mode, .. } ==> mode == 0o700,
{
}

/// How a directory looks that the user has just made.
pub open spec fn own_dir(uid: u32) -> DirFacts {
    DirFacts { is_symlink: false, is_dir: true, uid }
}

/// The directories to check from a missing one upwards are sound once it and the other
/// missing ones have been made, if those above them are.
proof fn lemma_made_are_sound(
    missing: Seq<Seq<u8>>,
    i: int,
    top: Option<Seq<u8>>,
    facts: Map<Seq<u8>, DirFacts>,
    xdg: Option<Seq<char>>,
    uid: u32,
)
    requires
        0 <= i < missing.len(),
        chained(missing),
        parent_path(missing.last()) == top,
        forall|k: int| 0 <= k < missing.len() ==> facts[#[trigger] missing[k]] == own_dir(uid),
        top matches Some(up) ==> sound(to_check(up, xdg), facts, uid),
    ensures
        sound(to_check(missing[i], xdg), facts, uid),
    decreases missing.len() - i,
{
    let here = missing[i];
    let all = to_check(here, xdg);
    assert(facts[here] == own_dir(uid));
    if !trusted_root(here, xdg) {
        if let Some(up) = above(here) {
            law_parent_is_shorter(here);
            if i < missing.len() - 1 {
                assert(parent_path(missing[i]) == Some(missing[i + 1]));
                lemma_made_are_sound(missing, i + 1, top, facts, xdg, uid);
            }
            let rest = to_check(up, xdg);
            assert(sound(rest, facts, uid));
            assert forall|k: int| 0 <= k < all.len() implies dir_fault(
                #[trigger] all[k],
                facts[all[k]],
                uid,
            ) is None by {
                if k > 0 {
                    assert(all[k] == rest[k - 1]);
                }
            }
        }
    }
}

/// Walking the same path a second time finds everything in place: the walk is done and
/// makes nothing. `later` are the paths that exist and `looks` is what they look like once
/// the first walk has made what was missing.
pub proof fn law_second_walk_makes_nothing(
    path: Seq<u8>,
    exists: Set<Seq<u8>>,
    facts: Map<Seq<u8>, DirFacts>,
    later: Set<Seq<u8>>,
    looks: Map<Seq<u8>, DirFacts>,
    xdg: Option<Seq<char>>,
    uid: u32,
)
    requires
        !(settle(path, exists, facts, xdg, uid).1 is Refuse),
        ({
            let order = made(settle(path, exists, facts, xdg, uid).0, xdg, uid);
            &&& forall|p: Seq<u8>| #[trigger]
                later.contains(p) <==> exists.contains(p) || order.contains(p)
            &&& forall|p: Seq<u8>| order.contains(p) ==> #[trigger] looks[p] == own_dir(uid)
            &&& forall|p: Seq<u8>| !order.contains(p) ==> #[trigger] looks[p] == facts[p]
        }),
    ensures
        settle(path, later, looks, xdg, uid).1 == DirActionModel::Done,
        made(settle(path, later, looks, xdg, uid).0, xdg, uid) == Seq::<Seq<u8>>::empty(),
{
    let start = DirWalkModel { at: path, missing: Seq::empty() };
    let top = climb(start, exists, xdg, uid);
    let missing = top.missing;
    let order = made(settle(path, exists, facts, xdg, uid).0, xdg, uid);
    law_directories_are_made_safely(path, exists, facts, xdg, uid);
    lemma_climb(path, start, exists, xdg, uid);
    if !exists.contains(path) {
        assert(order.contains(order.last()));
    }
    assert(later.contains(path));
    assert(climb(start, later, xdg, uid) == start);
    if exists.contains(top.at) {
        let checked = to_check(top.at, xdg);
        assert forall|k: int| 0 <= k < checked.len() implies dir_fault(
            #[trigger] checked[k],
            looks[checked[k]],
            uid,
        ) is None by {
            assert(dir_fault(checked[k], facts[checked[k]], uid) is None);
            if order.contains(checked[k]) {
                assert(looks[checked[k]] == own_dir(uid));
            } else {
                assert(looks[checked[k]] == facts[checked[k]]);
            }
        }
        assert(sound(checked, looks, uid));
    }
    if missing.len() > 0 {
        assert forall|k: int| 0 <= k < missing.len() implies looks[#[trigger] missing[k]]
            == own_dir(uid) by {
            assert(order[missing.len() - 1 - k] == missing[k]);
            assert(order.contains(missing[k]));
        }
        let up = parent_path(missing.last());
        lemma_made_are_sound(missing, 0, up, looks, xdg, uid);
    }
    assert(sound(to_check(path, xdg), looks, uid));
    lemma_first_fault(to_check(path, xdg), looks, uid);
    if !trusted_root(path, xdg) {
        lemma_check_up(start, looks, xdg, uid);
    }
    lemma_made(settle(path, later, looks, xdg, uid).0, xdg, uid);
    assert(Seq::<Seq<u8>>::empty().reverse() =~= Seq::<Seq<u8>>::empty());
}

// ---------------------------------------------------------------------------
// Sockets
// ---------------------------------------------------------------------------

/// Binding a listening socket. A socket that was left behind is removed, one that is
/// alive is not.
#[derive(Debug, Clone, Copy, PartialEq, Eq, Structural)]
pub struct Binding {
    /// A stale socket was removed already.
    pub cleared: bool,
}

/// What the system said.
#[derive(Debug, Clone, Copy, PartialEq, Eq, Structural)]
pub enum BindEvent {
    /// The socket was bound.
    Bound,
    /// The socket could not be bound; `in_use` says whether its address is in use.
    BindFailed { in_use: bool },
    /// A connection to the socket that is there was tried.
    Probed { answered: bool },
    /// The socket that is there was to be removed.
    Removed { ok: bool },
    /// The mode of the socket was to be set.
    ModeSet { ok: bool },
}

/// What to ask of the system next.
#[derive(Debug, Clone, Copy, PartialEq, Eq, Structural)]
pub enum BindAction {
    /// Bind the socket.
    Bind,
    /// Try to connect to the socket that is there.
    Probe,
    /// Remove the socket that is there.
    Remove,
    /// Set the mode of the socket.
    SetMode { mode: u32 },
    /// The socket is ready.
    Done,
    /// Stop: the socket is in use.
    RefuseInUse,
    /// Stop with the system's own error.
    Fail,
}

/// Where binding stands after an event, and what to do next.
pub open spec fn bind_step(b: Binding, e: BindEvent) -> (Binding, BindAction) {
    match e {
        BindEvent::Bound => (b, BindAction::SetMode { mode: SOCKET_MODE }),
        BindEvent::BindFailed { in_use } => if in_use && !b.cleared {
            (b, BindAction::Probe)
        } else {
            (b, BindAction::Fail)
        },
        BindEvent::Probed { answered } => if answered {
            (b, BindAction::RefuseInUse)
        } else {
            (b, BindAction::Remove)
        },
        BindEvent::Removed { ok } => if ok {
            (Binding { cleared: true }, BindAction::Bind)
        } else {
            (b, BindAction::Fail)
        },
        BindEvent::ModeSet { ok } => if ok {
            (b, BindAction::Done)
        } else {
            (b, BindAction::Fail)
        },
    }
}

impl Binding {
    /// Begins; the first thing to do is to bind.
    pub fn start() -> (r: (Binding, BindAction))
        ensures
            r == (Binding { cleared: false }, BindAction::Bind),
    {
        (Binding { cleared: false }, BindAction::Bind)
    }

    /// Goes on after an event.
    pub fn step(&mut self, event: BindEvent) -> (a: BindAction)
        ensures
            (*final(self), a) == bind_step(*old(self), event),
    {
        match event {
            BindEvent::Bound => BindAction::SetMode { mode: SOCKET_MODE },
            BindEvent::BindFailed { in_use } => {
                if in_use && !self.cleared {
                    BindAction::Probe
                } else {
                    BindAction::Fail
                }
            },
            BindEvent::Probed { answered } => {
                if answered {
                    BindAction::RefuseInUse
                } else {
                    BindAction::Remove
                }
            },
            BindEvent::Removed { ok } => {
                if ok {
                    self.cleared = true;
                    BindAction::Bind
                } else {
                    BindAction::Fail
                }
            },
            BindEvent::ModeSet { ok } => {
                if ok {
                    BindAction::Done
                } else {
                    BindAction::Fail
                }
            },
        }
    }
}

/// The refusal of a socket that is in use.
pub fn in_use_error(path: &[u8]) -> (e: SecurityError)
    ensures
        e@ == (SecurityErrorModel::InUse { path: path@ }),
{
    SecurityError::InUse { path: slice_to_vec(path) }
}

/// A socket is removed only after a connection to it was tried and not answered, and one
/// that answers is refused.
pub proof fn law_live_socket_is_kept(b: Binding, e: BindEvent)
    ensures
        bind_step(b, e).1 == BindAction::Remove ==> e == (BindEvent::Probed { answered: false }),
        bind_step(b, e).1 == BindAction::RefuseInUse <==> e == (BindEvent::Probed {
            answered: true,
        }),
        bind_step(b, e).1 == BindAction::Probe ==> !b.cleared,
{
}

/// No socket is handed out before its mode has been set to keep others out.
pub proof fn law_socket_is_private(b: Binding, e: BindEvent)
    ensures
        bind_step(b, e).1 == BindAction::Done <==> e == (BindEvent::ModeSet { ok: true }),
        e == BindEvent::Bound ==> bind_step(b, e).1 == (BindAction::SetMode { mode: 0o600 }),
{
}

} // verus!
