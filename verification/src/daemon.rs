//! The daemon: the table of sessions and what a control request does to it.

use std::collections::HashMap;

use vstd::prelude::*;
use vstd::slice::slice_to_vec;
use vstd::std_specs::iter::IteratorSpec;
use vstd::utf8::encode_utf8;

use crate::paths::{join_path, joined_path, sibling, with_file_name};
use crate::protocol::{entries, EntryModel, Frame, FrameModel, SessionEntry};
use crate::server::{MetadataModel, SessionMetadata};
use crate::text::{chars_of, decimal, decimal_text, joined, number, parse_number, same_text};

verus! {

broadcast use vstd::std_specs::hash::group_hash_axioms;

/// What the daemon knows of one session.
#[derive(Debug, Clone, PartialEq, Eq)]
pub struct SessionState {
    /// The name that the session was given, if any.
    pub name: Option<String>,
    /// What is known of the shell, once it runs.
    pub metadata: Option<SessionMetadata>,
    /// The session has ended.
    pub finished: bool,
    /// The session takes no more clients.
    pub closed: bool,
}

/// The state of a session as a mathematical value.
#[verifier::ext_equal]
pub struct SessionModel {
    pub name: Option<Seq<char>>,
    pub metadata: Option<MetadataModel>,
    pub finished: bool,
    pub closed: bool,
}

impl View for SessionState {
    type V = SessionModel;

    open spec fn view(&self) -> SessionModel {
        SessionModel {
            name: match self.name {
                Some(n) => Some(n@),
                None => None,
            },
            metadata: match self.metadata {
                Some(m) => Some(m@),
                None => None,
            },
            finished: self.finished,
            closed: self.closed,
        }
    }
}

/// The table of sessions as a mathematical value.
pub open spec fn table(m: Map<u32, SessionState>) -> Map<u32, SessionModel> {
    m.map_values(|s: SessionState| s@)
}

/// The table without the sessions that have ended.
pub open spec fn reaped(t: Map<u32, SessionModel>) -> Map<u32, SessionModel> {
    t.remove_keys(t.dom().filter(|id: u32| t[id].finished))
}

/// Each id is larger than the one before.
pub open spec fn ascending(ids: Seq<u32>) -> bool {
    forall|i: int, j: int| 0 <= i < j < ids.len() ==> ids[i] < ids[j]
}

/// `ids` lists the sessions of the table, each once, in ascending order.
pub open spec fn listing(t: Map<u32, SessionModel>, ids: Seq<u32>) -> bool {
    &&& ascending(ids)
    &&& forall|id: u32| ids.contains(id) <==> #[trigger] t.contains_key(id)
}

/// The ids below `n` of the sessions in the table, in ascending order.
pub open spec fn ids_below(t: Map<u32, SessionModel>, n: nat) -> Seq<u32>
    decreases n,
{
    if n == 0 {
        Seq::empty()
    } else {
        let before = ids_below(t, (n - 1) as nat);
        let id = (n - 1) as u32;
        if t.contains_key(id) {
            before.push(id)
        } else {
            before
        }
    }
}

/// The ids of the sessions in the table, in ascending order.
pub open spec fn ids_of(t: Map<u32, SessionModel>) -> Seq<u32> {
    ids_below(t, 0x1_0000_0000)
}

proof fn lemma_ids_below(t: Map<u32, SessionModel>, n: nat)
    requires
        n <= 0x1_0000_0000,
    ensures
        ascending(ids_below(t, n)),
        forall|id: u32| ids_below(t, n).contains(id) <==> #[trigger] t.contains_key(id) && id < n,
    decreases n,
{
    if n > 0 {
        let before = ids_below(t, (n - 1) as nat);
        let now = ids_below(t, n);
        let last = (n - 1) as u32;
        lemma_ids_below(t, (n - 1) as nat);
        assert forall|i: int| 0 <= i < before.len() implies before[i] < last by {
            assert(before.contains(before[i]));
            assert(t.contains_key(before[i]));
        }
        assert forall|id: u32| now.contains(id) <==> #[trigger] t.contains_key(id) && id < n by {
            if t.contains_key(last) {
                assert(now[before.len() as int] == last);
            }
            if before.contains(id) {
                let k = choose|k: int| 0 <= k < before.len() && before[k] == id;
                assert(now[k] == id);
            }
            if now.contains(id) && id != last {
                let k = choose|k: int| 0 <= k < now.len() && now[k] == id;
                assert(before[k] == id);
            }
        }
    }
}

/// The ids of a table list it.
pub proof fn lemma_ids_of(t: Map<u32, SessionModel>)
    ensures
        listing(t, ids_of(t)),
{
    lemma_ids_below(t, 0x1_0000_0000);
}

/// Two ascending sequences with the same members are the same.
proof fn lemma_ascending_unique(a: Seq<u32>, b: Seq<u32>)
    requires
        ascending(a),
        ascending(b),
        forall|id: u32| a.contains(id) <==> b.contains(id),
    ensures
        a == b,
    decreases a.len(),
{
    if a.len() == 0 {
        if b.len() > 0 {
            assert(b.contains(b[0]));
        }
        assert(a =~= b);
    } else {
        assert(a.contains(a.last()));
        let j = choose|j: int| 0 <= j < b.len() && b[j] == a.last();
        assert(b.contains(b.last()));
        let i = choose|i: int| 0 <= i < a.len() && a[i] == b.last();
        assert(a.last() == b.last());
        let c = a.drop_last();
        let d = b.drop_last();
        assert forall|id: u32| c.contains(id) <==> d.contains(id) by {
            if c.contains(id) {
                let k = choose|k: int| 0 <= k < c.len() && c[k] == id;
                assert(a[k] == id);
                assert(a.contains(id));
                let m = choose|m: int| 0 <= m < b.len() && b[m] == id;
                assert(d[m] == id);
            }
            if d.contains(id) {
                let k = choose|k: int| 0 <= k < d.len() && d[k] == id;
                assert(b[k] == id);
                assert(b.contains(id));
                let m = choose|m: int| 0 <= m < a.len() && a[m] == id;
                assert(c[m] == id);
            }
        }
        lemma_ascending_unique(c, d);
        assert(a =~= c.push(a.last()));
        assert(b =~= d.push(b.last()));
    }
}

/// There is only one way to list a table.
pub proof fn lemma_listing_unique(t: Map<u32, SessionModel>, ids: Seq<u32>)
    requires
        listing(t, ids),
    ensures
        ids_of(t) == ids,
{
    let other = ids_of(t);
    lemma_ids_of(t);
    assert forall|id: u32| ids.contains(id) <==> other.contains(id) by {
        assert(ids.contains(id) <==> t.contains_key(id));
        assert(other.contains(id) <==> t.contains_key(id));
    }
    lemma_ascending_unique(other, ids);
}

/// Puts a new id in its place among ascending ids.
fn insert_ascending(ids: &mut Vec<u32>, id: u32)
    requires
        ascending(old(ids)@),
        !old(ids)@.contains(id),
    ensures
        ascending(final(ids)@),
        forall|x: u32| final(ids)@.contains(x) <==> old(ids)@.contains(x) || x == id,
{
    let mut i: usize = 0;
    while i < ids.len() && ids[i] < id
        invariant
            i <= ids@.len(),
            forall|k: int| 0 <= k < i ==> ids@[k] < id,
        decreases ids@.len() - i,
    {
        i = i + 1;
    }
    let ghost before = ids@;
    proof {
        assert forall|k: int| i <= k < before.len() implies id < before[k] by {
            assert(before.contains(before[k]));
            if k > i {
                assert(before[i as int] < before[k]);
            }
            assert(before.contains(before[i as int]));
        }
    }
    ids.insert(i, id);
    proof {
        let after = ids@;
        assert(after =~= before.insert(i as int, id));
        assert forall|x: u32| after.contains(x) <==> before.contains(x) || x == id by {
            if after.contains(x) {
                let k = choose|k: int| 0 <= k < after.len() && after[k] == x;
                if k < i {
                    assert(before[k] == x);
                } else if k > i {
                    assert(before[k - 1] == x);
                }
            }
            if before.contains(x) {
                let k = choose|k: int| 0 <= k < before.len() && before[k] == x;
                if k < i {
                    assert(after[k] == x);
                } else {
                    assert(after[k + 1] == x);
                }
            }
            assert(after[i as int] == id);
        }
    }
}

/// The ids of the sessions in the table, in ascending order.
fn session_ids(sessions: &HashMap<u32, SessionState>) -> (ids: Vec<u32>)
    ensures
        listing(table(sessions@), ids@),
        ids@ == ids_of(table(sessions@)),
{
    let mut ids: Vec<u32> = Vec::new();
    for id in it: sessions.keys()
        invariant
            it.seq() == sessions.keys().remaining(),
            it.seq().no_duplicates(),
            it.seq().unref().to_set() == sessions@.dom(),
            ascending(ids@),
            forall|x: u32|
                ids@.contains(x) <==> exists|k: int|
                    0 <= k < it.index() && *(#[trigger] it.seq()[k]) == x,
    {
        let ghost n = it.index();
        let ghost before = ids@;
        proof {
            assert(*it.seq()[n] == *id);
            if before.contains(*id) {
                let k = choose|k: int| 0 <= k < n && *(#[trigger] it.seq()[k]) == *id;
                assert(it.seq()[k] == it.seq()[n]);
            }
        }
        insert_ascending(&mut ids, *id);
        proof {
            assert forall|x: u32|
                ids@.contains(x) <==> exists|k: int|
                    0 <= k < n + 1 && *(#[trigger] it.seq()[k]) == x by {
                if ids@.contains(x) {
                    if before.contains(x) {
                        let k = choose|k: int| 0 <= k < n && *(#[trigger] it.seq()[k]) == x;
                        assert(*it.seq()[k] == x);
                    } else {
                        assert(*it.seq()[n] == x);
                    }
                }
            }
        }
    }
    proof {
        let keys = sessions.keys().remaining();
        assert forall|id: u32| ids@.contains(id) <==> #[trigger] table(sessions@).contains_key(
            id,
        ) by {
            assert(keys.unref().to_set().contains(id) <==> sessions@.contains_key(id));
            if sessions@.contains_key(id) {
                let k = choose|k: int| 0 <= k < keys.unref().len() && keys.unref()[k] == id;
                assert(*keys[k] == id);
            }
            if ids@.contains(id) {
                let k = choose|k: int| 0 <= k < keys.len() && *(#[trigger] keys[k]) == id;
                assert(keys.unref()[k] == id);
            }
        }
        lemma_listing_unique(table(sessions@), ids@);
    }
    ids
}

/// Drops the sessions that have ended.
pub fn reap_sessions(sessions: &mut HashMap<u32, SessionState>)
    ensures
        table(final(sessions)@) == reaped(table(old(sessions)@)),
{
    let ids = session_ids(sessions);
    let ghost before = sessions@;
    let mut i: usize = 0;
    while i < ids.len()
        invariant
            i <= ids@.len(),
            listing(table(before), ids@),
            forall|id: u32| #[trigger]
                sessions@.contains_key(id) <==> before.contains_key(id) && !(before[id].finished
                    && ids@.take(i as int).contains(id)),
            forall|id: u32| #[trigger]
                sessions@.contains_key(id) ==> sessions@[id] == before[id],
        decreases ids@.len() - i,
    {
        let id: u32 = ids[i];
        let ghost now = sessions@;
        proof {
            assert(ids@.contains(id));
            assert(table(before).contains_key(id));
            assert(ids@.take(i + 1) =~= ids@.take(i as int).push(id));
            assert forall|x: u32| #[trigger] ids@.take(i + 1).contains(x) <==> ids@.take(
                i as int,
            ).contains(x) || x == id by {
                let part = ids@.take(i as int);
                if part.contains(x) {
                    let k = choose|k: int| 0 <= k < part.len() && part[k] == x;
                    assert(part.push(id)[k] == x);
                }
                assert(part.push(id)[part.len() as int] == id);
                if part.push(id).contains(x) && x != id {
                    let k = choose|k: int| 0 <= k < part.push(id).len() && part.push(id)[k] == x;
                    assert(part[k] == x);
                }
            }
        }
        let ended = match sessions.get(&id) {
            Some(state) => state.finished,
            None => false,
        };
        if ended {
            sessions.remove(&id);
        }
        i = i + 1;
    }
    proof {
        assert(ids@.take(ids@.len() as int) =~= ids@);
        assert forall|id: u32| before.contains_key(id) implies ids@.contains(id) by {
            assert(table(before).contains_key(id));
        }
        assert(table(sessions@) =~= reaped(table(before)));
    }
}

/// The session `id` has the name `target`.
pub open spec fn named(t: Map<u32, SessionModel>, id: u32, target: Seq<char>) -> bool {
    t.contains_key(id) && t[id].name == Some(target)
}

/// Some session has the name `target`.
pub open spec fn name_taken(t: Map<u32, SessionModel>, target: Seq<char>) -> bool {
    exists|id: u32| #[trigger] named(t, id, target)
}

/// The session that `target` gives the id of.
pub open spec fn by_id(t: Map<u32, SessionModel>, target: Seq<char>) -> Option<u32> {
    match number(target, u32::MAX as nat) {
        Some(n) => if t.contains_key(n as u32) {
            Some(n as u32)
        } else {
            None
        },
        None => None,
    }
}

/// The session that `target` stands for: the one with that name, else the one with that
/// id.
pub open spec fn resolve(t: Map<u32, SessionModel>, target: Seq<char>) -> Option<u32> {
    if name_taken(t, target) {
        Some(choose|id: u32| #[trigger] named(t, id, target))
    } else {
        by_id(t, target)
    }
}

/// No two sessions share a name.
pub open spec fn names_unique(t: Map<u32, SessionModel>) -> bool {
    forall|a: u32, b: u32|
        #![trigger t.contains_key(a), t.contains_key(b)]
        t.contains_key(a) && t.contains_key(b) && t[a].name is Some && t[a].name == t[b].name
            ==> a == b
}

fn has_name(state: &SessionState, target: &str) -> (r: bool)
    ensures
        r == (state@.name == Some(target@)),
{
    match &state.name {
        Some(n) => same_text(n.as_str(), target),
        None => false,
    }
}

/// The session with the given name; the one with the lowest id, should there be several.
fn find_name(sessions: &HashMap<u32, SessionState>, target: &str) -> (r: Option<u32>)
    ensures
        match r {
            Some(id) => named(table(sessions@), id, target@),
            None => !name_taken(table(sessions@), target@),
        },
{
    let ids = session_ids(sessions);
    let ghost t = table(sessions@);
    let mut i: usize = 0;
    while i < ids.len()
        invariant
            i <= ids@.len(),
            t == table(sessions@),
            listing(t, ids@),
            forall|k: int| 0 <= k < i ==> !named(t, #[trigger] ids@[k], target@),
        decreases ids@.len() - i,
    {
        let id: u32 = ids[i];
        proof {
            assert(ids@.contains(id));
            assert(t.contains_key(id));
        }
        match sessions.get(&id) {
            Some(state) => {
                if has_name(state, target) {
                    return Some(id);
                }
            },
            None => {},
        }
        i = i + 1;
    }
    proof {
        assert forall|id: u32| !#[trigger] named(t, id, target@) by {
            if t.contains_key(id) {
                assert(ids@.contains(id));
                let k = choose|k: int| 0 <= k < ids@.len() && ids@[k] == id;
                assert(!named(t, ids@[k], target@));
            }
        }
    }
    None
}

/// The session that `target` stands for: the one with that name, else the one with that
/// id. Names count first.
pub fn resolve_session(sessions: &HashMap<u32, SessionState>, target: &str) -> (r: Option<u32>)
    ensures
        name_taken(table(sessions@), target@) ==> r is Some && named(
            table(sessions@),
            r->0,
            target@,
        ),
        !name_taken(table(sessions@), target@) ==> r == by_id(table(sessions@), target@),
        names_unique(table(sessions@)) ==> r == resolve(table(sessions@), target@),
{
    let ghost t = table(sessions@);
    match find_name(sessions, target) {
        Some(id) => {
            proof {
                assert(named(t, id, target@));
                let other = choose|x: u32| #[trigger] named(t, x, target@);
                assert(t.contains_key(other) && t.contains_key(id));
            }
            Some(id)
        },
        None => {
            let chars = chars_of(target);
            match parse_number(chars.as_slice(), u32::MAX as u64) {
                Some(n) => {
                    let id: u32 = n as u32;
                    if sessions.contains_key(&id) {
                        Some(id)
                    } else {
                        None
                    }
                },
                None => None,
            }
        },
    }
}

/// What is reported of a session. Before its shell runs, most of it is blank.
pub open spec fn entry_for(id: u32, s: SessionModel) -> EntryModel {
    let name = match s.name {
        Some(n) => n,
        None => Seq::empty(),
    };
    match s.metadata {
        Some(m) => EntryModel {
            id: decimal(id as nat),
            name,
            pty_path: m.pty_path,
            shell_pid: m.shell_pid,
            created_at: m.created_at,
            attached: m.attached,
            last_heartbeat: m.last_heartbeat,
        },
        None => EntryModel {
            id: decimal(id as nat),
            name,
            pty_path: Seq::empty(),
            shell_pid: 0,
            created_at: 0,
            attached: false,
            last_heartbeat: 0,
        },
    }
}

/// What is reported of the sessions in the table, in ascending order of their ids.
pub open spec fn report(t: Map<u32, SessionModel>) -> Seq<EntryModel> {
    ids_of(t).map_values(|id: u32| entry_for(id, t[id]))
}

fn session_entry(id: u32, state: &SessionState) -> (e: SessionEntry)
    ensures
        e@ == entry_for(id, state@),
{
    let name: String = match &state.name {
        Some(n) => n.clone(),
        None => String::new(),
    };
    match &state.metadata {
        Some(m) => SessionEntry {
            id: decimal_text(id as u64),
            name,
            pty_path: m.pty_path.clone(),
            shell_pid: m.shell_pid,
            created_at: m.created_at,
            attached: m.attached,
            last_heartbeat: m.last_heartbeat,
        },
        None => SessionEntry {
            id: decimal_text(id as u64),
            name,
            pty_path: String::new(),
            shell_pid: 0,
            created_at: 0,
            attached: false,
            last_heartbeat: 0,
        },
    }
}

/// What is reported of the sessions, in ascending order of their ids.
pub fn build_session_entries(sessions: &HashMap<u32, SessionState>) -> (out: Vec<SessionEntry>)
    ensures
        entries(out@) == report(table(sessions@)),
{
    let ids = session_ids(sessions);
    let ghost t = table(sessions@);
    let mut out: Vec<SessionEntry> = Vec::new();
    let mut i: usize = 0;
    while i < ids.len()
        invariant
            i <= ids@.len(),
            t == table(sessions@),
            listing(t, ids@),
            out@.len() == i,
            forall|k: int| 0 <= k < i ==> (#[trigger] out@[k])@ == entry_for(ids@[k], t[ids@[k]]),
        decreases ids@.len() - i,
    {
        let id: u32 = ids[i];
        proof {
            assert(ids@.contains(id));
            assert(t.contains_key(id));
        }
        match sessions.get(&id) {
            Some(state) => {
                out.push(session_entry(id, state));
            },
            None => {},
        }
        i = i + 1;
    }
    proof {
        assert(entries(out@) =~= report(t));
    }
    out
}

// ---------------------------------------------------------------------------
// Where the daemon is found
// ---------------------------------------------------------------------------

/// The directory for the sockets: `gritty` in the runtime directory where there is one,
/// else a directory in `/tmp` with the user's id in its name.
pub open spec fn socket_dir_path(xdg: Option<Seq<char>>, uid: u32) -> Seq<u8> {
    match xdg {
        Some(dir) => joined_path(encode_utf8(dir), encode_utf8("gritty"@)),
        None => encode_utf8("/tmp/gritty-"@ + decimal(uid as nat)),
    }
}

/// The path of the daemon's socket.
pub open spec fn control_path(xdg: Option<Seq<char>>, uid: u32) -> Seq<u8> {
    joined_path(socket_dir_path(xdg, uid), encode_utf8("ctl.sock"@))
}

/// The text behind an optional string slice.
pub open spec fn opt_text(s: Option<&str>) -> Option<Seq<char>> {
    match s {
        Some(t) => Some(t@),
        None => None,
    }
}

/// The directory for the sockets, from the value of `XDG_RUNTIME_DIR` and the user's id.
pub fn socket_dir(xdg: Option<&str>, uid: u32) -> (dir: Vec<u8>)
    ensures
        dir@ == socket_dir_path(opt_text(xdg), uid),
{
    match xdg {
        Some(dir) => join_path(dir.as_bytes(), "gritty".as_bytes()),
        None => {
            let dir: String = joined("/tmp/gritty-", decimal_text(uid as u64).as_str());
            slice_to_vec(dir.as_str().as_bytes())
        },
    }
}

/// The path of the daemon's socket, from the value of `XDG_RUNTIME_DIR` and the user's id.
pub fn control_socket_path(xdg: Option<&str>, uid: u32) -> (path: Vec<u8>)
    ensures
        path@ == control_path(opt_text(xdg), uid),
{
    let dir = socket_dir(xdg, uid);
    join_path(dir.as_slice(), "ctl.sock".as_bytes())
}

/// The path of the file with the daemon's process id: a sibling of the socket.
pub fn pid_file_path(ctl_path: &[u8]) -> (path: Vec<u8>)
    ensures
        path@ == sibling(ctl_path@, encode_utf8("daemon.pid"@)),
{
    with_file_name(ctl_path, "daemon.pid".as_bytes())
}

/// The files that a running daemon keeps: its socket and the file with its process id.
pub fn runtime_files(ctl_path: &[u8]) -> (files: Vec<Vec<u8>>)
    ensures
        files@.len() == 2,
        files@[0]@ == ctl_path@,
        files@[1]@ == sibling(ctl_path@, encode_utf8("daemon.pid"@)),
{
    let mut files: Vec<Vec<u8>> = Vec::new();
    files.push(slice_to_vec(ctl_path));
    files.push(pid_file_path(ctl_path));
    files
}

/// What is left to do when the daemon ends: the sessions to abort and the files to
/// remove.
#[derive(Debug)]
pub struct Shutdown {
    pub aborted: Vec<u32>,
    pub files: Vec<Vec<u8>>,
}

/// Empties the table. Every session in it is to be aborted, and the socket and the file
/// with the process id are to be removed.
pub fn shutdown(sessions: &mut HashMap<u32, SessionState>, ctl_path: &[u8]) -> (s: Shutdown)
    ensures
        table(final(sessions)@) == Map::<u32, SessionModel>::empty(),
        s.aborted@ == ids_of(table(old(sessions)@)),
        s.files@.len() == 2,
        s.files@[0]@ == ctl_path@,
        s.files@[1]@ == sibling(ctl_path@, encode_utf8("daemon.pid"@)),
{
    let aborted = session_ids(sessions);
    sessions.clear();
    proof {
        assert(table(sessions@) =~= Map::empty());
    }
    Shutdown { aborted, files: runtime_files(ctl_path) }
}

// ---------------------------------------------------------------------------
// Control requests
// ---------------------------------------------------------------------------

/// The daemon's table of sessions, and the id that the next session gets.
#[derive(Debug)]
pub struct Daemon {
    sessions: HashMap<u32, SessionState>,
    next_id: u32,
}

/// The daemon as a mathematical value.
#[verifier::ext_equal]
pub struct DaemonModel {
    pub sessions: Map<u32, SessionModel>,
    pub next_id: u32,
}

impl View for Daemon {
    type V = DaemonModel;

    closed spec fn view(&self) -> DaemonModel {
        DaemonModel { sessions: table(self.sessions@), next_id: self.next_id }
    }
}

/// What the daemon does besides replying.
#[derive(Debug, Clone, PartialEq, Eq)]
pub enum Action {
    /// Nothing.
    Nothing,
    /// Start the session before the reply, and hand the connection over to it afterwards.
    Start { id: u32, name: Option<String> },
    /// Hand the connection over to the session after the reply.
    HandOver { id: u32 },
    /// Abort the session before the reply.
    Abort { id: u32 },
    /// Before the reply abort these sessions and remove the runtime files, and stop
    /// afterwards.
    Stop { aborted: Vec<u32> },
}

/// An action as a mathematical value.
#[verifier::ext_equal]
pub enum ActionModel {
    Nothing,
    Start { id: u32, name: Option<Seq<char>> },
    HandOver { id: u32 },
    Abort { id: u32 },
    Stop { aborted: Seq<u32> },
}

impl View for Action {
    type V = ActionModel;

    open spec fn view(&self) -> ActionModel {
        match self {
            Action::Nothing => ActionModel::Nothing,
            Action::Start { id, name } => ActionModel::Start {
                id: *id,
                name: match name {
                    Some(n) => Some(n@),
                    None => None,
                },
            },
            Action::HandOver { id } => ActionModel::HandOver { id: *id },
            Action::Abort { id } => ActionModel::Abort { id: *id },
            Action::Stop { aborted } => ActionModel::Stop { aborted: aborted@ },
        }
    }
}

/// The daemon's answer to a control request.
#[derive(Debug, Clone, PartialEq, Eq)]
pub struct Answer {
    pub reply: Frame,
    pub action: Action,
}

/// An answer and the daemon after it, as a mathematical value.
#[verifier::ext_equal]
pub struct Step {
    pub after: DaemonModel,
    pub reply: FrameModel,
    pub action: ActionModel,
}

/// The name that a new session is asked to have; an empty one means none.
pub open spec fn wanted_name(name: Seq<char>) -> Option<Seq<char>> {
    if name.len() == 0 {
        None
    } else {
        Some(name)
    }
}

/// A session that has just been made.
pub open spec fn fresh_session(name: Option<Seq<char>>) -> SessionModel {
    SessionModel { name, metadata: None, finished: false, closed: false }
}

/// The refusal of a name that is taken.
pub open spec fn refused_name(name: Seq<char>) -> FrameModel {
    FrameModel::Error { message: "session name already exists: "@ + name }
}

/// The refusal of a target that stands for no session.
pub open spec fn refused_target(target: Seq<char>) -> FrameModel {
    FrameModel::Error { message: "no such session: "@ + target }
}

/// A daemon that has just started: no sessions, and ids count from zero.
pub open spec fn fresh_daemon() -> DaemonModel {
    DaemonModel { sessions: Map::empty(), next_id: 0 }
}

/// What the daemon does on a control request.
pub open spec fn control_step(d: DaemonModel, f: FrameModel) -> Step {
    let live = DaemonModel { sessions: reaped(d.sessions), next_id: d.next_id };
    match f {
        FrameModel::NewSession { name } => if name.len() > 0 && name_taken(d.sessions, name) {
            Step { after: d, reply: refused_name(name), action: ActionModel::Nothing }
        } else {
            Step {
                after: DaemonModel {
                    sessions: d.sessions.insert(d.next_id, fresh_session(wanted_name(name))),
                    next_id: (d.next_id + 1) as u32,
                },
                reply: FrameModel::SessionCreated { id: decimal(d.next_id as nat) },
                action: ActionModel::Start { id: d.next_id, name: wanted_name(name) },
            }
        },
        FrameModel::Attach { session } => match resolve(live.sessions, session) {
            Some(id) => if live.sessions[id].closed {
                Step {
                    after: DaemonModel {
                        sessions: live.sessions.remove(id),
                        next_id: d.next_id,
                    },
                    reply: refused_target(session),
                    action: ActionModel::Nothing,
                }
            } else {
                Step { after: live, reply: FrameModel::Okay, action: ActionModel::HandOver { id } }
            },
            None => Step {
                after: live,
                reply: refused_target(session),
                action: ActionModel::Nothing,
            },
        },
        FrameModel::ListSessions => Step {
            after: live,
            reply: FrameModel::SessionInfo { sessions: report(live.sessions) },
            action: ActionModel::Nothing,
        },
        FrameModel::KillSession { session } => match resolve(live.sessions, session) {
            Some(id) => Step {
                after: DaemonModel { sessions: live.sessions.remove(id), next_id: d.next_id },
                reply: FrameModel::Okay,
                action: ActionModel::Abort { id },
            },
            None => Step {
                after: live,
                reply: refused_target(session),
                action: ActionModel::Nothing,
            },
        },
        FrameModel::KillServer => Step {
            after: DaemonModel { sessions: Map::empty(), next_id: d.next_id },
            reply: FrameModel::Okay,
            action: ActionModel::Stop { aborted: ids_of(d.sessions) },
        },
        _ => Step {
            after: d,
            reply: FrameModel::Error { message: "unexpected frame type"@ },
            action: ActionModel::Nothing,
        },
    }
}

/// The table is in order: ids were given out in turn, no two sessions share a name, and
/// no name is empty.
pub open spec fn in_order(d: DaemonModel) -> bool {
    &&& forall|id: u32| #[trigger] d.sessions.contains_key(id) ==> id < d.next_id
    &&& names_unique(d.sessions)
    &&& forall|id: u32| #[trigger]
        d.sessions.contains_key(id) && d.sessions[id].name is Some
            ==> d.sessions[id].name->0.len() > 0
}

/// The request makes a session, so that a new id is needed.
pub open spec fn makes_session(d: DaemonModel, f: FrameModel) -> bool {
    f matches FrameModel::NewSession { name } && !(name.len() > 0 && name_taken(d.sessions, name))
}

/// Where a session is made, there is an id left for the one after it.
pub open spec fn id_left(d: DaemonModel, f: FrameModel) -> bool {
    makes_session(d, f) ==> d.next_id < u32::MAX
}

/// The result of observing a session anew.
pub open spec fn observed(
    t: Map<u32, SessionModel>,
    id: u32,
    metadata: Option<MetadataModel>,
    finished: bool,
    closed: bool,
) -> Map<u32, SessionModel> {
    if t.contains_key(id) {
        t.insert(id, SessionModel { name: t[id].name, metadata, finished, closed })
    } else {
        t
    }
}

/// The metadata behind an option.
pub open spec fn opt_metadata(m: Option<SessionMetadata>) -> Option<MetadataModel> {
    match m {
        Some(m) => Some(m@),
        None => None,
    }
}

/// Observing a session keeps the table in order.
pub proof fn lemma_observed_in_order(
    d: DaemonModel,
    id: u32,
    metadata: Option<MetadataModel>,
    finished: bool,
    closed: bool,
)
    requires
        in_order(d),
    ensures
        in_order(
            DaemonModel {
                sessions: observed(d.sessions, id, metadata, finished, closed),
                next_id: d.next_id,
            },
        ),
{
    let t = observed(d.sessions, id, metadata, finished, closed);
    assert forall|x: u32| #[trigger] t.contains_key(x) implies d.sessions.contains_key(x)
        && t[x].name == d.sessions[x].name by {}
    assert forall|a: u32, b: u32|
        #![trigger t.contains_key(a), t.contains_key(b)]
        t.contains_key(a) && t.contains_key(b) && t[a].name is Some && t[a].name
            == t[b].name implies a == b by {
        assert(d.sessions.contains_key(a) && d.sessions.contains_key(b));
    }
}

fn refusal(text: &str, what: &str) -> (f: Frame)
    ensures
        f@ == (FrameModel::Error { message: text@ + what@ }),
{
    Frame::Error { message: joined(text, what) }
}

impl Daemon {
    /// A daemon without sessions.
    pub fn new() -> (d: Daemon)
        ensures
            d@ == fresh_daemon(),
            in_order(d@),
    {
        let d = Daemon { sessions: HashMap::new(), next_id: 0 };
        proof {
            assert(table(d.sessions@) =~= Map::empty());
        }
        d
    }

    /// The id that the next session gets.
    pub fn next_id(&self) -> (id: u32)
        ensures
            id == self@.next_id,
    {
        self.next_id
    }

    /// Whether the table holds a session with this id.
    pub fn contains(&self, id: u32) -> (r: bool)
        ensures
            r == self@.sessions.contains_key(id),
    {
        self.sessions.contains_key(&id)
    }

    /// The session that `target` stands for.
    pub fn resolve(&self, target: &str) -> (r: Option<u32>)
        requires
            in_order(self@),
        ensures
            r == resolve(self@.sessions, target@),
    {
        resolve_session(&self.sessions, target)
    }

    /// Ends the daemon from outside: every session is to be aborted, and the runtime files
    /// are to be removed.
    pub fn shutdown(&mut self, ctl_path: &[u8]) -> (s: Shutdown)
        ensures
            final(self)@ == (DaemonModel {
                sessions: Map::empty(),
                next_id: old(self)@.next_id,
            }),
            in_order(final(self)@),
            s.aborted@ == ids_of(old(self)@.sessions),
            s.files@.len() == 2,
            s.files@[0]@ == ctl_path@,
            s.files@[1]@ == sibling(ctl_path@, encode_utf8("daemon.pid"@)),
    {
        shutdown(&mut self.sessions, ctl_path)
    }

    /// Records what a session looks like now. A session that is not in the table stays
    /// out of it.
    pub fn observe(
        &mut self,
        id: u32,
        metadata: Option<SessionMetadata>,
        finished: bool,
        closed: bool,
    )
        requires
            in_order(old(self)@),
        ensures
            final(self)@ == (DaemonModel {
                sessions: observed(
                    old(self)@.sessions,
                    id,
                    opt_metadata(metadata),
                    finished,
                    closed,
                ),
                next_id: old(self)@.next_id,
            }),
            in_order(final(self)@),
    {
        let ghost before = self@;
        match self.sessions.remove(&id) {
            Some(old_state) => {
                let state = SessionState { name: old_state.name, metadata, finished, closed };
                self.sessions.insert(id, state);
                proof {
                    assert(self@.sessions =~= observed(
                        before.sessions,
                        id,
                        opt_metadata(metadata),
                        finished,
                        closed,
                    ));
                }
            },
            None => {
                proof {
                    assert(self@.sessions =~= before.sessions);
                }
            },
        }
        proof {
            lemma_observed_in_order(before, id, opt_metadata(metadata), finished, closed);
        }
    }

    /// Drops the sessions that have ended.
    pub fn reap(&mut self)
        requires
            in_order(old(self)@),
        ensures
            final(self)@ == (DaemonModel {
                sessions: reaped(old(self)@.sessions),
                next_id: old(self)@.next_id,
            }),
            in_order(final(self)@),
    {
        proof {
            lemma_reaped(self@.sessions);
        }
        reap_sessions(&mut self.sessions);
    }

    /// Answers one control request.
    pub fn handle(&mut self, frame: Frame) -> (a: Answer)
        requires
            in_order(old(self)@),
            id_left(old(self)@, frame@),
        ensures
            (Step { after: final(self)@, reply: a.reply@, action: a.action@ }) == control_step(
                old(self)@,
                frame@,
            ),
            in_order(final(self)@),
    {
        let ghost before = self@;
        proof {
            law_requests_keep_order(before, frame@);
            lemma_reaped(before.sessions);
        }
        match frame {
            Frame::NewSession { name } => self.new_session(name),
            Frame::Attach { session } => {
                reap_sessions(&mut self.sessions);
                match resolve_session(&self.sessions, session.as_str()) {
                    Some(id) => {
                        let closed = match self.sessions.get(&id) {
                            Some(state) => state.closed,
                            None => true,
                        };
                        if closed {
                            self.sessions.remove(&id);
                            proof {
                                assert(self@.sessions =~= reaped(before.sessions).remove(id));
                            }
                            Answer {
                                reply: refusal("no such session: ", session.as_str()),
                                action: Action::Nothing,
                            }
                        } else {
                            Answer { reply: Frame::Okay, action: Action::HandOver { id } }
                        }
                    },
                    None => Answer {
                        reply: refusal("no such session: ", session.as_str()),
                        action: Action::Nothing,
                    },
                }
            },
            Frame::ListSessions => {
                reap_sessions(&mut self.sessions);
                let sessions = build_session_entries(&self.sessions);
                Answer { reply: Frame::SessionInfo { sessions }, action: Action::Nothing }
            },
            Frame::KillSession { session } => {
                reap_sessions(&mut self.sessions);
                match resolve_session(&self.sessions, session.as_str()) {
                    Some(id) => {
                        self.sessions.remove(&id);
                        proof {
                            assert(self@.sessions =~= reaped(before.sessions).remove(id));
                        }
                        Answer { reply: Frame::Okay, action: Action::Abort { id } }
                    },
                    None => Answer {
                        reply: refusal("no such session: ", session.as_str()),
                        action: Action::Nothing,
                    },
                }
            },
            Frame::KillServer => {
                let aborted = session_ids(&self.sessions);
                self.sessions.clear();
                proof {
                    assert(self@.sessions =~= Map::empty());
                }
                Answer { reply: Frame::Okay, action: Action::Stop { aborted } }
            },
            _ => Answer {
                reply: Frame::Error { message: "unexpected frame type".to_owned() },
                action: Action::Nothing,
            },
        }
    }

    fn new_session(&mut self, name: String) -> (a: Answer)
        requires
            in_order(old(self)@),
            id_left(old(self)@, FrameModel::NewSession { name: name@ }),
        ensures
            (Step { after: final(self)@, reply: a.reply@, action: a.action@ }) == control_step(
                old(self)@,
                FrameModel::NewSession { name: name@ },
            ),
    {
        let ghost before = self@;
        let wanted: Option<String> = if name.as_str().is_empty() {
            None
        } else {
            if find_name(&self.sessions, name.as_str()).is_some() {
                return Answer {
                    reply: refusal("session name already exists: ", name.as_str()),
                    action: Action::Nothing,
                };
            }
            Some(name.clone())
        };
        let id: u32 = self.next_id;
        self.next_id = self.next_id + 1;
        let state = SessionState {
            name: wanted.clone(),
            metadata: None,
            finished: false,
            closed: false,
        };
        self.sessions.insert(id, state);
        proof {
            assert(self@.sessions =~= before.sessions.insert(
                id,
                fresh_session(wanted_name(name@)),
            ));
        }
        Answer {
            reply: Frame::SessionCreated { id: decimal_text(id as u64) },
            action: Action::Start { id, name: wanted },
        }
    }
}

/// Every control request keeps the table in order.
pub proof fn law_requests_keep_order(d: DaemonModel, f: FrameModel)
    requires
        in_order(d),
        id_left(d, f),
    ensures
        in_order(control_step(d, f).after),
{
    lemma_reaped(d.sessions);
    let after = control_step(d, f).after;
    match f {
        FrameModel::NewSession { name } => {
            if !(name.len() > 0 && name_taken(d.sessions, name)) {
                let t = after.sessions;
                assert forall|a: u32, b: u32|
                    #![trigger t.contains_key(a), t.contains_key(b)]
                    t.contains_key(a) && t.contains_key(b) && t[a].name is Some && t[a].name
                        == t[b].name implies a == b by {
                    if a == d.next_id && b != a {
                        assert(d.sessions.contains_key(b));
                        assert(named(d.sessions, b, name));
                    }
                    if b == d.next_id && b != a {
                        assert(d.sessions.contains_key(a));
                        assert(named(d.sessions, a, name));
                    }
                    if a != d.next_id && b != d.next_id {
                        assert(d.sessions.contains_key(a) && d.sessions.contains_key(b));
                    }
                }
                assert forall|id: u32| #[trigger] t.contains_key(id) implies id < after.next_id by {
                    if id != d.next_id {
                        assert(d.sessions.contains_key(id));
                    }
                }
                assert forall|id: u32| #[trigger]
                    t.contains_key(id) && t[id].name is Some implies t[id].name->0.len() > 0 by {
                    if id != d.next_id {
                        assert(d.sessions.contains_key(id));
                    }
                }
            }
        },
        _ => {
            assert forall|id: u32| #[trigger] after.sessions.contains_key(id) implies id
                < after.next_id && d.sessions.contains_key(id) && after.sessions[id]
                == d.sessions[id] by {
                assert(d.sessions.contains_key(id));
            }
            let t = after.sessions;
            assert forall|a: u32, b: u32|
                #![trigger t.contains_key(a), t.contains_key(b)]
                t.contains_key(a) && t.contains_key(b) && t[a].name is Some && t[a].name
                    == t[b].name implies a == b by {
                assert(d.sessions.contains_key(a) && d.sessions.contains_key(b));
            }
        },
    }
}

/// Reaping leaves the sessions that have not ended, as they are.
pub proof fn lemma_reaped(t: Map<u32, SessionModel>)
    ensures
        forall|id: u32| #[trigger]
            reaped(t).contains_key(id) <==> t.contains_key(id) && !t[id].finished,
        forall|id: u32| #[trigger] reaped(t).contains_key(id) ==> reaped(t)[id] == t[id],
        names_unique(t) ==> names_unique(reaped(t)),
{
    let r = reaped(t);
    if names_unique(t) {
        assert forall|a: u32, b: u32|
            #![trigger r.contains_key(a), r.contains_key(b)]
            r.contains_key(a) && r.contains_key(b) && r[a].name is Some && r[a].name
                == r[b].name implies a == b by {
            assert(t.contains_key(a) && t.contains_key(b));
        }
    }
}

} // verus!
