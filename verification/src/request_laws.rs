//! What each control request does, said of the sessions and the reply.

use std::collections::HashMap;

use vstd::prelude::*;

use crate::daemon::{
    build_session_entries, control_step, id_left, ids_of, in_order, lemma_ids_of, lemma_reaped,
    makes_session, named, observed, reaped, resolve, resolve_session, table, ActionModel, Daemon,
    DaemonModel, SessionModel, SessionState,
};
use crate::daemon_laws::law_list_is_complete;
use crate::protocol::{entries, FrameModel, SessionEntry};
use crate::server::{session_step, EventModel, MetadataModel, Phase, Session, SessionMetadata};
use crate::text::{decimal, lemma_decimal_injective, number};

verus! {

// ---------------------------------------------------------------------------
// Targets
// ---------------------------------------------------------------------------

/// A target stands only for a session that is there: the one that bears it as its name, or,
/// where none does, the one whose id it is.
pub proof fn law_target_stands_for_its_session(
    t: Map<u32, SessionModel>,
    target: Seq<char>,
    id: u32,
)
    requires
        resolve(t, target) == Some(id),
    ensures
        t.contains_key(id),
        t[id].name == Some(target) || (number(target, 0xffff_ffff) == Some(id as nat) && forall|
            x: u32,
        | #[trigger]
            t.contains_key(x) ==> t[x].name != Some(target)),
{
    if exists|x: u32| #[trigger] t.contains_key(x) && t[x].name == Some(target) {
        let x = choose|x: u32| #[trigger] t.contains_key(x) && t[x].name == Some(target);
        assert(named(t, x, target));
    }
}

/// A session is found by its name, and where no session bears the target as its name, the
/// session with that id is found.
pub proof fn law_session_is_found_by_its_target(
    t: Map<u32, SessionModel>,
    target: Seq<char>,
    id: u32,
)
    requires
        t.contains_key(id),
        t[id].name == Some(target) || number(target, 0xffff_ffff) == Some(id as nat),
        forall|x: u32| #[trigger] t.contains_key(x) && t[x].name == Some(target) ==> x == id,
    ensures
        resolve(t, target) == Some(id),
{
    if t[id].name == Some(target) {
        assert(named(t, id, target));
    }
    assert forall|x: u32| #[trigger] named(t, x, target) implies x == id by {
        assert(t.contains_key(x));
    }
}

/// The same of a table of sessions as it is searched: what is found is there and bears the
/// name, or is the session with that id where none bears the name; and nothing is found
/// only where there is neither.
pub proof fn law_search_for_a_target(
    sessions: &HashMap<u32, SessionState>,
    target: &str,
    r: Option<u32>,
)
    requires
        call_ensures(resolve_session, (sessions, target), r),
    ensures
        match r {
            Some(id) => {
                &&& sessions@.contains_key(id)
                &&& {
                    ||| sessions@[id].name matches Some(n) && n@ == target@
                    ||| number(target@, 0xffff_ffff) == Some(id as nat) && forall|x: u32| #[trigger]
                        sessions@.contains_key(x) ==> !(sessions@[x].name matches Some(n) && n@
                            == target@)
                }
            },
            None => {
                &&& forall|x: u32| #[trigger]
                    sessions@.contains_key(x) ==> !(sessions@[x].name matches Some(n) && n@
                        == target@)
                &&& number(target@, 0xffff_ffff) matches Some(n) ==> !sessions@.contains_key(
                    n as u32,
                )
            },
        },
{
    let t = table(sessions@);
    assert forall|x: u32| #[trigger] sessions@.contains_key(x) implies t.contains_key(x) && (
    named(t, x, target@) <==> (sessions@[x].name matches Some(n) && n@ == target@)) by {
        assert(t.contains_key(x));
        assert(t[x] == sessions@[x]@);
    }
    if let Some(id) = r {
        assert(t.contains_key(id));
        assert(sessions@.contains_key(id));
    }
    if let Some(n) = number(target@, 0xffff_ffff) {
        if sessions@.contains_key(n as u32) {
            assert(t.contains_key(n as u32));
        }
    }
}

/// Who attaches to or kills what is neither the name nor the id of a session that lives is
/// told so, and nothing happens: every session that lives stays as it is.
pub proof fn law_unknown_target_is_refused(d: DaemonModel, target: Seq<char>, f: FrameModel)
    requires
        f == (FrameModel::Attach { session: target }) || f == (FrameModel::KillSession {
            session: target,
        }),
        forall|x: u32| #[trigger]
            d.sessions.contains_key(x) && !d.sessions[x].finished ==> d.sessions[x].name != Some(
                target,
            ) && number(target, 0xffff_ffff) != Some(x as nat),
    ensures
        ({
            let s = control_step(d, f);
            &&& s.reply == (FrameModel::Error { message: "no such session: "@ + target })
            &&& s.action == ActionModel::Nothing
            &&& s.after.next_id == d.next_id
            &&& forall|x: u32| #[trigger]
                s.after.sessions.contains_key(x) <==> d.sessions.contains_key(x)
                    && !d.sessions[x].finished
            &&& forall|x: u32| #[trigger]
                s.after.sessions.contains_key(x) ==> s.after.sessions[x] == d.sessions[x]
        }),
{
    lemma_reaped(d.sessions);
    let t = reaped(d.sessions);
    if let Some(id) = resolve(t, target) {
        law_target_stands_for_its_session(t, target, id);
        assert(d.sessions.contains_key(id));
    }
}

// ---------------------------------------------------------------------------
// Requests
// ---------------------------------------------------------------------------

/// Attaching to a session that lives hands the connection over to it where it takes
/// clients. One that takes none is refused and forgotten. Killing it aborts it and forgets
/// it. Of the others those that live stay, and nothing else.
pub proof fn law_attaching_and_killing(d: DaemonModel, target: Seq<char>, id: u32, x: u32)
    requires
        d.sessions.contains_key(id),
        !d.sessions[id].finished,
        d.sessions[id].name == Some(target) || number(target, 0xffff_ffff) == Some(id as nat),
        forall|y: u32| #[trigger]
            d.sessions.contains_key(y) && !d.sessions[y].finished && d.sessions[y].name == Some(
                target,
            ) ==> y == id,
    ensures
        ({
            let s = control_step(d, FrameModel::Attach { session: target });
            let k = control_step(d, FrameModel::KillSession { session: target });
            let stays = d.sessions.contains_key(x) && !d.sessions[x].finished;
            &&& !d.sessions[id].closed ==> {
                &&& s.reply == FrameModel::Okay
                &&& s.action == (ActionModel::HandOver { id })
                &&& s.after.sessions.contains_key(x) <==> stays
            }
            &&& d.sessions[id].closed ==> {
                &&& s.reply == (FrameModel::Error { message: "no such session: "@ + target })
                &&& s.action == ActionModel::Nothing
                &&& s.after.sessions.contains_key(x) <==> stays && x != id
            }
            &&& s.after.sessions.contains_key(x) ==> s.after.sessions[x] == d.sessions[x]
            &&& s.after.next_id == d.next_id
            &&& k.reply == FrameModel::Okay
            &&& k.action == (ActionModel::Abort { id })
            &&& k.after.sessions.contains_key(x) <==> stays && x != id
            &&& k.after.sessions.contains_key(x) ==> k.after.sessions[x] == d.sessions[x]
            &&& k.after.next_id == d.next_id
        }),
{
    lemma_reaped(d.sessions);
    let t = reaped(d.sessions);
    assert(t.contains_key(id));
    assert forall|y: u32| #[trigger] t.contains_key(y) && t[y].name == Some(target) implies y
        == id by {
        assert(d.sessions.contains_key(y));
    }
    law_session_is_found_by_its_target(t, target, id);
}

/// A new session gets the next id and the name that was asked for, none where it was empty.
/// Nothing is known of its shell yet, it lives, and it takes clients. The reply tells its
/// id, and every other session stays as it is.
pub proof fn law_new_session_is_made(d: DaemonModel, name: Seq<char>)
    requires
        d.next_id < u32::MAX,
        name.len() == 0 || forall|x: u32| #[trigger]
            d.sessions.contains_key(x) ==> d.sessions[x].name != Some(name),
    ensures
        ({
            let s = control_step(d, FrameModel::NewSession { name });
            let given: Option<Seq<char>> = if name.len() == 0 {
                None
            } else {
                Some(name)
            };
            &&& s.reply == (FrameModel::SessionCreated { id: decimal(d.next_id as nat) })
            &&& s.action == (ActionModel::Start { id: d.next_id, name: given })
            &&& s.after.next_id == d.next_id + 1
            &&& s.after.sessions == d.sessions.insert(
                d.next_id,
                SessionModel { name: given, metadata: None, finished: false, closed: false },
            )
        }),
{
}

/// A name that a session bears is not given to a second one, whether or not the first still
/// lives: the answer says so, and nothing changes.
pub proof fn law_name_is_given_once(d: DaemonModel, name: Seq<char>, id: u32)
    requires
        name.len() > 0,
        d.sessions.contains_key(id),
        d.sessions[id].name == Some(name),
    ensures
        ({
            let s = control_step(d, FrameModel::NewSession { name });
            &&& s.reply == (FrameModel::Error { message: "session name already exists: "@ + name })
            &&& s.action == ActionModel::Nothing
            &&& s.after == d
        }),
{
    assert(named(d.sessions, id, name));
}

/// Ending the daemon aborts exactly the sessions that the table holds, in ascending order
/// of the ids, and leaves none.
pub proof fn law_ending_the_daemon(d: DaemonModel, x: u32)
    ensures
        ({
            let s = control_step(d, FrameModel::KillServer);
            &&& s.reply == FrameModel::Okay
            &&& s.after.next_id == d.next_id
            &&& !s.after.sessions.contains_key(x)
            &&& s.action matches ActionModel::Stop { aborted } && {
                &&& aborted.contains(x) <==> d.sessions.contains_key(x)
                &&& forall|i: int, j: int| 0 <= i < j < aborted.len() ==> aborted[i] < aborted[j]
            }
        }),
{
    lemma_ids_of(d.sessions);
}

/// A frame that is no request is refused, and nothing changes.
pub proof fn law_what_is_no_request_is_refused(d: DaemonModel, f: FrameModel)
    requires
        !(f is NewSession) && !(f is Attach) && !(f is ListSessions) && !(f is KillSession)
            && !(f is KillServer),
    ensures
        control_step(d, f).reply == (FrameModel::Error { message: "unexpected frame type"@ }),
        control_step(d, f).action == ActionModel::Nothing,
        control_step(d, f).after == d,
{
}

// ---------------------------------------------------------------------------
// Lists
// ---------------------------------------------------------------------------

/// Listing forgets the sessions that have ended and changes nothing else.
pub proof fn law_listing_forgets_the_ended(d: DaemonModel, x: u32)
    ensures
        ({
            let s = control_step(d, FrameModel::ListSessions);
            &&& s.reply is SessionInfo
            &&& s.action == ActionModel::Nothing
            &&& s.after.next_id == d.next_id
            &&& s.after.sessions.contains_key(x) <==> d.sessions.contains_key(x)
                && !d.sessions[x].finished
            &&& s.after.sessions.contains_key(x) ==> s.after.sessions[x] == d.sessions[x]
        }),
{
    lemma_reaped(d.sessions);
}

/// Every session that lives is listed under its id and its name, with all that is known of
/// its shell: the terminal, the process, when it began, whether a client is attached and
/// when it last gave a sign of life. Where nothing is known yet, all of that is blank.
pub proof fn law_live_session_is_listed(d: DaemonModel, id: u32) -> (i: int)
    requires
        d.sessions.contains_key(id),
        !d.sessions[id].finished,
    ensures
        ({
            let s = control_step(d, FrameModel::ListSessions);
            &&& s.reply matches FrameModel::SessionInfo { sessions } && {
                let e = sessions[i];
                let known = d.sessions[id];
                &&& 0 <= i < sessions.len()
                &&& e.id == decimal(id as nat)
                &&& known.name matches Some(n) ==> e.name == n
                &&& known.name is None ==> e.name.len() == 0
                &&& known.metadata matches Some(m) ==> {
                    &&& e.pty_path == m.pty_path
                    &&& e.shell_pid == m.shell_pid
                    &&& e.created_at == m.created_at
                    &&& e.attached == m.attached
                    &&& e.last_heartbeat == m.last_heartbeat
                }
                &&& known.metadata is None ==> {
                    &&& e.pty_path.len() == 0
                    &&& e.shell_pid == 0
                    &&& e.created_at == 0
                    &&& !e.attached
                    &&& e.last_heartbeat == 0
                }
            }
        }),
{
    lemma_reaped(d.sessions);
    let t = reaped(d.sessions);
    assert(t.contains_key(id));
    lemma_ids_of(t);
    law_list_is_complete(t);
    let ids = ids_of(t);
    let k: int = choose|k: int| 0 <= k < ids.len() && ids[k] == id;
    k
}

/// The entries of a list are those of sessions that live, and their ids ascend, so that none
/// is listed twice.
pub proof fn law_only_live_sessions_are_listed(d: DaemonModel, i: int, j: int) -> (ids: (u32, u32))
    requires
        control_step(d, FrameModel::ListSessions).reply matches FrameModel::SessionInfo { sessions }
            && 0 <= i < j < sessions.len(),
    ensures
        ({
            let s = control_step(d, FrameModel::ListSessions);
            &&& s.reply matches FrameModel::SessionInfo { sessions } && {
                &&& sessions[i].id == decimal(ids.0 as nat)
                &&& sessions[j].id == decimal(ids.1 as nat)
                &&& ids.0 < ids.1
                &&& d.sessions.contains_key(ids.0) && !d.sessions[ids.0].finished
                &&& d.sessions.contains_key(ids.1) && !d.sessions[ids.1].finished
            }
        }),
{
    lemma_reaped(d.sessions);
    let t = reaped(d.sessions);
    law_list_is_complete(t);
    let s = control_step(d, FrameModel::ListSessions);
    assert(s.reply->sessions[i].id == decimal(ids_of(t)[i] as nat));
    assert(s.reply->sessions[j].id == decimal(ids_of(t)[j] as nat));
    (ids_of(t)[i], ids_of(t)[j])
}

/// Each entry of a list, be it the only one, is that of a session that lives.
pub proof fn law_entry_belongs_to_a_live_session(d: DaemonModel, i: int) -> (id: u32)
    requires
        control_step(d, FrameModel::ListSessions).reply matches FrameModel::SessionInfo { sessions }
            && 0 <= i < sessions.len(),
    ensures
        control_step(d, FrameModel::ListSessions).reply matches FrameModel::SessionInfo { sessions }
            && sessions[i].id == decimal(id as nat),
        d.sessions.contains_key(id),
        !d.sessions[id].finished,
{
    lemma_reaped(d.sessions);
    let t = reaped(d.sessions);
    law_list_is_complete(t);
    let s = control_step(d, FrameModel::ListSessions);
    assert(s.reply->sessions[i].id == decimal(ids_of(t)[i] as nat));
    ids_of(t)[i]
}

/// The same of a table of sessions as it is listed: the entry of each session tells its own
/// name and its own metadata.
pub proof fn law_entries_tell_the_metadata(
    sessions: &HashMap<u32, SessionState>,
    out: Vec<SessionEntry>,
    id: u32,
) -> (i: int)
    requires
        call_ensures(build_session_entries, (sessions,), out),
        sessions@.contains_key(id),
    ensures
        0 <= i < out@.len(),
        out@[i].id@ == decimal(id as nat),
        sessions@[id].name matches Some(n) ==> out@[i].name@ == n@,
        sessions@[id].name is None ==> out@[i].name@.len() == 0,
        sessions@[id].metadata matches Some(m) ==> {
            &&& out@[i].pty_path@ == m.pty_path@
            &&& out@[i].shell_pid == m.shell_pid
            &&& out@[i].created_at == m.created_at
            &&& out@[i].attached == m.attached
            &&& out@[i].last_heartbeat == m.last_heartbeat
        },
        sessions@[id].metadata is None ==> {
            &&& out@[i].pty_path@.len() == 0
            &&& out@[i].shell_pid == 0
            &&& out@[i].created_at == 0
            &&& !out@[i].attached
            &&& out@[i].last_heartbeat == 0
        },
        forall|j: int| 0 <= j < out@.len() && j != i ==> (#[trigger] out@[j]).id@ != decimal(
            id as nat,
        ),
{
    let t = table(sessions@);
    assert(t.contains_key(id));
    assert(t[id] == sessions@[id]@);
    lemma_ids_of(t);
    law_list_is_complete(t);
    let ids = ids_of(t);
    let k: int = choose|k: int| 0 <= k < ids.len() && ids[k] == id;
    assert(entries(out@)[k] == out@[k]@);
    assert(entries(out@).len() == out@.len());
    assert forall|j: int| 0 <= j < out@.len() && j != k implies (#[trigger] out@[j]).id@ != decimal(
        id as nat,
    ) by {
        assert(entries(out@)[j] == out@[j]@);
        if out@[j].id@ == decimal(id as nat) {
            lemma_decimal_injective(ids[j] as nat, id as nat);
        }
    }
    k
}

// ---------------------------------------------------------------------------
// Observing sessions
// ---------------------------------------------------------------------------

/// Observing a session replaces what is known of it and keeps its name. Every other session
/// stays as it is, and none is added.
pub proof fn law_observing_touches_one_session(
    t: Map<u32, SessionModel>,
    id: u32,
    metadata: Option<MetadataModel>,
    finished: bool,
    closed: bool,
    x: u32,
)
    ensures
        ({
            let after = observed(t, id, metadata, finished, closed);
            &&& after.contains_key(x) <==> t.contains_key(x)
            &&& t.contains_key(x) && x != id ==> after[x] == t[x]
            &&& t.contains_key(id) ==> after[id].name == t[id].name && after[id].metadata
                == metadata && after[id].finished == finished && after[id].closed == closed
        }),
{
}

/// What a list says of a client follows the client: once its coming or going has been
/// observed, the session is listed as attached or not, with the last sign of life, and with
/// all else that was known of it.
pub proof fn law_list_follows_the_client(
    d: DaemonModel,
    id: u32,
    s: Session,
    m: SessionMetadata,
    r: SessionMetadata,
) -> (i: int)
    requires
        d.sessions.contains_key(id),
        call_ensures(Session::refresh, (&s, m), r),
    ensures
        ({
            let seen = DaemonModel {
                sessions: observed(d.sessions, id, Some(r@), false, false),
                next_id: d.next_id,
            };
            let reply = control_step(seen, FrameModel::ListSessions).reply;
            &&& reply matches FrameModel::SessionInfo { sessions } && {
                let e = sessions[i];
                &&& 0 <= i < sessions.len()
                &&& e.id == decimal(id as nat)
                &&& e.attached <==> s.phase == Phase::Relaying || s.phase == Phase::Closing
                &&& e.last_heartbeat == s.last_heartbeat
                &&& e.pty_path == m.pty_path@
                &&& e.shell_pid == m.shell_pid
                &&& e.created_at == m.created_at
            }
        }),
{
    let seen = DaemonModel {
        sessions: observed(d.sessions, id, Some(r@), false, false),
        next_id: d.next_id,
    };
    law_live_session_is_listed(seen, id)
}

/// After a client went away, in whatever way, and this was observed, the session is listed
/// as not attached; after one came, as attached.
pub proof fn law_list_says_who_is_gone(
    d: DaemonModel,
    id: u32,
    s: Session,
    e: EventModel,
    now: u64,
    m: SessionMetadata,
    r: SessionMetadata,
) -> (i: int)
    requires
        d.sessions.contains_key(id),
        call_ensures(Session::refresh, (&session_step(s, e, now).0, m), r),
        ({
            ||| s.phase == Phase::Relaying && {
                ||| e is ClientClosed
                ||| e is SendFailed
                ||| e == (EventModel::ClientFailed { invalid: false })
                ||| e matches EventModel::ClientFrame { frame } && frame is Exit
            }
            ||| s.phase == Phase::Waiting && e is ClientArrived
        }),
    ensures
        ({
            let seen = DaemonModel {
                sessions: observed(d.sessions, id, Some(r@), false, false),
                next_id: d.next_id,
            };
            let reply = control_step(seen, FrameModel::ListSessions).reply;
            &&& reply matches FrameModel::SessionInfo { sessions } && {
                &&& 0 <= i < sessions.len()
                &&& sessions[i].id == decimal(id as nat)
                &&& sessions[i].attached <==> e is ClientArrived
            }
        }),
{
    law_list_follows_the_client(d, id, session_step(s, e, now).0, m, r)
}

// ---------------------------------------------------------------------------
// The daemon's table
// ---------------------------------------------------------------------------

/// A table is in order when every id is below the next one, no two sessions share a name,
/// and no name is empty.
pub proof fn law_what_order_means(d: DaemonModel)
    ensures
        in_order(d) <==> {
            &&& forall|id: u32| #[trigger] d.sessions.contains_key(id) ==> id < d.next_id
            &&& forall|a: u32, b: u32|
                #![trigger d.sessions.contains_key(a), d.sessions.contains_key(b)]
                d.sessions.contains_key(a) && d.sessions.contains_key(b) && a != b
                    && d.sessions[a].name is Some ==> d.sessions[a].name != d.sessions[b].name
            &&& forall|id: u32| #[trigger]
                d.sessions.contains_key(id) ==> !(d.sessions[id].name matches Some(n) && n.len()
                    == 0)
        },
{
}

/// A request is turned away for want of an id only where it would make a session and the
/// last id has been given out.
pub proof fn law_ids_run_out_only_for_new_sessions(d: DaemonModel, f: FrameModel)
    ensures
        !id_left(d, f) ==> f is NewSession && d.next_id == u32::MAX,
        makes_session(d, f) <==> control_step(d, f).action is Start,
{
}

/// A daemon begins without sessions and counts ids from zero, and tells its state truly.
pub proof fn law_daemon_tells_its_state(
    fresh: Daemon,
    d: Daemon,
    id: u32,
    there: bool,
    next: u32,
)
    requires
        call_ensures(Daemon::new, (), fresh),
        call_ensures(Daemon::contains, (&d, id), there),
        call_ensures(Daemon::next_id, (&d,), next),
    ensures
        fresh@.next_id == 0,
        forall|x: u32| !#[trigger] fresh@.sessions.contains_key(x),
        there <==> d@.sessions.contains_key(id),
        next == d@.next_id,
{
}

} // verus!
