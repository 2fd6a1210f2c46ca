//! What the daemon promises as a whole.

use vstd::prelude::*;
use vstd::utf8::{encode_utf8, is_ascii_chars, is_ascii_chars_encode_utf8};

use crate::daemon::{
    control_path, control_step, entry_for, fresh_daemon, ids_of, in_order, law_requests_keep_order,
    lemma_ids_of, lemma_observed_in_order, lemma_reaped, listing, makes_session, name_taken, named,
    observed, reaped, refused_name, refused_target, report, resolve, socket_dir_path, wanted_name,
    ActionModel, DaemonModel, SessionModel,
};
use crate::paths::{
    joined_path, law_joined_name, lemma_digits_are_ascii, lemma_joined_is_trimmed, lemma_plain_text,
    name_part, parent_path, sibling, trim_tail,
};
use crate::protocol::FrameModel;
use crate::server::MetadataModel;
use crate::text::{decimal, lemma_number_of_decimal};

verus! {

/// A list names every session of the table once, in ascending order of the ids.
pub proof fn law_list_is_complete(t: Map<u32, SessionModel>)
    ensures
        report(t).len() == ids_of(t).len(),
        forall|i: int|
            0 <= i < report(t).len() ==> (#[trigger] report(t)[i]) == entry_for(
                ids_of(t)[i],
                t[ids_of(t)[i]],
            ) && t.contains_key(ids_of(t)[i]),
        forall|id: u32| #[trigger]
            t.contains_key(id) ==> report(t).contains(entry_for(id, t[id])),
        forall|i: int, j: int| 0 <= i < j < report(t).len() ==> ids_of(t)[i] < ids_of(t)[j],
{
    let ids = ids_of(t);
    lemma_ids_of(t);
    assert forall|i: int| 0 <= i < report(t).len() implies (#[trigger] report(t)[i]) == entry_for(
        ids[i],
        t[ids[i]],
    ) && t.contains_key(ids[i]) by {
        assert(ids.contains(ids[i]));
    }
    assert forall|id: u32| #[trigger] t.contains_key(id) implies report(t).contains(
        entry_for(id, t[id]),
    ) by {
        let k = choose|k: int| 0 <= k < ids.len() && ids[k] == id;
        assert(report(t)[k] == entry_for(id, t[id]));
    }
}

/// A session that was made is in the table under a new id, and is found by its name and
/// by its id, unless another session bears that id as a name.
pub proof fn law_created_session_is_found(d: DaemonModel, name: Seq<char>)
    requires
        in_order(d),
        d.next_id < u32::MAX,
        name.len() == 0 || !name_taken(d.sessions, name),
    ensures
        ({
            let after = control_step(d, FrameModel::NewSession { name }).after;
            let id = d.next_id;
            &&& !d.sessions.contains_key(id)
            &&& after.sessions.contains_key(id)
            &&& name.len() > 0 ==> resolve(after.sessions, name) == Some(id)
            &&& !name_taken(after.sessions, decimal(id as nat)) ==> resolve(
                after.sessions,
                decimal(id as nat),
            ) == Some(id)
        }),
{
    let after = control_step(d, FrameModel::NewSession { name }).after;
    let id = d.next_id;
    lemma_number_of_decimal(id as nat, u32::MAX as nat);
    if name.len() > 0 {
        assert(named(after.sessions, id, name));
        assert forall|x: u32| #[trigger] named(after.sessions, x, name) implies x == id by {
            if x != id {
                assert(named(d.sessions, x, name));
            }
        }
    }
}

/// A session that lives is found by its name, and by its id unless another session bears
/// that id as a name. Attaching hands the connection over to it as long as it takes
/// clients, and killing aborts it.
pub proof fn law_live_session_is_found(d: DaemonModel, id: u32, target: Seq<char>)
    requires
        in_order(d),
        d.sessions.contains_key(id),
        !d.sessions[id].finished,
        d.sessions[id].name == Some(target) || (target == decimal(id as nat) && !name_taken(
            reaped(d.sessions),
            target,
        )),
    ensures
        resolve(reaped(d.sessions), target) == Some(id),
        !d.sessions[id].closed ==> {
            let s = control_step(d, FrameModel::Attach { session: target });
            s.reply == FrameModel::Okay && s.action == (ActionModel::HandOver { id })
        },
        ({
            let s = control_step(d, FrameModel::KillSession { session: target });
            s.reply == FrameModel::Okay && s.action == (ActionModel::Abort { id })
        }),
{
    lemma_reaped(d.sessions);
    lemma_number_of_decimal(id as nat, u32::MAX as nat);
    let t = reaped(d.sessions);
    assert(t.contains_key(id));
    if d.sessions[id].name == Some(target) {
        assert(named(t, id, target));
        assert forall|x: u32| #[trigger] named(t, x, target) implies x == id by {
            assert(t.contains_key(x) && t.contains_key(id));
        }
    }
}

/// Ending the daemon aborts every session and leaves none.
pub proof fn law_kill_server_aborts_all(d: DaemonModel)
    ensures
        ({
            let s = control_step(d, FrameModel::KillServer);
            &&& s.reply == FrameModel::Okay
            &&& s.after.sessions == Map::<u32, SessionModel>::empty()
            &&& s.action matches ActionModel::Stop { aborted } && listing(d.sessions, aborted)
        }),
{
    lemma_ids_of(d.sessions);
}

/// A taken name is refused, and nothing changes.
pub proof fn law_taken_name_is_refused(d: DaemonModel, id: u32, name: Seq<char>)
    requires
        named(d.sessions, id, name),
        name.len() > 0,
    ensures
        ({
            let s = control_step(d, FrameModel::NewSession { name });
            &&& s.after == d
            &&& s.reply == refused_name(name)
            &&& s.action == ActionModel::Nothing
        }),
{
}

/// A request that is refused has no effect beyond clearing away sessions that are dead:
/// every session that lives and takes clients stays as it is.
pub proof fn law_refusal_keeps_live_sessions(d: DaemonModel, f: FrameModel)
    requires
        control_step(d, f).reply is Error,
    ensures
        control_step(d, f).action == ActionModel::Nothing,
        control_step(d, f).after.next_id == d.next_id,
        forall|id: u32| #[trigger]
            d.sessions.contains_key(id) && !d.sessions[id].finished && !d.sessions[id].closed
                ==> control_step(d, f).after.sessions.contains_key(id) && control_step(
                d,
                f,
            ).after.sessions[id] == d.sessions[id],
{
    lemma_reaped(d.sessions);
}

/// A request touches no session but the one that it kills, the dead ones that it clears
/// away, and the one that it makes. Only ending the daemon touches all.
pub proof fn law_other_sessions_stay(d: DaemonModel, f: FrameModel, id: u32)
    requires
        in_order(d),
        d.sessions.contains_key(id),
        !d.sessions[id].finished,
        !d.sessions[id].closed,
        f != FrameModel::KillServer,
        control_step(d, f).action != (ActionModel::Abort { id }),
    ensures
        control_step(d, f).after.sessions.contains_key(id),
        control_step(d, f).after.sessions[id] == d.sessions[id],
{
    lemma_reaped(d.sessions);
}

/// A session that was killed is gone, and its name is free for a session with another id.
pub proof fn law_killed_session_is_gone(d: DaemonModel, target: Seq<char>)
    requires
        in_order(d),
        d.next_id < u32::MAX,
        control_step(d, FrameModel::KillSession { session: target }).reply == FrameModel::Okay,
    ensures
        ({
            let s = control_step(d, FrameModel::KillSession { session: target });
            &&& s.action is Abort
            &&& d.sessions.contains_key(s.action->Abort_id)
            &&& !s.after.sessions.contains_key(s.action->Abort_id)
            &&& d.sessions[s.action->Abort_id].name matches Some(name) ==> {
                let again = control_step(s.after, FrameModel::NewSession { name });
                &&& !name_taken(s.after.sessions, name)
                &&& again.action == (ActionModel::Start { id: d.next_id, name: Some(name) })
                &&& d.next_id != s.action->Abort_id
            }
        }),
{
    lemma_reaped(d.sessions);
    let t = reaped(d.sessions);
    let s = control_step(d, FrameModel::KillSession { session: target });
    let id = s.action->Abort_id;
    if name_taken(t, target) {
        assert(named(t, id, target));
    }
    assert(t.contains_key(id));
    assert(d.sessions.contains_key(id));
    if let Some(name) = d.sessions[id].name {
        assert forall|x: u32| !#[trigger] named(s.after.sessions, x, name) by {
            if named(s.after.sessions, x, name) {
                assert(t.contains_key(x));
                assert(t.contains_key(x) && t.contains_key(id));
            }
        }
    }
}

/// A session that has ended can neither be attached to nor killed by its id.
pub proof fn law_dead_session_is_refused(d: DaemonModel, id: u32)
    requires
        d.sessions.contains_key(id),
        d.sessions[id].finished,
        !name_taken(d.sessions, decimal(id as nat)),
    ensures
        control_step(d, FrameModel::Attach { session: decimal(id as nat) }).reply
            == refused_target(decimal(id as nat)),
        control_step(d, FrameModel::KillSession { session: decimal(id as nat) }).reply
            == refused_target(decimal(id as nat)),
{
    lemma_reaped(d.sessions);
    lemma_number_of_decimal(id as nat, u32::MAX as nat);
    let t = reaped(d.sessions);
    assert forall|x: u32| !#[trigger] named(t, x, decimal(id as nat)) by {
        if named(t, x, decimal(id as nat)) {
            assert(named(d.sessions, x, decimal(id as nat)));
        }
    }
}

/// A session that takes no more clients is refused to whoever attaches, and forgotten.
pub proof fn law_closed_session_is_refused(d: DaemonModel, target: Seq<char>, id: u32)
    requires
        resolve(reaped(d.sessions), target) == Some(id),
        reaped(d.sessions).contains_key(id),
        d.sessions[id].closed,
    ensures
        control_step(d, FrameModel::Attach { session: target }).reply == refused_target(target),
        !control_step(d, FrameModel::Attach { session: target }).after.sessions.contains_key(id),
{
    lemma_reaped(d.sessions);
}

/// What happens to a daemon's table: a request, a look at a session, or a clearing away of
/// the sessions that have ended.
pub enum Happening {
    Request { frame: FrameModel },
    Observed { id: u32, metadata: Option<MetadataModel>, finished: bool, closed: bool },
    Reaped,
}

/// The daemon after one happening.
pub open spec fn after_one(d: DaemonModel, h: Happening) -> DaemonModel {
    match h {
        Happening::Request { frame } => control_step(d, frame).after,
        Happening::Observed { id, metadata, finished, closed } => DaemonModel {
            sessions: observed(d.sessions, id, metadata, finished, closed),
            next_id: d.next_id,
        },
        Happening::Reaped => DaemonModel { sessions: reaped(d.sessions), next_id: d.next_id },
    }
}

/// The daemon after several happenings.
pub open spec fn after_history(d: DaemonModel, hs: Seq<Happening>) -> DaemonModel
    decreases hs.len(),
{
    if hs.len() == 0 {
        d
    } else {
        after_one(after_history(d, hs.drop_last()), hs.last())
    }
}

/// How many requests for a session were accepted among these happenings.
pub open spec fn accepted(d: DaemonModel, hs: Seq<Happening>) -> nat
    decreases hs.len(),
{
    if hs.len() == 0 {
        0
    } else {
        let before = accepted(d, hs.drop_last());
        if hs.last() matches Happening::Request { frame } && makes_session(
            after_history(d, hs.drop_last()),
            frame,
        ) {
            before + 1
        } else {
            before
        }
    }
}

/// Whatever happens, the table stays in order, the ids count the accepted requests, and an
/// id that was given out once is never given out again.
pub proof fn law_ids_are_never_reused(d: DaemonModel, hs: Seq<Happening>)
    requires
        in_order(d),
        d.next_id + accepted(d, hs) <= u32::MAX,
    ensures
        in_order(after_history(d, hs)),
        after_history(d, hs).next_id == d.next_id + accepted(d, hs),
        forall|id: u32| #[trigger]
            after_history(d, hs).sessions.contains_key(id) && id < d.next_id
                ==> d.sessions.contains_key(id),
    decreases hs.len(),
{
    if hs.len() > 0 {
        let mid = after_history(d, hs.drop_last());
        law_ids_are_never_reused(d, hs.drop_last());
        lemma_reaped(mid.sessions);
        match hs.last() {
            Happening::Request { frame } => {
                law_requests_keep_order(mid, frame);
            },
            Happening::Observed { id, metadata, finished, closed } => {
                lemma_observed_in_order(mid, id, metadata, finished, closed);
            },
            Happening::Reaped => {},
        }
        let after = after_history(d, hs);
        assert forall|id: u32| #[trigger]
            after.sessions.contains_key(id) && id < d.next_id implies d.sessions.contains_key(
            id,
        ) by {
            assert(mid.sessions.contains_key(id));
        }
    }
}

/// The ids of a daemon's sessions count up from zero by one: a request for a session that
/// is accepted after `k` others were gets the id `k`, whatever was killed or ended before
/// it, and whatever name is asked for.
pub proof fn law_ids_count_up_from_zero(hs: Seq<Happening>, name: Seq<char>)
    requires
        accepted(fresh_daemon(), hs) < u32::MAX,
        makes_session(after_history(fresh_daemon(), hs), FrameModel::NewSession { name }),
    ensures
        ({
            let k = accepted(fresh_daemon(), hs);
            let s = control_step(
                after_history(fresh_daemon(), hs),
                FrameModel::NewSession { name },
            );
            &&& s.reply == (FrameModel::SessionCreated { id: decimal(k) })
            &&& s.action == (ActionModel::Start { id: k as u32, name: wanted_name(name) })
        }),
{
    law_ids_are_never_reused(fresh_daemon(), hs);
}

/// The directory for the sockets bears the tool's name, and nothing at its end can be
/// left out.
pub proof fn law_socket_dir_name(xdg: Option<Seq<char>>, uid: u32)
    ensures
        name_part(socket_dir_path(xdg, uid)) == Some(
            match xdg {
                Some(_) => encode_utf8("gritty"@),
                None => encode_utf8("gritty-"@ + decimal(uid as nat)),
            },
        ),
        trim_tail(socket_dir_path(xdg, uid)) == socket_dir_path(xdg, uid),
{
    reveal_strlit("gritty");
    reveal_strlit("gritty-");
    reveal_strlit("/tmp/gritty-");
    reveal_strlit("/tmp/");
    lemma_digits_are_ascii(uid as nat);
    match xdg {
        Some(dir) => {
            lemma_plain_text("gritty"@);
            law_joined_name(encode_utf8(dir), encode_utf8("gritty"@));
            lemma_joined_is_trimmed(encode_utf8(dir), encode_utf8("gritty"@));
        },
        None => {
            let name = "gritty-"@ + decimal(uid as nat);
            let whole = "/tmp/gritty-"@ + decimal(uid as nat);
            assert forall|i: int| 0 <= i < name.len() implies '\0' <= #[trigger] name[i]
                <= '\u{7f}' && name[i] != '/' by {
                if i >= 7 {
                    assert(name[i] == decimal(uid as nat)[i - 7]);
                }
            }
            assert(whole =~= "/tmp/"@ + name);
            assert(is_ascii_chars("/tmp/"@));
            lemma_plain_text(name);
            is_ascii_chars_encode_utf8("/tmp/"@);
            is_ascii_chars_encode_utf8(name);
            assert(is_ascii_chars(whole)) by {
                assert forall|i: int| 0 <= i < whole.len() implies '\0' <= #[trigger] whole[i]
                    <= '\u{7f}' by {
                    if i >= 5 {
                        assert(whole[i] == name[i - 5]);
                    }
                }
            }
            is_ascii_chars_encode_utf8(whole);
            let front = encode_utf8("/tmp/"@);
            assert(encode_utf8(whole) =~= joined_path(front, encode_utf8(name)));
            law_joined_name(front, encode_utf8(name));
            lemma_joined_is_trimmed(front, encode_utf8(name));
        },
    }
}

/// The daemon's socket and the file with its process id stand side by side in the
/// directory for the sockets.
pub proof fn law_pid_file_stands_beside_the_socket(xdg: Option<Seq<char>>, uid: u32)
    ensures
        parent_path(control_path(xdg, uid)) == Some(socket_dir_path(xdg, uid)),
        name_part(control_path(xdg, uid)) == Some(encode_utf8("ctl.sock"@)),
        sibling(control_path(xdg, uid), encode_utf8("daemon.pid"@)) == joined_path(
            socket_dir_path(xdg, uid),
            encode_utf8("daemon.pid"@),
        ),
{
    reveal_strlit("ctl.sock");
    lemma_plain_text("ctl.sock"@);
    law_socket_dir_name(xdg, uid);
    law_joined_name(socket_dir_path(xdg, uid), encode_utf8("ctl.sock"@));
}

} // verus!
