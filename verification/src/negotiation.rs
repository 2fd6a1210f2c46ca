//! Finding or making the session at the far end of a connection.

use vstd::prelude::*;

use crate::client::Entry;
use crate::daemon::{
    control_step, in_order, name_taken, named, names_unique, reaped, resolve, ActionModel,
    DaemonModel,
};
use crate::protocol::{expected, received, Frame, FrameModel};
use crate::text::{chars_of, contains_text, decimal, joined, occurs, stands_at};

verus! {

/// The talk with a daemon that ends with a session. First comes an attempt to attach,
/// when a target is given and a new session is not insisted on; then an attempt to make
/// the session.
#[derive(Debug)]
pub struct Negotiation {
    /// The name or id that was asked for; empty where none was.
    pub session_name: String,
    /// The last request was to attach.
    pub attaching: bool,
}

/// Where the talk stands.
#[verifier::ext_equal]
pub struct NegotiationModel {
    pub session_name: Seq<char>,
    pub attaching: bool,
}

impl View for Negotiation {
    type V = NegotiationModel;

    open spec fn view(&self) -> NegotiationModel {
        NegotiationModel { session_name: self.session_name@, attaching: self.attaching }
    }
}

/// What a reply comes to.
#[derive(Debug)]
pub enum Outcome {
    /// Open a new connection and send this.
    Send { frame: Frame },
    /// The connection now belongs to an existing session; its label, and what to tell the
    /// user.
    Attached { label: String, notice: String },
    /// The connection now belongs to a new session; its id, and what to tell the user.
    Created { label: String, notice: String },
    /// There is no session; the words for it.
    Failed { message: String },
    /// The daemon answered with a frame that makes no sense here.
    Unexpected { frame: Frame },
}

/// An outcome as a mathematical value.
#[verifier::ext_equal]
pub enum OutcomeModel {
    Send { frame: FrameModel },
    Attached { label: Seq<char>, notice: Seq<char> },
    Created { label: Seq<char>, notice: Seq<char> },
    Failed { message: Seq<char> },
    Unexpected { frame: FrameModel },
}

impl View for Outcome {
    type V = OutcomeModel;

    open spec fn view(&self) -> OutcomeModel {
        match self {
            Outcome::Send { frame } => OutcomeModel::Send { frame: frame@ },
            Outcome::Attached { label, notice } => OutcomeModel::Attached {
                label: label@,
                notice: notice@,
            },
            Outcome::Created { label, notice } => OutcomeModel::Created {
                label: label@,
                notice: notice@,
            },
            Outcome::Failed { message } => OutcomeModel::Failed { message: message@ },
            Outcome::Unexpected { frame } => OutcomeModel::Unexpected { frame: frame@ },
        }
    }
}

/// How the client came to its session, when it did.
pub open spec fn entry_of(o: OutcomeModel) -> Option<Entry> {
    match o {
        OutcomeModel::Attached { .. } => Some(Entry::Attached),
        OutcomeModel::Created { .. } => Some(Entry::Created),
        _ => None,
    }
}

impl Outcome {
    /// How the client came to its session, when it did.
    pub fn entry(&self) -> (r: Option<Entry>)
        ensures
            r == entry_of(self@),
    {
        match self {
            Outcome::Attached { .. } => Some(Entry::Attached),
            Outcome::Created { .. } => Some(Entry::Created),
            _ => None,
        }
    }
}

/// The words for a new session.
pub open spec fn created_notice(name: Seq<char>, id: Seq<char>) -> Seq<char> {
    if name.len() == 0 {
        "session created: id "@ + id
    } else {
        "session created: "@ + name + " (id "@ + id + ")"@
    }
}

/// The words for a new session, by its name, which may be empty, and its id.
pub fn created_text(name: &str, id: &str) -> (s: String)
    ensures
        s@ == created_notice(name@, id@),
{
    if name.is_empty() {
        joined("session created: id ", id)
    } else {
        let mut s: String = joined("session created: ", name);
        s.append(" (id ");
        s.append(id);
        s.append(")");
        s
    }
}

/// The request that makes a session.
pub open spec fn creation(n: NegotiationModel) -> FrameModel {
    FrameModel::NewSession { name: n.session_name }
}

/// How a talk begins.
pub open spec fn opening(target: Option<Seq<char>>, force_new: bool) -> (
    NegotiationModel,
    FrameModel,
) {
    let session_name = match target {
        Some(t) => t,
        None => Seq::empty(),
    };
    let attaching = target is Some && !force_new;
    let n = NegotiationModel { session_name, attaching };
    (
        n,
        if attaching {
            FrameModel::Attach { session: session_name }
        } else {
            creation(n)
        },
    )
}

/// What the daemon's reply comes to, and where the talk stands after it.
pub open spec fn talk_step(
    n: NegotiationModel,
    reply: Option<Result<FrameModel, Seq<char>>>,
) -> (NegotiationModel, OutcomeModel) {
    let create = NegotiationModel { session_name: n.session_name, attaching: false };
    match expected(reply) {
        Err(message) => (n, OutcomeModel::Failed { message }),
        Ok(FrameModel::Okay) if n.attaching => (
            n,
            OutcomeModel::Attached { label: n.session_name, notice: "[attached]"@ },
        ),
        Ok(FrameModel::Error { message }) if n.attaching && occurs(message, "no such session"@) => (
            create,
            OutcomeModel::Send { frame: creation(n) },
        ),
        Ok(FrameModel::SessionCreated { id }) if !n.attaching => (
            n,
            OutcomeModel::Created { label: id, notice: created_notice(n.session_name, id) },
        ),
        Ok(FrameModel::Error { message }) => (n, OutcomeModel::Failed { message }),
        Ok(frame) => (n, OutcomeModel::Unexpected { frame }),
    }
}

impl Negotiation {
    /// Begins the talk; the frame is the first request.
    pub fn start(target: Option<String>, force_new: bool) -> (r: (Negotiation, Frame))
        ensures
            (r.0@, r.1@) == opening(
                match target {
                    Some(t) => Some(t@),
                    None => None,
                },
                force_new,
            ),
    {
        match target {
            Some(t) => {
                if force_new {
                    (
                        Negotiation { session_name: t.clone(), attaching: false },
                        Frame::NewSession { name: t },
                    )
                } else {
                    (
                        Negotiation { session_name: t.clone(), attaching: true },
                        Frame::Attach { session: t },
                    )
                }
            },
            None => (
                Negotiation { session_name: String::new(), attaching: false },
                Frame::NewSession { name: String::new() },
            ),
        }
    }

    /// Takes the daemon's reply to the last request.
    pub fn reply(&mut self, result: Option<Result<Frame, String>>) -> (o: Outcome)
        ensures
            (final(self)@, o@) == talk_step(old(self)@, received(result)),
    {
        match Frame::expect_from(result) {
            Err(message) => Outcome::Failed { message },
            Ok(frame) => {
                if self.attaching {
                    self.reply_to_attach(frame)
                } else {
                    match frame {
                        Frame::SessionCreated { id } => {
                            let notice = created_text(self.session_name.as_str(), id.as_str());
                            Outcome::Created { label: id, notice }
                        },
                        Frame::Error { message } => Outcome::Failed { message },
                        other => Outcome::Unexpected { frame: other },
                    }
                }
            },
        }
    }

    fn reply_to_attach(&mut self, frame: Frame) -> (o: Outcome)
        requires
            old(self).attaching,
        ensures
            (final(self)@, o@) == talk_step(
                old(self)@,
                Some(Ok::<FrameModel, Seq<char>>(frame@)),
            ),
    {
        match frame {
            Frame::Okay => Outcome::Attached {
                label: self.session_name.clone(),
                notice: "[attached]".to_owned(),
            },
            Frame::Error { message } => {
                let text = chars_of(message.as_str());
                let missing = chars_of("no such session");
                if contains_text(text.as_slice(), missing.as_slice()) {
                    self.attaching = false;
                    Outcome::Send { frame: Frame::NewSession { name: self.session_name.clone() } }
                } else {
                    Outcome::Failed { message }
                }
            },
            other => Outcome::Unexpected { frame: other },
        }
    }
}

/// A target that the daemon does not know is recognised by its refusal.
proof fn lemma_refusal_recognised(target: Seq<char>)
    ensures
        occurs("no such session: "@ + target, "no such session"@),
{
    reveal_strlit("no such session: ");
    reveal_strlit("no such session");
    let s = "no such session: "@ + target;
    let pat = "no such session"@;
    assert(s.subrange(0, pat.len() as int) =~= pat);
    assert(stands_at(s, pat, 0));
}

/// Asking for a session by name ends with that session: with the existing one, when the
/// daemon knows it and it takes clients, and with a new one otherwise. Making it cannot
/// fail then, for nothing bears the name.
pub proof fn law_attach_or_create(d: DaemonModel, target: Seq<char>)
    requires
        in_order(d),
        d.next_id < u32::MAX,
    ensures
        ({
            let (n, request) = opening(Some(target), false);
            let first = control_step(d, request);
            let (n2, outcome) = talk_step(n, Some(Ok::<FrameModel, Seq<char>>(first.reply)));
            match outcome {
                OutcomeModel::Attached { label, .. } => {
                    &&& label == target
                    &&& resolve(reaped(d.sessions), target) matches Some(id)
                        && first.action == (ActionModel::HandOver { id })
                },
                OutcomeModel::Send { frame } => {
                    let second = control_step(first.after, frame);
                    let (_, last) = talk_step(
                        n2,
                        Some(Ok::<FrameModel, Seq<char>>(second.reply)),
                    );
                    &&& second.action is Start
                    &&& second.action->Start_id == d.next_id
                    &&& last == (OutcomeModel::Created {
                        label: decimal(d.next_id as nat),
                        notice: created_notice(target, decimal(d.next_id as nat)),
                    })
                },
                _ => false,
            }
        }),
{
    lemma_refusal_recognised(target);
    let t = reaped(d.sessions);
    let first = control_step(d, FrameModel::Attach { session: target });
    assert(names_unique(t)) by {
        assert forall|a: u32, b: u32|
            #![trigger t.contains_key(a), t.contains_key(b)]
            t.contains_key(a) && t.contains_key(b) && t[a].name is Some && t[a].name
                == t[b].name implies a == b by {
            assert(d.sessions.contains_key(a) && d.sessions.contains_key(b));
        }
    }
    if first.reply is Error {
        assert forall|x: u32| !#[trigger] named(first.after.sessions, x, target) by {
            if named(first.after.sessions, x, target) {
                assert(named(t, x, target));
                assert(name_taken(t, target));
                let id = resolve(t, target)->0;
                assert(named(t, id, target));
                assert(t.contains_key(x) && t.contains_key(id));
            }
        }
    }
}

/// Insisting on a new session under a name that is taken fails, and the user learns that
/// the name exists.
pub proof fn law_force_new_refuses_taken_name(d: DaemonModel, target: Seq<char>)
    requires
        target.len() > 0,
        name_taken(d.sessions, target),
    ensures
        ({
            let (n, request) = opening(Some(target), true);
            let answer = control_step(d, request);
            talk_step(n, Some(Ok::<FrameModel, Seq<char>>(answer.reply))).1 == (
            OutcomeModel::Failed { message: "session name already exists: "@ + target })
                && answer.after == d
        }),
{
}

} // verus!
