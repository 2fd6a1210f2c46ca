//! How a client comes to its session, said of the requests and the replies.

use vstd::prelude::*;

use crate::client::Entry;
use crate::negotiation::{
    created_text, opening, talk_step, Negotiation, NegotiationModel, Outcome, OutcomeModel,
};
use crate::protocol::{Frame, FrameModel};
use crate::text_laws::law_pattern_occurs;

verus! {

/// Who names a session asks to attach to it, unless a new one is insisted on. Who names
/// none, or insists, asks for a new one under the name that was given.
pub proof fn law_first_request(target: Option<String>, force_new: bool, r: (Negotiation, Frame))
    requires
        call_ensures(Negotiation::start, (target, force_new), r),
    ensures
        r.0.attaching <==> target is Some && !force_new,
        match target {
            Some(t) => r.0.session_name@ == t@ && r.1@ == if force_new {
                FrameModel::NewSession { name: t@ }
            } else {
                FrameModel::Attach { session: t@ }
            },
            None => r.0.session_name@.len() == 0 && (r.1@ matches FrameModel::NewSession { name }
                && name.len() == 0),
        },
{
}

/// The daemon's okay to a request to attach ends the talk: the client is attached to the
/// session that was asked for.
pub proof fn law_okay_attaches(n: NegotiationModel)
    requires
        n.attaching,
    ensures
        talk_step(n, Some(Ok::<FrameModel, Seq<char>>(FrameModel::Okay))) == (
            n,
            OutcomeModel::Attached { label: n.session_name, notice: "[attached]"@ },
        ),
{
}

/// A session that the daemon does not know is asked for as a new one, under the same name.
/// Any other refusal ends the talk in the daemon's words, and so does every refusal of a
/// new session.
pub proof fn law_refusals_in_a_talk(
    n: NegotiationModel,
    message: Seq<char>,
    before: Seq<char>,
    after: Seq<char>,
)
    ensures
        ({
            let reply = FrameModel::Error { message };
            let step = talk_step(n, Some(Ok::<FrameModel, Seq<char>>(reply)));
            &&& n.attaching && message == before + "no such session"@ + after ==> step == (
                NegotiationModel { session_name: n.session_name, attaching: false },
                OutcomeModel::Send { frame: FrameModel::NewSession { name: n.session_name } },
            )
            &&& !n.attaching || !(exists|a: Seq<char>, b: Seq<char>|
                message == #[trigger] (a + "no such session"@ + b)) ==> step == (
                n,
                OutcomeModel::Failed { message },
            )
        }),
{
    law_pattern_occurs(message, "no such session"@);
}

/// A session that was made for the client is told with its id, and with its name where it
/// has one.
pub proof fn law_created_session_is_told(n: NegotiationModel, id: Seq<char>)
    requires
        !n.attaching,
    ensures
        talk_step(n, Some(Ok::<FrameModel, Seq<char>>(FrameModel::SessionCreated { id }))) == (
            n,
            OutcomeModel::Created {
                label: id,
                notice: if n.session_name.len() == 0 {
                    "session created: id "@ + id
                } else {
                    "session created: "@ + n.session_name + " (id "@ + id + ")"@
                },
            },
        ),
{
}

/// A frame that answers another request than the last one is handed back; a connection that
/// failed or ended ends the talk in words.
pub proof fn law_what_makes_no_sense_in_a_talk(
    n: NegotiationModel,
    f: FrameModel,
    words: Seq<char>,
)
    ensures
        !(f is Error) && !(f is Okay && n.attaching) && !(f is SessionCreated && !n.attaching)
            ==> talk_step(n, Some(Ok::<FrameModel, Seq<char>>(f))) == (
            n,
            OutcomeModel::Unexpected { frame: f },
        ),
        talk_step(n, Some(Err::<FrameModel, Seq<char>>(words))) == (
            n,
            OutcomeModel::Failed { message: "daemon protocol error: "@ + words },
        ),
        talk_step(n, None) == (n, OutcomeModel::Failed { message: "daemon closed connection"@ }),
{
}

/// An outcome tells how the client came to its session: attached to one that was there, or
/// to one that was made. Every other outcome tells that it has none.
pub proof fn law_entry_tells_how(o: Outcome, r: Option<Entry>)
    requires
        call_ensures(Outcome::entry, (&o,), r),
    ensures
        r == Some(Entry::Attached) <==> o is Attached,
        r == Some(Entry::Created) <==> o is Created,
{
}

/// The words for a new session hold its id and its name.
pub proof fn law_created_text(name: &str, id: &str, s: String)
    requires
        call_ensures(created_text, (name, id), s),
    ensures
        name@.len() == 0 ==> s@ == "session created: id "@ + id@,
        name@.len() > 0 ==> s@ == "session created: "@ + name@ + " (id "@ + id@ + ")"@,
{
}

/// Who names no session is given a new one: no reply makes the talk ask for anything else.
pub proof fn law_new_session_is_asked_for_once(
    n: NegotiationModel,
    reply: Option<Result<FrameModel, Seq<char>>>,
)
    ensures
        opening(None, true).1 == opening(None, false).1,
        !n.attaching ==> !(talk_step(n, reply).1 is Send) && talk_step(n, reply).0 == n,
        talk_step(n, reply).1 is Send ==> !talk_step(n, reply).0.attaching,
{
}

} // verus!
