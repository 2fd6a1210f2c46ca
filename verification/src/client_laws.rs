//! What a client does on every event, said of its inputs and results.

use vstd::prelude::*;

use crate::client::{
    client_step, forwarded_env, frames, reconnect, relay_opening, scan_bytes, write_step,
    ClientActionModel, ClientEventModel, ClientRelay, Entry, EscapeReader, ReconnectAction,
    ReconnectEvent, Scan, StdoutWrite, WriteAction, WriteEvent, HEARTBEAT_INTERVAL_MS,
    HEARTBEAT_TIMEOUT_MS, RECONNECT_DELAY_MS, SEND_TIMEOUT_MS,
};
use crate::collect_env_vars;
use crate::protocol::{pairs, Frame, FrameModel};
use crate::server::{session_step, ActionModel, EventModel, Phase, Session};

verus! {

// ---------------------------------------------------------------------------
// Opening
// ---------------------------------------------------------------------------

/// The opening of a relay tells the terminal's own size, once. The variables come first
/// where there are any, all of them, and Ctrl-L comes last where the screen is to be drawn
/// anew. There is nothing else in it.
pub proof fn law_opening_tells_the_size(
    vars: Vec<(String, String)>,
    cols: u16,
    rows: u16,
    redraw: bool,
    out: Vec<Frame>,
)
    requires
        call_ensures(relay_opening, (vars, cols, rows, redraw), out),
    ensures
        ({
            let env: int = if vars@.len() > 0 {
                1
            } else {
                0
            };
            let keys: int = if redraw {
                1
            } else {
                0
            };
            &&& out@.len() == env + 1 + keys
            &&& vars@.len() > 0 ==> out@[0]@ == (FrameModel::Env { vars: pairs(vars@) })
            &&& out@[env]@ == (FrameModel::Resize { cols, rows })
            &&& redraw ==> out@[env + 1]@ == FrameModel::Data(seq![0x0c])
            &&& forall|i: int|
                0 <= i < out@.len() && i != env ==> !((#[trigger] out@[i])@ is Resize)
        }),
{
    let f = frames(out@);
    assert(f.len() == out@.len());
    assert(forall|i: int| 0 <= i < out@.len() ==> f[i] == (#[trigger] out@[i])@);
    assert(pairs(vars@).len() == vars@.len());
}

/// The size in the opening of a relay becomes the size of the session's terminal.
pub proof fn law_opening_sets_the_terminal(
    vars: Vec<(String, String)>,
    cols: u16,
    rows: u16,
    redraw: bool,
    out: Vec<Frame>,
    i: int,
    s: Session,
    now: u64,
)
    requires
        call_ensures(relay_opening, (vars, cols, rows, redraw), out),
        0 <= i < out@.len(),
        out@[i]@ is Resize,
        s.phase == Phase::Relaying,
        1 <= cols <= 10_000,
        1 <= rows <= 10_000,
    ensures
        session_step(s, EventModel::ClientFrame { frame: out@[i]@ }, now) == (
            s,
            ActionModel::SetSize { cols, rows },
        ),
{
    law_opening_tells_the_size(vars, cols, rows, redraw, out);
}

/// A session that was made for the client gets every variable that was collected, and one
/// that was there before gets none.
pub proof fn law_env_goes_to_new_sessions(
    entry: Entry,
    collected: Vec<(String, String)>,
    vars: Vec<(String, String)>,
)
    requires
        call_ensures(forwarded_env, (entry, collected), vars),
    ensures
        entry == Entry::Created ==> pairs(vars@) == pairs(collected@),
        entry == Entry::Attached ==> vars@.len() == 0,
{
    assert(pairs(vars@).len() == vars@.len());
}

/// Each of the three variables that are forwarded is there with its value exactly where it
/// is set, in a fixed order, and there is no other.
pub proof fn law_collected_variables(
    term: Option<String>,
    lang: Option<String>,
    colorterm: Option<String>,
    vars: Vec<(String, String)>,
)
    requires
        call_ensures(collect_env_vars, (term, lang, colorterm), vars),
    ensures
        ({
            let one = |o: Option<String>| -> int { if o is Some { 1 } else { 0 } };
            let v = vars@;
            &&& v.len() == one(term) + one(lang) + one(colorterm)
            &&& term matches Some(t) ==> v[0].0@ == "TERM"@ && v[0].1@ == t@
            &&& lang matches Some(l) ==> v[one(term)].0@ == "LANG"@ && v[one(term)].1@ == l@
            &&& colorterm matches Some(c) ==> v.last().0@ == "COLORTERM"@ && v.last().1@ == c@
        }),
{
    let p = pairs(vars@);
    assert(p.len() == vars@.len());
    assert(forall|i: int| 0 <= i < vars@.len() ==> p[i] == ((#[trigger] vars@[i]).0@, vars@[i].1@));
}

// ---------------------------------------------------------------------------
// Escape sequences
// ---------------------------------------------------------------------------

/// A byte that introduces nothing is forwarded as it is and changes nothing else.
pub proof fn law_plain_byte_is_forwarded(s: Scan, b: u8)
    requires
        !s.detach,
        !s.pending,
        b != 0x7e,
    ensures
        scan_bytes(s, seq![b]) == (Scan {
            forward: s.forward.push(b),
            helps: s.helps,
            detach: false,
            pending: false,
        }),
{
    assert(seq![b].drop_last() =~= Seq::empty());
    reveal_with_fuel(scan_bytes, 2);
}

/// A tilde is held back until the byte behind it is known.
pub proof fn law_tilde_is_held_back(s: Scan)
    requires
        !s.detach,
        !s.pending,
    ensures
        scan_bytes(s, seq![0x7eu8]) == (Scan {
            forward: s.forward,
            helps: s.helps,
            detach: false,
            pending: true,
        }),
{
    assert(seq![0x7eu8].drop_last() =~= Seq::empty());
    reveal_with_fuel(scan_bytes, 2);
}

/// Behind a tilde a dot detaches and a question mark asks for help, and neither is
/// forwarded. Any other byte is forwarded with the tilde in front of it, a second tilde
/// too.
pub proof fn law_byte_behind_a_tilde(s: Scan, b: u8)
    requires
        !s.detach,
        s.pending,
    ensures
        scan_bytes(s, seq![b]) == (if b == 0x2e {
            Scan { forward: s.forward, helps: s.helps, detach: true, pending: false }
        } else if b == 0x3f {
            Scan {
                forward: s.forward,
                helps: s.helps + 1,
                detach: false,
                pending: false,
            }
        } else {
            Scan {
                forward: s.forward + seq![0x7eu8, b],
                helps: s.helps,
                detach: false,
                pending: false,
            }
        }),
{
    assert(seq![b].drop_last() =~= Seq::empty());
    reveal_with_fuel(scan_bytes, 2);
    assert(s.forward.push(0x7e).push(b) =~= s.forward + seq![0x7eu8, b]);
}

/// Nothing is read any more once the user wants to detach, and reading nothing changes
/// nothing.
pub proof fn law_nothing_is_read_after_detaching(s: Scan, input: Seq<u8>)
    requires
        s.detach || input.len() == 0,
    ensures
        scan_bytes(s, input) == s,
    decreases input.len(),
{
    if input.len() > 0 {
        law_nothing_is_read_after_detaching(s, input.drop_last());
    }
}

/// Reading never takes back what was forwarded, and forwards no more bytes than were read,
/// but for a tilde that was held back before.
pub proof fn law_reading_only_adds(s: Scan, input: Seq<u8>)
    ensures
        scan_bytes(s, input).forward.len() >= s.forward.len(),
        scan_bytes(s, input).forward.take(s.forward.len() as int) == s.forward,
        scan_bytes(s, input).helps >= s.helps,
    decreases input.len(),
{
    if input.len() > 0 {
        let before = scan_bytes(s, input.drop_last());
        law_reading_only_adds(s, input.drop_last());
        let after = scan_bytes(s, input);
        assert(after.forward.take(before.forward.len() as int) =~= before.forward);
        assert(after.forward.take(s.forward.len() as int) =~= before.forward.take(
            s.forward.len() as int,
        ));
    } else {
        assert(s.forward.take(s.forward.len() as int) =~= s.forward);
    }
}

// ---------------------------------------------------------------------------
// Relaying
// ---------------------------------------------------------------------------

/// A client begins with no key held back, with escape sequences unless they are off, and
/// with a connection that counts as alive.
pub proof fn law_client_begins(no_escape: bool, now: u64, c: ClientRelay)
    requires
        call_ensures(ClientRelay::new, (no_escape, now), c),
    ensures
        c.keys.enabled == !no_escape,
        !c.keys.pending,
        c.last_pong == now,
{
}

/// Keys go to the server as the escape sequences leave them, in one frame where anything is
/// left. Help and detaching are passed on, and a tilde at the end is held back. Without
/// escape sequences every byte goes. The end of the keyboard ends the client in good order.
pub proof fn law_keys_are_passed_on(c: ClientRelay, data: Seq<u8>, now: u64)
    ensures
        ({
            let (after, action) = client_step(c, ClientEventModel::Keys { data }, now);
            let s = scan_bytes(
                Scan {
                    forward: Seq::empty(),
                    helps: 0,
                    detach: false,
                    pending: c.keys.pending,
                },
                data,
            );
            &&& after.last_pong == c.last_pong
            &&& after.keys.enabled == c.keys.enabled
            &&& data.len() == 0 ==> after == c && action == (ClientActionModel::Exit { code: 0 })
            &&& data.len() > 0 && !c.keys.enabled ==> after == c && action == (
            ClientActionModel::Typed {
                frame: Some(FrameModel::Data(data)),
                help: false,
                detach: false,
            })
            &&& data.len() > 0 && c.keys.enabled ==> {
                &&& after.keys.pending == s.pending
                &&& action matches ClientActionModel::Typed { frame, help, detach } && {
                    &&& help == (s.helps > 0)
                    &&& detach == s.detach
                    &&& s.forward.len() == 0 ==> frame is None
                    &&& s.forward.len() > 0 ==> frame == Some(FrameModel::Data(s.forward))
                }
            }
        }),
{
}

/// What the server sends is printed byte for byte; its exit code is the client's; being
/// detached ends the client in good order; a pong is noted with its time; everything else
/// means nothing.
pub proof fn law_server_frames(c: ClientRelay, data: Seq<u8>, code: i32, f: FrameModel, now: u64)
    ensures
        client_step(c, ClientEventModel::Server { frame: FrameModel::Data(data) }, now) == (
            c,
            ClientActionModel::Print { data },
        ),
        client_step(c, ClientEventModel::Server { frame: FrameModel::Exit { code } }, now) == (
            c,
            ClientActionModel::Exit { code },
        ),
        client_step(c, ClientEventModel::Server { frame: FrameModel::Detached }, now) == (
            c,
            ClientActionModel::Exit { code: 0 },
        ),
        client_step(c, ClientEventModel::Server { frame: FrameModel::Pong }, now) == (
            ClientRelay { keys: c.keys, last_pong: now },
            ClientActionModel::Nothing,
        ),
        !(f is Data) && !(f is Exit) && !(f is Detached) && !(f is Pong) ==> client_step(
            c,
            ClientEventModel::Server { frame: f },
            now,
        ) == (c, ClientActionModel::Nothing),
{
}

/// A new size of the window is sent as it is. A lost connection and a frame that could not
/// be sent lead to a new connection, and so does a silence of more than fifteen seconds;
/// until then each tick sends a ping. A keyboard that fails ends the client with an error.
pub proof fn law_other_client_events(c: ClientRelay, cols: u16, rows: u16, now: u64)
    ensures
        client_step(c, ClientEventModel::Resized { cols, rows }, now) == (
            c,
            ClientActionModel::Send { frame: FrameModel::Resize { cols, rows } },
        ),
        client_step(c, ClientEventModel::ServerLost, now) == (c, ClientActionModel::Reconnect),
        client_step(c, ClientEventModel::SendFailed, now) == (c, ClientActionModel::Reconnect),
        client_step(c, ClientEventModel::KeysFailed, now) == (c, ClientActionModel::Fail),
        client_step(c, ClientEventModel::Tick, now) == (
            c,
            if now > c.last_pong + 15_000 {
                ClientActionModel::Reconnect
            } else {
                ClientActionModel::Send { frame: FrameModel::Ping }
            },
        ),
{
}

/// A new size of the client's window becomes the size of the session's terminal.
pub proof fn law_window_size_reaches_the_terminal(
    c: ClientRelay,
    s: Session,
    cols: u16,
    rows: u16,
    now: u64,
    later: u64,
)
    requires
        s.phase == Phase::Relaying,
        1 <= cols <= 10_000,
        1 <= rows <= 10_000,
    ensures
        client_step(c, ClientEventModel::Resized { cols, rows }, now).1
            matches ClientActionModel::Send { frame } && session_step(
            s,
            EventModel::ClientFrame { frame },
            later,
        ) == (s, ActionModel::SetSize { cols, rows }),
{
}

/// The client pings often enough that three pings fit into the silence that counts as
/// dead, and every wait has its length.
pub proof fn law_client_waits()
    ensures
        HEARTBEAT_INTERVAL_MS == 5_000,
        HEARTBEAT_TIMEOUT_MS == 15_000,
        SEND_TIMEOUT_MS == 5_000,
        RECONNECT_DELAY_MS == 1_000,
{
}

// ---------------------------------------------------------------------------
// Reconnecting
// ---------------------------------------------------------------------------

/// Relaying is resumed when, and only when, the daemon says okay to the request to attach.
/// Every other outcome of a try is followed by another one second later.
pub proof fn law_reconnect_until_attached(e: ReconnectEvent, a: ReconnectAction)
    requires
        call_ensures(reconnect, (e,), a),
    ensures
        a == ReconnectAction::Resume <==> (e matches ReconnectEvent::Replied { result } && (
        result matches Some(Ok(f)) && f@ == FrameModel::Okay)),
        !(e is Keys) && a != ReconnectAction::Resume ==> a == (ReconnectAction::RetryAfter {
            ms: 1_000,
        }),
{
    if let ReconnectEvent::Replied { result } = e {
        if let Some(Ok(f)) = result {
            assert(f@ == FrameModel::Okay <==> f is Okay);
        }
    }
}

/// Keys that are typed while the client reconnects do nothing, but for Ctrl-C, which ends
/// it with the code for an interrupt, wherever among the keys it stands.
pub proof fn law_reconnect_can_be_interrupted(
    data: Vec<u8>,
    before: Seq<u8>,
    after: Seq<u8>,
    a: ReconnectAction,
)
    requires
        call_ensures(reconnect, (ReconnectEvent::Keys { data },), a),
    ensures
        data@ == before + seq![0x03u8] + after ==> a == (ReconnectAction::Exit { code: 130 }),
        (forall|i: int| 0 <= i < data@.len() ==> data@[i] != 0x03) ==> a
            == ReconnectAction::KeepTrying,
{
    if data@ == before + seq![0x03u8] + after {
        assert(data@[before.len() as int] == 0x03);
    }
}

// ---------------------------------------------------------------------------
// Writing to the terminal
// ---------------------------------------------------------------------------

/// Writing begins at the front, goes on behind what was taken, lets others run where the
/// stream takes nothing for now, tries again after a signal, and is flushed when, and only
/// when, everything is written. A broken stream ends it.
pub proof fn law_writing_goes_on(w: StdoutWrite, n: usize)
    requires
        w.written <= w.total,
        n <= w.total - w.written,
    ensures
        write_step(w, WriteEvent::Wrote { n }).0.written == w.written + n,
        write_step(w, WriteEvent::Wrote { n }).0.total == w.total,
        write_step(w, WriteEvent::Wrote { n }).1 == (if w.written + n == w.total {
            WriteAction::Flush
        } else {
            WriteAction::Write { from: (w.written + n) as usize }
        }),
        write_step(w, WriteEvent::WouldBlock) == (
            w,
            WriteAction::YieldAndWrite { from: w.written },
        ),
        write_step(w, WriteEvent::Interrupted) == (w, WriteAction::Write { from: w.written }),
        write_step(w, WriteEvent::Failed) == (w, WriteAction::Fail),
{
}

/// Writing nothing is flushed at once, and anything else is written from the front.
pub proof fn law_writing_begins_at_the_front(total: usize, r: (StdoutWrite, WriteAction))
    requires
        call_ensures(StdoutWrite::start, (total,), r),
    ensures
        r.0.written == 0,
        r.0.total == total,
        total == 0 ==> r.1 == WriteAction::Flush,
        total > 0 ==> r.1 == (WriteAction::Write { from: 0 }),
{
}

/// No more counts as written than there is to write: an attempt that claims more is taken
/// as one that wrote the rest.
pub proof fn law_no_more_is_written_than_there_is(w: StdoutWrite, n: usize)
    requires
        w.written + n > w.total,
    ensures
        write_step(w, WriteEvent::Wrote { n }) == (
            StdoutWrite { written: w.total, total: w.total },
            WriteAction::Flush,
        ),
{
}

/// A keyboard reader begins with nothing held back, and looks for escape sequences where it
/// is told to.
pub proof fn law_keyboard_reader_begins(enabled: bool, r: EscapeReader)
    requires
        call_ensures(EscapeReader::new, (enabled,), r),
    ensures
        r.enabled == enabled,
        !r.pending,
{
}

} // verus!
