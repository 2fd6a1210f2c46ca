//! Watching over the SSH tunnel: when to start it again, and when to give up.

use vstd::prelude::*;

verus! {

/// Exits older than this many nanoseconds do not count any more.
pub const RATE_WINDOW_NS: u64 = 10_000_000_000;

/// This many exits within the window are too many.
pub const MAX_EXITS: usize = 5;

/// How long to wait before the tunnel is started again, in milliseconds.
pub const RESPAWN_DELAY_MS: u64 = 1_000;

/// The code with which SSH reports a connection error.
pub const SSH_CONNECTION_ERROR: i32 = 255;

/// How the tunnel's process ended.
#[derive(Debug, Clone, Copy, PartialEq, Eq, Structural)]
pub enum TunnelExit {
    /// It could not be waited for.
    WaitFailed,
    /// It ended with a code.
    Code { code: i32 },
    /// It was ended by a signal.
    Signalled,
}

/// What happens around the tunnel.
#[derive(Debug, Clone, Copy, PartialEq, Eq, Structural)]
pub enum TunnelEvent {
    /// The tunnel is not wanted any more.
    StopRequested,
    /// The tunnel's process ended at the time `now`, in nanoseconds. `stopping` says
    /// whether the tunnel is not wanted any more.
    Exited { exit: TunnelExit, stopping: bool, now: u64 },
    /// The pause before a new start is over.
    Paused { stopping: bool },
    /// The tunnel was started again, or could not be.
    Respawned { ok: bool },
}

/// Why the tunnel is left alone.
#[derive(Debug, Clone, Copy, PartialEq, Eq, Structural)]
pub enum EndReason {
    Stopped,
    WaitFailed,
    NotTransient { code: i32 },
    TooFast,
    RespawnFailed,
}

/// What to do next about the tunnel.
#[derive(Debug, Clone, Copy, PartialEq, Eq, Structural)]
pub enum TunnelAction {
    /// Wait for the tunnel's process to end.
    Watch,
    /// Kill the tunnel's process and end.
    Kill,
    /// Wait for this many milliseconds.
    Pause { ms: u64 },
    /// Start the tunnel again.
    Respawn,
    /// Do nothing more.
    End { why: EndReason },
}

/// The times that lie less than the window before `now`.
pub open spec fn recent(times: Seq<u64>, now: u64) -> Seq<u64>
    decreases times.len(),
{
    if times.len() == 0 {
        times
    } else {
        let before = recent(times.drop_last(), now);
        if now - times.last() < RATE_WINDOW_NS {
            before.push(times.last())
        } else {
            before
        }
    }
}

/// The exit may be followed by a new start: SSH lost its connection, or was ended by a
/// signal.
pub open spec fn transient(exit: TunnelExit) -> bool {
    match exit {
        TunnelExit::WaitFailed => false,
        TunnelExit::Code { code } => code == SSH_CONNECTION_ERROR,
        TunnelExit::Signalled => true,
    }
}

/// The exit times that are remembered after an event, and what to do next.
pub open spec fn tunnel_step(times: Seq<u64>, e: TunnelEvent) -> (Seq<u64>, TunnelAction) {
    match e {
        TunnelEvent::StopRequested => (times, TunnelAction::Kill),
        TunnelEvent::Exited { exit, stopping, now } => if exit == TunnelExit::WaitFailed {
            (times, TunnelAction::End { why: EndReason::WaitFailed })
        } else if stopping {
            (times, TunnelAction::End { why: EndReason::Stopped })
        } else if !transient(exit) {
            (times, TunnelAction::End { why: EndReason::NotTransient { code: exit->code } })
        } else {
            let kept = recent(times.push(now), now);
            if kept.len() >= MAX_EXITS {
                (kept, TunnelAction::End { why: EndReason::TooFast })
            } else {
                (kept, TunnelAction::Pause { ms: RESPAWN_DELAY_MS })
            }
        },
        TunnelEvent::Paused { stopping } => if stopping {
            (times, TunnelAction::End { why: EndReason::Stopped })
        } else {
            (times, TunnelAction::Respawn)
        },
        TunnelEvent::Respawned { ok } => if ok {
            (times, TunnelAction::Watch)
        } else {
            (times, TunnelAction::End { why: EndReason::RespawnFailed })
        },
    }
}

fn keep_recent(times: &Vec<u64>, now: u64) -> (kept: Vec<u64>)
    ensures
        kept@ == recent(times@, now),
{
    let mut kept: Vec<u64> = Vec::new();
    let mut i: usize = 0;
    while i < times.len()
        invariant
            i <= times@.len(),
            kept@ == recent(times@.take(i as int), now),
        decreases times@.len() - i,
    {
        let t: u64 = times[i];
        proof {
            let part = times@.take(i + 1);
            assert(part.drop_last() =~= times@.take(i as int));
            assert(part.last() == t);
        }
        if t > now || now - t < RATE_WINDOW_NS {
            kept.push(t);
        }
        i = i + 1;
    }
    proof {
        assert(times@.take(i as int) =~= times@);
    }
    kept
}

/// The watch over a tunnel. It remembers when the tunnel's process ended lately.
#[derive(Debug)]
pub struct TunnelMonitor {
    pub exit_times: Vec<u64>,
}

impl TunnelMonitor {
    /// A watch over a tunnel that has not ended yet.
    pub fn new() -> (m: TunnelMonitor)
        ensures
            m.exit_times@ == Seq::<u64>::empty(),
    {
        TunnelMonitor { exit_times: Vec::new() }
    }

    /// Decides what to do next.
    pub fn step(&mut self, event: TunnelEvent) -> (a: TunnelAction)
        ensures
            (final(self).exit_times@, a) == tunnel_step(old(self).exit_times@, event),
    {
        match event {
            TunnelEvent::StopRequested => TunnelAction::Kill,
            TunnelEvent::Exited { exit, stopping, now } => {
                match exit {
                    TunnelExit::WaitFailed => {
                        return TunnelAction::End { why: EndReason::WaitFailed };
                    },
                    TunnelExit::Code { code } => {
                        if stopping {
                            return TunnelAction::End { why: EndReason::Stopped };
                        }
                        if code != SSH_CONNECTION_ERROR {
                            return TunnelAction::End { why: EndReason::NotTransient { code } };
                        }
                    },
                    TunnelExit::Signalled => {
                        if stopping {
                            return TunnelAction::End { why: EndReason::Stopped };
                        }
                    },
                }
                self.exit_times.push(now);
                let kept = keep_recent(&self.exit_times, now);
                let count: usize = kept.len();
                self.exit_times = kept;
                if count >= MAX_EXITS {
                    TunnelAction::End { why: EndReason::TooFast }
                } else {
                    TunnelAction::Pause { ms: RESPAWN_DELAY_MS }
                }
            },
            TunnelEvent::Paused { stopping } => {
                if stopping {
                    TunnelAction::End { why: EndReason::Stopped }
                } else {
                    TunnelAction::Respawn
                }
            },
            TunnelEvent::Respawned { ok } => {
                if ok {
                    TunnelAction::Watch
                } else {
                    TunnelAction::End { why: EndReason::RespawnFailed }
                }
            },
        }
    }
}

/// The exit times that are remembered after transient exits at the times `ts`.
pub open spec fn after_exits(ts: Seq<u64>) -> Seq<u64>
    decreases ts.len(),
{
    if ts.len() == 0 {
        ts
    } else {
        tunnel_step(
            after_exits(ts.drop_last()),
            TunnelEvent::Exited { exit: TunnelExit::Signalled, stopping: false, now: ts.last() },
        ).0
    }
}

/// Time does not run backwards.
pub open spec fn in_time(ts: Seq<u64>) -> bool {
    forall|i: int, j: int| 0 <= i <= j < ts.len() ==> ts[i] <= ts[j]
}

/// What is recent later is recent among what was recent before.
proof fn lemma_recent_twice(ts: Seq<u64>, earlier: u64, later: u64)
    requires
        earlier <= later,
    ensures
        recent(recent(ts, earlier), later) == recent(ts, later),
    decreases ts.len(),
{
    if ts.len() > 0 {
        lemma_recent_twice(ts.drop_last(), earlier, later);
        let part = recent(ts.drop_last(), earlier);
        if earlier - ts.last() < RATE_WINDOW_NS {
            assert(recent(ts, earlier) =~= part.push(ts.last()));
            assert(part.push(ts.last()).drop_last() =~= part);
        }
    }
}

/// The watch counts exactly the exits of the last ten seconds: it gives up on an exit
/// when, with this one, five lie within the window, and starts the tunnel again otherwise.
pub proof fn law_rate_limit(ts: Seq<u64>, exit: TunnelExit)
    requires
        in_time(ts),
        ts.len() > 0,
        transient(exit),
    ensures
        after_exits(ts) == recent(ts, ts.last()),
        tunnel_step(
            after_exits(ts.drop_last()),
            TunnelEvent::Exited { exit, stopping: false, now: ts.last() },
        ).1 == if recent(ts, ts.last()).len() >= MAX_EXITS {
            TunnelAction::End { why: EndReason::TooFast }
        } else {
            TunnelAction::Pause { ms: RESPAWN_DELAY_MS }
        },
    decreases ts.len(),
{
    let front = ts.drop_last();
    let now = ts.last();
    if front.len() > 0 {
        assert(in_time(front));
        law_rate_limit(front, exit);
        lemma_recent_twice(front, front.last(), now);
        assert(front.last() <= now);
    } else {
        assert(front =~= Seq::empty());
    }
    let kept = after_exits(front);
    assert(kept.push(now).drop_last() =~= kept);
    assert(recent(kept, now) == recent(front, now));
    assert(recent(kept.push(now), now) == recent(ts, now));
}

/// As long as the tunnel is kept up, fewer exits are remembered than are too many.
pub proof fn law_pause_means_few_exits(times: Seq<u64>, e: TunnelEvent)
    requires
        times.len() < MAX_EXITS,
        !(tunnel_step(times, e).1 is End),
    ensures
        tunnel_step(times, e).0.len() < MAX_EXITS,
{
}

} // verus!
