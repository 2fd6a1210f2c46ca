//! When the tunnel is started again, said of how and when it ended.

use vstd::prelude::*;

use crate::tunnel::{
    recent, tunnel_step, EndReason, TunnelAction, TunnelEvent, TunnelExit, TunnelMonitor, MAX_EXITS,
    RATE_WINDOW_NS, RESPAWN_DELAY_MS, SSH_CONNECTION_ERROR,
};

verus! {

/// What is recent is told of each time for itself: one that lies less than ten seconds
/// back, or ahead, stays, and any other goes. The order is kept.
pub proof fn law_recent_times(a: Seq<u64>, t: u64, now: u64)
    ensures
        recent(Seq::empty(), now).len() == 0,
        now < t + 10_000_000_000 ==> recent(a.push(t), now) == recent(a, now).push(t),
        now >= t + 10_000_000_000 ==> recent(a.push(t), now) == recent(a, now),
{
    assert(a.push(t).drop_last() =~= a);
}

/// A time is remembered exactly where it was there and lies less than ten seconds back.
pub proof fn law_only_recent_times_stay(times: Seq<u64>, now: u64, t: u64)
    ensures
        recent(times, now).contains(t) <==> times.contains(t) && now < t + 10_000_000_000,
        recent(times, now).len() <= times.len(),
    decreases times.len(),
{
    if times.len() > 0 {
        let front = times.drop_last();
        let kept = recent(front, now);
        law_only_recent_times_stay(front, now, t);
        if front.contains(t) {
            let k = choose|k: int| 0 <= k < front.len() && front[k] == t;
            assert(times[k] == t);
        }
        if times.contains(t) && t != times.last() {
            let k = choose|k: int| 0 <= k < times.len() && times[k] == t;
            assert(front[k] == t);
        }
        if t == times.last() {
            assert(times[times.len() - 1] == t);
        }
        let all = recent(times, now);
        if kept.contains(t) {
            let k = choose|k: int| 0 <= k < kept.len() && kept[k] == t;
            assert(all[k] == t);
        }
        if all.contains(t) && !kept.contains(t) {
            let k = choose|k: int| 0 <= k < all.len() && all[k] == t;
            assert(k == kept.len());
        }
        if now < times.last() + 10_000_000_000 {
            assert(all[kept.len() as int] == times.last());
        }
    }
}

/// A lost connection and a signal lead to a new start after a second, unless there were too
/// many exits lately or the tunnel is not wanted any more. The times that stay are the
/// recent ones with this exit.
pub proof fn law_lost_tunnel_is_started_again(times: Seq<u64>, exit: TunnelExit, now: u64)
    requires
        exit == (TunnelExit::Code { code: 255 }) || exit == TunnelExit::Signalled,
    ensures
        ({
            let (after, action) = tunnel_step(
                times,
                TunnelEvent::Exited { exit, stopping: false, now },
            );
            &&& after == recent(times, now).push(now)
            &&& after.len() < 5 ==> action == (TunnelAction::Pause { ms: 1_000 })
            &&& after.len() >= 5 ==> action == (TunnelAction::End { why: EndReason::TooFast })
        }),
{
    law_recent_times(times, now, now);
}

/// Any other code ends the watch at once and is told; so do a process that cannot be waited
/// for, and a tunnel that is not wanted any more. Nothing is remembered of these.
pub proof fn law_tunnel_is_left_alone(
    times: Seq<u64>,
    exit: TunnelExit,
    code: i32,
    stopping: bool,
    now: u64,
)
    ensures
        tunnel_step(times, TunnelEvent::StopRequested) == (times, TunnelAction::Kill),
        code != 255 ==> tunnel_step(
            times,
            TunnelEvent::Exited { exit: TunnelExit::Code { code }, stopping: false, now },
        ) == (times, TunnelAction::End { why: EndReason::NotTransient { code } }),
        exit != TunnelExit::WaitFailed ==> tunnel_step(
            times,
            TunnelEvent::Exited { exit, stopping: true, now },
        ) == (times, TunnelAction::End { why: EndReason::Stopped }),
        tunnel_step(
            times,
            TunnelEvent::Exited { exit: TunnelExit::WaitFailed, stopping, now },
        ) == (times, TunnelAction::End { why: EndReason::WaitFailed }),
{
}

/// After the pause the tunnel is started again, unless it is not wanted any more, and once
/// it runs it is watched as before.
pub proof fn law_tunnel_comes_back(times: Seq<u64>)
    ensures
        tunnel_step(times, TunnelEvent::Paused { stopping: false }) == (
            times,
            TunnelAction::Respawn,
        ),
        tunnel_step(times, TunnelEvent::Paused { stopping: true }) == (
            times,
            TunnelAction::End { why: EndReason::Stopped },
        ),
        tunnel_step(times, TunnelEvent::Respawned { ok: true }) == (times, TunnelAction::Watch),
        tunnel_step(times, TunnelEvent::Respawned { ok: false }) == (
            times,
            TunnelAction::End { why: EndReason::RespawnFailed },
        ),
{
}

/// A watch begins without exits, and its limits are five exits in ten seconds.
pub proof fn law_watch_begins(m: TunnelMonitor)
    requires
        call_ensures(TunnelMonitor::new, (), m),
    ensures
        m.exit_times@.len() == 0,
        RATE_WINDOW_NS == 10_000_000_000,
        MAX_EXITS == 5,
        RESPAWN_DELAY_MS == 1_000,
        SSH_CONNECTION_ERROR == 255,
{
}

} // verus!
