//! Connection statistics for a match, and what is done with them: the signal bars the HUD always
//! shows, the adaptive input delay, the overlay and a summary line for the log when the match ends.
//!
//! The session reports the ping, the frame advantage and its send queue; the frame loop shows the
//! rest: rollbacks and how deep they went (the simulation frame counter going backwards) and stalls
//! (the peer's inputs ran more than the prediction window behind, so no frame could be simulated
//! for a while).

use vstd::prelude::*;
use vstd::string::*;

use crate::clock::{elapsed, since, SECOND};
use crate::game::{MAX_PREDICTION, ROLLBACK_FPS};
use crate::settings::{frames_to_ms, ticks_in_ms, Settings, INPUT_DELAY_DEFAULT};
use crate::single::{nearest, round_div};
use crate::text::{decimal, eq, opt, owned, show, show_signed, show_with_sign, signed_decimal,
    with_sign};

verus! {

/// Length of a simulation tick, rounded down.
pub const TICK: u64 = 14_925_373;

/// Samples and records older than this are forgotten; the signal bars look this far back.
pub const WINDOW: u64 = 10_000_000_000;

/// The window the overlay's "recent" figures use.
pub const RECENT: u64 = 3_000_000_000;

/// A rendered frame longer than this is our own hitch (a hidden tab, a shader compile): the ticks
/// it owes are caught up in the same frame, and the peer's packets may just not be in yet.
pub const HITCH: u64 = 250_000_000;

/// A ping sample is kept when the value moved or this much time passed.
pub const PING_SAMPLE: u64 = 200_000_000;

/// A rollback at least this deep is a visible correction (the opponent jumps).
pub const ROLLBACK_BAD: i32 = 6;

/// Bounds of the adaptive input delay, in frames.
pub const ADAPTIVE_MIN: u8 = 1;

pub const ADAPTIVE_MAX: u8 = 6;

/// Frames of rollback the adaptive delay is content to leave on the opponent's side. Delay beyond
/// what covers the rest of the one-way latency only costs responsiveness.
pub const ADAPTIVE_TOLERANCE: i64 = 3;

/// A new target must hold this long before the delay follows it: quickly up, slowly down.
pub const ADAPTIVE_RAISE_AFTER: u64 = 1_000_000_000;

pub const ADAPTIVE_LOWER_AFTER: u64 = 6_000_000_000;

pub struct NetStats {
    /// The session finished its handshake with the peer.
    pub synced: bool,
    pub ping_ms: u32,
    pub frames_ahead: i32,
    pub local_behind: i32,
    pub remote_behind: i32,
    pub send_queue: u64,
    /// Input delay applied to the session, in frames.
    pub input_delay: u8,
    pub rollbacks_total: u32,
    pub stalls_total: u32,
    /// Time spent stalled.
    pub stalled: u64,
    /// `(time, ping)` samples, newest last.
    pub pings: Vec<(u64, u32)>,
    /// `(time, depth)` of every rollback, newest last.
    pub rollbacks: Vec<(u64, i32)>,
    /// When each stall began, newest last.
    pub stalls: Vec<u64>,
    pub last_frame: i32,
    pub max_frame: i32,
    pub last_advance_at: u64,
    pub stall_started: Option<u64>,
    pub started_at: u64,
    /// The adaptive controller's current target and since when it has held.
    pub target: (u8, u64),
}

#[verifier::ext_equal]
pub struct NetView {
    pub synced: bool,
    pub ping_ms: u32,
    pub frames_ahead: i32,
    pub local_behind: i32,
    pub remote_behind: i32,
    pub send_queue: u64,
    pub input_delay: u8,
    pub rollbacks_total: u32,
    pub stalls_total: u32,
    pub stalled: u64,
    pub pings: Seq<(u64, u32)>,
    pub rollbacks: Seq<(u64, i32)>,
    pub stalls: Seq<u64>,
    pub last_frame: i32,
    pub max_frame: i32,
    pub last_advance_at: u64,
    pub stall_started: Option<u64>,
    pub started_at: u64,
    pub target: (u8, u64),
}

impl View for NetStats {
    type V = NetView;

    open spec fn view(&self) -> NetView {
        NetView {
            synced: self.synced,
            ping_ms: self.ping_ms,
            frames_ahead: self.frames_ahead,
            local_behind: self.local_behind,
            remote_behind: self.remote_behind,
            send_queue: self.send_queue,
            input_delay: self.input_delay,
            rollbacks_total: self.rollbacks_total,
            stalls_total: self.stalls_total,
            stalled: self.stalled,
            pings: self.pings@,
            rollbacks: self.rollbacks@,
            stalls: self.stalls@,
            last_frame: self.last_frame,
            max_frame: self.max_frame,
            last_advance_at: self.last_advance_at,
            stall_started: self.stall_started,
            started_at: self.started_at,
            target: self.target,
        }
    }
}

/// What the session reports about the link.
#[derive(Clone, Copy, Debug, PartialEq, Eq, Structural)]
pub struct LinkReport {
    pub ping_ms: u32,
    pub local_behind: i32,
    pub remote_behind: i32,
    pub send_queue: u64,
    pub frames_ahead: i32,
}

/// A count one higher; the largest one stays.
pub open spec fn counted(n: u32) -> u32 {
    if n == u32::MAX {
        n
    } else {
        (n + 1) as u32
    }
}

fn count_up(n: u32) -> (r: u32)
    ensures
        r == counted(n),
{
    if n == u32::MAX {
        n
    } else {
        n + 1
    }
}

/// The samples without those at the front that are older than the window.
pub open spec fn recent_pings(s: Seq<(u64, u32)>, now: u64) -> Seq<(u64, u32)>
    decreases s.len(),
{
    if s.len() > 0 && elapsed(s[0].0, now) > WINDOW {
        recent_pings(s.skip(1), now)
    } else {
        s
    }
}

pub open spec fn recent_rollbacks(s: Seq<(u64, i32)>, now: u64) -> Seq<(u64, i32)>
    decreases s.len(),
{
    if s.len() > 0 && elapsed(s[0].0, now) > WINDOW {
        recent_rollbacks(s.skip(1), now)
    } else {
        s
    }
}

pub open spec fn recent_stalls(s: Seq<u64>, now: u64) -> Seq<u64>
    decreases s.len(),
{
    if s.len() > 0 && elapsed(s[0], now) > WINDOW {
        recent_stalls(s.skip(1), now)
    } else {
        s
    }
}

/// The sum of the changes between successive ping samples.
pub open spec fn ping_changes(s: Seq<(u64, u32)>) -> nat
    decreases s.len(),
{
    if s.len() < 2 {
        0
    } else {
        let a = s[s.len() - 2].1;
        let b = s[s.len() - 1].1;
        ping_changes(s.drop_last()) + (if a > b {
            (a - b) as nat
        } else {
            (b - a) as nat
        })
    }
}

/// The number of changes that the sum is taken over; 1 where there is none, so the mean is 0.
pub open spec fn change_count(s: Seq<(u64, u32)>) -> nat {
    if s.len() < 2 {
        1
    } else {
        (s.len() - 1) as nat
    }
}

/// The least and the greatest ping.
pub open spec fn least_ping(s: Seq<(u64, u32)>, none: u32) -> u32
    decreases s.len(),
{
    if s.len() == 0 {
        none
    } else if s.len() == 1 {
        s[0].1
    } else {
        let rest = least_ping(s.drop_last(), none);
        if s.last().1 < rest {
            s.last().1
        } else {
            rest
        }
    }
}

pub open spec fn greatest_ping(s: Seq<(u64, u32)>, none: u32) -> u32
    decreases s.len(),
{
    if s.len() == 0 {
        none
    } else if s.len() == 1 {
        s[0].1
    } else {
        let rest = greatest_ping(s.drop_last(), none);
        if s.last().1 > rest {
            s.last().1
        } else {
            rest
        }
    }
}

/// How many rollbacks began within `span`.
pub open spec fn rollback_count(s: Seq<(u64, i32)>, now: u64, span: u64) -> nat
    decreases s.len(),
{
    if s.len() == 0 {
        0
    } else {
        rollback_count(s.drop_last(), now, span) + (if elapsed(s.last().0, now) <= span {
            1nat
        } else {
            0
        })
    }
}

/// The deepest rollback within `span`; 0 where there was none.
pub open spec fn deepest(s: Seq<(u64, i32)>, now: u64, span: u64) -> Option<i32>
    decreases s.len(),
{
    if s.len() == 0 {
        None
    } else {
        let rest = deepest(s.drop_last(), now, span);
        if elapsed(s.last().0, now) > span {
            rest
        } else {
            match rest {
                Some(d) if d > s.last().1 => Some(d),
                _ => Some(s.last().1),
            }
        }
    }
}

/// How many stalls began within `span`.
pub open spec fn stall_count(s: Seq<u64>, now: u64, span: u64) -> nat
    decreases s.len(),
{
    if s.len() == 0 {
        0
    } else {
        stall_count(s.drop_last(), now, span) + (if elapsed(s.last(), now) <= span {
            1nat
        } else {
            0
        })
    }
}

pub open spec fn or_none(d: Option<i32>) -> i32 {
    match d {
        Some(d) => d,
        None => 0,
    }
}

impl NetView {
    pub open spec fn pruned(self, now: u64) -> NetView {
        NetView {
            pings: recent_pings(self.pings, now),
            rollbacks: recent_rollbacks(self.rollbacks, now),
            stalls: recent_stalls(self.stalls, now),
            ..self
        }
    }

    /// What the session reported, taken in.
    pub open spec fn with_report(self, r: LinkReport, now: u64) -> NetView {
        let keep = self.pings.len() == 0 || self.pings.last().1 != r.ping_ms || elapsed(
            self.pings.last().0,
            now,
        ) >= PING_SAMPLE;
        (NetView {
            ping_ms: r.ping_ms,
            frames_ahead: r.frames_ahead,
            local_behind: r.local_behind,
            remote_behind: r.remote_behind,
            send_queue: r.send_queue,
            pings: if keep {
                self.pings.push((now, r.ping_ms))
            } else {
                self.pings
            },
            ..self
        }).pruned(now)
    }

    /// A simulated frame, taken in: going back means a rollback, going past the previous maximum
    /// means progress.
    pub open spec fn with_step(self, frame: i32, now: u64) -> NetView {
        let a = if frame <= self.last_frame {
            NetView {
                rollbacks: self.rollbacks.push((now, (self.last_frame - frame + 1) as i32)),
                rollbacks_total: counted(self.rollbacks_total),
                ..self
            }
        } else {
            self
        };
        let b = if frame > self.max_frame {
            NetView {
                max_frame: frame,
                last_advance_at: now,
                stalled: match self.stall_started {
                    Some(t0) => crate::clock::later(self.stalled, elapsed(t0, now) as u64) as u64,
                    None => self.stalled,
                },
                stall_started: None,
                ..a
            }
        } else {
            a
        };
        NetView { last_frame: frame, ..b }
    }

    /// Whether a rendered frame that ends now shows a stall.
    pub open spec fn stalls_now(self, now: u64, delta: u64) -> bool {
        &&& self.synced
        &&& self.stall_started is None
        &&& delta < HITCH
        // Two ticks of a 67th of a second each.
        &&& ROLLBACK_FPS * elapsed(self.last_advance_at, now) > 2 * SECOND
    }

    pub open spec fn ticked(self, now: u64, delta: u64) -> NetView {
        let t0 = crate::clock::later(self.last_advance_at, TICK) as u64;
        (if self.stalls_now(now, delta) {
            NetView {
                stall_started: Some(t0),
                stalls: self.stalls.push(t0),
                stalls_total: counted(self.stalls_total),
                ..self
            }
        } else {
            self
        }).pruned(now)
    }

    /// Whether the mean change between successive pings is 15 ms or more.
    pub open spec fn jittery(self) -> bool {
        ping_changes(self.pings) >= 15 * change_count(self.pings)
    }

    /// What there is to complain about, one point each.
    pub open spec fn complaints(self, now: u64) -> int {
        (if self.ping_ms >= 80 {
            1int
        } else {
            0
        }) + (if self.ping_ms >= 160 {
            1int
        } else {
            0
        }) + (if self.jittery() {
            1int
        } else {
            0
        }) + (if stall_count(self.stalls, now, WINDOW) > 0 {
            1int
        } else {
            0
        }) + (if or_none(deepest(self.rollbacks, now, WINDOW)) >= ROLLBACK_BAD {
            1int
        } else {
            0
        })
    }

    /// Signal bars, 0 (no connection) to 4 (nothing to complain about).
    pub open spec fn bars(self, now: u64) -> int {
        if !self.synced {
            0
        } else if self.complaints(now) >= 3 {
            1
        } else {
            4 - self.complaints(now)
        }
    }

    /// The input delay that covers the one-way latency of our inputs (half the ping and twice the
    /// jitter, in ticks, rounded up) down to the tolerated remainder, plus a frame while stalls are
    /// seen.
    pub open spec fn wanted(self, now: u64) -> int {
        let m = change_count(self.pings) as int;
        let ticks = crate::netstats::ceil_div(
            67 * (self.ping_ms * m + 4 * ping_changes(self.pings)),
            2000 * m,
        );
        let want = ticks - ADAPTIVE_TOLERANCE + (if stall_count(self.stalls, now, RECENT) > 0 {
            1int
        } else {
            0
        });
        if want < ADAPTIVE_MIN {
            ADAPTIVE_MIN as int
        } else if want > ADAPTIVE_MAX {
            ADAPTIVE_MAX as int
        } else {
            want
        }
    }

    /// The controller's target, and since when it has held.
    pub open spec fn retargeted(self, now: u64) -> NetView {
        if self.wanted(now) != self.target.0 {
            NetView { target: (self.wanted(now) as u8, now), ..self }
        } else {
            self
        }
    }

    /// The input delay that adaptive mode goes to: one frame toward the target once it has held.
    pub open spec fn adaptive(self, now: u64) -> int {
        let want = self.wanted(now);
        let held = elapsed(self.retargeted(now).target.1, now);
        let current = self.input_delay as int;
        if want > current && held >= ADAPTIVE_RAISE_AFTER {
            current + 1
        } else if want < current && held >= ADAPTIVE_LOWER_AFTER {
            current - 1
        } else {
            current
        }
    }
}

/// `a / b`, rounded up.
pub open spec fn ceil_div(a: int, b: int) -> int {
    (a + b - 1) / b
}

/// The signal is none exactly while the session is not synchronized, and otherwise one to four bars.
pub proof fn law_signal_range(s: NetView, now: u64)
    ensures
        s.bars(now) == 0 <==> !s.synced,
        0 <= s.bars(now) <= 4,
{
}

/// Adaptive mode moves the delay by at most a frame at a time, toward its target, and keeps it in
/// its bounds.
pub proof fn law_adaptive_moves_gently(s: NetView, now: u64)
    ensures
        -1 <= s.adaptive(now) - s.input_delay <= 1,
        ADAPTIVE_MIN <= s.input_delay <= ADAPTIVE_MAX ==> ADAPTIVE_MIN <= s.adaptive(now)
            <= ADAPTIVE_MAX,
        s.wanted(now) == s.input_delay ==> s.adaptive(now) == s.input_delay,
        s.wanted(now) > s.input_delay ==> s.adaptive(now) >= s.input_delay,
        s.wanted(now) < s.input_delay ==> s.adaptive(now) <= s.input_delay,
{
}

/// Recent stalls are seen exactly where a stall began within the span.
pub proof fn law_stalls_are_seen(s: Seq<u64>, now: u64, span: u64)
    ensures
        stall_count(s, now, span) > 0 <==> exists|i: int|
            0 <= i < s.len() && elapsed(#[trigger] s[i], now) <= span,
        stall_count(s, now, span) <= s.len(),
    decreases s.len(),
{
    if s.len() > 0 {
        let d = s.drop_last();
        law_stalls_are_seen(d, now, span);
        if stall_count(d, now, span) > 0 {
            let i = choose|i: int| 0 <= i < d.len() && elapsed(#[trigger] d[i], now) <= span;
            assert(elapsed(s[i], now) <= span);
        }
        if elapsed(s.last(), now) <= span {
            assert(elapsed(s[s.len() - 1], now) <= span);
        }
        if exists|i: int| 0 <= i < s.len() && elapsed(#[trigger] s[i], now) <= span {
            let i = choose|i: int| 0 <= i < s.len() && elapsed(#[trigger] s[i], now) <= span;
            if i < d.len() {
                assert(elapsed(d[i], now) <= span);
            }
        }
    }
}

/// A stall within the span counts for one, an older one for nothing.
pub proof fn law_stalls_add_up(s: Seq<u64>, t: u64, now: u64, span: u64)
    ensures
        elapsed(t, now) <= span ==> stall_count(s.push(t), now, span) == stall_count(s, now, span)
            + 1,
        elapsed(t, now) > span ==> stall_count(s.push(t), now, span) == stall_count(s, now, span),
        stall_count(Seq::empty(), now, span) == 0,
{
    assert(s.push(t).drop_last() =~= s);
}

/// A rollback within the span counts for one, an older one for nothing.
pub proof fn law_rollbacks_add_up(s: Seq<(u64, i32)>, r: (u64, i32), now: u64, span: u64)
    ensures
        elapsed(r.0, now) <= span ==> rollback_count(s.push(r), now, span) == rollback_count(
            s,
            now,
            span,
        ) + 1,
        elapsed(r.0, now) > span ==> rollback_count(s.push(r), now, span) == rollback_count(
            s,
            now,
            span,
        ),
        rollback_count(Seq::empty(), now, span) == 0,
{
    assert(s.push(r).drop_last() =~= s);
}

/// The deepest rollback is one of those within the span, and none of them is deeper; there is none
/// where none was within the span.
pub proof fn law_the_deepest_is_the_deepest(s: Seq<(u64, i32)>, now: u64, span: u64)
    ensures
        match deepest(s, now, span) {
            Some(d) => {
                &&& exists|i: int|
                    0 <= i < s.len() && elapsed((#[trigger] s[i]).0, now) <= span && s[i].1 == d
                &&& forall|i: int|
                    0 <= i < s.len() && elapsed((#[trigger] s[i]).0, now) <= span ==> s[i].1 <= d
            },
            None => forall|i: int|
                0 <= i < s.len() ==> elapsed((#[trigger] s[i]).0, now) > span,
        },
    decreases s.len(),
{
    if s.len() > 0 {
        let d = s.drop_last();
        law_the_deepest_is_the_deepest(d, now, span);
        assert forall|i: int| 0 <= i < s.len() - 1 implies #[trigger] s[i] == d[i] by {}
        if elapsed(s.last().0, now) <= span {
            assert(s[s.len() - 1] == s.last());
        }
        match deepest(d, now, span) {
            Some(b) => {
                let i = choose|i: int|
                    0 <= i < d.len() && elapsed((#[trigger] d[i]).0, now) <= span && d[i].1 == b;
                assert(s[i] == d[i]);
            },
            None => {},
        }
    }
}

/// The range of the pings: each sample lies in it, and both ends are samples.
pub proof fn law_pings_lie_in_their_range(s: Seq<(u64, u32)>, none: u32)
    ensures
        s.len() == 0 ==> least_ping(s, none) == none && greatest_ping(s, none) == none,
        forall|i: int|
            0 <= i < s.len() ==> least_ping(s, none) <= (#[trigger] s[i]).1 <= greatest_ping(
                s,
                none,
            ),
        s.len() > 0 ==> (exists|i: int|
            0 <= i < s.len() && (#[trigger] s[i]).1 == least_ping(s, none)) && (exists|i: int|
            0 <= i < s.len() && (#[trigger] s[i]).1 == greatest_ping(s, none)),
    decreases s.len(),
{
    if s.len() == 1 {
        assert(s[0].1 == least_ping(s, none));
    } else if s.len() > 1 {
        let d = s.drop_last();
        law_pings_lie_in_their_range(d, none);
        assert forall|i: int| 0 <= i < s.len() - 1 implies #[trigger] s[i] == d[i] by {}
        assert(s[s.len() - 1] == s.last());
        let i = choose|i: int| 0 <= i < d.len() && (#[trigger] d[i]).1 == least_ping(d, none);
        let j = choose|j: int| 0 <= j < d.len() && (#[trigger] d[j]).1 == greatest_ping(d, none);
        assert(s[i] == d[i] && s[j] == d[j]);
    }
}

/// Each new ping adds the distance to the one before it to the changes, whichever way it went; the
/// first one adds none.
pub proof fn law_changes_add_up(s: Seq<(u64, u32)>, p: (u64, u32))
    ensures
        s.len() == 0 ==> ping_changes(s.push(p)) == 0,
        s.len() > 0 && p.1 >= s.last().1 ==> ping_changes(s.push(p)) == ping_changes(s) + (p.1
            - s.last().1),
        s.len() > 0 && p.1 <= s.last().1 ==> ping_changes(s.push(p)) == ping_changes(s) + (
        s.last().1 - p.1),
        s.len() > 0 ==> change_count(s.push(p)) == s.len(),
        change_count(s) >= 1,
        s.len() < 2 ==> ping_changes(s) == 0,
{
    if s.len() > 0 {
        let t = s.push(p);
        assert(t.drop_last() =~= s);
        assert(t[t.len() - 2] == s.last());
        assert(t[t.len() - 1] == p);
    }
}

/// A link whose ping never moves has no jitter.
pub proof fn law_a_steady_ping_has_no_jitter(s: Seq<(u64, u32)>)
    requires
        forall|i: int, j: int|
            0 <= i < s.len() && 0 <= j < s.len() ==> (#[trigger] s[i]).1 == (#[trigger] s[j]).1,
    ensures
        ping_changes(s) == 0,
    decreases s.len(),
{
    if s.len() >= 2 {
        let d = s.drop_last();
        assert forall|i: int, j: int| 0 <= i < d.len() && 0 <= j < d.len() implies (
        #[trigger] d[i]).1 == (#[trigger] d[j]).1 by {
            assert(s[i] == d[i] && s[j] == d[j]);
        }
        law_a_steady_ping_has_no_jitter(d);
        assert(s[s.len() - 2].1 == s[s.len() - 1].1);
    }
}

/// The wanted delay is the least one in its bounds that covers the one-way latency of our inputs
/// (half the ping and twice the mean change of the ping) but for three frames, and one frame more
/// where a stall began within three seconds. A tick is a 67th of a second, so `f` frames cover the
/// latency exactly where `2000 * n * f >= 67 * (ping * n + 4 * changes)`.
pub proof fn law_the_wanted_delay_covers_the_latency(s: NetView, now: u64)
    ensures
        ({
            let n = change_count(s.pings) as int;
            let latency = 67 * (s.ping_ms * n + 4 * ping_changes(s.pings));
            let spare = if exists|i: int|
                0 <= i < s.stalls.len() && elapsed(#[trigger] s.stalls[i], now) <= 3_000_000_000 {
                1int
            } else {
                0
            };
            let d = s.wanted(now);
            &&& 1 <= d <= 6
            &&& d < 6 ==> 2000 * n * (d - spare + 3) >= latency
            &&& d > 1 ==> 2000 * n * (d - spare + 2) < latency
        }),
{
    law_stalls_are_seen(s.stalls, now, RECENT);
    let n = change_count(s.pings) as int;
    let top = 67 * (s.ping_ms * n + 4 * ping_changes(s.pings));
    let bottom = 2000 * n;
    let ticks = ceil_div(top, bottom);
    assert(s.ping_ms * n >= 0) by (nonlinear_arith)
        requires
            n >= 0,
            s.ping_ms >= 0,
    ;
    lemma_ceil_div(top, bottom);
    let spare = if exists|i: int|
        0 <= i < s.stalls.len() && elapsed(#[trigger] s.stalls[i], now) <= 3_000_000_000 {
        1int
    } else {
        0
    };
    let d = s.wanted(now);
    if d < 6 {
        let f = d - spare + 3;
        assert(f >= ticks);
        assert(bottom * f >= bottom * ticks) by (nonlinear_arith)
            requires
                f >= ticks,
                bottom > 0,
        ;
    }
    if d > 1 {
        let f = d - spare + 2;
        assert(f <= ticks - 1);
        assert(bottom * f <= bottom * (ticks - 1)) by (nonlinear_arith)
            requires
                f <= ticks - 1,
                bottom > 0,
        ;
    }
}

proof fn lemma_ceil_div(a: int, b: int)
    requires
        b > 0,
    ensures
        b * ceil_div(a, b) >= a,
        b * (ceil_div(a, b) - 1) < a,
{
    let q = (a + b - 1) / b;
    vstd::arithmetic::div_mod::lemma_fundamental_div_mod(a + b - 1, b);
    assert(b * (q - 1) == b * q - b) by (nonlinear_arith);
}

/// The wanted delay is one frame while four ticks cover the latency and no stall was seen, and six
/// frames from nine ticks of latency on.
pub proof fn law_the_ends_of_the_wanted_delay(s: NetView, now: u64)
    ensures
        ({
            let n = change_count(s.pings) as int;
            let latency = 67 * (s.ping_ms * n + 4 * ping_changes(s.pings));
            &&& latency <= 4 * (2000 * n) && (forall|i: int|
                0 <= i < s.stalls.len() ==> elapsed(#[trigger] s.stalls[i], now) > 3_000_000_000)
                ==> s.wanted(now) == 1
            &&& latency >= 9 * (2000 * n) ==> s.wanted(now) == 6
        }),
{
    law_the_wanted_delay_covers_the_latency(s, now);
    let n = change_count(s.pings) as int;
    let d = s.wanted(now);
    assert(2000 * n * (d + 3) == 2000 * n * d + 3 * (2000 * n)) by (nonlinear_arith);
    assert(2000 * n * (d + 2) == 2000 * n * d + 2 * (2000 * n)) by (nonlinear_arith);
    if d >= 2 {
        assert(2000 * n * d >= 2 * (2000 * n)) by (nonlinear_arith)
            requires
                d >= 2,
                n >= 1,
        ;
    }
    if d <= 5 {
        assert(2000 * n * d <= 5 * (2000 * n)) by (nonlinear_arith)
            requires
                d <= 5,
                n >= 1,
        ;
    }
}

/// A link that is worse (a higher ping, a higher mean change of the ping, a recent stall) never
/// wants a shorter delay.
pub proof fn law_a_worse_link_wants_no_less(a: NetView, b: NetView, now: u64)
    requires
        a.ping_ms <= b.ping_ms,
        ping_changes(a.pings) * change_count(b.pings) <= ping_changes(b.pings) * change_count(
            a.pings,
        ),
        stall_count(a.stalls, now, RECENT) > 0 ==> stall_count(b.stalls, now, RECENT) > 0,
    ensures
        a.wanted(now) <= b.wanted(now),
{
    law_the_wanted_delay_covers_the_latency(a, now);
    law_the_wanted_delay_covers_the_latency(b, now);
    law_stalls_are_seen(a.stalls, now, RECENT);
    law_stalls_are_seen(b.stalls, now, RECENT);
    if a.wanted(now) > b.wanted(now) {
        let ea = if stall_count(a.stalls, now, RECENT) > 0 {
            1int
        } else {
            0
        };
        let eb = if stall_count(b.stalls, now, RECENT) > 0 {
            1int
        } else {
            0
        };
        lemma_latencies(
            change_count(a.pings) as int,
            change_count(b.pings) as int,
            ping_changes(a.pings) as int,
            ping_changes(b.pings) as int,
            a.ping_ms as int,
            b.ping_ms as int,
            a.wanted(now) - ea + 2,
            b.wanted(now) - eb + 3,
        );
    }
}

proof fn lemma_latencies(na: int, nb: int, ja: int, jb: int, pa: int, pb: int, x: int, y: int)
    requires
        na > 0,
        nb > 0,
        pa <= pb,
        ja * nb <= jb * na,
        2000 * na * x < 67 * (pa * na + 4 * ja),
        2000 * nb * y >= 67 * (pb * nb + 4 * jb),
    ensures
        x < y,
{
    let m = na * nb;
    assert(m > 0) by (nonlinear_arith)
        requires
            na > 0,
            nb > 0,
            m == na * nb,
    ;
    assert(2000 * m * x < 67 * (pa * m + 4 * (ja * nb))) by (nonlinear_arith)
        requires
            nb > 0,
            m == na * nb,
            2000 * na * x < 67 * (pa * na + 4 * ja),
    ;
    assert(2000 * m * y >= 67 * (pb * m + 4 * (jb * na))) by (nonlinear_arith)
        requires
            na > 0,
            m == na * nb,
            2000 * nb * y >= 67 * (pb * nb + 4 * jb),
    ;
    assert(pa * m <= pb * m) by (nonlinear_arith)
        requires
            m > 0,
            pa <= pb,
    ;
    if x >= y {
        assert(2000 * m * x >= 2000 * m * y) by (nonlinear_arith)
            requires
                m > 0,
                x >= y,
        ;
    }
}

/// Adaptive mode follows what the link wants: up a frame once that has been wanted for a second,
/// down a frame once that has been wanted for six, and not before. What is wanted anew is wanted
/// from now on.
pub proof fn law_adaptive_follows_what_is_wanted(s: NetView, now: u64)
    ensures
        ({
            let next = s.retargeted(now);
            &&& next.target.0 == s.wanted(now)
            &&& s.target.0 == s.wanted(now) ==> next == s
            &&& s.target.0 != s.wanted(now) ==> next == (NetView {
                target: (s.wanted(now) as u8, now),
                ..s
            }) && s.adaptive(now) == s.input_delay
            &&& s.adaptive(now) == s.input_delay + 1 <==> s.target.0 == s.wanted(now) && s.wanted(
                now,
            ) > s.input_delay && elapsed(s.target.1, now) >= 1_000_000_000
            &&& s.adaptive(now) == s.input_delay - 1 <==> s.target.0 == s.wanted(now) && s.wanted(
                now,
            ) < s.input_delay && elapsed(s.target.1, now) >= 6_000_000_000
            &&& s.input_delay - 1 <= s.adaptive(now) <= s.input_delay + 1
        }),
{
    law_the_wanted_delay_covers_the_latency(s, now);
}

/// A synchronized link has four bars, less one for each of these: a ping of 80 ms or more, a ping of
/// 160 ms or more, a mean change of the ping of 15 ms or more, a stall that began within ten
/// seconds, a rollback of six frames or more within ten seconds. One bar always stays.
pub proof fn law_what_the_bars_say(s: NetView, now: u64)
    requires
        s.synced,
    ensures
        ({
            let slow = s.ping_ms >= 80;
            let slower = s.ping_ms >= 160;
            let jitter = ping_changes(s.pings) >= 15 * change_count(s.pings);
            let stall = exists|i: int|
                0 <= i < s.stalls.len() && elapsed(#[trigger] s.stalls[i], now) <= 10_000_000_000;
            let deep = exists|i: int|
                0 <= i < s.rollbacks.len() && elapsed((#[trigger] s.rollbacks[i]).0, now)
                    <= 10_000_000_000 && s.rollbacks[i].1 >= 6;
            &&& s.bars(now) == 4 <==> !slow && !jitter && !stall && !deep
            &&& slower && jitter ==> s.bars(now) == 1
            &&& slow && !slower && !jitter && !stall && !deep ==> s.bars(now) == 3
            &&& slower && !jitter && !stall && !deep ==> s.bars(now) == 2
            &&& !slow && jitter && !stall && !deep ==> s.bars(now) == 3
            &&& !slow && !jitter && stall && !deep ==> s.bars(now) == 3
            &&& !slow && !jitter && !stall && deep ==> s.bars(now) == 3
            &&& !slow && jitter && stall && !deep ==> s.bars(now) == 2
            &&& !slow && jitter && !stall && deep ==> s.bars(now) == 2
            &&& !slow && !jitter && stall && deep ==> s.bars(now) == 2
            &&& slow && jitter && stall ==> s.bars(now) == 1
            &&& jitter && stall && deep ==> s.bars(now) == 1
        }),
{
    law_stalls_are_seen(s.stalls, now, WINDOW);
    law_the_deepest_is_the_deepest(s.rollbacks, now, WINDOW);
}

/// A link that is worse in what it is judged by never has more bars.
pub proof fn law_a_worse_link_has_no_more_bars(a: NetView, b: NetView, now: u64)
    requires
        b.synced ==> a.synced,
        a.ping_ms <= b.ping_ms,
        ping_changes(a.pings) * change_count(b.pings) <= ping_changes(b.pings) * change_count(
            a.pings,
        ),
        stall_count(a.stalls, now, WINDOW) <= stall_count(b.stalls, now, WINDOW),
        or_none(deepest(a.rollbacks, now, WINDOW)) <= or_none(deepest(b.rollbacks, now, WINDOW)),
    ensures
        b.bars(now) <= a.bars(now),
{
    let na = change_count(a.pings) as int;
    let nb = change_count(b.pings) as int;
    let ja = ping_changes(a.pings) as int;
    let jb = ping_changes(b.pings) as int;
    if a.jittery() {
        assert(jb >= 15 * nb) by (nonlinear_arith)
            requires
                ja >= 15 * na,
                ja * nb <= jb * na,
                na > 0,
                nb > 0,
        ;
    }
}

/// What is forgotten is old, comes from the front, and what comes first of the rest is not old.
pub proof fn law_only_old_records_are_forgotten(s: NetView, now: u64)
    ensures
        ({
            let t = s.pruned(now);
            let p = s.pings.len() - t.pings.len();
            let r = s.rollbacks.len() - t.rollbacks.len();
            let q = s.stalls.len() - t.stalls.len();
            &&& t == (NetView { pings: t.pings, rollbacks: t.rollbacks, stalls: t.stalls, ..s })
            &&& p >= 0 && t.pings == s.pings.skip(p)
            &&& r >= 0 && t.rollbacks == s.rollbacks.skip(r)
            &&& q >= 0 && t.stalls == s.stalls.skip(q)
            &&& forall|i: int|
                0 <= i < p ==> elapsed((#[trigger] s.pings[i]).0, now) > 10_000_000_000
            &&& forall|i: int|
                0 <= i < r ==> elapsed((#[trigger] s.rollbacks[i]).0, now) > 10_000_000_000
            &&& forall|i: int| 0 <= i < q ==> elapsed(#[trigger] s.stalls[i], now) > 10_000_000_000
            &&& t.pings.len() > 0 ==> elapsed(t.pings[0].0, now) <= 10_000_000_000
            &&& t.rollbacks.len() > 0 ==> elapsed(t.rollbacks[0].0, now) <= 10_000_000_000
            &&& t.stalls.len() > 0 ==> elapsed(t.stalls[0], now) <= 10_000_000_000
        }),
{
    lemma_recent_pings(s.pings, now);
    lemma_recent_rollbacks(s.rollbacks, now);
    lemma_recent_stalls(s.stalls, now);
}

proof fn lemma_recent_pings(s: Seq<(u64, u32)>, now: u64)
    ensures
        ({
            let t = recent_pings(s, now);
            let n = s.len() - t.len();
            &&& n >= 0 && t == s.skip(n)
            &&& forall|i: int| 0 <= i < n ==> elapsed((#[trigger] s[i]).0, now) > WINDOW
            &&& t.len() > 0 ==> elapsed(t[0].0, now) <= WINDOW
        }),
    decreases s.len(),
{
    if s.len() > 0 && elapsed(s[0].0, now) > WINDOW {
        let r = s.skip(1);
        lemma_recent_pings(r, now);
        let t = recent_pings(s, now);
        let n = s.len() - t.len();
        assert(r.skip(n - 1) =~= s.skip(n));
        assert forall|i: int| 0 <= i < n implies elapsed((#[trigger] s[i]).0, now) > WINDOW by {
            if i > 0 {
                assert(r[i - 1] == s[i]);
            }
        }
    } else {
        assert(s.skip(0) =~= s);
    }
}

proof fn lemma_recent_rollbacks(s: Seq<(u64, i32)>, now: u64)
    ensures
        ({
            let t = recent_rollbacks(s, now);
            let n = s.len() - t.len();
            &&& n >= 0 && t == s.skip(n)
            &&& forall|i: int| 0 <= i < n ==> elapsed((#[trigger] s[i]).0, now) > WINDOW
            &&& t.len() > 0 ==> elapsed(t[0].0, now) <= WINDOW
        }),
    decreases s.len(),
{
    if s.len() > 0 && elapsed(s[0].0, now) > WINDOW {
        let r = s.skip(1);
        lemma_recent_rollbacks(r, now);
        let t = recent_rollbacks(s, now);
        let n = s.len() - t.len();
        assert(r.skip(n - 1) =~= s.skip(n));
        assert forall|i: int| 0 <= i < n implies elapsed((#[trigger] s[i]).0, now) > WINDOW by {
            if i > 0 {
                assert(r[i - 1] == s[i]);
            }
        }
    } else {
        assert(s.skip(0) =~= s);
    }
}

proof fn lemma_recent_stalls(s: Seq<u64>, now: u64)
    ensures
        ({
            let t = recent_stalls(s, now);
            let n = s.len() - t.len();
            &&& n >= 0 && t == s.skip(n)
            &&& forall|i: int| 0 <= i < n ==> elapsed(#[trigger] s[i], now) > WINDOW
            &&& t.len() > 0 ==> elapsed(t[0], now) <= WINDOW
        }),
    decreases s.len(),
{
    if s.len() > 0 && elapsed(s[0], now) > WINDOW {
        let r = s.skip(1);
        lemma_recent_stalls(r, now);
        let t = recent_stalls(s, now);
        let n = s.len() - t.len();
        assert(r.skip(n - 1) =~= s.skip(n));
        assert forall|i: int| 0 <= i < n implies elapsed(#[trigger] s[i], now) > WINDOW by {
            if i > 0 {
                assert(r[i - 1] == s[i]);
            }
        }
    } else {
        assert(s.skip(0) =~= s);
    }
}

/// A report is what the statistics show from then on. Its ping is sampled where it moved, where the
/// last sample is a fifth of a second old, and where there is none; nothing else of the match moves.
pub proof fn law_a_report_is_taken_over(s: NetView, r: LinkReport, now: u64)
    ensures
        ({
            let t = s.with_report(r, now);
            let same = s.pings.len() > 0 && s.pings.last().1 == r.ping_ms && elapsed(
                s.pings.last().0,
                now,
            ) < 200_000_000;
            &&& t.ping_ms == r.ping_ms
            &&& t.frames_ahead == r.frames_ahead
            &&& t.local_behind == r.local_behind
            &&& t.remote_behind == r.remote_behind
            &&& t.send_queue == r.send_queue
            &&& !same ==> t.pings.len() > 0 && t.pings.last() == (now, r.ping_ms)
            &&& same ==> t.pings.len() > 0 && t.pings.last() == s.pings.last()
            &&& (t.synced, t.input_delay, t.rollbacks_total, t.stalls_total) == (
                s.synced,
                s.input_delay,
                s.rollbacks_total,
                s.stalls_total,
            )
            &&& (t.stalled, t.last_frame, t.max_frame, t.last_advance_at) == (
                s.stalled,
                s.last_frame,
                s.max_frame,
                s.last_advance_at,
            )
            &&& (t.stall_started, t.started_at, t.target) == (
                s.stall_started,
                s.started_at,
                s.target,
            )
        }),
{
    let same = s.pings.len() > 0 && s.pings.last().1 == r.ping_ms && elapsed(
        s.pings.last().0,
        now,
    ) < 200_000_000;
    let all = if same {
        s.pings
    } else {
        s.pings.push((now, r.ping_ms))
    };
    lemma_recent_pings(all, now);
    let n = all.len() - recent_pings(all, now).len();
    if n == all.len() {
        assert(elapsed(all[all.len() - 1].0, now) > WINDOW);
    }
}

/// A simulated frame moves the counter there. Going back (or standing still) is a rollback as deep
/// as the frames it takes to get where the counter was; going past every earlier frame is progress,
/// and ends a stall with the time it took. Nothing else is either.
pub proof fn law_a_step_is_a_rollback_or_progress(s: NetView, frame: i32, now: u64)
    requires
        -1 <= s.last_frame < i32::MAX,
        0 <= frame < i32::MAX,
    ensures
        ({
            let t = s.with_step(frame, now);
            &&& t.last_frame == frame
            &&& frame > s.last_frame ==> t.rollbacks == s.rollbacks && t.rollbacks_total
                == s.rollbacks_total
            &&& frame <= s.last_frame ==> t.rollbacks.len() == s.rollbacks.len() + 1
                && t.rollbacks.drop_last() == s.rollbacks && t.rollbacks.last().0 == now
                && t.rollbacks.last().1 + frame == s.last_frame + 1 && (s.rollbacks_total
                < u32::MAX ==> t.rollbacks_total == s.rollbacks_total + 1)
            &&& t.max_frame == if frame > s.max_frame {
                frame
            } else {
                s.max_frame
            }
            &&& frame > s.max_frame ==> t.last_advance_at == now && t.stall_started is None
            &&& frame > s.max_frame && s.stall_started is None ==> t.stalled == s.stalled
            &&& frame > s.max_frame && s.stall_started is Some && s.stalled + elapsed(
                s.stall_started->0,
                now,
            ) <= u64::MAX ==> t.stalled == s.stalled + elapsed(s.stall_started->0, now)
            &&& frame <= s.max_frame ==> t.last_advance_at == s.last_advance_at && t.stall_started
                == s.stall_started && t.stalled == s.stalled
            &&& t.stalls == s.stalls && t.stalls_total == s.stalls_total && t.pings == s.pings
            &&& t.synced == s.synced && t.input_delay == s.input_delay && t.target == s.target
        }),
{
    let t = s.with_step(frame, now);
    if frame <= s.last_frame {
        assert(t.rollbacks.drop_last() =~= s.rollbacks);
    }
}

/// A rendered frame notices a stall exactly where the session is up, none is noticed yet, the frame
/// itself was no hitch of a quarter second, and the simulation has not moved for two ticks. The
/// stall began a tick after the last progress, and it is noticed once.
pub proof fn law_when_a_stall_is_noticed(s: NetView, now: u64, delta: u64)
    ensures
        ({
            let t = s.ticked(now, delta);
            let noticed = s.synced && s.stall_started is None && delta < 250_000_000 && 67
                * elapsed(s.last_advance_at, now) > 2_000_000_000;
            &&& noticed ==> t.stall_started is Some && (s.stalls_total < u32::MAX
                ==> t.stalls_total == s.stalls_total + 1)
            &&& noticed && s.last_advance_at + 14_925_373 <= u64::MAX ==> t.stall_started == Some(
                (s.last_advance_at + 14_925_373) as u64,
            )
            &&& noticed && t.stalls.len() > 0 ==> t.stalls.last() == t.stall_started->0
            &&& noticed ==> !t.stalls_now(now, delta)
            &&& !noticed ==> t.stall_started == s.stall_started && t.stalls_total
                == s.stalls_total && t.stalls.len() <= s.stalls.len()
            &&& t.last_advance_at == s.last_advance_at && t.last_frame == s.last_frame
                && t.max_frame == s.max_frame && t.stalled == s.stalled
            &&& t.rollbacks_total == s.rollbacks_total && t.synced == s.synced && t.ping_ms
                == s.ping_ms && t.input_delay == s.input_delay && t.target == s.target
        }),
{
    let t0 = crate::clock::later(s.last_advance_at, TICK) as u64;
    let all = if s.stalls_now(now, delta) {
        s.stalls.push(t0)
    } else {
        s.stalls
    };
    lemma_recent_stalls(all, now);
}

/// A report of the session after the match is forgotten: only the applied delay stays.
pub open spec fn fresh_stats(delay: u8, now: u64) -> NetView {
    NetView {
        synced: false,
        ping_ms: 0,
        frames_ahead: 0,
        local_behind: 0,
        remote_behind: 0,
        send_queue: 0,
        input_delay: delay,
        rollbacks_total: 0,
        stalls_total: 0,
        stalled: 0,
        pings: Seq::empty(),
        rollbacks: Seq::empty(),
        stalls: Seq::empty(),
        last_frame: -1i32,
        max_frame: -1i32,
        last_advance_at: now,
        stall_started: None,
        started_at: now,
        target: (delay, now),
    }
}

impl NetStats {
    pub open spec fn wf(&self) -> bool {
        -1 <= self.last_frame < i32::MAX
    }

    /// The statistics of a match that starts now with this input delay.
    pub fn new(delay: u8, now: u64) -> (r: NetStats)
        ensures
            r.wf(),
            r@ == fresh_stats(delay, now),
    {
        let r = NetStats {
            synced: false,
            ping_ms: 0,
            frames_ahead: 0,
            local_behind: 0,
            remote_behind: 0,
            send_queue: 0,
            input_delay: delay,
            rollbacks_total: 0,
            stalls_total: 0,
            stalled: 0,
            pings: Vec::new(),
            rollbacks: Vec::new(),
            stalls: Vec::new(),
            last_frame: -1,
            max_frame: -1,
            last_advance_at: now,
            stall_started: None,
            started_at: now,
            target: (delay, now),
        };
        proof {
            assert(r@ =~= fresh_stats(delay, now));
        }
        r
    }

    /// Forgets the previous match. The input delay is kept: it is set just before.
    pub fn reset(&mut self, now: u64)
        ensures
            final(self).wf(),
            final(self)@ == fresh_stats(old(self).input_delay, now),
    {
        *self = NetStats::new(self.input_delay, now);
    }

    fn prune(&mut self, now: u64)
        requires
            old(self).wf(),
        ensures
            final(self).wf(),
            final(self)@ == old(self)@.pruned(now),
    {
        let ghost start = self@;
        while self.pings.len() > 0 && since(self.pings[0].0, now) > WINDOW
            invariant
                self.wf(),
                recent_pings(self.pings@, now) == recent_pings(start.pings, now),
                self@ == (NetView { pings: self.pings@, ..start }),
            decreases self.pings.len(),
        {
            let ghost before = self.pings@;
            self.pings.remove(0);
            proof {
                assert(self.pings@ =~= before.skip(1));
            }
        }
        while self.rollbacks.len() > 0 && since(self.rollbacks[0].0, now) > WINDOW
            invariant
                self.wf(),
                self.pings@ == recent_pings(start.pings, now),
                recent_rollbacks(self.rollbacks@, now) == recent_rollbacks(start.rollbacks, now),
                self@ == (NetView { pings: self.pings@, rollbacks: self.rollbacks@, ..start }),
            decreases self.rollbacks.len(),
        {
            let ghost before = self.rollbacks@;
            self.rollbacks.remove(0);
            proof {
                assert(self.rollbacks@ =~= before.skip(1));
            }
        }
        while self.stalls.len() > 0 && since(self.stalls[0], now) > WINDOW
            invariant
                self.wf(),
                self.pings@ == recent_pings(start.pings, now),
                self.rollbacks@ == recent_rollbacks(start.rollbacks, now),
                recent_stalls(self.stalls@, now) == recent_stalls(start.stalls, now),
                self@ == (NetView {
                    pings: self.pings@,
                    rollbacks: self.rollbacks@,
                    stalls: self.stalls@,
                    ..start
                }),
            decreases self.stalls.len(),
        {
            let ghost before = self.stalls@;
            self.stalls.remove(0);
            proof {
                assert(self.stalls@ =~= before.skip(1));
            }
        }
    }

    /// Takes what the session reports. The ping only changes with each quality report, so a sample
    /// is kept when the value moved or enough time passed.
    pub fn record_stats(&mut self, r: LinkReport, now: u64)
        requires
            old(self).wf(),
        ensures
            final(self).wf(),
            final(self)@ == old(self)@.with_report(r, now),
    {
        self.ping_ms = r.ping_ms;
        self.frames_ahead = r.frames_ahead;
        self.local_behind = r.local_behind;
        self.remote_behind = r.remote_behind;
        self.send_queue = r.send_queue;
        let n = self.pings.len();
        let keep = if n == 0 {
            true
        } else {
            let last = self.pings[n - 1];
            last.1 != r.ping_ms || since(last.0, now) >= PING_SAMPLE
        };
        if keep {
            self.pings.push((now, r.ping_ms));
        }
        self.prune(now);
    }

    /// Called for every simulated frame (first time and re-simulations alike): the frame counter
    /// going back means a rollback, going past its previous maximum means progress.
    pub fn record_step(&mut self, frame: i32, now: u64)
        requires
            old(self).wf(),
            0 <= frame < i32::MAX,
        ensures
            final(self).wf(),
            final(self)@ == old(self)@.with_step(frame, now),
    {
        if frame <= self.last_frame {
            let depth = self.last_frame - frame + 1;
            self.rollbacks.push((now, depth));
            self.rollbacks_total = count_up(self.rollbacks_total);
        }
        if frame > self.max_frame {
            self.max_frame = frame;
            self.last_advance_at = now;
            if let Some(t0) = self.stall_started {
                self.stalled = crate::clock::after(self.stalled, since(t0, now));
            }
            self.stall_started = None;
        }
        self.last_frame = frame;
    }

    /// Once per rendered frame: notices a stall. The session catches up every tick a frame owes, so
    /// a frame that ends without the simulation having moved for two ticks was waiting on the peer.
    pub fn tick(&mut self, now: u64, delta: u64)
        requires
            old(self).wf(),
        ensures
            final(self).wf(),
            final(self)@ == old(self)@.ticked(now, delta),
    {
        let idle = since(self.last_advance_at, now);
        if self.synced && self.stall_started.is_none() && delta < HITCH && ROLLBACK_FPS as u128
            * idle as u128 > 2 * SECOND as u128 {
            let t0 = crate::clock::after(self.last_advance_at, TICK);
            self.stall_started = Some(t0);
            self.stalls.push(t0);
            self.stalls_total = count_up(self.stalls_total);
        }
        self.prune(now);
    }

    /// The sum of the changes between successive ping samples in the window, and how many there
    /// are: the mean change is the jitter.
    pub fn jitter_ms(&self) -> (r: (u128, u128))
        ensures
            r.0 == ping_changes(self@.pings),
            r.1 == change_count(self@.pings),
            r.0 <= 0xffff_ffff_ffff_ffffint * 0xffff_ffffint,
            1 <= r.1 <= u64::MAX,
    {
        let n = self.pings.len();
        let ghost p = self.pings@;
        if n < 2 {
            return (0, 1);
        }
        let mut sum: u128 = 0;
        let mut i: usize = 1;
        proof {
            assert(ping_changes(p.take(1)) == 0);
        }
        while i < n
            invariant
                1 <= i <= n,
                n == self.pings.len(),
                p == self.pings@,
                sum == ping_changes(p.take(i as int)),
                sum <= i * u32::MAX,
            decreases n - i,
        {
            let a = self.pings[i - 1].1;
            let b = self.pings[i].1;
            proof {
                let t = p.take(i as int + 1);
                assert(t.drop_last() =~= p.take(i as int));
                assert(t[t.len() - 2] == p[i - 1]);
                assert(t[t.len() - 1] == p[i as int]);
                assert(i * u32::MAX + u32::MAX == (i + 1) * u32::MAX) by (nonlinear_arith);
                assert((i + 1) * u32::MAX <= 0xffff_ffff_ffff_ffffint * 0xffff_ffffint) by (nonlinear_arith)
                    requires
                        0 <= i + 1 <= 0xffff_ffff_ffff_ffffint,
                ;
            }
            let step: u32 = if a > b {
                a - b
            } else {
                b - a
            };
            sum = sum + step as u128;
            i = i + 1;
        }
        proof {
            assert(p.take(n as int) =~= p);
            assert(n * u32::MAX <= 0xffff_ffff_ffff_ffffint * 0xffff_ffffint) by (nonlinear_arith)
                requires
                    0 <= n <= 0xffff_ffff_ffff_ffffint,
            ;
        }
        (sum, (n - 1) as u128)
    }

    fn ping_range(&self) -> (r: (u32, u32))
        ensures
            r.0 == least_ping(self@.pings, self@.ping_ms),
            r.1 == greatest_ping(self@.pings, self@.ping_ms),
    {
        let n = self.pings.len();
        let ghost p = self.pings@;
        if n == 0 {
            return (self.ping_ms, self.ping_ms);
        }
        let mut lo = self.pings[0].1;
        let mut hi = self.pings[0].1;
        let mut i: usize = 1;
        proof {
            assert(p.take(1).len() == 1 && p.take(1)[0] == p[0]);
        }
        while i < n
            invariant
                1 <= i <= n,
                n == self.pings.len(),
                p == self.pings@,
                lo == least_ping(p.take(i as int), self.ping_ms),
                hi == greatest_ping(p.take(i as int), self.ping_ms),
            decreases n - i,
        {
            proof {
                assert(p.take(i as int + 1).drop_last() =~= p.take(i as int));
                assert(p.take(i as int + 1).last() == p[i as int]);
            }
            let v = self.pings[i].1;
            if v < lo {
                lo = v;
            }
            if v > hi {
                hi = v;
            }
            i = i + 1;
        }
        proof {
            assert(p.take(n as int) =~= p);
        }
        (lo, hi)
    }

    fn rollbacks_in(&self, now: u64, span: u64) -> (r: u64)
        ensures
            r == rollback_count(self@.rollbacks, now, span),
            r <= self@.rollbacks.len(),
    {
        let mut count: u64 = 0;
        let mut i: usize = 0;
        let ghost v = self.rollbacks@;
        proof {
            assert(v.take(0) =~= Seq::<(u64, i32)>::empty());
        }
        while i < self.rollbacks.len()
            invariant
                i <= self.rollbacks.len(),
                v == self.rollbacks@,
                count == rollback_count(v.take(i as int), now, span),
                count <= i,
            decreases self.rollbacks.len() - i,
        {
            proof {
                assert(v.take(i as int + 1).drop_last() =~= v.take(i as int));
                assert(v.take(i as int + 1).last() == v[i as int]);
            }
            if since(self.rollbacks[i].0, now) <= span {
                count = count + 1;
            }
            i = i + 1;
        }
        proof {
            assert(v.take(v.len() as int) =~= v);
        }
        count
    }

    fn deepest_in(&self, now: u64, span: u64) -> (r: i32)
        ensures
            r == or_none(deepest(self@.rollbacks, now, span)),
    {
        let mut best: Option<i32> = None;
        let mut i: usize = 0;
        let ghost v = self.rollbacks@;
        proof {
            assert(v.take(0) =~= Seq::<(u64, i32)>::empty());
        }
        while i < self.rollbacks.len()
            invariant
                i <= self.rollbacks.len(),
                v == self.rollbacks@,
                best == deepest(v.take(i as int), now, span),
            decreases self.rollbacks.len() - i,
        {
            proof {
                assert(v.take(i as int + 1).drop_last() =~= v.take(i as int));
                assert(v.take(i as int + 1).last() == v[i as int]);
            }
            let (t, d) = self.rollbacks[i];
            if since(t, now) <= span {
                best = match best {
                    Some(b) => if b > d {
                        Some(b)
                    } else {
                        Some(d)
                    },
                    None => Some(d),
                };
            }
            i = i + 1;
        }
        proof {
            assert(v.take(v.len() as int) =~= v);
        }
        match best {
            Some(d) => d,
            None => 0,
        }
    }

    fn stalls_in(&self, now: u64, span: u64) -> (r: u64)
        ensures
            r == stall_count(self@.stalls, now, span),
    {
        let mut count: u64 = 0;
        let mut i: usize = 0;
        let ghost v = self.stalls@;
        proof {
            assert(v.take(0) =~= Seq::<u64>::empty());
        }
        while i < self.stalls.len()
            invariant
                i <= self.stalls.len(),
                v == self.stalls@,
                count == stall_count(v.take(i as int), now, span),
                count <= i,
            decreases self.stalls.len() - i,
        {
            proof {
                assert(v.take(i as int + 1).drop_last() =~= v.take(i as int));
                assert(v.take(i as int + 1).last() == v[i as int]);
            }
            if since(self.stalls[i], now) <= span {
                count = count + 1;
            }
            i = i + 1;
        }
        proof {
            assert(v.take(v.len() as int) =~= v);
        }
        count
    }

    /// Signal bars, 0 (no connection) to 4 (nothing to complain about).
    pub fn quality(&self, now: u64) -> (r: u8)
        ensures
            r == self@.bars(now),
    {
        if !self.synced {
            return 0;
        }
        let mut q: i32 = 4;
        if self.ping_ms >= 80 {
            q = q - 1;
        }
        if self.ping_ms >= 160 {
            q = q - 1;
        }
        let (sum, n) = self.jitter_ms();
        if sum >= 15 * n {
            q = q - 1;
        }
        if self.stalls_in(now, WINDOW) > 0 {
            q = q - 1;
        }
        if self.deepest_in(now, WINDOW) >= ROLLBACK_BAD {
            q = q - 1;
        }
        if q < 1 {
            1
        } else {
            q as u8
        }
    }

    /// The input delay the adaptive mode goes to right now. Input delay is per player and costs
    /// only its owner responsiveness; what it buys is on the opponent's screen: their rollbacks
    /// are as deep as the one-way latency of our inputs minus our delay. Both peers run the same
    /// rule, so a bad link raises both delays.
    pub fn adaptive_target(&mut self, now: u64) -> (r: u8)
        ensures
            old(self).wf() ==> final(self).wf(),
            final(self)@ == old(self)@.retargeted(now),
            r == old(self)@.adaptive(now),
    {
        let (sum, m) = self.jitter_ms();
        let ping = self.ping_ms as u128;
        proof {
            let k = m as int;
            let p = ping as int;
            assert(p * k <= 0xffff_ffffint * 0xffff_ffff_ffff_ffffint) by (nonlinear_arith)
                requires
                    0 <= p <= 0xffff_ffffint,
                    0 <= k <= 0xffff_ffff_ffff_ffffint,
            ;
        }
        let top: u128 = 67 * (ping * m + 4 * sum);
        let bottom: u128 = 2000 * m;
        let ticks: u128 = (top + (bottom - 1)) / bottom;
        let stalled = self.stalls_in(now, RECENT) > 0;
        let tolerance: u128 = ADAPTIVE_TOLERANCE as u128;
        let extra: u128 = if stalled {
            1
        } else {
            0
        };
        let want: u8 = if ticks + extra <= tolerance + ADAPTIVE_MIN as u128 {
            ADAPTIVE_MIN
        } else if ticks + extra >= tolerance + ADAPTIVE_MAX as u128 {
            ADAPTIVE_MAX
        } else {
            (ticks + extra - tolerance) as u8
        };
        proof {
            assert(want == old(self)@.wanted(now));
        }
        if want != self.target.0 {
            self.target = (want, now);
        }
        let held = since(self.target.1, now);
        let current = self.input_delay;
        if want > current && held >= ADAPTIVE_RAISE_AFTER {
            current + 1
        } else if want < current && held >= ADAPTIVE_LOWER_AFTER {
            current - 1
        } else {
            current
        }
    }

    /// The input delay the session should go to: the setting (manual) or the controller's choice
    /// (adaptive); nothing while it is there already, or before the session is synchronized.
    pub fn wanted_delay(&mut self, settings: &Settings, now: u64) -> (r: Option<u8>)
        ensures
            old(self).wf() ==> final(self).wf(),
            ({
                let s = old(self)@;
                let want = if settings.adaptive_delay {
                    s.adaptive(now)
                } else {
                    settings.input_delay as int
                };
                &&& final(self)@ == if s.synced && settings.adaptive_delay {
                    s.retargeted(now)
                } else {
                    s
                }
                &&& match r {
                    Some(d) => s.synced && d == want && want != s.input_delay,
                    None => !s.synced || want == s.input_delay,
                }
            }),
    {
        if !self.synced {
            return None;
        }
        let want = if settings.adaptive_delay {
            self.adaptive_target(now)
        } else {
            settings.input_delay
        };
        if want == self.input_delay {
            None
        } else {
            Some(want)
        }
    }

    /// The session took the delay.
    pub fn delay_applied(&mut self, delay: u8, now: u64)
        requires
            old(self).wf(),
        ensures
            final(self).wf(),
            final(self)@ == (NetView { input_delay: delay, target: (delay, now), ..old(self)@ }),
    {
        self.input_delay = delay;
        self.target = (delay, now);
    }
}

/// The delay a new session starts with.
pub fn initial_input_delay(settings: &Settings) -> (r: u8)
    ensures
        r == if settings.adaptive_delay {
            INPUT_DELAY_DEFAULT
        } else {
            settings.input_delay
        },
{
    if settings.adaptive_delay {
        INPUT_DELAY_DEFAULT
    } else {
        settings.input_delay
    }
}

/// Signal bars for the HUD: 0 while the session is still synchronizing or the peer has gone quiet.
pub fn signal_level(stats: &NetStats, line: &str, now: u64) -> (r: u8)
    ensures
        r == if line@ == "connection interrupted"@ {
            0
        } else {
            stats@.bars(now)
        },
{
    if eq(line, "connection interrupted") {
        return 0;
    }
    stats.quality(now)
}

// ---- read-outs ----

/// `{}` of a large count.
fn show_wide(n: u128) -> (r: String)
    ensures
        r@ == decimal(n as nat),
    decreases n,
{
    if n < 0x1_0000_0000_0000_0000 {
        show(n as u64)
    } else {
        let mut out = show_wide(n / 10);
        out.push(crate::text::digit_char((n % 10) as u8));
        out
    }
}

/// `{:.1}`: tenths, with one decimal.
pub open spec fn one_decimal(tenths: nat) -> Seq<char> {
    decimal(tenths / 10) + "."@ + decimal(tenths % 10)
}

impl NetView {
    /// The jitter in whole milliseconds.
    pub open spec fn jitter_ms(self) -> nat {
        nearest(ping_changes(self.pings) as int, change_count(self.pings) as int) as nat
    }

    pub open spec fn stalled_ms(self) -> nat {
        nearest(self.stalled as int, 1_000_000) as nat
    }

    /// How long the match has run, a second at least.
    pub open spec fn running(self, now: u64) -> int {
        if elapsed(self.started_at, now) < SECOND {
            SECOND as int
        } else {
            elapsed(self.started_at, now)
        }
    }

    /// Rollbacks per second, in tenths: over the window, or the match where that is shorter.
    pub open spec fn rollback_rate(self, now: u64) -> nat {
        let span = if self.running(now) < WINDOW {
            self.running(now)
        } else {
            WINDOW as int
        };
        nearest(10_000_000_000int * rollback_count(self.rollbacks, now, WINDOW), span) as nat
    }

    /// The overlay's text.
    pub open spec fn overlay(self, now: u64, adaptive: bool, netsim: Option<Seq<char>>) -> Seq<char> {
        let text = "ping "@ + decimal(self.ping_ms as nat) + " ms   jitter "@ + decimal(
            self.jitter_ms(),
        ) + " ms   range "@ + decimal(least_ping(self.pings, self.ping_ms) as nat) + "-"@ + decimal(
            greatest_ping(self.pings, self.ping_ms) as nat,
        ) + "\nahead "@ + with_sign(self.frames_ahead as int) + "   behind me "@ + signed_decimal(
            self.local_behind as int,
        ) + " / them "@ + signed_decimal(self.remote_behind as int) + "   queue "@ + decimal(
            self.send_queue as nat,
        ) + "\nrollbacks "@ + one_decimal(self.rollback_rate(now)) + "/s   deepest "@
            + signed_decimal(or_none(deepest(self.rollbacks, now, RECENT)) as int) + " (3 s) / "@
            + signed_decimal(or_none(deepest(self.rollbacks, now, WINDOW)) as int)
            + " (10 s)   total "@ + decimal(self.rollbacks_total as nat) + "\nstalls "@ + decimal(
            stall_count(self.stalls, now, WINDOW),
        ) + " (10 s) / "@ + decimal(self.stalls_total as nat) + " total   stalled "@ + decimal(
            self.stalled_ms(),
        ) + " ms\ndelay "@ + decimal(self.input_delay as nat) + " frames ("@ + decimal(
            ticks_in_ms(self.input_delay as nat),
        ) + " ms, "@ + (if adaptive {
            "adaptive"@
        } else {
            "manual"@
        }) + ")   predict "@ + decimal(MAX_PREDICTION as nat) + "   signal "@ + decimal(
            self.bars(now) as nat,
        ) + "/4   "@ + decimal(nearest(self.running(now), SECOND as int) as nat) + " s"@;
        match netsim {
            Some(line) => text + "\n"@ + line,
            None => text,
        }
    }

    /// The log's line at the end of a match.
    pub open spec fn summed_up(self, now: u64) -> Seq<char> {
        decimal(nearest(elapsed(self.started_at, now), SECOND as int) as nat) + " s, ping "@
            + decimal(self.ping_ms as nat) + " ms (last window "@ + decimal(
            least_ping(self.pings, self.ping_ms) as nat,
        ) + "-"@ + decimal(greatest_ping(self.pings, self.ping_ms) as nat) + ", jitter "@ + decimal(
            self.jitter_ms(),
        ) + " ms), "@ + decimal(self.rollbacks_total as nat) + " rollbacks (deepest "@
            + signed_decimal(or_none(deepest(self.rollbacks, now, WINDOW)) as int)
            + " in the last 10 s), "@ + decimal(self.stalls_total as nat) + " stalls totalling "@
            + decimal(self.stalled_ms()) + " ms, input delay "@ + decimal(self.input_delay as nat)
            + " frames, prediction "@ + decimal(MAX_PREDICTION as nat)
    }
}

fn put(out: &mut String, n: u64)
    ensures
        final(out)@ == old(out)@ + decimal(n as nat),
{
    let s = show(n);
    out.append(s.as_str());
}

fn put_wide(out: &mut String, n: u128)
    ensures
        final(out)@ == old(out)@ + decimal(n as nat),
{
    let s = show_wide(n);
    out.append(s.as_str());
}

fn put_signed(out: &mut String, n: i32)
    ensures
        final(out)@ == old(out)@ + signed_decimal(n as int),
{
    let s = show_signed(n as i64);
    out.append(s.as_str());
}

impl NetStats {
    fn jitter_rounded(&self) -> (r: u128)
        ensures
            r == self@.jitter_ms(),
    {
        let (sum, n) = self.jitter_ms();
        round_div(sum, n)
    }

    /// The overlay, for online matches when asked for; `netsim` is the line about an impaired link.
    pub fn overlay_text(&self, now: u64, adaptive: bool, netsim: &Option<String>) -> (r: String)
        ensures
            r@ == self@.overlay(now, adaptive, opt(*netsim)),
    {
        let (lo, hi) = self.ping_range();
        let ran = since(self.started_at, now);
        let secs: u64 = if ran < SECOND {
            SECOND
        } else {
            ran
        };
        let span: u64 = if secs < WINDOW {
            secs
        } else {
            WINDOW
        };
        let count = self.rollbacks_in(now, WINDOW);
        let scale: u128 = 10_000_000_000;
        let rate = round_div(scale * count as u128, span as u128);
        let mut s = owned("ping ");
        put(&mut s, self.ping_ms as u64);
        s.append(" ms   jitter ");
        put_wide(&mut s, self.jitter_rounded());
        s.append(" ms   range ");
        put(&mut s, lo as u64);
        s.append("-");
        put(&mut s, hi as u64);
        s.append("\nahead ");
        let ahead = show_with_sign(self.frames_ahead as i64);
        s.append(ahead.as_str());
        s.append("   behind me ");
        put_signed(&mut s, self.local_behind);
        s.append(" / them ");
        put_signed(&mut s, self.remote_behind);
        s.append("   queue ");
        put(&mut s, self.send_queue);
        s.append("\nrollbacks ");
        let mut per = show_wide(rate / 10);
        per.append(".");
        put_wide(&mut per, rate % 10);
        s.append(per.as_str());
        s.append("/s   deepest ");
        put_signed(&mut s, self.deepest_in(now, RECENT));
        s.append(" (3 s) / ");
        put_signed(&mut s, self.deepest_in(now, WINDOW));
        s.append(" (10 s)   total ");
        put(&mut s, self.rollbacks_total as u64);
        s.append("\nstalls ");
        put(&mut s, self.stalls_in(now, WINDOW));
        s.append(" (10 s) / ");
        put(&mut s, self.stalls_total as u64);
        s.append(" total   stalled ");
        put_wide(&mut s, round_div(self.stalled as u128, 1_000_000));
        s.append(" ms\ndelay ");
        put(&mut s, self.input_delay as u64);
        s.append(" frames (");
        put(&mut s, frames_to_ms(self.input_delay) as u64);
        s.append(" ms, ");
        s.append(
            if adaptive {
                "adaptive"
            } else {
                "manual"
            },
        );
        s.append(")   predict ");
        put(&mut s, MAX_PREDICTION as u64);
        s.append("   signal ");
        put(&mut s, self.quality(now) as u64);
        s.append("/4   ");
        put_wide(&mut s, round_div(secs as u128, SECOND as u128));
        s.append(" s");
        if let Some(line) = netsim {
            s.append("\n");
            s.append(line.as_str());
        }
        s
    }

    /// One line for the log at the end of a match.
    pub fn summary(&self, now: u64) -> (r: String)
        ensures
            r@ == self@.summed_up(now),
    {
        let (lo, hi) = self.ping_range();
        let ran = since(self.started_at, now);
        let mut s = show_wide(round_div(ran as u128, SECOND as u128));
        s.append(" s, ping ");
        put(&mut s, self.ping_ms as u64);
        s.append(" ms (last window ");
        put(&mut s, lo as u64);
        s.append("-");
        put(&mut s, hi as u64);
        s.append(", jitter ");
        put_wide(&mut s, self.jitter_rounded());
        s.append(" ms), ");
        put(&mut s, self.rollbacks_total as u64);
        s.append(" rollbacks (deepest ");
        put_signed(&mut s, self.deepest_in(now, WINDOW));
        s.append(" in the last 10 s), ");
        put(&mut s, self.stalls_total as u64);
        s.append(" stalls totalling ");
        put_wide(&mut s, round_div(self.stalled as u128, 1_000_000));
        s.append(" ms, input delay ");
        put(&mut s, self.input_delay as u64);
        s.append(" frames, prediction ");
        put(&mut s, MAX_PREDICTION as u64);
        s
    }
}

/// A match starts with nothing counted, not synchronized, from now on, and with the delay it was
/// given, which the controller takes for its target.
pub proof fn law_how_a_match_starts(delay: u8, now: u64)
    ensures
        ({
            let s = fresh_stats(delay, now);
            &&& !s.synced && s.bars(now) == 0
            &&& s.input_delay == delay && s.target == (delay, now)
            &&& s.pings.len() == 0 && s.rollbacks.len() == 0 && s.stalls.len() == 0
            &&& s.rollbacks_total == 0 && s.stalls_total == 0 && s.stalled == 0
            &&& s.last_frame == -1 && s.max_frame == -1
            &&& s.last_advance_at == now && s.started_at == now && s.stall_started is None
        }),
{
}

/// The rate of rollbacks is taken over the last ten seconds, or over the match while it is shorter,
/// a second at least; it is to the nearest tenth.
pub proof fn law_what_the_rollback_rate_is(s: NetView, now: u64)
    ensures
        ({
            let ran = elapsed(s.started_at, now);
            let span = if ran < 1_000_000_000 {
                1_000_000_000
            } else if ran > 10_000_000_000 {
                10_000_000_000
            } else {
                ran
            };
            let n = rollback_count(s.rollbacks, now, 10_000_000_000);
            -span <= 2 * (10_000_000_000 * n - span * s.rollback_rate(now)) <= span
        }),
{
    let ran = elapsed(s.started_at, now);
    let span = if ran < 1_000_000_000 {
        1_000_000_000
    } else if ran > 10_000_000_000 {
        10_000_000_000
    } else {
        ran
    };
    let n = rollback_count(s.rollbacks, now, WINDOW) as int;
    let q = nearest(10_000_000_000int * n, span);
    crate::single::law_nearest_is_nearest(10_000_000_000int * n, span);
    assert(q >= 0) by (nonlinear_arith)
        requires
            2 * (10_000_000_000int * n - span * q) <= span,
            n >= 0,
            span > 0,
    ;
}

/// The jitter and the time stalled are shown to the nearest millisecond.
pub proof fn law_milliseconds_are_nearest(s: NetView)
    ensures
        ({
            let n = change_count(s.pings) as int;
            -n <= 2 * (ping_changes(s.pings) - n * s.jitter_ms()) <= n
        }),
        -1_000_000 <= 2 * (s.stalled - 1_000_000 * s.stalled_ms()) <= 1_000_000,
{
    let n = change_count(s.pings) as int;
    let j = ping_changes(s.pings) as int;
    crate::single::law_nearest_is_nearest(j, n);
    let q = nearest(j, n);
    assert(q >= 0) by (nonlinear_arith)
        requires
            2 * (j - n * q) <= n,
            j >= 0,
            n > 0,
    ;
    crate::single::law_nearest_is_nearest(s.stalled as int, 1_000_000);
}

/// Whether a text says something: that stands in it, as it is.
pub open spec fn says(text: Seq<char>, part: Seq<char>) -> bool {
    exists|i: int|
        0 <= i && i + part.len() <= text.len() && #[trigger] text.subrange(i, i + part.len())
            == part
}

proof fn lemma_says_more()
    ensures
        forall|t: Seq<char>, x: Seq<char>, p: Seq<char>| says(t, p) ==> #[trigger] says(t + x, p),
{
    assert forall|t: Seq<char>, x: Seq<char>, p: Seq<char>| says(t, p) implies #[trigger] says(
        t + x,
        p,
    ) by {
        let i = choose|i: int|
            0 <= i && i + p.len() <= t.len() && #[trigger] t.subrange(i, i + p.len()) == p;
        assert((t + x).subrange(i, i + p.len()) =~= t.subrange(i, i + p.len()));
    }
}

proof fn lemma_says_end(t: Seq<char>, p: Seq<char>)
    ensures
        says(t + p, p),
{
    let i = t.len() as int;
    assert((t + p).subrange(i, i + p.len()) =~= p);
}

proof fn lemma_says_two()
    ensures
        forall|t: Seq<char>, a: Seq<char>, b: Seq<char>| #[trigger] says(t + a + b, a + b),
{
    assert forall|t: Seq<char>, a: Seq<char>, b: Seq<char>| #[trigger] says(t + a + b, a + b) by {
        assert(t + a + b =~= t + (a + b));
        lemma_says_end(t, a + b);
    }
}

proof fn lemma_says_four()
    ensures
        forall|t: Seq<char>, a: Seq<char>, b: Seq<char>, c: Seq<char>, d: Seq<char>|
            #[trigger] says(t + a + b + c + d, a + b + c + d),
{
    assert forall|t: Seq<char>, a: Seq<char>, b: Seq<char>, c: Seq<char>, d: Seq<char>|
        #[trigger] says(t + a + b + c + d, a + b + c + d) by {
        assert(t + a + b + c + d =~= t + (a + b + c + d));
        lemma_says_end(t, a + b + c + d);
    }
}

/// The overlay says each figure behind the word for it: this player's and the opponent's lag, the
/// deepest rollback of the last three and of the last ten seconds, the stalls of the last ten seconds
/// and of the match, the delay and who picks it, and the signal.
pub proof fn law_what_the_overlay_says(
    s: NetView,
    now: u64,
    adaptive: bool,
    netsim: Option<Seq<char>>,
)
    ensures
        ({
            let text = s.overlay(now, adaptive, netsim);
            &&& says(
                text,
                "\nahead "@ + with_sign(s.frames_ahead as int) + "   behind me "@ + signed_decimal(
                    s.local_behind as int,
                ),
            )
            &&& says(text, " / them "@ + signed_decimal(s.remote_behind as int))
            &&& says(text, "   queue "@ + decimal(s.send_queue as nat))
            &&& says(
                text,
                "/s   deepest "@ + signed_decimal(
                    or_none(deepest(s.rollbacks, now, 3_000_000_000)) as int,
                ) + " (3 s) / "@ + signed_decimal(
                    or_none(deepest(s.rollbacks, now, 10_000_000_000)) as int,
                ),
            )
            &&& says(text, " (10 s)   total "@ + decimal(s.rollbacks_total as nat))
            &&& says(
                text,
                "\nstalls "@ + decimal(stall_count(s.stalls, now, 10_000_000_000)) + " (10 s) / "@
                    + decimal(s.stalls_total as nat),
            )
            &&& says(text, " total   stalled "@ + decimal(s.stalled_ms()))
            &&& says(
                text,
                " ms\ndelay "@ + decimal(s.input_delay as nat) + " frames ("@ + decimal(
                    ticks_in_ms(s.input_delay as nat),
                ),
            )
            &&& says(
                text,
                " ms, "@ + (if adaptive {
                    "adaptive"@
                } else {
                    "manual"@
                }),
            )
            &&& says(text, "   signal "@ + decimal(s.bars(now) as nat))
            &&& says(
                text,
                " ms   range "@ + decimal(least_ping(s.pings, s.ping_ms) as nat) + "-"@ + decimal(
                    greatest_ping(s.pings, s.ping_ms) as nat,
                ),
            )
            &&& says(text, " ms   jitter "@ + decimal(s.jitter_ms()))
            &&& netsim matches Some(line) ==> says(text, "\n"@ + line)
        }),
{
    lemma_says_more();
    lemma_says_two();
    lemma_says_four();
}

/// The line for the log says each figure behind the word for it.
pub proof fn law_what_the_summary_says(s: NetView, now: u64)
    ensures
        ({
            let text = s.summed_up(now);
            &&& says(text, " s, ping "@ + decimal(s.ping_ms as nat))
            &&& says(
                text,
                " ms (last window "@ + decimal(least_ping(s.pings, s.ping_ms) as nat) + "-"@
                    + decimal(greatest_ping(s.pings, s.ping_ms) as nat),
            )
            &&& says(text, ", jitter "@ + decimal(s.jitter_ms()))
            &&& says(text, " ms), "@ + decimal(s.rollbacks_total as nat))
            &&& says(
                text,
                " rollbacks (deepest "@ + signed_decimal(
                    or_none(deepest(s.rollbacks, now, 10_000_000_000)) as int,
                ),
            )
            &&& says(
                text,
                " in the last 10 s), "@ + decimal(s.stalls_total as nat) + " stalls totalling "@
                    + decimal(s.stalled_ms()),
            )
            &&& says(text, " ms, input delay "@ + decimal(s.input_delay as nat))
        }),
{
    lemma_says_more();
    lemma_says_two();
    lemma_says_four();
}

} // verus!
