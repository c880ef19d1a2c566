//! What the in-game overlay shows: the scores, the match clock, the rocket counter, the height meter
//! with the airshot line, the focus and connection hints, the round banner and the kill feed.
//! Heights, speeds and distances are counted in thousandths of a unit.

use vstd::prelude::*;
use vstd::string::*;

use crate::account::first;
use crate::clock::{after, elapsed, later, since};
use crate::game::SimEvent;
use crate::net::{MatchKind, PlayerNames};
use crate::single::nearest;
use crate::numeral::clamped;
use crate::text::{cat, cat3, chars, decimal, eq, owned, show, show_padded, show_signed,
    signed_decimal, string_of, zero_padded};
use crate::theme::Tint;

verus! {

/// How the connection is doing.
pub struct NetStatus {
    pub text: String,
    pub ping_ms: u32,
    pub frames_ahead: i32,
}

/// How long a kill feed line stays fully visible.
pub const KILL_HOLD: u64 = 2_000_000_000;

/// How long it then takes to fade away.
pub const KILL_FADE: u64 = 500_000_000;

pub const KILL_MAX_LINES: usize = 5;

/// How long the round banner stays up.
pub const BANNER_FOR: u64 = 3_500_000_000;

/// Thousandths rounded to whole ones, with the sign that they had.
pub open spec fn rounded_text(n: int) -> Seq<char> {
    if n < 0 {
        "-"@ + decimal(nearest(-n, 1000) as nat)
    } else {
        decimal(nearest(n, 1000) as nat)
    }
}

fn show_rounded(n: i64) -> (r: String)
    requires
        n > i64::MIN,
    ensures
        r@ == rounded_text(n as int),
{
    let m: u64 = if n < 0 {
        (-n) as u64
    } else {
        n as u64
    };
    let q: u64 = m / 1000;
    let rest: u64 = m % 1000;
    let s = show(
        if rest > 500 || (rest == 500 && q % 2 == 1) {
            q + 1
        } else {
            q
        },
    );
    if n < 0 {
        cat("-", s.as_str())
    } else {
        s
    }
}

/// What the overlay reads of the match.
pub struct HudInput {
    pub local: usize,
    /// The players' scores, by handle.
    pub score: (i32, i32),
    pub alive: bool,
    pub clip: i32,
    /// Above the floor.
    pub height: i32,
    /// Where the airshot line is.
    pub airshot_height: i32,
    pub speed: i32,
    /// The mouse is captured.
    pub captured: bool,
    /// Whole seconds of the match clock.
    pub seconds: u32,
}

/// What the overlay shows.
pub struct HudLook {
    pub my_score: String,
    pub their_score: String,
    pub clip: String,
    pub clip_tint: Tint,
    /// The clip is a number, drawn large.
    pub clip_large: bool,
    pub reserve: String,
    pub height: String,
    pub speed: String,
    /// Above the airshot line.
    pub above: bool,
    /// How full the height bar is, as a numerator and a denominator.
    pub bar: (u64, u64),
    pub status: String,
    pub timer: String,
}

pub open spec fn score_at(score: (i32, i32), handle: int) -> int {
    if handle == 0 {
        score.0 as int
    } else {
        score.1 as int
    }
}

/// Whether the match is against another player whose connection shows.
pub open spec fn shows_ping(kind: Option<MatchKind>) -> bool {
    kind is Some && (kind->0 is Room || kind->0 is Quick)
}

/// The hint in the corner. Only warnings are shown ("connection interrupted", "desync ..."), never
/// "connected".
pub open spec fn status_text(captured: bool, kind: Option<MatchKind>, text: Seq<char>, ping: u32) -> Seq<
    char,
> {
    let focus = if captured {
        "Tab to unfocus"@
    } else {
        "click to focus"@
    };
    let net = if !shows_ping(kind) {
        Seq::empty()
    } else if text != "connected"@ && text.len() > 0 {
        "\nping "@ + decimal(ping as nat) + " ms - "@ + text
    } else {
        "\nping "@ + decimal(ping as nat) + " ms"@
    };
    focus + " - Esc for menu"@ + net
}

fn status_line(captured: bool, kind: &Option<MatchKind>, status: &NetStatus) -> (r: String)
    ensures
        r@ == status_text(captured, *kind, status.text@, status.ping_ms),
{
    let mut s = owned(
        if captured {
            "Tab to unfocus"
        } else {
            "click to focus"
        },
    );
    s.append(" - Esc for menu");
    let shown = match kind {
        Some(MatchKind::Room { .. }) => true,
        Some(MatchKind::Quick(_)) => true,
        _ => false,
    };
    let ghost base = s@;
    if shown {
        let ping = show(status.ping_ms as u64);
        let mut net = cat3("\nping ", ping.as_str(), " ms");
        if !eq(status.text.as_str(), "connected") && !status.text.as_str().is_empty() {
            net = cat3("\nping ", ping.as_str(), " ms - ");
            net.append(status.text.as_str());
        }
        s.append(net.as_str());
    } else {
        proof {
            assert(base + Seq::<char>::empty() =~= base);
        }
    }
    s
}

/// `M:SS`.
pub open spec fn clock_text(seconds: nat) -> Seq<char> {
    decimal(seconds / 60) + ":"@ + zero_padded(decimal(seconds % 60), 2)
}

fn clock(seconds: u32) -> (r: String)
    ensures
        r@ == clock_text(seconds as nat),
{
    let minutes = show(seconds as u64 / 60);
    let rest = show_padded(seconds as u64 % 60, 2);
    cat3(minutes.as_str(), ":", rest.as_str())
}

/// What the overlay shows. The height bar spans up to one and a half times the airshot height, so
/// "above the line" still has room to grow.
pub fn update_hud(i: &HudInput, kind: &Option<MatchKind>, status: &NetStatus) -> (r: HudLook)
    requires
        i.local <= 1,
        i.airshot_height > 0,
    ensures
        r.my_score@ == signed_decimal(score_at(i.score, i.local as int)),
        r.their_score@ == signed_decimal(score_at(i.score, 1 - i.local)),
        i.local == 0 ==> r.my_score@ == signed_decimal(i.score.0 as int) && r.their_score@
            == signed_decimal(i.score.1 as int),
        i.local == 1 ==> r.my_score@ == signed_decimal(i.score.1 as int) && r.their_score@
            == signed_decimal(i.score.0 as int),
        r.clip@ == if i.alive {
            signed_decimal(i.clip as int)
        } else {
            "RESPAWNING"@
        },
        r.clip_tint == if !i.alive {
            Tint::LightRed
        } else if i.clip == 0 {
            Tint::DeathRed
        } else {
            Tint::TanLight
        },
        r.clip_large == i.alive,
        r.reserve@ == if i.alive {
            "∞"@
        } else {
            ""@
        },
        r.height@ == rounded_text(i.height as int),
        r.speed@ == "SPEED "@ + rounded_text(i.speed as int) + " U/S"@,
        r.above == (i.height >= i.airshot_height),
        r.bar.1 == 3 * i.airshot_height,
        r.bar.0 == clamped(2 * i.height, 0, 3 * i.airshot_height),
        r.status@ == status_text(i.captured, *kind, status.text@, status.ping_ms),
        r.timer@ == clock_text(i.seconds as nat),
{
    let (mine, theirs) = if i.local == 0 {
        (i.score.0, i.score.1)
    } else {
        (i.score.1, i.score.0)
    };
    let full: i64 = 3 * i.airshot_height as i64;
    let fill: i64 = 2 * i.height as i64;
    let bar: i64 = if fill < 0 {
        0
    } else if fill > full {
        full
    } else {
        fill
    };
    let speed = show_rounded(i.speed as i64);
    HudLook {
        my_score: show_signed(mine as i64),
        their_score: show_signed(theirs as i64),
        clip: if i.alive {
            show_signed(i.clip as i64)
        } else {
            owned("RESPAWNING")
        },
        clip_tint: if !i.alive {
            Tint::LightRed
        } else if i.clip == 0 {
            Tint::DeathRed
        } else {
            Tint::TanLight
        },
        clip_large: i.alive,
        reserve: owned(
            if i.alive {
                "∞"
            } else {
                ""
            },
        ),
        height: show_rounded(i.height as i64),
        speed: cat3("SPEED ", speed.as_str(), " U/S"),
        above: i.height >= i.airshot_height,
        bar: (bar as u64, full as u64),
        status: status_line(i.captured, kind, status),
        timer: clock(i.seconds),
    }
}

/// The height bar is full from one and a half times the airshot height on, and two thirds full at
/// the line itself.
pub proof fn law_bar_marks_the_airshot_line(height: int, line: int)
    requires
        line > 0,
    ensures
        height >= line ==> 3 * clamped(2 * height, 0, 3 * line) >= 2 * (3 * line),
        2 * height >= 3 * line ==> clamped(2 * height, 0, 3 * line) == 3 * line,
        height <= 0 ==> clamped(2 * height, 0, 3 * line) == 0,
{
}

// ---- the round banner ----

/// The banner in the middle of the view.
pub struct Flash {
    pub text: String,
    pub won: bool,
    pub until: u64,
}

#[verifier::ext_equal]
pub struct FlashView {
    pub text: Seq<char>,
    pub won: bool,
    pub until: u64,
}

impl View for Flash {
    type V = FlashView;

    open spec fn view(&self) -> FlashView {
        FlashView { text: self.text@, won: self.won, until: self.until }
    }
}

impl FlashView {
    /// The banner after an event.
    pub open spec fn after_event(self, ev: SimEvent, local: int, now: u64) -> FlashView {
        match ev {
            SimEvent::RoundWon { winner, score } => {
                let won = winner as int == local;
                let tail = signed_decimal(score@[local] as int) + " - "@ + signed_decimal(
                    score@[1 - local] as int,
                );
                FlashView {
                    text: (if won {
                        "VICTORY!\n"@
                    } else {
                        "ROUND LOST\n"@
                    }) + tail,
                    won,
                    until: later(now, BANNER_FOR) as u64,
                }
            },
            _ => self,
        }
    }

    pub open spec fn after_events(self, events: Seq<SimEvent>, local: int, now: u64) -> FlashView
        decreases events.len(),
    {
        if events.len() == 0 {
            self
        } else {
            self.after_events(events.drop_last(), local, now).after_event(events.last(), local, now)
        }
    }

    /// The banner once its time is up.
    pub open spec fn expired(self, now: u64) -> FlashView {
        if now > self.until {
            FlashView { text: Seq::empty(), ..self }
        } else {
            self
        }
    }
}

impl Flash {
    pub fn new() -> (r: Flash)
        ensures
            r@ == (FlashView { text: Seq::empty(), won: false, until: 0 }),
    {
        let r = Flash { text: String::new(), won: false, until: 0 };
        proof {
            assert(r@.text =~= Seq::<char>::empty());
        }
        r
    }

    fn event(&mut self, ev: &SimEvent, local: usize, now: u64)
        requires
            local <= 1,
        ensures
            final(self)@ == old(self)@.after_event(*ev, local as int, now),
    {
        match ev {
            SimEvent::RoundWon { winner, score } => {
                let won = *winner as usize == local;
                let mine = show_signed(score[local] as i64);
                let theirs = show_signed(score[1 - local] as i64);
                let tail = cat3(mine.as_str(), " - ", theirs.as_str());
                self.text = cat(
                    if won {
                        "VICTORY!\n"
                    } else {
                        "ROUND LOST\n"
                    },
                    tail.as_str(),
                );
                self.won = won;
                self.until = after(now, BANNER_FOR);
            },
            _ => {},
        }
    }

    /// Puts a round's result up, and takes it down when its time is up.
    pub fn kill_flashes(&mut self, events: &Vec<SimEvent>, local: usize, now: u64)
        requires
            local <= 1,
        ensures
            final(self)@ == old(self)@.after_events(events@, local as int, now).expired(now),
    {
        let ghost start = self@;
        let mut i: usize = 0;
        proof {
            assert(events@.take(0) =~= Seq::<SimEvent>::empty());
        }
        while i < events.len()
            invariant
                i <= events.len(),
                local <= 1,
                self@ == start.after_events(events@.take(i as int), local as int, now),
            decreases events.len() - i,
        {
            proof {
                assert(events@.take(i as int + 1).drop_last() =~= events@.take(i as int));
            }
            self.event(&events[i], local, now);
            i = i + 1;
        }
        proof {
            assert(events@.take(events@.len() as int) =~= events@);
        }
        if now > self.until && !self.text.as_str().is_empty() {
            self.text = String::new();
            proof {
                assert(self.text@ =~= Seq::<char>::empty());
            }
        } else {
            proof {
                if now > self.until {
                    assert(self.text@ =~= Seq::<char>::empty());
                }
            }
        }
    }
}

// ---- the kill feed ----

/// A death notice: `killer [soldier] victim  N U`, names in team colours (RED is the local player,
/// BLU the opponent).
#[derive(Debug, PartialEq)]
pub struct KillLine {
    pub killer: String,
    pub killer_tint: Tint,
    pub victim: String,
    pub victim_tint: Tint,
    pub distance: String,
    pub born: u64,
}

#[verifier::ext_equal]
pub struct KillLineView {
    pub killer: Seq<char>,
    pub killer_tint: Tint,
    pub victim: Seq<char>,
    pub victim_tint: Tint,
    pub distance: Seq<char>,
    pub born: u64,
}

impl View for KillLine {
    type V = KillLineView;

    open spec fn view(&self) -> KillLineView {
        KillLineView {
            killer: self.killer@,
            killer_tint: self.killer_tint,
            victim: self.victim@,
            victim_tint: self.victim_tint,
            distance: self.distance@,
            born: self.born,
        }
    }
}

pub open spec fn lines_view(v: Seq<KillLine>) -> Seq<KillLineView> {
    v.map_values(|l: KillLine| l@)
}

/// A name cut to fit a kill line.
pub open spec fn feed_name(name: Seq<char>) -> Seq<char> {
    if name.len() == 0 {
        "???"@
    } else {
        first(name, 16)
    }
}

pub open spec fn team_tint(handle: int, local: int) -> Tint {
    if handle == local {
        Tint::RedTeam
    } else {
        Tint::BluTeam
    }
}

pub open spec fn kill_line(
    names: PlayerNames,
    local: int,
    attacker: int,
    victim: int,
    distance: i32,
    now: u64,
) -> KillLineView {
    KillLineView {
        killer: feed_name(names.of(attacker)),
        killer_tint: team_tint(attacker, local),
        victim: feed_name(names.of(victim)),
        victim_tint: team_tint(victim, local),
        distance: rounded_text(distance as int) + " U"@,
        born: now,
    }
}

/// The notices of the airshot kills among the first `n` events; `distances` go with the events.
pub open spec fn fresh_lines(
    events: Seq<SimEvent>,
    distances: Seq<i32>,
    names: PlayerNames,
    local: int,
    now: u64,
    n: int,
) -> Seq<KillLineView>
    decreases n,
{
    if n <= 0 {
        Seq::empty()
    } else {
        let before = fresh_lines(events, distances, names, local, now, n - 1);
        match events[n - 1] {
            SimEvent::PlayerHit { victim, attacker, airshot_kill } => if airshot_kill && attacker
                != victim {
                before.push(
                    kill_line(
                        names,
                        local,
                        attacker as int,
                        victim as int,
                        distances[n - 1],
                        now,
                    ),
                )
            } else {
                before
            },
            _ => before,
        }
    }
}

/// Whether a line has finished fading.
pub open spec fn faded(born: u64, now: u64) -> bool {
    elapsed(born, now) > KILL_HOLD + KILL_FADE
}

/// The lines that have not finished fading, in order.
pub open spec fn unfaded(lines: Seq<KillLineView>, now: u64) -> Seq<KillLineView>
    decreases lines.len(),
{
    if lines.len() == 0 {
        lines
    } else if faded(lines.last().born, now) {
        unfaded(lines.drop_last(), now)
    } else {
        unfaded(lines.drop_last(), now).push(lines.last())
    }
}

/// The oldest lines dropped so that the feed does not get long.
pub open spec fn trimmed_feed(live: Seq<KillLineView>, fresh: nat) -> Seq<KillLineView> {
    let over = live.len() + fresh - KILL_MAX_LINES;
    if over <= 0 {
        live
    } else if over >= live.len() {
        Seq::empty()
    } else {
        live.skip(over)
    }
}

fn show_name(names: &PlayerNames, handle: u8) -> (r: String)
    ensures
        r@ == feed_name(names.of(handle as int)),
{
    let name = if handle == 0 {
        names.first.as_str()
    } else if handle == 1 {
        names.second.as_str()
    } else {
        ""
    };
    proof {
        reveal_strlit("");
        assert(""@ =~= Seq::<char>::empty());
    }
    if name.is_empty() {
        return owned("???");
    }
    let v = chars(name);
    let n: usize = if v.len() > 16 {
        16
    } else {
        v.len()
    };
    proof {
        if v@.len() > 16 {
            assert(v@.take(16) =~= v@.subrange(0, 16));
        } else {
            assert(v@ =~= v@.subrange(0, v@.len() as int));
        }
    }
    string_of(&v, 0, n)
}

fn tint_of(handle: u8, local: usize) -> (r: Tint)
    ensures
        r == team_tint(handle as int, local as int),
{
    if handle as usize == local {
        Tint::RedTeam
    } else {
        Tint::BluTeam
    }
}

fn spawn_kill_line(
    names: &PlayerNames,
    local: usize,
    attacker: u8,
    victim: u8,
    distance: i32,
    now: u64,
) -> (r: KillLine)
    ensures
        r@ == kill_line(*names, local as int, attacker as int, victim as int, distance, now),
{
    let d = show_rounded(distance as i64);
    KillLine {
        killer: show_name(names, attacker),
        killer_tint: tint_of(attacker, local),
        victim: show_name(names, victim),
        victim_tint: tint_of(victim, local),
        distance: cat(d.as_str(), " U"),
        born: now,
    }
}

fn fresh_kills(
    events: &Vec<SimEvent>,
    distances: &Vec<i32>,
    names: &PlayerNames,
    local: usize,
    now: u64,
) -> (r: Vec<KillLine>)
    requires
        distances.len() == events.len(),
    ensures
        lines_view(r@) == fresh_lines(
            events@,
            distances@,
            *names,
            local as int,
            now,
            events@.len() as int,
        ),
{
    let mut out: Vec<KillLine> = Vec::new();
    let mut i: usize = 0;
    proof {
        assert(lines_view(out@) =~= Seq::<KillLineView>::empty());
    }
    while i < events.len()
        invariant
            i <= events.len(),
            distances.len() == events.len(),
            lines_view(out@) == fresh_lines(
                events@,
                distances@,
                *names,
                local as int,
                now,
                i as int,
            ),
        decreases events.len() - i,
    {
        if let SimEvent::PlayerHit { victim, attacker, airshot_kill } = &events[i] {
            if *airshot_kill && *attacker != *victim {
                let ghost before = lines_view(out@);
                let line = spawn_kill_line(names, local, *attacker, *victim, distances[i], now);
                out.push(line);
                proof {
                    assert(lines_view(out@) =~= before.push(line@));
                }
            }
        }
        i = i + 1;
    }
    out
}

/// The kill feed (top right); kills are appended, newest at the bottom.
pub struct KillFeed {
    pub lines: Vec<KillLine>,
}

impl KillFeed {
    /// Drops the lines that have finished fading, and the oldest ones if the feed is getting long,
    /// then appends the airshot kills among the events. `distances` go with the events.
    pub fn kill_feed(
        &mut self,
        events: &Vec<SimEvent>,
        distances: &Vec<i32>,
        names: &PlayerNames,
        local: usize,
        now: u64,
    )
        requires
            distances.len() == events.len(),
        ensures
            ({
                let fresh = fresh_lines(
                    events@,
                    distances@,
                    *names,
                    local as int,
                    now,
                    events@.len() as int,
                );
                lines_view(final(self).lines@) == trimmed_feed(
                    unfaded(lines_view(old(self).lines@), now),
                    fresh.len(),
                ) + fresh
            }),
    {
        let mut fresh = fresh_kills(events, distances, names, local, now);
        let ghost news = lines_view(fresh@);
        let mut all: Vec<KillLine> = Vec::new();
        std::mem::swap(&mut all, &mut self.lines);
        let ghost old_lines = lines_view(all@);
        // The lines that live on, oldest first.
        let n = all.len();
        let mut keep: Vec<bool> = Vec::new();
        let mut live: usize = 0;
        let mut i: usize = 0;
        proof {
            assert(old_lines.take(0) =~= Seq::<KillLineView>::empty());
        }
        while i < n
            invariant
                i <= n,
                n == all.len(),
                keep@.len() == i,
                old_lines == lines_view(all@),
                live <= i,
                live == unfaded(old_lines.take(i as int), now).len(),
                forall|j: int| 0 <= j < i ==> keep@[j] == !faded(all@[j].born, now),
            decreases n - i,
        {
            proof {
                assert(old_lines.take(i as int + 1).drop_last() =~= old_lines.take(i as int));
                assert(old_lines[i as int] == all@[i as int]@);
            }
            let stays = since(all[i].born, now) <= KILL_HOLD + KILL_FADE;
            keep.push(stays);
            if stays {
                live = live + 1;
            }
            i = i + 1;
        }
        proof {
            assert(old_lines.take(n as int) =~= old_lines);
        }
        let over: usize = if live > KILL_MAX_LINES || fresh.len() > KILL_MAX_LINES - live {
            let excess: usize = if live > KILL_MAX_LINES {
                live - KILL_MAX_LINES
            } else {
                0
            };
            let room: usize = if live < KILL_MAX_LINES {
                KILL_MAX_LINES - live
            } else {
                0
            };
            if fresh.len() <= room {
                excess
            } else if fresh.len() - room >= live - excess {
                live
            } else {
                excess + (fresh.len() - room)
            }
        } else {
            0
        };
        let ghost kept = unfaded(old_lines, now);
        proof {
            assert(trimmed_feed(kept, news.len()) =~= kept.skip(over as int));
        }
        let mut out: Vec<KillLine> = Vec::new();
        let mut seen: usize = 0;
        let mut k: usize = 0;
        proof {
            assert(lines_view(out@) =~= Seq::<KillLineView>::empty());
        }
        while k < n
            invariant
                k <= n,
                keep@.len() == n,
                all@.len() == n - k,
                n == old_lines.len(),
                old_lines.skip(k as int) == lines_view(all@),
                forall|j: int| 0 <= j < n ==> keep@[j] == !faded(#[trigger] old_lines[j].born, now),
                seen <= k,
                seen == unfaded(old_lines.take(k as int), now).len(),
                over <= live,
                lines_view(out@) == if seen <= over {
                    Seq::empty()
                } else {
                    unfaded(old_lines.take(k as int), now).skip(over as int)
                },
            decreases n - k,
        {
            proof {
                assert(old_lines.take(k as int + 1).drop_last() =~= old_lines.take(k as int));
                assert(old_lines[k as int] == old_lines.skip(k as int)[0]);
                assert(lines_view(all@)[0] == all@[0]@);
                assert(old_lines.skip(k as int + 1) =~= old_lines.skip(k as int).skip(1));
            }
            let ghost whole = all@;
            let ghost before = unfaded(old_lines.take(k as int), now);
            let line = all.remove(0);
            proof {
                assert(lines_view(all@) =~= lines_view(whole).skip(1));
            }
            if keep[k] {
                if seen >= over {
                    let ghost out_before = lines_view(out@);
                    out.push(line);
                    proof {
                        assert(lines_view(out@) =~= out_before.push(line@));
                        assert(before.push(line@).skip(over as int) =~= if seen <= over {
                            Seq::empty().push(line@)
                        } else {
                            before.skip(over as int).push(line@)
                        });
                    }
                }
                seen = seen + 1;
            }
            k = k + 1;
        }
        proof {
            assert(old_lines.take(n as int) =~= old_lines);
            if seen <= over {
                assert(kept.skip(over as int) =~= Seq::<KillLineView>::empty());
            }
        }
        let ghost shown = lines_view(out@);
        let ghost tail = fresh@;
        out.append(&mut fresh);
        proof {
            assert(lines_view(out@) =~= shown + lines_view(tail));
        }
        self.lines = out;
    }
}

/// How much of a kill line's opacity is left, in nanoseconds of its fade: all of it while the line
/// holds, nothing once it is gone.
pub open spec fn opacity(born: u64, now: u64) -> int {
    let age = elapsed(born, now);
    if age <= KILL_HOLD {
        KILL_FADE as int
    } else {
        clamped(KILL_FADE - (age - KILL_HOLD), 0, KILL_FADE as int)
    }
}

/// How much of a kill line's opacity is left, out of [`KILL_FADE`].
pub fn line_opacity(born: u64, now: u64) -> (r: u64)
    ensures
        r == opacity(born, now),
{
    let age = since(born, now);
    if age <= KILL_HOLD {
        KILL_FADE
    } else if age - KILL_HOLD >= KILL_FADE {
        0
    } else {
        KILL_FADE - (age - KILL_HOLD)
    }
}

/// A feed that was trimmed holds at most five lines, unless more kills than that happen at once.
pub proof fn law_feed_stays_short(live: Seq<KillLineView>, fresh: nat)
    requires
        fresh <= KILL_MAX_LINES,
    ensures
        trimmed_feed(live, fresh).len() + fresh <= KILL_MAX_LINES,
{
}

/// A line that is dropped had become invisible.
pub proof fn law_lines_fade_before_they_go(born: u64, now: u64)
    requires
        faded(born, now),
    ensures
        opacity(born, now) == 0,
{
}

/// The hint says how to get in or out of focus, whichever applies. The ping follows exactly in a
/// match against another player, and behind it whatever is wrong with the connection.
pub proof fn law_what_the_hint_says(captured: bool, kind: Option<MatchKind>, text: Seq<char>, ping: u32)
    ensures
        ({
            let hint = status_text(captured, kind, text, ping);
            let focus = (if captured {
                "Tab to unfocus"@
            } else {
                "click to focus"@
            }) + " - Esc for menu"@;
            let online = kind matches Some(MatchKind::Room { .. }) || kind matches Some(
                MatchKind::Quick(_),
            );
            let ping_text = "\nping "@ + decimal(ping as nat) + " ms"@;
            &&& !online ==> hint == focus
            &&& online && (text == "connected"@ || text.len() == 0) ==> hint == focus + ping_text
            &&& online && text != "connected"@ && text.len() > 0 ==> hint == focus + ("\nping "@
                + decimal(ping as nat) + " ms - "@ + text)
        }),
{
    let focus = (if captured {
        "Tab to unfocus"@
    } else {
        "click to focus"@
    }) + " - Esc for menu"@;
    assert(focus + Seq::<char>::empty() =~= focus);
}

/// A round's end puts the banner up for three and a half seconds, for the side that this player was
/// on, with this player's score first; no other event touches it.
pub proof fn law_what_the_banner_says(f: FlashView, ev: SimEvent, local: int, now: u64)
    requires
        0 <= local <= 1,
    ensures
        !(ev is RoundWon) ==> f.after_event(ev, local, now) == f,
        ev matches SimEvent::RoundWon { winner, score } ==> {
            let g = f.after_event(ev, local, now);
            let mine = signed_decimal(
                (if local == 0 {
                    score@[0]
                } else {
                    score@[1]
                }) as int,
            );
            let theirs = signed_decimal(
                (if local == 0 {
                    score@[1]
                } else {
                    score@[0]
                }) as int,
            );
            &&& g.won <==> winner as int == local
            &&& winner as int == local ==> g.text == "VICTORY!\n"@ + (mine + " - "@ + theirs)
            &&& winner as int != local ==> g.text == "ROUND LOST\n"@ + (mine + " - "@ + theirs)
            &&& now + 3_500_000_000 <= u64::MAX ==> g.until == now + 3_500_000_000
        },
        now > f.until ==> f.expired(now).text.len() == 0,
        now <= f.until ==> f.expired(now) == f,
        f.expired(now).won == f.won && f.expired(now).until == f.until,
{
}

/// A kill line names the killer as the killer and the victim as the victim, each in the colour of
/// their side, this player's red; and it starts out now.
pub proof fn law_what_a_kill_line_says(
    names: PlayerNames,
    local: int,
    attacker: int,
    victim: int,
    distance: i32,
    now: u64,
)
    requires
        0 <= local <= 1,
        0 <= attacker <= 1,
        0 <= victim <= 1,
    ensures
        ({
            let l = kill_line(names, local, attacker, victim, distance, now);
            &&& l.killer == feed_name(
                if attacker == 0 {
                    names.first@
                } else {
                    names.second@
                },
            )
            &&& l.victim == feed_name(
                if victim == 0 {
                    names.first@
                } else {
                    names.second@
                },
            )
            &&& l.killer_tint == Tint::RedTeam <==> attacker == local
            &&& l.killer_tint == Tint::BluTeam <==> attacker != local
            &&& l.victim_tint == Tint::RedTeam <==> victim == local
            &&& l.victim_tint == Tint::BluTeam <==> victim != local
            &&& attacker != victim ==> l.killer_tint != l.victim_tint
            &&& l.born == now
        }),
{
}

/// A name in the feed is the beginning of the player's name, sixteen characters at most, and never
/// empty.
pub proof fn law_feed_names_fit(name: Seq<char>)
    ensures
        0 < feed_name(name).len() <= 16,
        name.len() > 0 ==> feed_name(name).is_prefix_of(name),
        0 < name.len() <= 16 ==> feed_name(name) == name,
        name.len() > 16 ==> feed_name(name).len() == 16,
{
    reveal_strlit("???");
}

/// A line comes of each hit that killed another player in the air, and of nothing else.
pub proof fn law_airshots_make_the_feed(
    events: Seq<SimEvent>,
    distances: Seq<i32>,
    names: PlayerNames,
    local: int,
    now: u64,
    n: int,
)
    requires
        0 < n <= events.len(),
    ensures
        ({
            let before = fresh_lines(events, distances, names, local, now, n - 1);
            let after = fresh_lines(events, distances, names, local, now, n);
            let counts = events[n - 1] matches SimEvent::PlayerHit {
                victim,
                attacker,
                airshot_kill,
            } && airshot_kill && attacker != victim;
            &&& !counts ==> after == before
            &&& counts ==> after.len() == before.len() + 1 && after.drop_last() == before
                && after.last() == kill_line(
                names,
                local,
                (events[n - 1]->PlayerHit_attacker) as int,
                (events[n - 1]->PlayerHit_victim) as int,
                distances[n - 1],
                now,
            )
        }),
        fresh_lines(events, distances, names, local, now, 0).len() == 0,
{
    let before = fresh_lines(events, distances, names, local, now, n - 1);
    let after = fresh_lines(events, distances, names, local, now, n);
    if after.len() == before.len() + 1 {
        assert(after.drop_last() =~= before);
    }
}

/// A line stays exactly for two and a half seconds, and the lines that stay keep their order.
pub proof fn law_how_long_a_line_stays(lines: Seq<KillLineView>, l: KillLineView, now: u64)
    ensures
        elapsed(l.born, now) <= 2_500_000_000 ==> unfaded(lines.push(l), now) == unfaded(
            lines,
            now,
        ).push(l),
        elapsed(l.born, now) > 2_500_000_000 ==> unfaded(lines.push(l), now) == unfaded(lines, now),
        unfaded(Seq::empty(), now).len() == 0,
{
    assert(lines.push(l).drop_last() =~= lines);
}

/// When the feed gets long the oldest lines go, no more of them than needed.
pub proof fn law_the_oldest_lines_go(live: Seq<KillLineView>, fresh: nat)
    ensures
        ({
            let kept = trimmed_feed(live, fresh);
            &&& kept == live.skip(live.len() - kept.len())
            &&& live.len() + fresh <= 5 ==> kept == live
            &&& live.len() + fresh > 5 && fresh <= 5 ==> kept.len() + fresh == 5
            &&& fresh > 5 ==> kept.len() == 0
        }),
{
    let kept = trimmed_feed(live, fresh);
    assert(kept =~= live.skip(live.len() - kept.len()));
}

/// A line is fully visible for two seconds, then fades evenly over half a second, and is gone.
pub proof fn law_how_a_line_fades(born: u64, now: u64, later_on: u64)
    requires
        now <= later_on,
    ensures
        elapsed(born, now) <= 2_000_000_000 ==> opacity(born, now) == 500_000_000,
        2_000_000_000 <= elapsed(born, now) <= 2_500_000_000 ==> opacity(born, now) + elapsed(
            born,
            now,
        ) == 2_500_000_000,
        elapsed(born, now) >= 2_500_000_000 ==> opacity(born, now) == 0,
        opacity(born, later_on) <= opacity(born, now),
{
}

/// The clock shows whole minutes and the seconds beyond them.
pub proof fn law_the_clock_shows_the_time(minutes: nat, seconds: nat)
    requires
        seconds < 60,
    ensures
        clock_text(60 * minutes + seconds) == decimal(minutes) + ":"@ + zero_padded(
            decimal(seconds),
            2,
        ),
{
    assert((60 * minutes + seconds) / 60 == minutes);
    assert((60 * minutes + seconds) % 60 == seconds);
}

/// A length is shown to the nearest whole unit, and below zero with a minus.
pub proof fn law_how_a_length_is_shown(n: int)
    ensures
        n >= 0 ==> exists|q: nat|
            rounded_text(n) == #[trigger] decimal(q) && -1000 <= 2 * (n - 1000 * q) <= 1000,
        n < 0 ==> rounded_text(n) == "-"@ + rounded_text(-n),
        rounded_text(1000 * n) == if n < 0 {
            "-"@ + decimal((-n) as nat)
        } else {
            decimal(n as nat)
        },
{
    if n >= 0 {
        crate::single::law_nearest_is_nearest(n, 1000);
        let q = nearest(n, 1000);
        assert(q >= 0);
        assert(rounded_text(n) == decimal(q as nat));
    }
    crate::single::law_nearest_is_nearest(1000 * n, 1000);
    crate::single::law_nearest_is_nearest(-1000 * n, 1000);
}

/// Of several rounds that end at once the last one is on the banner.
pub proof fn law_the_last_round_is_on_the_banner(
    f: FlashView,
    events: Seq<SimEvent>,
    ev: SimEvent,
    local: int,
    now: u64,
)
    ensures
        f.after_events(events.push(ev), local, now) == f.after_events(events, local, now).after_event(
            ev,
            local,
            now,
        ),
        f.after_events(Seq::empty(), local, now) == f,
        ev is RoundWon ==> f.after_events(events.push(ev), local, now) == f.after_event(
            ev,
            local,
            now,
        ),
{
    assert(events.push(ev).drop_last() =~= events);
}

} // verus!
