//! The bookkeeping of the rollback game loop: which simulation events the presentation has not seen
//! yet, when the mouse is captured, and which buttons the local player holds.

use vstd::multiset::Multiset;
use vstd::prelude::*;

use crate::clock::{elapsed, since, MILLISECOND, SECOND};
use crate::settings::{Action, Binding, BindingView, Held, Settings, Weapon};
use crate::text::strings;

verus! {

/// Frames per second of the simulation.
pub const ROLLBACK_FPS: u64 = 67;

/// How far the simulation may run ahead of the opponent's inputs, in frames.
pub const MAX_PREDICTION: usize = 12;

/// Frames of input delay a match starts with.
pub const INPUT_DELAY: usize = 2;

/// What the simulation reports. Positions stay with the simulation's own event of the same index.
#[derive(Clone, Copy, Debug, PartialEq, Eq)]
pub enum SimEvent {
    RocketFired { shooter: u8 },
    Explosion { hit_player: Option<u8> },
    /// `airshot_kill`: the hit ended the victim's life in the air.
    PlayerHit { victim: u8, attacker: u8, airshot_kill: bool },
    Killed { victim: u8, attacker: u8 },
    Respawn { player: u8 },
    RoundWon { winner: u8, score: [i32; 2] },
    Landed { player: u8 },
    Jumped { player: u8 },
    /// A Fruit Ninja round of soldiers is over.
    RoundOver { hits: u32, shots: u32, best_chain: u32 },
}

/// Identity of an event for de-duplication across re-simulations. Rocket ids and positions are
/// deliberately left out: a late remote shot inserted before a local one shifts the local rocket's
/// id, and positions differ slightly between the predicted and the real frame, so matching on them
/// would replay the local player's own shot. A player fires at most once per tick, so kind + player
/// is a stable identity.
#[derive(Clone, Copy, Debug, PartialEq, Eq, Structural)]
pub enum FxKey {
    RocketFired(u8),
    Explosion(Option<u8>),
    PlayerHit { victim: u8, attacker: u8 },
    Killed { victim: u8, attacker: u8 },
    Respawn(u8),
    RoundWon(u8),
    Landed(u8),
    Jumped(u8),
    RoundOver,
}

impl SimEvent {
    pub open spec fn key(self) -> FxKey {
        match self {
            SimEvent::RocketFired { shooter } => FxKey::RocketFired(shooter),
            SimEvent::Explosion { hit_player } => FxKey::Explosion(hit_player),
            SimEvent::PlayerHit { victim, attacker, .. } => FxKey::PlayerHit { victim, attacker },
            SimEvent::Killed { victim, attacker } => FxKey::Killed { victim, attacker },
            SimEvent::Respawn { player } => FxKey::Respawn(player),
            SimEvent::RoundWon { winner, .. } => FxKey::RoundWon(winner),
            SimEvent::Landed { player } => FxKey::Landed(player),
            SimEvent::Jumped { player } => FxKey::Jumped(player),
            SimEvent::RoundOver { .. } => FxKey::RoundOver,
        }
    }
}

impl FxKey {
    pub fn of(ev: &SimEvent) -> (r: FxKey)
        ensures
            r == ev.key(),
    {
        match *ev {
            SimEvent::RocketFired { shooter } => FxKey::RocketFired(shooter),
            SimEvent::Explosion { hit_player } => FxKey::Explosion(hit_player),
            SimEvent::PlayerHit { victim, attacker, .. } => FxKey::PlayerHit { victim, attacker },
            SimEvent::Killed { victim, attacker } => FxKey::Killed { victim, attacker },
            SimEvent::Respawn { player } => FxKey::Respawn(player),
            SimEvent::RoundWon { winner, .. } => FxKey::RoundWon(winner),
            SimEvent::Landed { player } => FxKey::Landed(player),
            SimEvent::Jumped { player } => FxKey::Jumped(player),
            SimEvent::RoundOver { .. } => FxKey::RoundOver,
        }
    }
}

/// Frames of `played` history to keep. A rollback never reaches further back than the prediction
/// window; the margin covers the frame the rollback lands on and any off-by-one in the counting.
pub const FX_HISTORY: i32 = 16;

/// Simulation events for the presentation layer this frame.
///
/// A rollback re-steps frames that were already simulated once. Events from those frames were
/// mostly surfaced the first time around, but anything that only exists because of a late remote
/// input (their rocket firing, flying and exploding before the input arrived) has never been seen.
/// `played` remembers, per frame, which events were already handed out so that a re-simulated frame
/// surfaces only what is new for it. Events that were played in prediction and then didn't happen
/// cannot be taken back; that is the usual rollback trade-off.
pub struct PendingFx {
    pub events: Vec<SimEvent>,
    /// Sorted by frame. Bounded to the frames a rollback can still reach.
    pub played: Vec<(i32, Vec<FxKey>)>,
}

/// The events that `played` does not absorb: each key in it takes out one matching event, first to
/// last.
pub open spec fn fresh(events: Seq<SimEvent>, played: Multiset<FxKey>) -> Seq<SimEvent>
    decreases events.len(),
{
    if events.len() == 0 {
        Seq::empty()
    } else {
        let key = events[0].key();
        if played.count(key) > 0 {
            fresh(events.skip(1), played.remove(key))
        } else {
            seq![events[0]] + fresh(events.skip(1), played)
        }
    }
}

/// The keys of a run of events.
pub open spec fn keys(events: Seq<SimEvent>) -> Seq<FxKey> {
    events.map_values(|e: SimEvent| e.key())
}

/// How many events of a run have that key.
pub open spec fn occurrences(events: Seq<SimEvent>, key: FxKey) -> nat
    decreases events.len(),
{
    if events.len() == 0 {
        0
    } else {
        occurrences(events.skip(1), key) + (if events[0].key() == key {
            1nat
        } else {
            0
        })
    }
}

pub open spec fn max(a: nat, b: nat) -> nat {
    if a > b {
        a
    } else {
        b
    }
}

/// What is fresh is what there is beyond what was played: an event kind that occurs `n` times and
/// was played `m` times surfaces `n - m` times, or not at all.
pub proof fn law_fresh_is_the_surplus(events: Seq<SimEvent>, played: Multiset<FxKey>, key: FxKey)
    ensures
        occurrences(fresh(events, played), key) + played.count(key) == max(
            occurrences(events, key),
            played.count(key),
        ),
    decreases events.len(),
{
    if events.len() > 0 {
        let k = events[0].key();
        let rest = events.skip(1);
        if played.count(k) > 0 {
            law_fresh_is_the_surplus(rest, played.remove(k), key);
        } else {
            law_fresh_is_the_surplus(rest, played, key);
            let f = fresh(rest, played);
            let all = seq![events[0]] + f;
            assert(all.skip(1) =~= f);
            assert(all[0] == events[0]);
        }
    }
}

/// Simulating a frame again with the same events surfaces nothing.
pub proof fn law_resimulation_is_silent(events: Seq<SimEvent>, played: Multiset<FxKey>)
    ensures
        fresh(events, played.add(keys(fresh(events, played)).to_multiset())) == Seq::<
            SimEvent,
        >::empty(),
{
    let f = fresh(events, played);
    let after = played.add(keys(f).to_multiset());
    assert forall|k: FxKey| occurrences(events, k) <= #[trigger] after.count(k) by {
        law_fresh_is_the_surplus(events, played, k);
        lemma_occurrences_count(f, k);
    }
    lemma_absorbed(events, after);
}

proof fn lemma_absorbed(events: Seq<SimEvent>, played: Multiset<FxKey>)
    requires
        forall|k: FxKey| occurrences(events, k) <= #[trigger] played.count(k),
    ensures
        fresh(events, played) == Seq::<SimEvent>::empty(),
    decreases events.len(),
{
    if events.len() > 0 {
        let k = events[0].key();
        let rest = events.skip(1);
        assert(occurrences(events, k) <= played.count(k));
        assert forall|j: FxKey| occurrences(rest, j) <= #[trigger] played.remove(k).count(j) by {
            assert(occurrences(events, j) <= played.count(j));
        }
        lemma_absorbed(rest, played.remove(k));
    }
}

proof fn lemma_occurrences_count(events: Seq<SimEvent>, key: FxKey)
    ensures
        occurrences(events, key) == keys(events).to_multiset().count(key),
    decreases events.len(),
{
    broadcast use vstd::seq_lib::group_to_multiset_ensures;

    if events.len() == 0 {
        assert(keys(events) =~= Seq::<FxKey>::empty());
    } else {
        let rest = events.skip(1);
        lemma_occurrences_count(rest, key);
        assert(keys(events) =~= seq![events[0].key()] + keys(rest));
        vstd::seq_lib::lemma_multiset_commutative(seq![events[0].key()], keys(rest));
        assert(seq![events[0].key()] =~= Seq::<FxKey>::empty().push(events[0].key()));
        assert(seq![events[0].key()].to_multiset() =~= Multiset::singleton(events[0].key()));
    }
}

/// Two events are one and the same to the presentation exactly where they are of one kind and
/// concern the same players. How a hit ended, the score and the totals of a round do not count.
pub proof fn law_events_are_told_apart(a: SimEvent, b: SimEvent)
    ensures
        a.key() == b.key() <==> match (a, b) {
            (SimEvent::RocketFired { shooter: x }, SimEvent::RocketFired { shooter: y }) => x == y,
            (SimEvent::Explosion { hit_player: x }, SimEvent::Explosion { hit_player: y }) => x
                == y,
            (
                SimEvent::PlayerHit { victim: v, attacker: x, airshot_kill: _ },
                SimEvent::PlayerHit { victim: w, attacker: y, airshot_kill: _ },
            ) => v == w && x == y,
            (
                SimEvent::Killed { victim: v, attacker: x },
                SimEvent::Killed { victim: w, attacker: y },
            ) => v == w && x == y,
            (SimEvent::Respawn { player: x }, SimEvent::Respawn { player: y }) => x == y,
            (
                SimEvent::RoundWon { winner: x, score: _ },
                SimEvent::RoundWon { winner: y, score: _ },
            ) => x == y,
            (SimEvent::Landed { player: x }, SimEvent::Landed { player: y }) => x == y,
            (SimEvent::Jumped { player: x }, SimEvent::Jumped { player: y }) => x == y,
            (
                SimEvent::RoundOver { hits: _, shots: _, best_chain: _ },
                SimEvent::RoundOver { hits: _, shots: _, best_chain: _ },
            ) => true,
            _ => false,
        },
{
}

/// The key of an event is of the event's own kind and names its players.
pub proof fn law_keys_name_their_event(e: SimEvent)
    ensures
        match e.key() {
            FxKey::RocketFired(p) => e matches SimEvent::RocketFired { shooter } && shooter == p,
            FxKey::Explosion(p) => e matches SimEvent::Explosion { hit_player } && hit_player == p,
            FxKey::PlayerHit { victim: v, attacker: a } => e matches SimEvent::PlayerHit {
                victim,
                attacker,
                ..
            } && victim == v && attacker == a,
            FxKey::Killed { victim: v, attacker: a } => e matches SimEvent::Killed {
                victim,
                attacker,
            } && victim == v && attacker == a,
            FxKey::Respawn(p) => e matches SimEvent::Respawn { player } && player == p,
            FxKey::RoundWon(p) => e matches SimEvent::RoundWon { winner, .. } && winner == p,
            FxKey::Landed(p) => e matches SimEvent::Landed { player } && player == p,
            FxKey::Jumped(p) => e matches SimEvent::Jumped { player } && player == p,
            FxKey::RoundOver => e is RoundOver,
        },
{
}

/// A played event absorbs only an event of its own identity: a new event that is told apart from
/// everything that was shown of its frame surfaces, and whatever surfaces did happen.
pub proof fn law_a_new_event_surfaces(events: Seq<SimEvent>, shown: Seq<SimEvent>, e: SimEvent)
    ensures
        events.contains(e) && (forall|i: int|
            0 <= i < shown.len() ==> (#[trigger] shown[i]).key() != e.key()) ==> fresh(
            events,
            keys(shown).to_multiset(),
        ).contains(e),
        fresh(events, keys(shown).to_multiset()).contains(e) ==> events.contains(e),
{
    broadcast use vstd::seq_lib::group_to_multiset_ensures;

    let played = keys(shown).to_multiset();
    if forall|i: int| 0 <= i < shown.len() ==> (#[trigger] shown[i]).key() != e.key() {
        if played.count(e.key()) > 0 {
            assert(keys(shown).contains(e.key()));
            let i = choose|i: int| 0 <= i < keys(shown).len() && keys(shown)[i] == e.key();
            assert(shown[i].key() == e.key());
        }
        if events.contains(e) {
            lemma_fresh_keeps(events, played, e);
        }
    }
    lemma_fresh_happened(events, played, e);
}

proof fn lemma_fresh_keeps(events: Seq<SimEvent>, played: Multiset<FxKey>, e: SimEvent)
    requires
        events.contains(e),
        played.count(e.key()) == 0,
    ensures
        fresh(events, played).contains(e),
    decreases events.len(),
{
    let i = choose|i: int| 0 <= i < events.len() && events[i] == e;
    let rest = events.skip(1);
    let k = events[0].key();
    if i == 0 {
        assert(fresh(events, played)[0] == e);
    } else {
        assert(rest[i - 1] == e);
        if played.count(k) > 0 {
            lemma_fresh_keeps(rest, played.remove(k), e);
        } else {
            lemma_fresh_keeps(rest, played, e);
            let f = fresh(rest, played);
            let j = choose|j: int| 0 <= j < f.len() && f[j] == e;
            assert((seq![events[0]] + f)[j + 1] == e);
        }
    }
}

proof fn lemma_fresh_happened(events: Seq<SimEvent>, played: Multiset<FxKey>, e: SimEvent)
    ensures
        fresh(events, played).contains(e) ==> events.contains(e),
    decreases events.len(),
{
    if events.len() > 0 && fresh(events, played).contains(e) {
        let rest = events.skip(1);
        let k = events[0].key();
        if played.count(k) > 0 {
            lemma_fresh_happened(rest, played.remove(k), e);
        } else {
            lemma_fresh_happened(rest, played, e);
            let f = fresh(rest, played);
            let j = choose|j: int| 0 <= j < fresh(events, played).len() && fresh(events, played)[j] == e;
            if j == 0 {
                assert(events[0] == e);
            } else {
                assert(f[j - 1] == e);
            }
        }
        if rest.contains(e) {
            let i = choose|i: int| 0 <= i < rest.len() && rest[i] == e;
            assert(events[i + 1] == e);
        }
    }
}

impl PendingFx {
    /// The history is sorted by frame, one record a frame.
    pub open spec fn wf(&self) -> bool {
        forall|i: int, j: int|
            0 <= i < j < self.played@.len() ==> (#[trigger] self.played@[i]).0
                < (#[trigger] self.played@[j]).0
    }

    /// The keys that were handed out for a frame.
    pub open spec fn record(&self, frame: int) -> Seq<FxKey> {
        record_in(self.played@, frame)
    }
}

/// The record of a frame in a history.
pub open spec fn record_in(played: Seq<(i32, Vec<FxKey>)>, frame: int) -> Seq<FxKey>
    decreases played.len(),
{
    if played.len() == 0 {
        Seq::empty()
    } else if played.last().0 == frame {
        played.last().1@
    } else {
        record_in(played.drop_last(), frame)
    }
}

proof fn lemma_record_at(played: Seq<(i32, Vec<FxKey>)>, i: int)
    requires
        0 <= i < played.len(),
        forall|a: int, b: int|
            0 <= a < b < played.len() ==> (#[trigger] played[a]).0 < (#[trigger] played[b]).0,
    ensures
        record_in(played, played[i].0 as int) == played[i].1@,
    decreases played.len(),
{
    if i < played.len() - 1 {
        let d = played.drop_last();
        assert(d[i] == played[i]);
        assert(played[i].0 < played[played.len() - 1].0);
        assert forall|a: int, b: int| 0 <= a < b < d.len() implies (#[trigger] d[a]).0 < (
        #[trigger] d[b]).0 by {
            assert(played[a].0 < played[b].0);
        }
        lemma_record_at(d, i);
    }
}

proof fn lemma_record_absent(played: Seq<(i32, Vec<FxKey>)>, frame: int)
    requires
        forall|a: int| 0 <= a < played.len() ==> (#[trigger] played[a]).0 != frame,
    ensures
        record_in(played, frame) == Seq::<FxKey>::empty(),
    decreases played.len(),
{
    if played.len() > 0 {
        assert(played[played.len() - 1].0 != frame);
        lemma_record_absent(played.drop_last(), frame);
    }
}

proof fn lemma_record_skip(played: Seq<(i32, Vec<FxKey>)>, n: int, frame: int)
    requires
        0 <= n <= played.len(),
        forall|a: int| 0 <= a < n ==> (#[trigger] played[a]).0 != frame,
    ensures
        record_in(played.skip(n), frame) == record_in(played, frame),
    decreases played.len(),
{
    if played.len() > n {
        let d = played.drop_last();
        assert(played.skip(n).drop_last() =~= d.skip(n));
        assert(played.skip(n).last() == played.last());
        assert forall|a: int| 0 <= a < n implies (#[trigger] d[a]).0 != frame by {
            assert(played[a].0 != frame);
        }
        lemma_record_skip(d, n, frame);
    } else {
        lemma_record_absent(played, frame);
        assert(played.skip(n) =~= Seq::empty());
    }
}

proof fn lemma_record_insert(
    played: Seq<(i32, Vec<FxKey>)>,
    i: int,
    entry: (i32, Vec<FxKey>),
    frame: int,
)
    requires
        0 <= i <= played.len(),
        entry.0 != frame,
    ensures
        record_in(played.insert(i, entry), frame) == record_in(played, frame),
    decreases played.len(),
{
    let all = played.insert(i, entry);
    if i == played.len() {
        assert(all.drop_last() =~= played);
        assert(all.last() == entry);
    } else {
        assert(all.last() == played.last());
        assert(all.drop_last() =~= played.drop_last().insert(i, entry));
        lemma_record_insert(played.drop_last(), i, entry, frame);
    }
}

proof fn lemma_record_update(
    played: Seq<(i32, Vec<FxKey>)>,
    i: int,
    entry: (i32, Vec<FxKey>),
    frame: int,
)
    requires
        0 <= i < played.len(),
        entry.0 == played[i].0,
        entry.0 != frame,
    ensures
        record_in(played.update(i, entry), frame) == record_in(played, frame),
    decreases played.len(),
{
    let all = played.update(i, entry);
    if i == played.len() - 1 {
        assert(all.drop_last() =~= played.drop_last());
    } else {
        assert(all.last() == played.last());
        assert(all.drop_last() =~= played.drop_last().update(i, entry));
        lemma_record_update(played.drop_last(), i, entry, frame);
    }
}

/// What `fresh` yields when an event is added at the end.
proof fn lemma_fresh_push(events: Seq<SimEvent>, e: SimEvent, played: Multiset<FxKey>)
    ensures
        fresh(events.push(e), played) == (if left_over(events, played).count(e.key()) > 0 {
            fresh(events, played)
        } else {
            fresh(events, played).push(e)
        }),
        left_over(events.push(e), played) == (if left_over(events, played).count(e.key()) > 0 {
            left_over(events, played).remove(e.key())
        } else {
            left_over(events, played)
        }),
    decreases events.len(),
{
    let all = events.push(e);
    if events.len() == 0 {
        assert(all.skip(1) =~= Seq::<SimEvent>::empty());
        assert(all[0] == e);
        assert(fresh(all.skip(1), played) =~= Seq::empty());
        assert(fresh(all.skip(1), played.remove(e.key())) =~= Seq::empty());
        assert(seq![e] + Seq::<SimEvent>::empty() =~= Seq::<SimEvent>::empty().push(e));
        assert(left_over(all.skip(1), played) == played);
        assert(left_over(all.skip(1), played.remove(e.key())) == played.remove(e.key()));
    } else {
        let k = events[0].key();
        assert(all[0] == events[0]);
        assert(all.skip(1) =~= events.skip(1).push(e));
        if played.count(k) > 0 {
            lemma_fresh_push(events.skip(1), e, played.remove(k));
        } else {
            lemma_fresh_push(events.skip(1), e, played);
            let f = fresh(events.skip(1), played);
            assert(seq![events[0]] + f.push(e) =~= (seq![events[0]] + f).push(e));
        }
    }
}

/// What a run of events leaves of the played keys.
pub open spec fn left_over(events: Seq<SimEvent>, played: Multiset<FxKey>) -> Multiset<FxKey>
    decreases events.len(),
{
    if events.len() == 0 {
        played
    } else {
        let key = events[0].key();
        left_over(
            events.skip(1),
            if played.count(key) > 0 {
                played.remove(key)
            } else {
                played
            },
        )
    }
}

/// The first index of a key in a list.
fn position_of(v: &Vec<FxKey>, key: FxKey) -> (r: Option<usize>)
    ensures
        match r {
            Some(i) => i < v@.len() && v@[i as int] == key,
            None => !v@.contains(key),
        },
{
    let mut i: usize = 0;
    while i < v.len()
        invariant
            i <= v.len(),
            forall|j: int| 0 <= j < i ==> v@[j] != key,
        decreases v.len() - i,
    {
        if v[i] == key {
            return Some(i);
        }
        i = i + 1;
    }
    None
}

fn copy_keys(v: &Vec<FxKey>) -> (r: Vec<FxKey>)
    ensures
        r@ == v@,
{
    let mut out: Vec<FxKey> = Vec::new();
    let mut i: usize = 0;
    while i < v.len()
        invariant
            i <= v.len(),
            out@ == v@.take(i as int),
        decreases v.len() - i,
    {
        out.push(v[i]);
        i = i + 1;
        proof {
            assert(out@ =~= v@.take(i as int));
        }
    }
    proof {
        assert(v@.take(v@.len() as int) =~= v@);
    }
    out
}

impl PendingFx {
    pub fn new() -> (r: PendingFx)
        ensures
            r.wf(),
            r.events@ == Seq::<SimEvent>::empty(),
            r.played@.len() == 0,
    {
        PendingFx { events: Vec::new(), played: Vec::new() }
    }

    /// Forgets the frames that no rollback reaches any more.
    fn prune(&mut self, frame: i32)
        requires
            old(self).wf(),
            frame >= i32::MIN + FX_HISTORY,
        ensures
            final(self).wf(),
            final(self).events@ == old(self).events@,
            forall|i: int|
                0 <= i < final(self).played@.len() ==> (#[trigger] final(self).played@[i]).0 >= frame
                    - FX_HISTORY,
            forall|f: int|
                #[trigger] final(self).record(f) == if f >= frame - FX_HISTORY {
                    old(self).record(f)
                } else {
                    Seq::empty()
                },
    {
        let ghost start = self.played@;
        let oldest = frame - FX_HISTORY;
        let ghost mut n: int = 0;
        proof {
            assert(start.skip(0) =~= start);
        }
        while self.played.len() > 0 && self.played[0].0 < oldest
            invariant
                0 <= n <= start.len(),
                self.played@ == start.skip(n),
                self.events@ == old(self).events@,
                oldest == frame - FX_HISTORY,
                forall|a: int, b: int|
                    0 <= a < b < start.len() ==> (#[trigger] start[a]).0 < (#[trigger] start[b]).0,
                forall|a: int| 0 <= a < n ==> (#[trigger] start[a]).0 < oldest,
            decreases self.played.len(),
        {
            proof {
                assert(start[n] == self.played@[0]);
            }
            self.played.remove(0);
            proof {
                assert(self.played@ =~= start.skip(n + 1));
                n = n + 1;
            }
        }
        proof {
            assert forall|i: int| 0 <= i < self.played@.len() implies (#[trigger] self.played@[i]).0
                >= oldest by {
                assert(self.played@[0] == start[n]);
                assert(self.played@[i] == start[n + i]);
            }
            assert forall|f: int|
                #[trigger] self.record(f) == if f >= oldest {
                    old(self).record(f)
                } else {
                    Seq::empty()
                } by {
                if f >= oldest {
                    lemma_record_skip(start, n, f);
                } else {
                    lemma_record_absent(self.played@, f);
                }
            }
            assert forall|i: int, j: int| 0 <= i < j < self.played@.len() implies (
            #[trigger] self.played@[i]).0 < (#[trigger] self.played@[j]).0 by {
                assert(self.played@[i] == start[n + i]);
                assert(self.played@[j] == start[n + j]);
            }
        }
    }

    /// The index of a frame's record, which is made where there is none.
    fn open_record(&mut self, frame: i32) -> (r: usize)
        requires
            old(self).wf(),
        ensures
            final(self).wf(),
            final(self).events@ == old(self).events@,
            r < final(self).played@.len(),
            final(self).played@[r as int].0 == frame,
            forall|f: int| #[trigger] final(self).record(f) == old(self).record(f),
            forall|i: int|
                0 <= i < final(self).played@.len() ==> ((#[trigger] final(self).played@[i]).0 == frame
                    || exists|j: int|
                    0 <= j < old(self).played@.len() && old(self).played@[j].0
                        == final(self).played@[i].0),
    {
        let ghost start = self.played@;
        let mut i: usize = self.played.len();
        while i > 0 && self.played[i - 1].0 > frame
            invariant
                i <= self.played.len(),
                self.played@ == start,
                self.wf(),
                forall|j: int| i <= j < start.len() ==> (#[trigger] start[j]).0 > frame,
            decreases i,
        {
            i = i - 1;
        }
        if i > 0 && self.played[i - 1].0 == frame {
            return i - 1;
        }
        let entry: (i32, Vec<FxKey>) = (frame, Vec::new());
        let ghost e = entry;
        self.played.insert(i, entry);
        proof {
            let now = self.played@;
            assert(now == start.insert(i as int, e));
            assert forall|a: int, b: int| 0 <= a < b < now.len() implies (#[trigger] now[a]).0 < (
            #[trigger] now[b]).0 by {
                if a < i && b > i {
                    assert(start[a].0 < start[b - 1].0);
                } else if a < i && b < i {
                    assert(start[a].0 < start[b].0);
                } else if a < i {
                    if a < i - 1 {
                        assert(start[a].0 < start[i - 1].0);
                    }
                } else if a > i {
                    assert(start[a - 1].0 < start[b - 1].0);
                } else {
                    assert(start[b - 1].0 > frame);
                }
            }
            assert forall|f: int| #[trigger] self.record(f) == old(self).record(f) by {
                if f == frame {
                    lemma_record_at(now, i as int);
                    assert forall|a: int| 0 <= a < start.len() implies (#[trigger] start[a]).0
                        != frame by {
                        if a < i - 1 {
                            assert(start[a].0 < start[i - 1].0);
                        }
                    }
                    lemma_record_absent(start, f);
                    assert(now[i as int].1@ =~= Seq::<FxKey>::empty());
                } else {
                    lemma_record_insert(start, i as int, e, f);
                }
            }
            assert forall|k: int| 0 <= k < now.len() implies ((#[trigger] now[k]).0 == frame
                || exists|j: int| 0 <= j < start.len() && start[j].0 == now[k].0) by {
                if k < i {
                    assert(start[k] == now[k]);
                } else if k > i {
                    assert(start[k - 1] == now[k]);
                }
            }
        }
        i
    }

    /// Queues the events of `frame` that haven't been surfaced by an earlier simulation of it, and
    /// says which they are. Each key already played absorbs one matching event; the rest are new.
    pub fn push_frame(&mut self, frame: i32, events: &Vec<SimEvent>) -> (r: Vec<usize>)
        requires
            old(self).wf(),
            frame >= i32::MIN + FX_HISTORY,
        ensures
            final(self).wf(),
            ({
                let before = old(self).record(frame as int);
                let new = fresh(events@, before.to_multiset());
                &&& final(self).events@ == old(self).events@ + new
                &&& final(self).record(frame as int) == before + keys(new)
                &&& r@.len() == new.len()
                &&& forall|i: int|
                    0 <= i < r@.len() ==> 0 <= #[trigger] r@[i] < events@.len() && events@[r@[i] as int]
                        == new[i]
            }),
            forall|i: int, j: int| 0 <= i < j < r@.len() ==> r@[i] < r@[j],
            forall|f: int|
                f != frame ==> #[trigger] final(self).record(f) == if f >= frame - FX_HISTORY {
                    old(self).record(f)
                } else {
                    Seq::empty()
                },
            forall|i: int|
                0 <= i < final(self).played@.len() ==> (#[trigger] final(self).played@[i]).0 >= frame
                    - FX_HISTORY,
    {
        broadcast use vstd::seq_lib::group_to_multiset_ensures;

        self.prune(frame);
        let ghost pruned = *self;
        let idx = self.open_record(frame);
        let ghost before = old(self).record(frame as int);
        let ghost history = self.played@;
        proof {
            lemma_record_at(self.played@, idx as int);
            assert(self.record(frame as int) == before);
            assert(history[idx as int].1@ == before);
            assert forall|f: int|
                #[trigger] record_in(history, f) == if f >= frame - FX_HISTORY {
                    old(self).record(f)
                } else {
                    Seq::empty()
                } by {
                assert(self.record(f) == pruned.record(f));
            }
            assert forall|k: int| 0 <= k < history.len() implies (#[trigger] history[k]).0 >= frame
                - FX_HISTORY by {}
        }
        let mut record = copy_keys(&self.played[idx].1);
        let mut unmatched = copy_keys(&self.played[idx].1);
        let ghost bag = before.to_multiset();
        let ghost queued = self.events@;
        let mut new: Vec<usize> = Vec::new();
        let mut i: usize = 0;
        proof {
            assert(events@.take(0) =~= Seq::<SimEvent>::empty());
            assert(keys(Seq::<SimEvent>::empty()) =~= Seq::<FxKey>::empty());
            assert(before + Seq::<FxKey>::empty() =~= before);
            assert(queued + Seq::<SimEvent>::empty() =~= queued);
        }
        while i < events.len()
            invariant
                i <= events.len(),
                self.played@ == history,
                bag == before.to_multiset(),
                unmatched@.to_multiset() == left_over(events@.take(i as int), bag),
                record@ == before + keys(fresh(events@.take(i as int), bag)),
                self.events@ == queued + fresh(events@.take(i as int), bag),
                new@.len() == fresh(events@.take(i as int), bag).len(),
                forall|j: int|
                    0 <= j < new@.len() ==> 0 <= #[trigger] new@[j] < i && events@[new@[j] as int]
                        == fresh(events@.take(i as int), bag)[j],
                forall|a: int, b: int| 0 <= a < b < new@.len() ==> new@[a] < new@[b],
            decreases events.len() - i,
        {
            broadcast use vstd::seq_lib::group_to_multiset_ensures;

            let ev = events[i];
            let key = FxKey::of(&ev);
            let ghost sofar = events@.take(i as int);
            let ghost f = fresh(sofar, bag);
            proof {
                assert(events@.take(i as int + 1) =~= sofar.push(ev));
                lemma_fresh_push(sofar, ev, bag);
            }
            match position_of(&unmatched, key) {
                Some(pos) => {
                    proof {
                        assert(unmatched@.contains(key));
                        assert(unmatched@.to_multiset().count(key) > 0);
                    }
                    let ghost u = unmatched@;
                    unmatched.remove(pos);
                    proof {
                        assert(unmatched@ == u.remove(pos as int));
                    }
                },
                None => {
                    proof {
                        assert(unmatched@.to_multiset().count(key) == 0);
                        assert(keys(f.push(ev)) =~= keys(f).push(key));
                        assert((before + keys(f)).push(key) =~= before + keys(f).push(key));
                        assert((queued + f).push(ev) =~= queued + f.push(ev));
                    }
                    record.push(key);
                    self.events.push(ev);
                    new.push(i);
                },
            }
            i = i + 1;
        }
        proof {
            assert(events@.take(events@.len() as int) =~= events@);
        }
        let ghost entry = (frame, record);
        self.played.set(idx, (frame, record));
        proof {
            let now = self.played@;
            assert(now == history.update(idx as int, entry));
            assert forall|a: int, b: int| 0 <= a < b < now.len() implies (#[trigger] now[a]).0 < (
            #[trigger] now[b]).0 by {
                assert(now[a].0 == history[a].0);
                assert(now[b].0 == history[b].0);
            }
            lemma_record_at(now, idx as int);
            assert forall|f: int| f != frame implies #[trigger] self.record(f) == (if f >= frame
                - FX_HISTORY {
                old(self).record(f)
            } else {
                Seq::empty()
            }) by {
                lemma_record_update(history, idx as int, entry, f);
            }
            assert forall|k: int| 0 <= k < now.len() implies (#[trigger] now[k]).0 >= frame
                - FX_HISTORY by {
                assert(now[k].0 == history[k].0);
            }
        }
        new
    }

    /// Events are consumed by every presentation system during the frame, then cleared.
    pub fn clear(&mut self)
        ensures
            final(self).events@ == Seq::<SimEvent>::empty(),
            final(self).played@ == old(self).played@,
    {
        self.events = Vec::new();
    }
}

// ---- capturing the mouse ----

/// A fresh pointer-lock request gets this long before an unlocked pointer counts as "the browser
/// released it": browsers grant the lock asynchronously.
pub const LOCK_GRACE: u64 = 1_500_000_000;

/// Whether the mouse is captured for looking, and when the capture was last asked for.
#[derive(Clone, Copy, Debug, PartialEq, Eq, Structural)]
pub struct Capture {
    pub captured: bool,
    pub requested: Option<u64>,
}

/// What happened since the last frame, as far as the capture goes.
#[derive(Clone, Copy, Debug, PartialEq, Eq, Structural)]
pub struct CursorInput {
    /// A menu covers the game.
    pub overlay: bool,
    /// The screen changed since the last frame.
    pub screen_changed: bool,
    pub lost_focus: bool,
    pub clicked: bool,
    pub tab: bool,
    pub now: u64,
}

/// What to do with the cursor.
#[derive(Clone, Copy, Debug, PartialEq, Eq, Structural)]
pub enum Cursor {
    Keep,
    Lock,
    Release,
}

impl Capture {
    pub open spec fn free() -> Capture {
        Capture { captured: false, requested: None }
    }

    /// Whether this frame's input grabs the mouse: a click, or an overlay that was just closed,
    /// while nothing covers the game and the window keeps the focus.
    pub open spec fn grabs(self, i: CursorInput) -> bool {
        &&& !i.overlay
        &&& !i.lost_focus
        &&& !self.captured
        &&& (i.clicked || i.screen_changed)
    }

    /// The capture after a frame. Any overlay, the loss of the window and Tab release it.
    pub open spec fn next(self, i: CursorInput) -> Capture {
        if self.grabs(i) {
            if i.tab {
                Capture::free()
            } else {
                Capture { captured: true, requested: Some(i.now) }
            }
        } else if self.captured && (i.overlay || i.lost_focus || i.tab) {
            Capture::free()
        } else {
            self
        }
    }

    /// Locks the cursor on click (browsers require a user gesture for pointer lock), and lets go of
    /// it for menus, other windows and Tab.
    pub fn step(&mut self, i: CursorInput) -> (r: Cursor)
        ensures
            *final(self) == old(self).next(i),
            r == if final(self).captured != old(self).captured {
                if final(self).captured {
                    Cursor::Lock
                } else {
                    Cursor::Release
                }
            } else if old(self).grabs(i) {
                Cursor::Release
            } else {
                Cursor::Keep
            },
    {
        let mut r = Cursor::Keep;
        if (i.overlay || i.lost_focus) && self.captured {
            self.captured = false;
            self.requested = None;
            r = Cursor::Release;
        }
        let resume = i.screen_changed && !i.overlay;
        if !i.overlay && !self.captured && !i.lost_focus && (i.clicked || resume) {
            self.captured = true;
            self.requested = Some(i.now);
            r = Cursor::Lock;
        }
        if self.captured && i.tab {
            self.captured = false;
            self.requested = None;
            r = Cursor::Release;
        }
        r
    }

    /// Browsers release pointer lock on their own (Esc, tab switch, alt-tab, a refused request)
    /// without reporting it, so the captured flag follows the page's actual lock: true where the
    /// cursor has to be let go of, so that the next request is applied again.
    pub fn sync_browser_lock(&mut self, locked: bool, now: u64) -> (release: bool)
        ensures
            ({
                let waiting = old(self).requested matches Some(t) && elapsed(t, now) < LOCK_GRACE;
                let lost = old(self).captured && !locked && !waiting;
                &&& release == lost
                &&& *final(self) == if lost {
                    Capture::free()
                } else if old(self).captured && locked {
                    Capture { captured: true, requested: None }
                } else {
                    *old(self)
                }
            }),
    {
        if !self.captured {
            return false;
        }
        if locked {
            self.requested = None;
            return false;
        }
        if let Some(t) = self.requested {
            if since(t, now) < LOCK_GRACE {
                return false;
            }
        }
        self.requested = None;
        self.captured = false;
        true
    }
}

/// While a menu covers the game the mouse is never captured.
pub proof fn law_overlay_frees_the_mouse(c: Capture, i: CursorInput)
    requires
        i.overlay || i.lost_focus,
    ensures
        !c.next(i).captured,
{
}

/// The mouse is captured after a frame exactly where nothing asks for its release and it was held
/// already, or a click or a closed menu asks for it. A capture that begins remembers when; one that
/// goes on changes nothing; one that ends leaves no request behind.
pub proof fn law_when_the_mouse_is_captured(c: Capture, i: CursorInput)
    ensures
        c.next(i).captured <==> !i.overlay && !i.lost_focus && !i.tab && (c.captured || i.clicked
            || i.screen_changed),
        !c.captured && c.next(i).captured ==> c.next(i).requested == Some(i.now),
        c.captured && c.next(i).captured ==> c.next(i) == c,
        c.captured && !c.next(i).captured ==> c.next(i).requested is None,
        !c.captured && !i.clicked && !i.screen_changed ==> c.next(i) == c,
        !c.captured && (i.overlay || i.lost_focus) ==> c.next(i) == c,
{
}

/// Motion from before the capture (moving the free cursor over to click) must not turn the view, so
/// mouse motion is discarded while uncaptured and on the capture frame.
pub fn discards_motion(captured: bool, was_captured: &mut bool) -> (r: bool)
    ensures
        r == (!captured || !*old(was_captured)),
        *final(was_captured) == captured,
{
    let just_captured = captured && !*was_captured;
    *was_captured = captured;
    !captured || just_captured
}

/// Counts, in thousandths, in one mouse event below which nothing is ever rejected.
pub const SPIKE_FLOOR: u32 = 400_000;

/// How many times the recent peak a mouse event must exceed to be rejected.
pub const SPIKE_RATIO: u32 = 4;

/// Rejects mouse events that are no motion of the hand: a real flick ramps up over several samples,
/// so an event several times the recent peak that is also above a floor no single sample of hand
/// motion reaches is a spike.
#[derive(Clone, Copy, Debug, PartialEq, Eq, Structural)]
pub struct SpikeFilter {
    /// Largest recent delta of an event, in thousandths of a count.
    pub peak: u32,
}

impl SpikeFilter {
    /// Whether an event of that size is motion. `peak` is the recent peak as it has decayed by now.
    pub fn accept(&mut self, magnitude: u32, peak: u32) -> (r: bool)
        ensures
            r == !(magnitude > SPIKE_FLOOR && magnitude > SPIKE_RATIO * peak),
            final(self).peak == if r && magnitude > peak {
                magnitude
            } else {
                peak
            },
    {
        self.peak = peak;
        if magnitude > SPIKE_FLOOR && magnitude as u64 > SPIKE_RATIO as u64 * peak as u64 {
            return false;
        }
        if magnitude > peak {
            self.peak = magnitude;
        }
        true
    }
}

/// A spawn: its tick, and where it faces in thousandths of a degree.
#[derive(Clone, Copy, Debug, PartialEq, Eq, Structural)]
pub struct Spawn {
    pub tick: u32,
    pub pitch: i32,
    pub yaw: i32,
}

/// Every spawn points the view where it faces: whether the local player's spawn is one that has not
/// been followed yet. A rollback that moves the spawn elsewhere counts as a new one.
pub fn follows_spawn(last: &mut Option<Spawn>, spawn: Spawn) -> (r: bool)
    ensures
        r == (*old(last) != Some(spawn)),
        *final(last) == Some(spawn),
{
    let same = match *last {
        Some(s) => s == spawn,
        None => false,
    };
    *last = Some(spawn);
    !same
}

// ---- the local player's buttons ----

/// The simulation's button bits.
#[derive(Clone, Copy, Debug, PartialEq, Eq, Structural)]
pub struct ButtonBits {
    pub forward: u32,
    pub back: u32,
    pub left: u32,
    pub right: u32,
    pub jump: u32,
    pub duck: u32,
    pub attack: u32,
    pub weapon_stock: u32,
    pub weapon_original: u32,
}

impl ButtonBits {
    pub open spec fn of(self, a: Action) -> u32 {
        match a {
            Action::Forward => self.forward,
            Action::Back => self.back,
            Action::Left => self.left,
            Action::Right => self.right,
            Action::Jump => self.jump,
            Action::Crouch => self.duck,
            Action::Fire => self.attack,
        }
    }

    fn get(self, a: Action) -> (r: u32)
        ensures
            r == self.of(a),
    {
        match a {
            Action::Forward => self.forward,
            Action::Back => self.back,
            Action::Left => self.left,
            Action::Right => self.right,
            Action::Jump => self.jump,
            Action::Crouch => self.duck,
            Action::Fire => self.attack,
        }
    }

    pub open spec fn launcher(self, w: Weapon) -> u32 {
        match w {
            Weapon::Original => self.weapon_original,
            Weapon::Stock => self.weapon_stock,
        }
    }
}

/// Whether an action's binding is down.
pub open spec fn held_down(settings: &Settings, held: &Held, a: Action) -> bool {
    match settings.bindings@.of(a) {
        BindingView::Key(name) => held.has_key(name),
        BindingView::Mouse(b) => held.mouse@.contains(b),
    }
}

/// The bits of the first `n` actions that are down.
pub open spec fn action_bits(settings: &Settings, held: &Held, bits: ButtonBits, n: int) -> u32
    decreases n,
{
    if n <= 0 {
        0
    } else {
        let a = Action::all()[n - 1];
        let before = action_bits(settings, held, bits, n - 1);
        if held_down(settings, held, a) {
            before | bits.of(a)
        } else {
            before
        }
    }
}

/// Whether a binding's key or button is among those that are down.
pub open spec fn is_down(b: Binding, held: &Held) -> bool {
    match b {
        Binding::Key(k) => exists|i: int|
            0 <= i < held.keys@.len() && (#[trigger] held.keys@[i])@ == k@,
        Binding::Mouse(m) => exists|i: int|
            0 <= i < held.mouse@.len() && #[trigger] held.mouse@[i] == m,
    }
}

impl ButtonBits {
    /// Each button has bits of its own.
    pub open spec fn apart(self) -> bool {
        &&& self.forward != 0
        &&& self.back != 0
        &&& self.left != 0
        &&& self.right != 0
        &&& self.jump != 0
        &&& self.duck != 0
        &&& self.attack != 0
        &&& self.weapon_stock != 0
        &&& self.weapon_original != 0
        &&& self.forward & (self.back | self.left | self.right | self.jump | self.duck | self.attack
            | self.weapon_stock | self.weapon_original) == 0
        &&& self.back & (self.left | self.right | self.jump | self.duck | self.attack
            | self.weapon_stock | self.weapon_original) == 0
        &&& self.left & (self.right | self.jump | self.duck | self.attack | self.weapon_stock
            | self.weapon_original) == 0
        &&& self.right & (self.jump | self.duck | self.attack | self.weapon_stock
            | self.weapon_original) == 0
        &&& self.jump & (self.duck | self.attack | self.weapon_stock | self.weapon_original) == 0
        &&& self.duck & (self.attack | self.weapon_stock | self.weapon_original) == 0
        &&& self.attack & (self.weapon_stock | self.weapon_original) == 0
        &&& self.weapon_stock & self.weapon_original == 0
    }
}

proof fn lemma_own_bits(
    f: u32,
    b: u32,
    l: u32,
    r: u32,
    j: u32,
    d: u32,
    a: u32,
    s: u32,
    o: u32,
    w: u32,
    hf: bool,
    hb: bool,
    hl: bool,
    hr: bool,
    hj: bool,
    hd: bool,
    ha: bool,
    x: u32,
)
    by (bit_vector)
    requires
        f != 0 && b != 0 && l != 0 && r != 0 && j != 0 && d != 0 && a != 0 && s != 0 && o != 0,
        f & (b | l | r | j | d | a | s | o) == 0,
        b & (l | r | j | d | a | s | o) == 0,
        l & (r | j | d | a | s | o) == 0,
        r & (j | d | a | s | o) == 0,
        j & (d | a | s | o) == 0,
        d & (a | s | o) == 0,
        a & (s | o) == 0,
        s & o == 0,
        w == s || w == o,
        x == (if hf {
            f
        } else {
            0
        }) | (if hb {
            b
        } else {
            0
        }) | (if hl {
            l
        } else {
            0
        }) | (if hr {
            r
        } else {
            0
        }) | (if hj {
            j
        } else {
            0
        }) | (if hd {
            d
        } else {
            0
        }) | (if ha {
            a
        } else {
            0
        }) | w,
    ensures
        (x & f != 0) == hf,
        (x & b != 0) == hb,
        (x & l != 0) == hl,
        (x & r != 0) == hr,
        (x & j != 0) == hj,
        (x & d != 0) == hd,
        (x & a != 0) == ha,
        (x & s != 0) == (w == s),
        (x & o != 0) == (w == o),
        s != o,
{
}

proof fn lemma_or(x: u32)
    by (bit_vector)
    ensures
        x | 0 == x,
        0 | x == x,
{
}

proof fn lemma_held_is_down(settings: &Settings, held: &Held)
    ensures
        held_down(settings, held, Action::Forward) == is_down(settings.bindings.forward, held),
        held_down(settings, held, Action::Back) == is_down(settings.bindings.back, held),
        held_down(settings, held, Action::Left) == is_down(settings.bindings.left, held),
        held_down(settings, held, Action::Right) == is_down(settings.bindings.right, held),
        held_down(settings, held, Action::Jump) == is_down(settings.bindings.jump, held),
        held_down(settings, held, Action::Crouch) == is_down(settings.bindings.crouch, held),
        held_down(settings, held, Action::Fire) == is_down(settings.bindings.fire, held),
{
    assert forall|name: Seq<char>|
        #[trigger] held.has_key(name) <==> exists|i: int|
            0 <= i < held.keys@.len() && (#[trigger] held.keys@[i])@ == name by {
        let all = strings(held.keys@);
        if held.has_key(name) {
            let i = choose|i: int| 0 <= i < all.len() && all[i] == name;
            assert(held.keys@[i]@ == name);
        }
        if exists|i: int| 0 <= i < held.keys@.len() && (#[trigger] held.keys@[i])@ == name {
            let i = choose|i: int| 0 <= i < held.keys@.len() && (#[trigger] held.keys@[i])@ == name;
            assert(all[i] == name);
        }
    }
}

proof fn lemma_own_buttons(
    settings: &Settings,
    held: &Held,
    live: bool,
    bits: ButtonBits,
    buttons: u32,
)
    requires
        bits.apart(),
        buttons == (if live {
            action_bits(settings, held, bits, 7)
        } else {
            0
        }),
    ensures
        ({
            let r = buttons | bits.launcher(settings.weapon);
            &&& (r & bits.forward != 0) == (live && is_down(settings.bindings.forward, held))
            &&& (r & bits.back != 0) == (live && is_down(settings.bindings.back, held))
            &&& (r & bits.left != 0) == (live && is_down(settings.bindings.left, held))
            &&& (r & bits.right != 0) == (live && is_down(settings.bindings.right, held))
            &&& (r & bits.jump != 0) == (live && is_down(settings.bindings.jump, held))
            &&& (r & bits.duck != 0) == (live && is_down(settings.bindings.crouch, held))
            &&& (r & bits.attack != 0) == (live && is_down(settings.bindings.fire, held))
            &&& (r & bits.weapon_stock != 0) == (settings.weapon == Weapon::Stock)
            &&& (r & bits.weapon_original != 0) == (settings.weapon == Weapon::Original)
        }),
{
    lemma_held_is_down(settings, held);
    let w = bits.launcher(settings.weapon);
    let hf = live && held_down(settings, held, Action::Forward);
    let hb = live && held_down(settings, held, Action::Back);
    let hl = live && held_down(settings, held, Action::Left);
    let hr = live && held_down(settings, held, Action::Right);
    let hj = live && held_down(settings, held, Action::Jump);
    let hd = live && held_down(settings, held, Action::Crouch);
    let ha = live && held_down(settings, held, Action::Fire);
    let x0 = 0u32;
    let x1 = x0 | (if hf { bits.forward } else { 0 });
    let x2 = x1 | (if hb { bits.back } else { 0 });
    let x3 = x2 | (if hl { bits.left } else { 0 });
    let x4 = x3 | (if hr { bits.right } else { 0 });
    let x5 = x4 | (if hj { bits.jump } else { 0 });
    let x6 = x5 | (if hd { bits.duck } else { 0 });
    let x7 = x6 | (if ha { bits.attack } else { 0 });
    lemma_or(if hf { bits.forward } else { 0 });
    lemma_or(x0);
    lemma_or(x1);
    lemma_or(x2);
    lemma_or(x3);
    lemma_or(x4);
    lemma_or(x5);
    lemma_or(x6);
    if live {
        assert(action_bits(settings, held, bits, 0) == x0);
        assert(action_bits(settings, held, bits, 1) == x1);
        assert(action_bits(settings, held, bits, 2) == x2);
        assert(action_bits(settings, held, bits, 3) == x3);
        assert(action_bits(settings, held, bits, 4) == x4);
        assert(action_bits(settings, held, bits, 5) == x5);
        assert(action_bits(settings, held, bits, 6) == x6);
        assert(action_bits(settings, held, bits, 7) == x7);
    }
    assert(buttons == x7);
    lemma_own_bits(
        bits.forward,
        bits.back,
        bits.left,
        bits.right,
        bits.jump,
        bits.duck,
        bits.attack,
        bits.weapon_stock,
        bits.weapon_original,
        w,
        hf,
        hb,
        hl,
        hr,
        hj,
        hd,
        ha,
        buttons | w,
    );
}

/// The local player's buttons. Keys count only while the mouse is captured and no menu covers the
/// game. The launcher preference is not a key: it travels with every input, menu open or not, so
/// the zeroed inputs that pad the first frames are told apart from "stock".
pub fn local_buttons(
    settings: &Settings,
    held: &Held,
    captured: bool,
    overlay: bool,
    bits: ButtonBits,
) -> (r: u32)
    ensures
        r == (if captured && !overlay {
            action_bits(settings, held, bits, 7)
        } else {
            0
        }) | bits.launcher(settings.weapon),
        bits.apart() ==> ({
            let live = captured && !overlay;
            &&& (r & bits.forward != 0) == (live && is_down(settings.bindings.forward, held))
            &&& (r & bits.back != 0) == (live && is_down(settings.bindings.back, held))
            &&& (r & bits.left != 0) == (live && is_down(settings.bindings.left, held))
            &&& (r & bits.right != 0) == (live && is_down(settings.bindings.right, held))
            &&& (r & bits.jump != 0) == (live && is_down(settings.bindings.jump, held))
            &&& (r & bits.duck != 0) == (live && is_down(settings.bindings.crouch, held))
            &&& (r & bits.attack != 0) == (live && is_down(settings.bindings.fire, held))
            &&& (r & bits.weapon_stock != 0) == (settings.weapon == Weapon::Stock)
            &&& (r & bits.weapon_original != 0) == (settings.weapon == Weapon::Original)
        }),
{
    let mut buttons: u32 = 0;
    if captured && !overlay {
        let actions = Action::list();
        let mut i: usize = 0;
        while i < actions.len()
            invariant
                i <= actions.len(),
                actions@ == Action::all(),
                actions@.len() == 7,
                buttons == action_bits(settings, held, bits, i as int),
            decreases actions.len() - i,
        {
            let a = actions[i];
            if settings.bindings.pressed(a, held) {
                buttons = buttons | bits.get(a);
            }
            i = i + 1;
        }
    }
    proof {
        if bits.apart() {
            lemma_own_buttons(settings, held, captured && !overlay, bits, buttons);
        }
    }
    buttons | match settings.weapon {
        Weapon::Original => bits.weapon_original,
        Weapon::Stock => bits.weapon_stock,
    }
}

// ---- dev helpers ----

/// How long after the start of a match the screenshot is taken.
pub const SCREENSHOT_DELAY: u64 = 4_000_000_000;

/// Whether a frame took far longer than a tick. Pauses longer than a few seconds are a hidden tab or
/// a debugger, not a hitch.
pub fn is_long_frame(dt: u64) -> (r: bool)
    ensures
        r == (80 * MILLISECOND <= dt < 5 * SECOND),
{
    80 * MILLISECOND <= dt && dt < 5 * SECOND
}

/// Timed screenshot and auto-quit.
#[derive(Clone, Copy, Debug, PartialEq, Eq, Structural)]
pub struct DevTools {
    pub entered_at: Option<u64>,
    pub shot_taken: bool,
}

impl DevTools {
    /// Whether to exit and whether to take the screenshot, now.
    pub fn step(
        &mut self,
        quit_after: Option<i64>,
        screenshot: bool,
        in_game: bool,
        now: u64,
    ) -> (r: (bool, bool))
        ensures
            r.0 == (quit_after matches Some(q) && now > q),
            r.1 == (in_game && screenshot && !old(self).shot_taken && (old(self).entered_at
                matches Some(t) && elapsed(t, now) > SCREENSHOT_DELAY)),
            final(self).shot_taken == (old(self).shot_taken || r.1),
            final(self).entered_at == if !in_game {
                None
            } else if old(self).entered_at is None {
                Some(now)
            } else {
                old(self).entered_at
            },
    {
        let quit = match quit_after {
            Some(q) => q < 0 || now > q as u64,
            None => false,
        };
        if !in_game {
            self.entered_at = None;
            return (quit, false);
        }
        let t0 = match self.entered_at {
            Some(t) => t,
            None => now,
        };
        self.entered_at = Some(t0);
        if !self.shot_taken && since(t0, now) > SCREENSHOT_DELAY && screenshot {
            self.shot_taken = true;
            return (quit, true);
        }
        (quit, false)
    }
}

} // verus!
