//! Connection impairment for development: `delay=80,jitter=20,loss=2,spike=300,every=5` (`=` may be
//! written `:` and `,` may be `;` to keep an address readable).
//!
//! It sits above the WebRTC channel, so it behaves the same in a browser and on desktop and hits
//! exactly the session's traffic. Each direction of this client is impaired independently: `delay`
//! is added one way, so the round trip grows by twice that when one client runs it (and by four
//! times when both do).
//!
//! - `delay`: ms added to every packet.
//! - `jitter`: ms; each packet gets a uniform offset in `-jitter..=jitter` on top of `delay`
//!   (packets may overtake one another, as on a real unordered link).
//! - `loss`: percent of packets dropped.
//! - `spike` and `every`: every `every` seconds, everything sent in the next `spike` ms is held
//!   until that window ends: the Wi-Fi channel-scan pattern that freezes a game every few seconds.
//! - `seed`: for the random parts, so a run can be repeated.

use vstd::prelude::*;
use vstd::string::*;

use crate::netstats::one_decimal;
use crate::numeral::{read_whole, settle_text, settled_text, whole_text};
use crate::single::{nearest, round_div, single, to_single};
use crate::text::{chars, decimal, eq, lemma_position, owned, pieces, position, replace, replaced, show,
    split, string_of, strings, trim, trimmed};

verus! {

/// The impairment. Times are in nanoseconds, the resolution of the clock.
#[derive(Clone, Copy, Debug, PartialEq, Eq, Structural)]
pub struct NetSim {
    pub delay: u64,
    pub jitter: u64,
    /// Millionths of a percent.
    pub loss: u64,
    pub spike: u64,
    pub every: u64,
    pub seed: u64,
}

impl NetSim {
    pub open spec fn none() -> NetSim {
        NetSim { delay: 0, jitter: 0, loss: 0, spike: 0, every: 0, seed: 1 }
    }
}

/// What a text reads as with so many decimal places, from 0 to `max`; what is not a number counts as
/// 0.
pub open spec fn amount(v: Seq<char>, places: i8, max: i64) -> u64 {
    match settled_text(v, places as int, 0, max as int) {
        Some(n) => n as u64,
        None => 0,
    }
}

/// The impairment with one more `key=value` taken in; nothing where it is malformed.
pub open spec fn sim_with(sim: NetSim, kv: Seq<char>) -> Option<NetSim> {
    let a = position(kv, '=');
    let b = position(kv, ':');
    let p = if a < b {
        a
    } else {
        b
    };
    let k = trimmed(kv.take(p));
    let v = trimmed(kv.skip(p + 1));
    if p >= kv.len() || whole_text(v, u64::MAX as nat) is None {
        None
    } else if k == "delay"@ {
        Some(NetSim { delay: amount(v, 6, i64::MAX), ..sim })
    } else if k == "jitter"@ {
        Some(NetSim { jitter: amount(v, 6, i64::MAX), ..sim })
    } else if k == "loss"@ {
        Some(NetSim { loss: amount(v, 6, 100_000_000), ..sim })
    } else if k == "spike"@ {
        Some(NetSim { spike: amount(v, 6, i64::MAX), ..sim })
    } else if k == "every"@ {
        Some(NetSim { every: amount(v, 9, i64::MAX), ..sim })
    } else if k == "seed"@ {
        Some(NetSim { seed: whole_text(v, u64::MAX as nat)->0 as u64, ..sim })
    } else {
        None
    }
}

/// A text with `;` and the space for commas.
pub open spec fn commas(s: Seq<char>) -> Seq<char> {
    s.map_values(
        |c: char|
            if c == ';' || c == ' ' {
                ','
            } else {
                c
            },
    )
}

/// The impairment that a list of pieces gives; nothing where one is malformed. Empty pieces are
/// skipped.
pub open spec fn sim_of_pieces(parts: Seq<Seq<char>>) -> Option<NetSim>
    decreases parts.len(),
{
    if parts.len() == 0 {
        Some(NetSim::none())
    } else {
        match sim_of_pieces(parts.drop_last()) {
            None => None,
            Some(sim) => if parts.last().len() == 0 {
                Some(sim)
            } else {
                sim_with(sim, parts.last())
            },
        }
    }
}

/// A text with the escapes of an address undone.
pub open spec fn unescaped(text: Seq<char>) -> Seq<char> {
    replaced(
        replaced(replaced(replaced(text, "%3D"@, "="@), "%3A"@, ":"@), "%2C"@, ","@),
        "%3B"@,
        ";"@,
    )
}

/// The pieces of an impairment's description.
pub open spec fn sim_pieces(text: Seq<char>) -> Seq<Seq<char>> {
    pieces(commas(unescaped(text)), ',')
}

/// Whether a piece says anything.
pub open spec fn says_something(parts: Seq<Seq<char>>) -> bool {
    exists|i: int| 0 <= i < parts.len() && (#[trigger] parts[i]).len() > 0
}

/// The impairment that a text describes.
pub open spec fn sim_of(text: Seq<char>) -> Option<NetSim> {
    if says_something(sim_pieces(text)) {
        sim_of_pieces(sim_pieces(text))
    } else {
        None
    }
}

fn read_amount(v: &str, places: i8, max: i64) -> (r: u64)
    requires
        max >= 0,
    ensures
        r == amount(v@, places, max),
{
    match settle_text(v, places, 0, max) {
        Some(n) => n as u64,
        None => 0,
    }
}

impl NetSim {
    fn take(self, kv: &str) -> (r: Option<NetSim>)
        ensures
            r == sim_with(self, kv@),
    {
        let c = chars(kv);
        let mut p: usize = 0;
        proof {
            lemma_position(kv@, '=');
            lemma_position(kv@, ':');
        }
        while p < c.len() && c[p] != '=' && c[p] != ':'
            invariant
                p <= c.len(),
                c@ == kv@,
                forall|j: int| 0 <= j < p ==> c@[j] != '=' && c@[j] != ':',
            decreases c.len() - p,
        {
            p = p + 1;
        }
        proof {
            let a = position(kv@, '=');
            let b = position(kv@, ':');
            if p < c.len() {
                if a < p {
                    assert(c@[a] != '=');
                }
                if b < p {
                    assert(c@[b] != ':');
                }
            } else {
                if a < c.len() {
                    assert(c@[a] != '=');
                }
                if b < c.len() {
                    assert(c@[b] != ':');
                }
            }
        }
        if p == c.len() {
            return None;
        }
        let k = string_of(&c, 0, p);
        let v = string_of(&c, p + 1, c.len());
        proof {
            assert(kv@.take(p as int) =~= c@.subrange(0, p as int));
            assert(kv@.skip(p as int + 1) =~= c@.subrange(p as int + 1, c@.len() as int));
        }
        let k = trim(k.as_str());
        let v = trim(v.as_str());
        let whole = match read_whole(v.as_str()) {
            Some(n) => n,
            None => {
                return None;
            },
        };
        if eq(k.as_str(), "delay") {
            Some(NetSim { delay: read_amount(v.as_str(), 6, i64::MAX), ..self })
        } else if eq(k.as_str(), "jitter") {
            Some(NetSim { jitter: read_amount(v.as_str(), 6, i64::MAX), ..self })
        } else if eq(k.as_str(), "loss") {
            Some(NetSim { loss: read_amount(v.as_str(), 6, 100_000_000), ..self })
        } else if eq(k.as_str(), "spike") {
            Some(NetSim { spike: read_amount(v.as_str(), 6, i64::MAX), ..self })
        } else if eq(k.as_str(), "every") {
            Some(NetSim { every: read_amount(v.as_str(), 9, i64::MAX), ..self })
        } else if eq(k.as_str(), "seed") {
            Some(NetSim { seed: whole, ..self })
        } else {
            None
        }
    }

    /// Reads an impairment; nothing where it is empty, malformed or has an unknown key.
    pub fn parse(text: &str) -> (r: Option<NetSim>)
        ensures
            r == sim_of(text@),
    {
        proof {
            reveal_strlit("%3D");
            reveal_strlit("%3A");
            reveal_strlit("%2C");
            reveal_strlit("%3B");
        }
        let t = replace(text, "%3D", "=");
        let t = replace(t.as_str(), "%3A", ":");
        let t = replace(t.as_str(), "%2C", ",");
        let t = replace(t.as_str(), "%3B", ";");
        let t = with_commas(t.as_str());
        let parts = split(t.as_str(), ',');
        let ghost all = strings(parts@);
        let mut sim = NetSim { delay: 0, jitter: 0, loss: 0, spike: 0, every: 0, seed: 1 };
        let mut any = false;
        let mut i: usize = 0;
        proof {
            assert(all.take(0) =~= Seq::<Seq<char>>::empty());
        }
        while i < parts.len()
            invariant
                i <= parts.len(),
                all == strings(parts@),
                all == sim_pieces(text@),
                sim_of_pieces(all.take(i as int)) == Some(sim),
                any == exists|j: int| 0 <= j < i && (#[trigger] all[j]).len() > 0,
            decreases parts.len() - i,
        {
            proof {
                assert(all.take(i as int + 1).drop_last() =~= all.take(i as int));
                assert(all.take(i as int + 1).last() == parts@[i as int]@);
                assert(all[i as int] == parts@[i as int]@);
            }
            if !parts[i].as_str().is_empty() {
                any = true;
                match sim.take(parts[i].as_str()) {
                    Some(s) => {
                        sim = s;
                    },
                    None => {
                        proof {
                            lemma_malformed(all, i as int + 1);
                        }
                        return None;
                    },
                }
            }
            i = i + 1;
        }
        proof {
            assert(all.take(all.len() as int) =~= all);
        }
        if any {
            Some(sim)
        } else {
            None
        }
    }

    /// The loss in percent, in `FRACTION`ths: it was kept as a share of one.
    pub open spec fn loss_shown(self) -> nat {
        let share = single(single(self.loss as nat * FRACTION as nat, 1_000_000), 100);
        single(share * 100, 1)
    }

    pub open spec fn described(self) -> Seq<char> {
        let base = "delay "@ + whole_of(millis_shown(self.delay)) + " ms, jitter "@ + whole_of(
            millis_shown(self.jitter),
        ) + " ms, loss "@ + tenths_of(self.loss_shown()) + "%"@;
        if self.spike > 0 && self.every > 0 {
            base + ", "@ + whole_of(millis_shown(self.spike)) + " ms spike every "@ + tenths_of(
                single(self.every as nat * FRACTION as nat, 1_000_000_000),
            ) + " s"@
        } else {
            base
        }
    }

    pub fn describe(&self) -> (r: String)
        ensures
            r@ == self.described(),
    {
        let mut s = owned("delay ");
        put_millis(&mut s, self.delay);
        s.append(" ms, jitter ");
        put_millis(&mut s, self.jitter);
        s.append(" ms, loss ");
        let share = to_single(to_single(self.loss as u128 * FRACTION, 1_000_000), 100);
        put_tenths(&mut s, to_single(share * 100, 1));
        s.append("%");
        if self.spike > 0 && self.every > 0 {
            s.append(", ");
            put_millis(&mut s, self.spike);
            s.append(" ms spike every ");
            put_tenths(&mut s, to_single(self.every as u128 * FRACTION, 1_000_000_000));
            s.append(" s");
        }
        s
    }
}

/// The single-precision numbers that are shown are counted in fractions with this denominator.
pub const FRACTION: u128 = 0x40_0000_0000_0000;

/// A time in milliseconds, in `FRACTION`ths.
pub open spec fn millis_shown(t: u64) -> nat {
    single(t as nat * FRACTION as nat, 1_000_000)
}

/// `{:.0}` of a number in `FRACTION`ths.
pub open spec fn whole_of(n: nat) -> Seq<char> {
    decimal(nearest(n as int, FRACTION as int) as nat)
}

/// `{:.1}` of a number in `FRACTION`ths.
pub open spec fn tenths_of(n: nat) -> Seq<char> {
    one_decimal(nearest((10 * n) as int, FRACTION as int) as nat)
}

/// Once a piece is malformed nothing comes of the rest.
proof fn lemma_malformed(parts: Seq<Seq<char>>, n: int)
    requires
        0 <= n <= parts.len(),
        sim_of_pieces(parts.take(n)) is None,
    ensures
        sim_of_pieces(parts) is None,
    decreases parts.len(),
{
    if n == parts.len() {
        assert(parts.take(n) =~= parts);
    } else {
        assert(parts.drop_last().take(n) =~= parts.take(n));
        lemma_malformed(parts.drop_last(), n);
    }
}

fn with_commas(s: &str) -> (r: String)
    ensures
        r@ == commas(s@),
{
    let v = chars(s);
    let mut out = String::new();
    let mut i: usize = 0;
    proof {
        assert(out@ =~= commas(v@.take(0)));
    }
    while i < v.len()
        invariant
            i <= v.len(),
            out@ == commas(v@.take(i as int)),
        decreases v.len() - i,
    {
        let c = v[i];
        out.push(
            if c == ';' || c == ' ' {
                ','
            } else {
                c
            },
        );
        i = i + 1;
        proof {
            assert(out@ =~= commas(v@.take(i as int)));
        }
    }
    proof {
        assert(v@.take(v@.len() as int) =~= v@);
    }
    out
}

fn put_millis(out: &mut String, t: u64)
    ensures
        final(out)@ == old(out)@ + whole_of(millis_shown(t)),
{
    let n = to_single(t as u128 * FRACTION, 1_000_000);
    let s = show(round_div(n, FRACTION) as u64);
    out.append(s.as_str());
}

fn put_tenths(out: &mut String, n: u128)
    requires
        n < 0x1_0000_0000_0000_0000_0000_0000_0000,
    ensures
        final(out)@ == old(out)@ + tenths_of(n as nat),
{
    let t: u64 = round_div(10 * n, FRACTION) as u64;
    let mut s = show(t / 10);
    s.append(".");
    let d = show(t % 10);
    s.append(d.as_str());
    out.append(s.as_str());
}

// ---- impaired traffic ----

/// A packet on its way.
#[derive(Debug, PartialEq)]
pub struct Held {
    /// When it comes out, in nanoseconds.
    pub due: u128,
    pub peer: u128,
    pub packet: Vec<u8>,
}

/// One direction of impaired traffic: packets go in, and come out later (or not at all).
pub struct Pipe {
    pub sim: NetSim,
    /// Unordered.
    pub held: Vec<Held>,
}

/// When a packet that goes in now comes out, with this offset of its delay.
pub open spec fn due_at(sim: NetSim, now: u64, jitter: i64) -> int {
    let wait = sim.delay + jitter;
    let due = now + if wait > 0 {
        wait
    } else {
        0
    };
    let every = sim.every as int;
    if sim.spike > 0 && every > 0 && now as int % every < sim.spike {
        let end = now - now as int % every + sim.spike;
        if due < end {
            end
        } else {
            due
        }
    } else {
        due
    }
}

/// Both directions of one client's traffic, each with the seed of what is left to chance in it.
pub struct Impaired {
    pub out: Pipe,
    pub out_seed: u64,
    pub inp: Pipe,
    pub inp_seed: u64,
}

impl Impaired {
    pub fn new(sim: NetSim) -> (r: Impaired)
        ensures
            r.out.sim == sim,
            r.inp.sim == sim,
            r.out.held@.len() == 0,
            r.inp.held@.len() == 0,
            r.out_seed == sim.seed,
            r.inp_seed == if sim.seed == u64::MAX {
                0
            } else {
                sim.seed + 1
            },
    {
        Impaired {
            out: Pipe::new(sim),
            out_seed: sim.seed,
            inp: Pipe::new(sim),
            inp_seed: sim.seed.wrapping_add(1),
        }
    }
}

impl Pipe {
    pub fn new(sim: NetSim) -> (r: Pipe)
        ensures
            r.sim == sim,
            r.held@ == Seq::<Held>::empty(),
    {
        Pipe { sim, held: Vec::new() }
    }

    /// A packet goes in. `lost` and `jitter` are left to chance; a link without loss loses nothing.
    pub fn push(&mut self, now: u64, lost: bool, jitter: i64, peer: u128, packet: Vec<u8>)
        ensures
            final(self).sim == old(self).sim,
            ({
                let s = old(self).sim;
                if s.loss > 0 && lost {
                    final(self).held@ == old(self).held@
                } else {
                    &&& final(self).held@.len() == old(self).held@.len() + 1
                    &&& final(self).held@.drop_last() == old(self).held@
                    &&& final(self).held@.last() == (Held {
                        due: due_at(s, now, jitter) as u128,
                        peer,
                        packet,
                    })
                    &&& final(self).held@.last().due == due_at(s, now, jitter)
                }
            }),
    {
        if self.sim.loss > 0 && lost {
            return ;
        }
        let wait: i128 = self.sim.delay as i128 + jitter as i128;
        let extra: u128 = if wait > 0 {
            wait as u128
        } else {
            0
        };
        let mut due: u128 = now as u128 + extra;
        if self.sim.spike > 0 && self.sim.every > 0 {
            let every: u128 = self.sim.every as u128;
            let spike: u128 = self.sim.spike as u128;
            let phase: u128 = now as u128 % every;
            proof {
                assert(phase <= now) by (nonlinear_arith)
                    requires
                        every > 0,
                        phase == now as int % every as int,
                ;
            }
            if phase < spike {
                let end: u128 = now as u128 - phase + spike;
                if due < end {
                    due = end;
                }
            }
        }
        self.held.push(Held { due, peer, packet });
        proof {
            assert(self.held@.drop_last() =~= old(self).held@);
        }
    }

    /// Everything whose time has come.
    pub fn drain_due(&mut self, now: u64) -> (r: Vec<Held>)
        ensures
            final(self).sim == old(self).sim,
            r@.to_multiset().add(final(self).held@.to_multiset()) == old(self).held@.to_multiset(),
            forall|i: int| 0 <= i < r@.len() ==> (#[trigger] r@[i]).due <= now,
            forall|i: int|
                0 <= i < final(self).held@.len() ==> (#[trigger] final(self).held@[i]).due > now,
    {
        broadcast use vstd::seq_lib::group_to_multiset_ensures;

        let mut out: Vec<Held> = Vec::new();
        let mut i: usize = 0;
        let ghost all = self.held@.to_multiset();
        proof {
            assert(out@ =~= Seq::<Held>::empty());
            assert(out@.to_multiset().add(self.held@.to_multiset()) =~= all);
        }
        while i < self.held.len()
            invariant
                i <= self.held.len(),
                self.sim == old(self).sim,
                out@.to_multiset().add(self.held@.to_multiset()) == all,
                forall|j: int| 0 <= j < out@.len() ==> (#[trigger] out@[j]).due <= now,
                forall|j: int| 0 <= j < i ==> (#[trigger] self.held@[j]).due > now,
            decreases self.held.len() - i,
        {
            broadcast use vstd::seq_lib::group_to_multiset_ensures;

            if self.held[i].due <= now as u128 {
                let ghost before = self.held@;
                let ghost gone = out@;
                let h = self.held.swap_remove(i);
                proof {
                    let n = before.len() as int;
                    assert(h == before[i as int]);
                    lemma_swap_remove(before, i as int);
                    assert(self.held@ =~= before.update(i as int, before[n - 1]).drop_last());
                    assert(gone.push(h).to_multiset() =~= gone.to_multiset().insert(h));
                }
                out.push(h);
                proof {
                    assert(out@.to_multiset().add(self.held@.to_multiset()) =~= all);
                }
            } else {
                i = i + 1;
            }
        }
        out
    }
}

proof fn lemma_swap_remove(s: Seq<Held>, i: int)
    requires
        0 <= i < s.len(),
    ensures
        s.update(i, s[s.len() - 1]).drop_last().to_multiset() == s.to_multiset().remove(s[i]),
        s.to_multiset().count(s[i]) > 0,
{
    broadcast use vstd::seq_lib::group_to_multiset_ensures;

    let last = s[s.len() - 1];
    let u = s.update(i, last);
    assert(u.drop_last() =~= u.remove(s.len() - 1));
    assert(s.contains(s[i]));
    assert(u.to_multiset() =~= s.to_multiset().insert(last).remove(s[i]));
    assert(u.remove(s.len() - 1).to_multiset() =~= u.to_multiset().remove(u[s.len() - 1]));
    assert(u[s.len() - 1] == last);
    assert(s.to_multiset().insert(last).remove(s[i]).remove(last) =~= s.to_multiset().remove(s[i]));
}

/// Each word of an impairment sets its own part of it and no other, and a word that is none, or has
/// no number behind it, is no impairment at all.
pub proof fn law_each_word_sets_its_own_part(sim: NetSim, kv: Seq<char>)
    ensures
        ({
            let a = position(kv, '=');
            let b = position(kv, ':');
            let p = if a < b {
                a
            } else {
                b
            };
            let k = trimmed(kv.take(p));
            let v = trimmed(kv.skip(p + 1));
            let number = p < kv.len() && whole_text(v, u64::MAX as nat) is Some;
            &&& !number ==> sim_with(sim, kv) is None
            &&& number && k == "delay"@ ==> sim_with(sim, kv) == Some(
                NetSim { delay: amount(v, 6, i64::MAX), ..sim },
            )
            &&& number && k == "jitter"@ ==> sim_with(sim, kv) == Some(
                NetSim { jitter: amount(v, 6, i64::MAX), ..sim },
            )
            &&& number && k == "loss"@ ==> sim_with(sim, kv) == Some(
                NetSim { loss: amount(v, 6, 100_000_000), ..sim },
            )
            &&& number && k == "spike"@ ==> sim_with(sim, kv) == Some(
                NetSim { spike: amount(v, 6, i64::MAX), ..sim },
            )
            &&& number && k == "every"@ ==> sim_with(sim, kv) == Some(
                NetSim { every: amount(v, 9, i64::MAX), ..sim },
            )
            &&& number && k == "seed"@ ==> sim_with(sim, kv) == Some(
                NetSim { seed: whole_text(v, u64::MAX as nat)->0 as u64, ..sim },
            )
            &&& k != "delay"@ && k != "jitter"@ && k != "loss"@ && k != "spike"@ && k != "every"@
                && k != "seed"@ ==> sim_with(sim, kv) is None
        }),
{
    lemma_words_differ();
}

proof fn lemma_words_differ()
    ensures
        "delay"@ != "jitter"@,
        "delay"@ != "loss"@,
        "delay"@ != "spike"@,
        "delay"@ != "every"@,
        "delay"@ != "seed"@,
        "jitter"@ != "loss"@,
        "jitter"@ != "spike"@,
        "jitter"@ != "every"@,
        "jitter"@ != "seed"@,
        "loss"@ != "spike"@,
        "loss"@ != "every"@,
        "loss"@ != "seed"@,
        "spike"@ != "every"@,
        "spike"@ != "seed"@,
        "every"@ != "seed"@,
{
    reveal_strlit("delay");
    reveal_strlit("jitter");
    reveal_strlit("loss");
    reveal_strlit("spike");
    reveal_strlit("every");
    reveal_strlit("seed");
    assert("delay"@[0] == 'd');
    assert("jitter"@[0] == 'j');
    assert("loss"@[0] == 'l');
    assert("spike"@[1] == 'p');
    assert("every"@[0] == 'e');
    assert("seed"@[1] == 'e');
    assert("delay"@[1] == 'e' && "seed"@[0] == 's' && "spike"@[0] == 's');
}

/// A packet is never due before it came in, nor before its delay (as far as the jitter leaves any)
/// is over. One that comes in during a spike is due no earlier than the spike's end; outside of a
/// spike the delay is all there is.
pub proof fn law_when_a_packet_is_due(sim: NetSim, now: u64, jitter: i64)
    ensures
        due_at(sim, now, jitter) >= now,
        due_at(sim, now, jitter) >= now + sim.delay + jitter,
        sim.spike == 0 || sim.every == 0 ==> due_at(sim, now, jitter) == if sim.delay + jitter > 0 {
            now + sim.delay + jitter
        } else {
            now as int
        },
        sim.every > 0 && (now as int) % (sim.every as int) < sim.spike ==> {
            let began = now - (now as int) % (sim.every as int);
            &&& due_at(sim, now, jitter) >= began + sim.spike
            &&& due_at(sim, now, jitter) == began + sim.spike || due_at(sim, now, jitter) == now
                + sim.delay + jitter || due_at(sim, now, jitter) == now
        },
        sim.every > 0 && (now as int) % (sim.every as int) >= sim.spike ==> due_at(sim, now, jitter)
            == if sim.delay + jitter > 0 {
            now + sim.delay + jitter
        } else {
            now as int
        },
{
}

/// More delay or more jitter never brings a packet out sooner.
pub proof fn law_more_delay_is_never_sooner(a: NetSim, b: NetSim, now: u64, x: i64, y: i64)
    requires
        a.delay <= b.delay,
        x <= y,
        a.spike == b.spike,
        a.every == b.every,
    ensures
        due_at(a, now, x) <= due_at(b, now, y),
{
}

/// Each piece of the description counts in turn, an empty one for nothing; one that cannot be read
/// spoils it all, and so does a description without any.
pub proof fn law_how_a_description_reads(parts: Seq<Seq<char>>, kv: Seq<char>, text: Seq<char>)
    ensures
        sim_of_pieces(Seq::empty()) == Some(
            NetSim { delay: 0, jitter: 0, loss: 0, spike: 0, every: 0, seed: 1 },
        ),
        kv.len() == 0 ==> sim_of_pieces(parts.push(kv)) == sim_of_pieces(parts),
        kv.len() > 0 && sim_of_pieces(parts) is Some ==> sim_of_pieces(parts.push(kv)) == sim_with(
            sim_of_pieces(parts)->0,
            kv,
        ),
        sim_of_pieces(parts) is None ==> sim_of_pieces(parts.push(kv)) is None,
        (forall|i: int| 0 <= i < sim_pieces(text).len() ==> #[trigger] sim_pieces(text)[i].len() == 0)
            ==> sim_of(text) is None,
        sim_of(text) is Some ==> sim_of(text) == sim_of_pieces(sim_pieces(text)),
{
    assert(parts.push(kv).drop_last() =~= parts);
}

/// The description may be separated by commas, semicolons or spaces alike.
pub proof fn law_separators_are_alike(s: Seq<char>, i: int)
    requires
        0 <= i < s.len(),
    ensures
        commas(s).len() == s.len(),
        s[i] == ';' || s[i] == ' ' || s[i] == ',' ==> commas(s)[i] == ',',
        s[i] != ';' && s[i] != ' ' ==> commas(s)[i] == s[i],
{
}

/// The spikes are part of the line exactly where there are any.
pub proof fn law_when_spikes_are_described(sim: NetSim)
    ensures
        ({
            let plain = NetSim { spike: 0, ..sim }.described();
            &&& sim.spike == 0 || sim.every == 0 ==> sim.described() == plain
            &&& sim.spike > 0 && sim.every > 0 ==> sim.described().len() > plain.len()
        }),
{
    reveal_strlit(", ");
}

} // verus!
