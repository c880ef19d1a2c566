//! The Fruit Ninja gallery's bookkeeping: the local records and their file, the reset countdown, the
//! score strip, the end of a round, the pool of soldier models and the floating options frame. The
//! rules and the state live in the simulation.

use vstd::prelude::*;
use vstd::string::*;

use crate::clock::{after, later};
use crate::game::SimEvent;
use crate::menu::Touch;
use crate::net::MatchKind;
use crate::numeral::{clamped, lemma_unsigned_decimal, parse_unsigned, unsigned_of};
use crate::settings::{find_name, index_of, lemma_index_of, lemma_lines_pieces, lines_text,
    no_newline, push_line, FruitRules, Settings, SettingsView};
use crate::text::{cat, cat3, decimal, is_digit, lemma_decimal, lemma_position_after,
    lemma_trim_leading_space, lemma_trim_trailing_space, lemma_trimmed_fixed, owned, pieces, position,
    show, split, split_once, strings, trim, trimmed, white_space};

verus! {

/// Soldiers in a round.
pub const ROUND_SIZE: u32 = 20;

/// Ticks between falling off the platform and standing on it again.
pub const FALL_RESPAWN_TICKS: u32 = 40;

/// When the countdown's dings ring, after it starts, and when it says "Begin!".
pub const SECOND_DING: u64 = 340_000_000;

pub const THIRD_DING: u64 = 670_000_000;

pub const COUNTDOWN: u64 = 1_000_000_000;

/// How long a round's result stays up before the countdown into the next one, and how long a new
/// record's stays up: the flourish plays out under it.
pub const RESULT_FOR: u64 = 3_500_000_000;

pub const RECORD_RESULT_FOR: u64 = 8_500_000_000;

/// Whether a match is the gallery.
pub fn in_gallery(kind: &Option<MatchKind>) -> (r: bool)
    ensures
        r == (*kind == Some(MatchKind::FruitNinja)),
{
    matches!(kind, Some(MatchKind::FruitNinja))
}

// ---- the countdown ----

/// The reset countdown: three dings over a second, then "Begin!". While it is armed (from `started`
/// on, which may be a moment in the future while a round's result shows) the idle player's input
/// carries the reset flag, which keeps the gallery empty and its stats at zero.
#[derive(Clone, Copy, Debug, PartialEq, Eq, Structural)]
pub struct Countdown {
    pub started: Option<u64>,
    pub dings: u8,
}

/// How many dings are due.
pub open spec fn dings_due(started: u64, now: u64) -> int {
    if now < started {
        0
    } else if now - started >= THIRD_DING {
        3
    } else if now - started >= SECOND_DING {
        2
    } else {
        1
    }
}

/// What the countdown does in a frame.
#[derive(Clone, Copy, Debug, PartialEq, Eq, Structural)]
pub struct CountdownTurn {
    /// Dings to ring; the first of them clears a round's result.
    pub rings: u8,
    /// The number to show, where it changed.
    pub number: Option<u8>,
    /// The soldiers come back, and the number goes.
    pub begin: bool,
}

impl Countdown {
    pub open spec fn wf(self) -> bool {
        self.dings <= 3
    }

    /// What a frame brings.
    pub open spec fn turn(self, now: u64) -> CountdownTurn {
        match self.started {
            None => CountdownTurn { rings: 0, number: None, begin: false },
            Some(t0) => {
                let due = dings_due(t0, now);
                let rings = if due > self.dings {
                    due - self.dings
                } else {
                    0
                };
                CountdownTurn {
                    rings: rings as u8,
                    number: if rings > 0 {
                        Some((4 - due) as u8)
                    } else {
                        None
                    },
                    begin: now >= t0 && now - t0 >= COUNTDOWN,
                }
            },
        }
    }

    /// The countdown after a frame.
    pub open spec fn next(self, now: u64) -> Countdown {
        let turn = self.turn(now);
        Countdown {
            started: if turn.begin {
                None
            } else {
                self.started
            },
            dings: (self.dings + turn.rings) as u8,
        }
    }

    pub fn new() -> (r: Countdown)
        ensures
            r == (Countdown { started: None, dings: 0 }),
            r.wf(),
    {
        Countdown { started: None, dings: 0 }
    }

    pub fn active(&self) -> (r: bool)
        ensures
            r == self.started is Some,
    {
        self.started.is_some()
    }

    pub fn start(&mut self, at: u64)
        ensures
            *final(self) == (Countdown { started: Some(at), dings: 0 }),
            final(self).wf(),
    {
        self.started = Some(at);
        self.dings = 0;
    }

    /// "3", "2", "1" with the hit sound, then "Begin!" and the soldiers come back.
    pub fn run_countdown(&mut self, now: u64) -> (r: CountdownTurn)
        requires
            old(self).wf(),
        ensures
            final(self).wf(),
            r == old(self).turn(now),
            *final(self) == old(self).next(now),
    {
        let t0 = match self.started {
            Some(t) => t,
            None => {
                return CountdownTurn { rings: 0, number: None, begin: false };
            },
        };
        let due: u8 = if now < t0 {
            0
        } else if now - t0 >= THIRD_DING {
            3
        } else if now - t0 >= SECOND_DING {
            2
        } else {
            1
        };
        let rings: u8 = if due > self.dings {
            due - self.dings
        } else {
            0
        };
        self.dings = self.dings + rings;
        let begin = now >= t0 && now - t0 >= COUNTDOWN;
        if begin {
            self.started = None;
        }
        CountdownTurn {
            rings,
            number: if rings > 0 {
                Some(4 - due)
            } else {
                None
            },
            begin,
        }
    }
}

/// However the frames fall, a countdown rings three times in all before it says "Begin!": what a
/// frame rings and what had rung before never exceed three, and are three when it begins.
pub proof fn law_countdown_rings_three_times(c: Countdown, now: u64)
    requires
        c.wf(),
        c.started is Some,
    ensures
        c.next(now).wf(),
        c.dings + c.turn(now).rings == c.next(now).dings,
        c.turn(now).begin ==> c.next(now).dings == 3 && c.next(now).started is None,
        !c.turn(now).begin ==> c.next(now).started == c.started,
        now < c.started->0 ==> c.turn(now).rings == 0 && !c.turn(now).begin,
{
}

// ---- the records ----

/// The best round on a difficulty: soldiers hit, accuracy in percent, and the longest chain.
#[derive(Clone, Copy, Debug, PartialEq, Eq, Structural)]
pub struct Record {
    pub hits: u32,
    pub acc: u32,
    pub chain: u32,
}

/// A number of a record.
#[derive(Clone, Copy, Debug, PartialEq, Eq, Structural)]
pub enum Stat {
    Hits,
    Acc,
    Chain,
}

pub open spec fn no_record() -> Record {
    Record { hits: 0, acc: 0, chain: 0 }
}

pub open spec fn larger(a: u32, b: u32) -> u32 {
    if a < b {
        b
    } else {
        a
    }
}

impl Record {
    /// Whether a round beats any number of the record.
    pub open spec fn beaten(self, r: Record) -> bool {
        r.hits > self.hits || r.acc > self.acc || r.chain > self.chain
    }

    /// The record with a round taken in.
    pub open spec fn with_round(self, r: Record) -> Record {
        Record {
            hits: larger(self.hits, r.hits),
            acc: larger(self.acc, r.acc),
            chain: larger(self.chain, r.chain),
        }
    }

    pub open spec fn with_stat(self, s: Stat, n: u32) -> Record {
        match s {
            Stat::Hits => Record { hits: n, ..self },
            Stat::Acc => Record { acc: n, ..self },
            Stat::Chain => Record { chain: n, ..self },
        }
    }

    pub open spec fn stat(self, s: Stat) -> u32 {
        match s {
            Stat::Hits => self.hits,
            Stat::Acc => self.acc,
            Stat::Chain => self.chain,
        }
    }
}

impl Stat {
    pub open spec fn name(self) -> Seq<char> {
        match self {
            Stat::Hits => "hits"@,
            Stat::Acc => "acc"@,
            Stat::Chain => "chain"@,
        }
    }
}

pub open spec fn stat_of(s: Seq<char>) -> Option<Stat> {
    if s == "hits"@ {
        Some(Stat::Hits)
    } else if s == "acc"@ {
        Some(Stat::Acc)
    } else if s == "chain"@ {
        Some(Stat::Chain)
    } else {
        None
    }
}

/// A round only ever improves a record: no number of it falls, a round that beat nothing leaves it
/// as it was, and what was just taken in does not beat it again.
pub proof fn law_records_only_improve(old_record: Record, round: Record)
    ensures
        ({
            let new = old_record.with_round(round);
            &&& new.hits >= old_record.hits && new.acc >= old_record.acc && new.chain
                >= old_record.chain
            &&& !old_record.beaten(round) ==> new == old_record
            &&& old_record.beaten(round) ==> new != old_record
            &&& !new.beaten(round)
        }),
{
}

/// The best round on each difficulty, kept locally.
pub struct Records {
    pub best: Vec<Record>,
}

/// The entry on a line of the records' file: which difficulty, which number, and the number.
pub open spec fn record_entry(line: Seq<char>, names: Seq<Seq<char>>) -> Option<(int, Stat, u32)> {
    let p = position(line, '=');
    let k = trimmed(line.take(p));
    let q = position(k, '_');
    if p >= line.len() || q >= k.len() {
        None
    } else {
        match (
            unsigned_of(trimmed(line.skip(p + 1)), u32::MAX as nat),
            index_of(names, k.take(q)),
            stat_of(k.skip(q + 1)),
        ) {
            (Some(n), Some(d), Some(s)) => Some((d, s, n as u32)),
            _ => None,
        }
    }
}

/// The records with the entries of some lines taken in.
pub open spec fn with_record_lines(
    base: Seq<Record>,
    lines: Seq<Seq<char>>,
    names: Seq<Seq<char>>,
) -> Seq<Record>
    decreases lines.len(),
{
    if lines.len() == 0 {
        base
    } else {
        let before = with_record_lines(base, lines.drop_last(), names);
        match record_entry(lines.last(), names) {
            Some((d, s, n)) => before.update(d, before[d].with_stat(s, n)),
            None => before,
        }
    }
}

/// What a records' file says.
pub open spec fn records_of(text: Seq<char>, names: Seq<Seq<char>>) -> Seq<Record> {
    with_record_lines(
        Seq::new(names.len(), |i: int| no_record()),
        pieces(text, '\n'),
        names,
    )
}

/// A line of the records' file.
pub open spec fn record_line(name: Seq<char>, s: Stat, n: u32) -> Seq<char> {
    name + "_"@ + s.name() + " = "@ + decimal(n as nat)
}

/// The lines of the first `n` difficulties.
pub open spec fn record_lines(best: Seq<Record>, names: Seq<Seq<char>>, n: nat) -> Seq<Seq<char>>
    decreases n,
{
    if n == 0 {
        seq!["; endif.tf Fruit Ninja records"@]
    } else {
        let r = best[n - 1];
        let name = names[n - 1];
        record_lines(best, names, (n - 1) as nat).push(record_line(name, Stat::Hits, r.hits)).push(
            record_line(name, Stat::Acc, r.acc),
        ).push(record_line(name, Stat::Chain, r.chain))
    }
}

/// The records as a file.
pub open spec fn records_text(best: Seq<Record>, names: Seq<Seq<char>>) -> Seq<char> {
    lines_text(record_lines(best, names, names.len()))
}

fn find_stat(s: &str) -> (r: Option<Stat>)
    ensures
        r == stat_of(s@),
{
    if crate::text::eq(s, "hits") {
        Some(Stat::Hits)
    } else if crate::text::eq(s, "acc") {
        Some(Stat::Acc)
    } else if crate::text::eq(s, "chain") {
        Some(Stat::Chain)
    } else {
        None
    }
}

fn read_record(line: &str, names: &Vec<String>) -> (r: Option<(usize, Stat, u32)>)
    ensures
        match r {
            Some((d, s, n)) => record_entry(line@, strings(names@)) == Some((d as int, s, n)) && d
                < names@.len(),
            None => record_entry(line@, strings(names@)) is None,
        },
{
    let (k, v) = match split_once(line, '=') {
        Some(kv) => kv,
        None => {
            return None;
        },
    };
    let k = trim(k.as_str());
    let v = trim(v.as_str());
    let (name, what) = match split_once(k.as_str(), '_') {
        Some(x) => x,
        None => {
            return None;
        },
    };
    let n = match parse_unsigned(v.as_str(), u32::MAX as u64) {
        Some(n) => n,
        None => {
            return None;
        },
    };
    let d = match find_name(names, name.as_str()) {
        Some(d) => d,
        None => {
            return None;
        },
    };
    match find_stat(what.as_str()) {
        Some(s) => Some((d, s, n as u32)),
        None => None,
    }
}

impl Records {
    pub open spec fn wf(&self, rules: &FruitRules) -> bool {
        self.best@.len() == rules.difficulties@.len()
    }

    /// Reads the records' file; malformed lines are skipped.
    pub fn load(text: &str, rules: &FruitRules) -> (r: Records)
        ensures
            r.wf(rules),
            r.best@ == records_of(text@, rules.names()),
    {
        let names = &rules.difficulties;
        let mut best: Vec<Record> = Vec::new();
        while best.len() < names.len()
            invariant
                best@.len() <= names@.len(),
                forall|i: int| 0 <= i < best@.len() ==> best@[i] == no_record(),
            decreases names.len() - best.len(),
        {
            best.push(Record { hits: 0, acc: 0, chain: 0 });
        }
        let ghost base = best@;
        proof {
            assert(base =~= Seq::new(rules.names().len(), |i: int| no_record()));
        }
        let lines = split(text, '\n');
        let ghost all = strings(lines@);
        let mut i: usize = 0;
        proof {
            assert(all.take(0) =~= Seq::<Seq<char>>::empty());
        }
        while i < lines.len()
            invariant
                i <= lines.len(),
                all == strings(lines@),
                best@.len() == names@.len(),
                strings(names@) == rules.names(),
                best@ == with_record_lines(base, all.take(i as int), rules.names()),
            decreases lines.len() - i,
        {
            proof {
                assert(all.take(i as int + 1).drop_last() =~= all.take(i as int));
                assert(all.take(i as int + 1).last() == lines@[i as int]@);
            }
            if let Some((d, s, n)) = read_record(lines[i].as_str(), names) {
                let was = best[d];
                let now = match s {
                    Stat::Hits => Record { hits: n, ..was },
                    Stat::Acc => Record { acc: n, ..was },
                    Stat::Chain => Record { chain: n, ..was },
                };
                best.set(d, now);
            }
            i = i + 1;
        }
        proof {
            assert(all.take(all.len() as int) =~= all);
        }
        Records { best }
    }

    /// The records as a file.
    pub fn save(&self, rules: &FruitRules) -> (r: String)
        requires
            self.wf(rules),
        ensures
            r@ == records_text(self.best@, rules.names()),
    {
        let names = &rules.difficulties;
        let mut out = String::new();
        let ghost none = Seq::<Seq<char>>::empty();
        proof {
            assert(out@ =~= lines_text(none));
        }
        push_line(&mut out, "; endif.tf Fruit Ninja records", Ghost(none));
        let mut i: usize = 0;
        proof {
            assert(none.push("; endif.tf Fruit Ninja records"@) =~= record_lines(
                self.best@,
                rules.names(),
                0,
            ));
        }
        while i < names.len()
            invariant
                i <= names.len(),
                self.wf(rules),
                names@ == rules.difficulties@,
                out@ == lines_text(record_lines(self.best@, rules.names(), i as nat)),
            decreases names.len() - i,
        {
            let ghost before = record_lines(self.best@, rules.names(), i as nat);
            let name = names[i].as_str();
            proof {
                assert(rules.names()[i as int] == names@[i as int]@);
            }
            let r = self.best[i];
            let hits = show_line(name, "hits", r.hits);
            let acc = show_line(name, "acc", r.acc);
            let chain = show_line(name, "chain", r.chain);
            push_line(&mut out, hits.as_str(), Ghost(before));
            push_line(&mut out, acc.as_str(), Ghost(before.push(hits@)));
            push_line(&mut out, chain.as_str(), Ghost(before.push(hits@).push(acc@)));
            i = i + 1;
        }
        out
    }

    pub fn get(&self, difficulty: usize) -> (r: Record)
        requires
            difficulty < self.best@.len(),
        ensures
            r == self.best@[difficulty as int],
    {
        self.best[difficulty]
    }

    /// Takes a round's result in; true when it beat any of the records.
    pub fn submit(&mut self, difficulty: usize, round: Record) -> (better: bool)
        requires
            difficulty < old(self).best@.len(),
        ensures
            better == old(self).best@[difficulty as int].beaten(round),
            final(self).best@ == old(self).best@.update(
                difficulty as int,
                old(self).best@[difficulty as int].with_round(round),
            ),
    {
        let r = self.best[difficulty];
        let better = round.hits > r.hits || round.acc > r.acc || round.chain > r.chain;
        let new = Record {
            hits: if r.hits < round.hits {
                round.hits
            } else {
                r.hits
            },
            acc: if r.acc < round.acc {
                round.acc
            } else {
                r.acc
            },
            chain: if r.chain < round.chain {
                round.chain
            } else {
                r.chain
            },
        };
        self.best.set(difficulty, new);
        better
    }
}

fn show_line(name: &str, stat: &str, n: u32) -> (r: String)
    ensures
        r@ == name@ + "_"@ + stat@ + " = "@ + decimal(n as nat),
{
    let n = show(n as u64);
    let mut s = cat3(name, "_", stat);
    s.append(" = ");
    s.append(n.as_str());
    s
}

/// Whether the difficulties' names can stand in the records' file.
pub open spec fn filed(names: Seq<Seq<char>>) -> bool {
    forall|i: int, j: int|
        0 <= i < names.len() && 0 <= j < names[i].len() ==> #[trigger] names[i][j] != '_'
            && names[i][j] != '='
}

/// The parts of a line of the records' file.
proof fn lemma_line_parts(name: Seq<char>, what: Seq<char>, num: Seq<char>)
    ensures
        name + seq!['_'] + what + seq![' ', '=', ' '] + num == (name + seq!['_'] + what + seq![' '])
            + seq!['='] + (seq![' '] + num),
        (name + seq!['_'] + what).take(name.len() as int) == name,
        (name + seq!['_'] + what).skip(name.len() as int + 1) == what,
{
    let key = name + seq!['_'] + what;
    assert(key + seq![' ', '=', ' '] + num =~= (key + seq![' ']) + seq!['='] + (seq![' '] + num));
    assert(key.take(name.len() as int) =~= name);
    assert(key.skip(name.len() as int + 1) =~= what);
}

/// A line that was written reads back as what was written.
proof fn lemma_record_line(names: Seq<Seq<char>>, d: int, s: Stat, n: u32)
    requires
        0 <= d < names.len(),
        filed(names),
        names[d].len() > 0,
        !white_space(names[d][0]),
        forall|j: int| 0 <= j < names[d].len() ==> names[d][j] != '\n',
        forall|a: int, b: int| 0 <= a < b < names.len() ==> #[trigger] names[a] != #[trigger] names[b],
    ensures
        record_entry(record_line(names[d], s, n), names) == Some((d, s, n)),
        no_newline(record_line(names[d], s, n)),
{
    reveal_strlit("_");
    reveal_strlit(" = ");
    reveal_strlit("hits");
    reveal_strlit("acc");
    reveal_strlit("chain");
    assert("hits"@.len() == 4 && "acc"@.len() == 3 && "chain"@.len() == 5);
    let name = names[d];
    let what = s.name();
    let num = decimal(n as nat);
    lemma_decimal(n as nat);
    let line = record_line(name, s, n);
    let key = name + "_"@ + what;
    let w = what.len() as int;
    assert forall|j: int| 0 <= j < w implies 'a' <= #[trigger] what[j] <= 'z' by {
        assert(j == 0 || j == 1 || j == 2 || j == 3 || j == 4);
        match s {
            Stat::Hits => assert(what == "hits"@),
            Stat::Acc => assert(what == "acc"@),
            Stat::Chain => assert(what == "chain"@),
        }
    }
    assert("_"@ =~= seq!['_']);
    assert(" = "@ =~= seq![' ', '=', ' ']);
    // The key in front of the `=`, and the number behind it.
    let front = key + seq![' '];
    let back = seq![' '] + num;
    lemma_line_parts(name, what, num);
    assert(line == front + seq!['='] + back);
    assert forall|j: int| 0 <= j < front.len() implies front[j] != '=' by {
        if j < name.len() {
            assert(front[j] == name[j]);
            assert(names[d][j] != '=');
        } else if j == name.len() {
            assert(front[j] == '_');
        } else if j < key.len() {
            assert(front[j] == what[j - name.len() - 1]);
        }
    }
    lemma_position_after(front, '=', back);
    assert(line.take(front.len() as int) =~= front);
    assert(line.skip(front.len() as int + 1) =~= back);
    lemma_trim_trailing_space(key, ' ');
    assert(key[0] == name[0]);
    assert(key.last() == what[w - 1]);
    lemma_trimmed_fixed(key);
    lemma_trim_leading_space(num, ' ');
    assert(is_digit(num[0]));
    assert(is_digit(num[num.len() - 1]));
    lemma_trimmed_fixed(num);
    assert(front =~= key.push(' '));
    assert(trimmed(front) == key);
    assert(trimmed(back) == num);
    // The name in front of the `_`, and the stat behind it.
    assert forall|j: int| 0 <= j < name.len() implies name[j] != '_' by {
        assert(names[d][j] != '_');
    }
    lemma_position_after(name, '_', what);
    lemma_unsigned_decimal(n as nat, u32::MAX as nat);
    lemma_index_of(names, d);
    assert(stat_of(what) == Some(s)) by {
        assert("hits"@ != "acc"@ && "hits"@ != "chain"@ && "acc"@ != "chain"@);
    }
    assert(no_newline(line)) by {
        assert forall|j: int| 0 <= j < line.len() implies #[trigger] line[j] != '\n' by {
            if j < name.len() {
                assert(line[j] == name[j]);
            } else if j == name.len() {
                assert(line[j] == '_');
            } else if j < key.len() {
                assert(line[j] == what[j - name.len() - 1]);
            } else if j < key.len() + 3 {
                assert(line[j] == " = "@[j - key.len()]);
            } else {
                assert(line[j] == num[j - key.len() - 3]);
                assert(is_digit(num[j - key.len() - 3]));
            }
        }
    }
}

/// The lines of the first `n` difficulties set those difficulties' records.
proof fn lemma_record_lines(base: Seq<Record>, best: Seq<Record>, rules: &FruitRules, n: nat)
    requires
        rules.wf(),
        filed(rules.names()),
        base.len() == rules.names().len(),
        best.len() == rules.names().len(),
        n <= rules.names().len(),
    ensures
        with_record_lines(base, record_lines(best, rules.names(), n), rules.names()) == best.take(
            n as int,
        ) + base.skip(n as int),
        forall|i: int|
            0 <= i < record_lines(best, rules.names(), n).len() ==> no_newline(
                #[trigger] record_lines(best, rules.names(), n)[i],
            ),
    decreases n,
{
    let names = rules.names();
    let lines = record_lines(best, names, n);
    if n == 0 {
        reveal_strlit("; endif.tf Fruit Ninja records");
        let head = "; endif.tf Fruit Ninja records"@;
        assert(lines.drop_last() =~= Seq::<Seq<char>>::empty());
        assert(head.len() == 30);
        assert forall|j: int| 0 <= j < head.len() implies #[trigger] head[j] != '=' && head[j]
            != '\n' by {
            assert(j == 0 || j == 1 || j == 2 || j == 3 || j == 4 || j == 5 || j == 6 || j == 7 || j
                == 8 || j == 9 || j == 10 || j == 11 || j == 12 || j == 13 || j == 14 || j == 15 || j
                == 16 || j == 17 || j == 18 || j == 19 || j == 20 || j == 21 || j == 22 || j == 23
                || j == 24 || j == 25 || j == 26 || j == 27 || j == 28 || j == 29);
        }
        crate::text::lemma_position_absent(head, '=');
        assert(record_entry(head, names) is None);
        assert(lines.last() == head);
        assert(with_record_lines(base, lines.drop_last(), names) == base);
        assert(with_record_lines(base, lines, names) == base);
        assert(best.take(0) + base.skip(0) =~= base);
    } else {
        let m = (n - 1) as nat;
        lemma_record_lines(base, best, rules, m);
        let d = n - 1;
        let r = best[d];
        lemma_record_line(names, d, Stat::Hits, r.hits);
        lemma_record_line(names, d, Stat::Acc, r.acc);
        lemma_record_line(names, d, Stat::Chain, r.chain);
        let before = record_lines(best, names, m);
        let l1 = record_line(names[d], Stat::Hits, r.hits);
        let l2 = record_line(names[d], Stat::Acc, r.acc);
        let l3 = record_line(names[d], Stat::Chain, r.chain);
        assert(before.push(l1).drop_last() =~= before);
        assert(before.push(l1).push(l2).drop_last() =~= before.push(l1));
        assert(lines.drop_last() =~= before.push(l1).push(l2));
        let s0 = best.take(m as int) + base.skip(m as int);
        let s1 = s0.update(d, s0[d].with_stat(Stat::Hits, r.hits));
        let s2 = s1.update(d, s1[d].with_stat(Stat::Acc, r.acc));
        let s3 = s2.update(d, s2[d].with_stat(Stat::Chain, r.chain));
        assert(with_record_lines(base, before.push(l1), names) == s1);
        assert(with_record_lines(base, before.push(l1).push(l2), names) == s2);
        assert(with_record_lines(base, lines, names) == s3);
        assert(s3 =~= best.take(n as int) + base.skip(n as int));
        assert forall|i: int| 0 <= i < lines.len() implies no_newline(#[trigger] lines[i]) by {
            if i < before.len() {
                assert(lines[i] == before[i]);
            }
        }
    }
}

/// Saved records load back as they were. The difficulties' names hold neither `_` nor `=`, which
/// the file's keys are split at.
pub proof fn law_records_round_trip(best: Seq<Record>, rules: &FruitRules)
    requires
        rules.wf(),
        filed(rules.names()),
        best.len() == rules.names().len(),
    ensures
        records_of(records_text(best, rules.names()), rules.names()) == best,
{
    let names = rules.names();
    let base = Seq::new(names.len(), |i: int| no_record());
    let lines = record_lines(best, names, names.len());
    lemma_record_lines(base, best, rules, names.len());
    let none = Seq::<char>::empty();
    lemma_lines_pieces(lines, none);
    let text = records_text(best, names);
    assert(text + none =~= text);
    assert(pieces(none, '\n') =~= seq![none]);
    assert(lines + seq![none] =~= lines.push(none));
    assert(lines.push(none).drop_last() =~= lines);
    assert(record_entry(none, names) is None);
    assert(best.take(names.len() as int) + base.skip(names.len() as int) =~= best);
}

// ---- the score strip ----

/// The fourth stat's value and label: "7/20 SOLDIER" in rounds, the infinity sign and
/// "ENDLESS" otherwise.
pub open spec fn progress_of(rounds: bool, thrown: u32) -> (Seq<char>, Seq<char>) {
    if rounds {
        (
            decimal(clamped(thrown as int, 0, ROUND_SIZE as int) as nat) + "/"@ + decimal(
                ROUND_SIZE as nat,
            ),
            "SOLDIER"@,
        )
    } else {
        ("\u{221e}"@, "ENDLESS"@)
    }
}

pub fn progress_text(rounds: bool, thrown: u32) -> (r: (String, &'static str))
    ensures
        (r.0@, r.1@) == progress_of(rounds, thrown),
{
    if rounds {
        let n = show(
            if thrown < ROUND_SIZE {
                thrown as u64
            } else {
                ROUND_SIZE as u64
            },
        );
        let all = show(ROUND_SIZE as u64);
        (cat3(n.as_str(), "/", all.as_str()), "SOLDIER")
    } else {
        (owned("\u{221e}"), "ENDLESS")
    }
}

/// What the gallery's state says for the score strip.
pub struct ScoreInput {
    pub hits: u32,
    /// Percent.
    pub accuracy: u32,
    pub chain: u32,
    pub thrown: u32,
    pub rounds: bool,
}

/// What the score strip shows.
pub struct ScoreLook {
    pub hits: String,
    pub accuracy: String,
    pub chain: String,
    pub progress: String,
    pub best_hits: String,
    pub best_acc: String,
    pub best_chain: String,
    /// The progress number and the records show; otherwise the endless mark does.
    pub rounds: bool,
}

/// What the score strip shows, with the records on the current difficulty.
pub fn update_score(i: &ScoreInput, best: Record) -> (r: ScoreLook)
    ensures
        r.hits@ == decimal(i.hits as nat),
        r.accuracy@ == decimal(i.accuracy as nat) + "%"@,
        r.chain@ == decimal(i.chain as nat),
        r.progress@ == progress_of(i.rounds, i.thrown).0,
        r.best_hits@ == decimal(best.hits as nat),
        r.best_acc@ == decimal(best.acc as nat) + "%"@,
        r.best_chain@ == decimal(best.chain as nat),
        r.rounds == i.rounds,
{
    let acc = show(i.accuracy as u64);
    let best_acc = show(best.acc as u64);
    ScoreLook {
        hits: show(i.hits as u64),
        accuracy: cat(acc.as_str(), "%"),
        chain: show(i.chain as u64),
        progress: progress_text(i.rounds, i.thrown).0,
        best_hits: show(best.hits as u64),
        best_acc: cat(best_acc.as_str(), "%"),
        best_chain: show(best.chain as u64),
        rounds: i.rounds,
    }
}

// ---- the end of a round ----

/// Hits per shot in percent, rounded, halves up; nothing was hit without a shot.
pub open spec fn accuracy_of(hits: u32, shots: u32) -> int {
    if shots == 0 {
        0
    } else {
        clamped((hits * 100 + shots / 2) / (shots as int), 0, u32::MAX as int)
    }
}

/// Hits per shot in percent, rounded, halves up.
pub fn accuracy(hits: u32, shots: u32) -> (r: u32)
    ensures
        r == accuracy_of(hits, shots),
{
    if shots == 0 {
        return 0;
    }
    let n: u64 = hits as u64 * 100 + shots as u64 / 2;
    let q: u64 = n / shots as u64;
    proof {
        assert(n as int / shots as int >= 0) by (nonlinear_arith)
            requires
                n >= 0,
                shots > 0,
        ;
    }
    if q > u32::MAX as u64 {
        u32::MAX
    } else {
        q as u32
    }
}

/// Not more hits than shots is at most a hundred percent.
pub proof fn law_accuracy_is_a_percentage(hits: u32, shots: u32)
    requires
        hits <= shots,
    ensures
        0 <= accuracy_of(hits, shots) <= 100,
{
    if shots > 0 {
        let n = hits * 100 + shots / 2;
        assert(0 <= n / (shots as int) <= 100) by (nonlinear_arith)
            requires
                n == hits * 100 + shots / 2,
                0 <= hits <= shots,
                shots > 0,
        ;
    }
}

/// A round's numbers.
pub open spec fn round_of(hits: u32, shots: u32, best_chain: u32) -> Record {
    Record { hits, acc: accuracy_of(hits, shots) as u32, chain: best_chain }
}

/// The text of a round's result, against the records.
pub open spec fn result_text(round: Record, best: Record, record: bool) -> Seq<char> {
    (if record {
        "NEW RECORD!\n"@
    } else {
        ""@
    }) + decimal(round.hits as nat) + " hit (best "@ + decimal(best.hits as nat) + ")\n"@ + decimal(
        round.acc as nat,
    ) + "% acc (best "@ + decimal(best.acc as nat) + "%)\n"@ + decimal(round.chain as nat)
        + " chain (best "@ + decimal(best.chain as nat) + ")"@
}

fn show_result(round: Record, best: Record, record: bool) -> (r: String)
    ensures
        r@ == result_text(round, best, record),
{
    let hits = show(round.hits as u64);
    let best_hits = show(best.hits as u64);
    let acc = show(round.acc as u64);
    let best_acc = show(best.acc as u64);
    let chain = show(round.chain as u64);
    let best_chain = show(best.chain as u64);
    let mut s = cat3(
        if record {
            "NEW RECORD!\n"
        } else {
            ""
        },
        hits.as_str(),
        " hit (best ",
    );
    s.append(best_hits.as_str());
    s.append(")\n");
    s.append(acc.as_str());
    s.append("% acc (best ");
    s.append(best_acc.as_str());
    s.append("%)\n");
    s.append(chain.as_str());
    s.append(" chain (best ");
    s.append(best_chain.as_str());
    s.append(")");
    s
}

/// A round's result: the text that goes up, and whether it beat a record (which is then saved, with
/// a flourish).
pub struct RoundResult {
    pub text: String,
    pub record: bool,
}

impl Records {
    /// The end of a round: its result goes up for a moment (against the records on that
    /// difficulty, which it may have beaten), then the countdown into the next one.
    pub fn round_over(
        &mut self,
        countdown: &mut Countdown,
        difficulty: usize,
        hits: u32,
        shots: u32,
        best_chain: u32,
        now: u64,
    ) -> (r: RoundResult)
        requires
            difficulty < old(self).best@.len(),
            old(countdown).wf(),
        ensures
            final(countdown).wf(),
            ({
                let round = round_of(hits, shots, best_chain);
                let was = old(self).best@[difficulty as int];
                &&& final(self).best@ == old(self).best@.update(
                    difficulty as int,
                    was.with_round(round),
                )
                &&& r.record == was.beaten(round)
                &&& r.text@ == result_text(round, was.with_round(round), r.record)
                &&& *final(countdown) == if old(countdown).started is Some {
                    *old(countdown)
                } else {
                    Countdown {
                        started: Some(result_until(now, r.record)),
                        dings: 0,
                    }
                }
            }),
    {
        let acc = accuracy(hits, shots);
        let round = Record { hits, acc, chain: best_chain };
        let record = self.submit(difficulty, round);
        let best = self.get(difficulty);
        if !countdown.active() {
            let wait: u64 = if record {
                RECORD_RESULT_FOR
            } else {
                RESULT_FOR
            };
            countdown.start(after(now, wait));
        }
        RoundResult { text: show_result(round, best, record), record }
    }

    /// The ends of rounds among a frame's events, in order.
    pub fn round_result(
        &mut self,
        countdown: &mut Countdown,
        events: &Vec<SimEvent>,
        difficulty: usize,
        now: u64,
    ) -> (r: Vec<RoundResult>)
        requires
            difficulty < old(self).best@.len(),
            old(countdown).wf(),
        ensures
            final(countdown).wf(),
            final(self).best@ == old(self).best@.update(
                difficulty as int,
                after_rounds(old(self).best@[difficulty as int], events@, events@.len() as int),
            ),
            shown_results(r@) == results_of(
                old(self).best@[difficulty as int],
                events@,
                events@.len() as int,
            ),
            *final(countdown) == if old(countdown).started is Some || r@.len() == 0 {
                *old(countdown)
            } else {
                (Countdown { started: Some(result_until(now, r@[0].record)), dings: 0 })
            },
    {
        let mut out: Vec<RoundResult> = Vec::new();
        let ghost start = self.best@;
        let ghost first = *countdown;
        let mut i: usize = 0;
        proof {
            assert(start.update(difficulty as int, start[difficulty as int]) =~= start);
            assert(shown_results(out@) =~= Seq::<(Seq<char>, bool)>::empty());
        }
        while i < events.len()
            invariant
                i <= events.len(),
                difficulty < start.len(),
                countdown.wf(),
                self.best@ == start.update(
                    difficulty as int,
                    after_rounds(start[difficulty as int], events@, i as int),
                ),
                shown_results(out@) == results_of(start[difficulty as int], events@, i as int),
                *countdown == if first.started is Some || out@.len() == 0 {
                    first
                } else {
                    (Countdown { started: Some(result_until(now, out@[0].record)), dings: 0 })
                },
            decreases events.len() - i,
        {
            if let SimEvent::RoundOver { hits, shots, best_chain } = &events[i] {
                let ghost before = out@;
                let r = self.round_over(countdown, difficulty, *hits, *shots, *best_chain, now);
                out.push(r);
                proof {
                    assert(self.best@ =~= start.update(
                        difficulty as int,
                        after_rounds(start[difficulty as int], events@, i as int + 1),
                    ));
                    assert(shown_results(out@) =~= shown_results(before).push((r.text@, r.record)));
                }
            }
            i = i + 1;
        }
        out
    }
}

/// Until when a round's result stays up.
pub open spec fn result_until(now: u64, record: bool) -> u64 {
    later(
        now,
        if record {
            RECORD_RESULT_FOR
        } else {
            RESULT_FOR
        },
    ) as u64
}

/// The texts of the results, and which beat a record.
pub open spec fn shown_results(rs: Seq<RoundResult>) -> Seq<(Seq<char>, bool)> {
    rs.map_values(|r: RoundResult| (r.text@, r.record))
}

/// The results of the rounds among the first `n` events, each against the records as they then
/// stood.
pub open spec fn results_of(was: Record, events: Seq<SimEvent>, n: int) -> Seq<(Seq<char>, bool)>
    decreases n,
{
    if n <= 0 {
        Seq::empty()
    } else {
        let before = results_of(was, events, n - 1);
        let best = after_rounds(was, events, n - 1);
        match events[n - 1] {
            SimEvent::RoundOver { hits, shots, best_chain } => {
                let round = round_of(hits, shots, best_chain);
                before.push(
                    (
                        result_text(round, best.with_round(round), best.beaten(round)),
                        best.beaten(round),
                    ),
                )
            },
            _ => before,
        }
    }
}

/// A record after the rounds among the first `n` events.
pub open spec fn after_rounds(r: Record, events: Seq<SimEvent>, n: int) -> Record
    decreases n,
{
    if n <= 0 {
        r
    } else {
        let before = after_rounds(r, events, n - 1);
        match events[n - 1] {
            SimEvent::RoundOver { hits, shots, best_chain } => before.with_round(
                round_of(hits, shots, best_chain),
            ),
            _ => before,
        }
    }
}

// ---- the options frame ----

/// The frame's choices: a difficulty preset, or rounds (true) against endless play.
#[derive(Clone, Copy, Debug, PartialEq, Eq, Structural)]
pub enum OptionButton {
    Difficulty(usize),
    Rounds(bool),
}

impl OptionButton {
    /// Whether it is the current choice.
    pub open spec fn chosen(self, s: SettingsView) -> bool {
        match self {
            OptionButton::Difficulty(d) => s.fruit_difficulty == d,
            OptionButton::Rounds(r) => s.fruit_rounds == r,
        }
    }

    /// The settings with the choice made.
    pub open spec fn chooses(self, s: SettingsView) -> SettingsView {
        match self {
            OptionButton::Difficulty(d) => SettingsView { fruit_difficulty: d as int, ..s },
            OptionButton::Rounds(r) => SettingsView { fruit_rounds: r, ..s },
        }
    }
}

/// The colour of a button that is not a menu action: lit while it is the current choice, otherwise
/// by hover state.
#[derive(Clone, Copy, Debug, PartialEq, Eq, Structural)]
pub enum OptionShade {
    Lit,
    Active,
    Hover,
    Resting,
}

pub open spec fn option_shade(touch: Touch, active: bool) -> OptionShade {
    if active {
        OptionShade::Lit
    } else {
        match touch {
            Touch::Pressed => OptionShade::Active,
            Touch::Hovered => OptionShade::Hover,
            Touch::Away => OptionShade::Resting,
        }
    }
}

pub fn button_colour(touch: Touch, active: bool) -> (r: OptionShade)
    ensures
        r == option_shade(touch, active),
{
    if active {
        OptionShade::Lit
    } else {
        match touch {
            Touch::Pressed => OptionShade::Active,
            Touch::Hovered => OptionShade::Hover,
            Touch::Away => OptionShade::Resting,
        }
    }
}

/// The difficulty and mode buttons: a click on one that is not the current choice picks it, saves,
/// and starts over with a countdown. True where the settings changed. `pressed`: it was pressed
/// just now.
pub fn option_button(
    settings: &mut Settings,
    countdown: &mut Countdown,
    button: OptionButton,
    pressed: bool,
    now: u64,
) -> (changed: bool)
    requires
        old(countdown).wf(),
    ensures
        final(countdown).wf(),
        changed == (pressed && !button.chosen(old(settings)@)),
        final(settings)@ == if changed {
            button.chooses(old(settings)@)
        } else {
            old(settings)@
        },
        *final(countdown) == if changed {
            (Countdown { started: Some(now), dings: 0 })
        } else {
            *old(countdown)
        },
{
    let active = match button {
        OptionButton::Difficulty(d) => settings.fruit_difficulty == d,
        OptionButton::Rounds(r) => settings.fruit_rounds == r,
    };
    if pressed && !active {
        match button {
            OptionButton::Difficulty(d) => {
                settings.fruit_difficulty = d;
            },
            OptionButton::Rounds(r) => {
                settings.fruit_rounds = r;
            },
        }
        countdown.start(now);
        true
    } else {
        false
    }
}

/// The reset button starts the countdown where none is running.
pub fn reset_button(countdown: &mut Countdown, pressed: bool, now: u64)
    requires
        old(countdown).wf(),
    ensures
        final(countdown).wf(),
        *final(countdown) == if pressed && old(countdown).started is None {
            (Countdown { started: Some(now), dings: 0 })
        } else {
            *old(countdown)
        },
{
    if pressed && !countdown.active() {
        countdown.start(now);
    }
}

/// The fold button hides and shows the frame's body: whether it is open now, and the button's
/// glyph.
pub fn collapse_frame(open: bool) -> (r: (bool, &'static str))
    ensures
        r.0 == !open,
        r.1@ == if r.0 {
            "-"@
        } else {
            "+"@
        },
{
    if open {
        (false, "+")
    } else {
        (true, "-")
    }
}

/// Whether a part of the strip or the frame that is for rounds only (or for endless play only)
/// shows.
pub fn shown(rounds_only: bool, rounds: bool) -> (r: bool)
    ensures
        r == (rounds_only == rounds),
{
    rounds_only == rounds
}

/// Where the frame sits along one axis of the room the window has for it, in millionths of that
/// room, so it keeps its place in the window through resizes.
pub const FRAME_ANCHOR: (u32, u32) = (970_000, 100_000);

/// Where a drag puts the anchor on one axis: the frame stays within the room.
pub open spec fn dragged_anchor(cursor: int, offset: int, room: u32) -> int {
    if room == 0 {
        0
    } else {
        1_000_000 * clamped(cursor - offset, 0, room as int) / (room as int)
    }
}

/// Where a drag puts the anchor on one axis. `offset` is where within the frame it was grabbed.
fn drag_axis(cursor: i32, offset: i64, room: u32) -> (r: u32)
    ensures
        r == dragged_anchor(cursor as int, offset as int, room),
{
    if room == 0 {
        return 0;
    }
    let at: i128 = cursor as i128 - offset as i128;
    let at: u64 = if at < 0 {
        0
    } else if at > room as i128 {
        room as u64
    } else {
        at as u64
    };
    proof {
        assert(0 <= 1_000_000 * at / (room as int) <= 1_000_000) by (nonlinear_arith)
            requires
                at <= room,
                room > 0,
        ;
    }
    (1_000_000 * at / room as u64) as u32
}

/// One frame's mouse over the options frame, in whole pixels.
pub struct FrameMouse {
    pub cursor: Option<(i32, i32)>,
    /// The left button went down on the title bar just now.
    pub grabbed: bool,
    /// The left button is down.
    pub held: bool,
    /// Where the frame is.
    pub place: (i32, i32),
    /// The room the window leaves for the frame, once it has been laid out.
    pub room: Option<(u32, u32)>,
}

/// Where within the frame the title bar was grabbed, after this frame's mouse.
pub open spec fn grab_after(grab: Option<(int, int)>, m: FrameMouse) -> Option<(int, int)> {
    match m.cursor {
        Some(c) => if !m.held {
            None
        } else if m.grabbed {
            Some((c.0 - m.place.0, c.1 - m.place.1))
        } else {
            grab
        },
        None => None,
    }
}

/// A grab as its mathematical value.
pub open spec fn grab_view(grab: Option<(i64, i64)>) -> Option<(int, int)> {
    match grab {
        Some(g) => Some((g.0 as int, g.1 as int)),
        None => None,
    }
}

/// Moves the frame by its title bar: the drag sets the anchor, `place_frame` puts it there.
pub fn drag_frame(grab: &mut Option<(i64, i64)>, anchor: &mut (u32, u32), m: &FrameMouse)
    ensures
        grab_view(*final(grab)) == grab_after(grab_view(*old(grab)), *m),
        match (grab_view(*final(grab)), m.cursor, m.room) {
            (Some(g), Some(c), Some(room)) => {
                &&& final(anchor).0 == dragged_anchor(c.0 as int, g.0, room.0)
                &&& final(anchor).1 == dragged_anchor(c.1 as int, g.1, room.1)
            },
            _ => *final(anchor) == *old(anchor),
        },
{
    let cursor = match m.cursor {
        Some(c) => c,
        None => {
            *grab = None;
            return ;
        },
    };
    if !m.held {
        *grab = None;
        return ;
    }
    if m.grabbed {
        *grab = Some((cursor.0 as i64 - m.place.0 as i64, cursor.1 as i64 - m.place.1 as i64));
    }
    if let (Some(g), Some(room)) = (*grab, m.room) {
        *anchor = (drag_axis(cursor.0, g.0, room.0), drag_axis(cursor.1, g.1, room.1));
    }
}

/// Where the anchor puts the frame on one axis, to the nearest pixel.
pub open spec fn placed(anchor: u32, room: u32) -> int {
    (anchor * room + 500_000) / 1_000_000
}

/// Keeps the frame at its anchor as the window (or the frame, folding) changes size.
pub fn place_frame(anchor: u32, room: u32) -> (r: u32)
    requires
        anchor <= 1_000_000,
    ensures
        r == placed(anchor, room),
        r <= room,
{
    proof {
        assert(anchor * room <= 1_000_000 * room) by (nonlinear_arith)
            requires
                anchor <= 1_000_000,
        ;
    }
    ((anchor as u64 * room as u64 + 500_000) / 1_000_000) as u32
}

/// The frame never leaves the window, wherever it is dragged.
pub proof fn law_frame_stays_in_the_window(cursor: int, offset: int, room: u32)
    ensures
        0 <= dragged_anchor(cursor, offset, room) <= 1_000_000,
        0 <= placed(dragged_anchor(cursor, offset, room) as u32, room) <= room,
{
    if room > 0 {
        let at = clamped(cursor - offset, 0, room as int);
        assert(0 <= 1_000_000 * at / (room as int) <= 1_000_000) by (nonlinear_arith)
            requires
                0 <= at <= room,
                room > 0,
        ;
    }
    let a = dragged_anchor(cursor, offset, room) as u32;
    assert(0 <= a * room <= 1_000_000 * room) by (nonlinear_arith)
        requires
            a <= 1_000_000,
    ;
}

// ---- the soldier pool ----

/// Which simulation target each model of the pool shows.
pub struct TargetPool {
    pub slots: Vec<Option<u32>>,
}

/// No target is shown twice.
pub open spec fn told_apart(slots: Seq<Option<u32>>) -> bool {
    forall|i: int, j: int|
        0 <= i < j < slots.len() && #[trigger] slots[i] is Some && #[trigger] slots[j] is Some
            ==> slots[i] != slots[j]
}

/// The slots with those freed whose target is gone.
pub open spec fn freed(slots: Seq<Option<u32>>, ids: Seq<u32>) -> Seq<Option<u32>> {
    slots.map_values(
        |s: Option<u32>|
            if s is Some && ids.contains(s->0) {
                s
            } else {
                None
            },
    )
}

/// The first free slot, or how many slots there are.
pub open spec fn first_free(slots: Seq<Option<u32>>) -> int
    decreases slots.len(),
{
    if slots.len() == 0 || slots[0] is None {
        0
    } else {
        1 + first_free(slots.skip(1))
    }
}

/// The slots with a target given one, where it has none and one is free.
pub open spec fn seated(slots: Seq<Option<u32>>, id: u32) -> Seq<Option<u32>> {
    let i = first_free(slots);
    if slots.contains(Some(id)) || i >= slots.len() {
        slots
    } else {
        slots.update(i, Some(id))
    }
}

/// The slots with the first `n` targets given one each.
pub open spec fn all_seated(slots: Seq<Option<u32>>, ids: Seq<u32>, n: int) -> Seq<Option<u32>>
    decreases n,
{
    if n <= 0 {
        slots
    } else {
        seated(all_seated(slots, ids, n - 1), ids[n - 1])
    }
}

proof fn lemma_first_free(slots: Seq<Option<u32>>)
    ensures
        0 <= first_free(slots) <= slots.len(),
        first_free(slots) < slots.len() ==> slots[first_free(slots)] is None,
        forall|i: int| 0 <= i < first_free(slots) ==> slots[i] is Some,
    decreases slots.len(),
{
    if slots.len() > 0 && slots[0] is Some {
        let rest = slots.skip(1);
        lemma_first_free(rest);
        assert forall|i: int| 0 <= i < first_free(slots) implies slots[i] is Some by {
            if i > 0 {
                assert(rest[i - 1] == slots[i]);
            }
        }
        if first_free(slots) < slots.len() {
            assert(rest[first_free(rest)] == slots[first_free(slots)]);
        }
    }
}

fn holds(ids: &Vec<u32>, id: u32) -> (r: bool)
    ensures
        r == ids@.contains(id),
{
    let mut i: usize = 0;
    while i < ids.len()
        invariant
            i <= ids.len(),
            forall|j: int| 0 <= j < i ==> ids@[j] != id,
        decreases ids.len() - i,
    {
        if ids[i] == id {
            return true;
        }
        i = i + 1;
    }
    false
}

impl TargetPool {
    pub fn new(size: usize) -> (r: TargetPool)
        ensures
            r.slots@ == Seq::new(size as nat, |i: int| None::<u32>),
    {
        let mut slots: Vec<Option<u32>> = Vec::new();
        while slots.len() < size
            invariant
                slots@.len() <= size,
                forall|i: int| 0 <= i < slots@.len() ==> slots@[i] is None,
            decreases size - slots.len(),
        {
            slots.push(None);
        }
        proof {
            assert(slots@ =~= Seq::new(size as nat, |i: int| None::<u32>));
        }
        TargetPool { slots }
    }

    fn seat(&mut self, id: u32)
        ensures
            final(self).slots@ == seated(old(self).slots@, id),
    {
        let mut free: Option<usize> = None;
        let mut i: usize = 0;
        let n = self.slots.len();
        while i < n
            invariant
                i <= n,
                n == self.slots@.len(),
                self.slots@ == old(self).slots@,
                forall|j: int| 0 <= j < i ==> self.slots@[j] != Some(id),
                match free {
                    Some(f) => f < i && self.slots@[f as int] is None && forall|j: int|
                        0 <= j < f ==> self.slots@[j] is Some,
                    None => forall|j: int| 0 <= j < i ==> self.slots@[j] is Some,
                },
            decreases n - i,
        {
            match self.slots[i] {
                Some(s) => {
                    if s == id {
                        proof {
                            assert(self.slots@[i as int] == Some(id));
                        }
                        return ;
                    }
                },
                None => {
                    if free.is_none() {
                        free = Some(i);
                    }
                },
            }
            i = i + 1;
        }
        proof {
            lemma_first_free(self.slots@);
            let k = first_free(self.slots@);
            match free {
                Some(f) => {
                    if k < f {
                        assert(self.slots@[k] is Some);
                    } else if f < k {
                        assert(self.slots@[f as int] is Some);
                    }
                },
                None => {
                    if k < n {
                        assert(self.slots@[k] is Some);
                    }
                },
            }
        }
        if let Some(f) = free {
            self.slots.set(f, Some(id));
        }
    }

    /// Gives every soldier in the simulation a model from the pool: slots whose soldier is gone are
    /// freed, and new soldiers take a free slot. What comes back are the slots that were freed.
    pub fn sync_targets(&mut self, ids: &Vec<u32>) -> (r: Vec<usize>)
        ensures
            final(self).slots@ == all_seated(
                freed(old(self).slots@, ids@),
                ids@,
                ids@.len() as int,
            ),
            forall|k: int|
                0 <= k < r@.len() ==> (#[trigger] r@[k]) < old(self).slots@.len(),
            forall|i: int|
                0 <= i < old(self).slots@.len() ==> (r@.contains(i as usize) <==> (
                #[trigger] old(self).slots@[i]) is Some && !ids@.contains(old(self).slots@[i]->0)),
    {
        let mut gone: Vec<usize> = Vec::new();
        let ghost start = self.slots@;
        let n = self.slots.len();
        let mut i: usize = 0;
        while i < n
            invariant
                i <= n,
                n == self.slots@.len(),
                n == start.len(),
                forall|j: int| 0 <= j < i ==> self.slots@[j] == freed(start, ids@)[j],
                forall|j: int| i <= j < n ==> self.slots@[j] == start[j],
                forall|k: int| 0 <= k < gone@.len() ==> (#[trigger] gone@[k]) < i,
                forall|j: int|
                    0 <= j < i ==> (gone@.contains(j as usize) <==> (#[trigger] start[j]) is Some
                        && !ids@.contains(start[j]->0)),
            decreases n - i,
        {
            let ghost before = gone@;
            if let Some(id) = self.slots[i] {
                if !holds(ids, id) {
                    self.slots.set(i, None);
                    gone.push(i);
                    proof {
                        assert(gone@[gone@.len() - 1] == i);
                        assert forall|j: int| 0 <= j < i implies gone@.contains(j as usize) == (
                        (#[trigger] start[j]) is Some && !ids@.contains(start[j]->0)) by {
                            if before.contains(j as usize) {
                                let k = choose|k: int|
                                    0 <= k < before.len() && before[k] == j as usize;
                                assert(gone@[k] == j as usize);
                            }
                            if gone@.contains(j as usize) {
                                let k = choose|k: int|
                                    0 <= k < gone@.len() && gone@[k] == j as usize;
                                assert(before[k] == j as usize);
                            }
                        }
                    }
                }
            }
            i = i + 1;
        }
        proof {
            assert(self.slots@ =~= freed(start, ids@));
        }
        let mut k: usize = 0;
        while k < ids.len()
            invariant
                k <= ids.len(),
                self.slots@ == all_seated(freed(start, ids@), ids@, k as int),
            decreases ids.len() - k,
        {
            self.seat(ids[k]);
            k = k + 1;
        }
        gone
    }
}

/// A pool that shows no target twice goes on so, and every target that has a model keeps it.
pub proof fn law_pool_shows_each_target_once(slots: Seq<Option<u32>>, ids: Seq<u32>, n: int)
    requires
        told_apart(slots),
        0 <= n <= ids.len(),
    ensures
        told_apart(freed(slots, ids)),
        told_apart(all_seated(freed(slots, ids), ids, n)),
        all_seated(freed(slots, ids), ids, n).len() == slots.len(),
        forall|i: int|
            0 <= i < slots.len() && (#[trigger] slots[i]) is Some && ids.contains(slots[i]->0)
                ==> all_seated(freed(slots, ids), ids, n)[i] == slots[i],
    decreases n,
{
    let start = freed(slots, ids);
    assert forall|i: int, j: int|
        0 <= i < j < start.len() && #[trigger] start[i] is Some && #[trigger] start[j] is Some implies start[i]
        != start[j] by {
        assert(start[i] == slots[i] && start[j] == slots[j]);
    }
    if n > 0 {
        law_pool_shows_each_target_once(slots, ids, n - 1);
        let before = all_seated(start, ids, n - 1);
        let after_one = seated(before, ids[n - 1]);
        lemma_first_free(before);
        let f = first_free(before);
        assert forall|i: int, j: int|
            0 <= i < j < after_one.len() && #[trigger] after_one[i] is Some
                && #[trigger] after_one[j] is Some implies after_one[i] != after_one[j] by {
            if i == f && after_one != before {
                assert(before[j] != Some(ids[n - 1]));
            } else if j == f && after_one != before {
                assert(before[i] != Some(ids[n - 1]));
            }
        }
        assert forall|i: int|
            0 <= i < slots.len() && (#[trigger] slots[i]) is Some && ids.contains(slots[i]->0) implies after_one[i]
            == slots[i] by {
            assert(before[i] == slots[i]);
        }
    }
}

/// The countdown rings at once, after about a third and about two thirds of a second, and the
/// soldiers come back after a second. It counts three, two, one with the rings.
pub proof fn law_when_the_countdown_rings(c: Countdown, now: u64, next: u64)
    requires
        c.wf(),
        c.started is Some,
        now <= next,
    ensures
        ({
            let t0 = c.started->0;
            &&& dings_due(t0, now) <= dings_due(t0, next)
            &&& dings_due(t0, now) == 0 <==> now < t0
            &&& dings_due(t0, now) >= 2 <==> now >= t0 + 340_000_000
            &&& dings_due(t0, now) == 3 <==> now >= t0 + 670_000_000
            &&& c.turn(now).begin <==> now >= t0 + 1_000_000_000
            &&& c.dings <= dings_due(t0, now) ==> c.next(now).dings == dings_due(t0, now)
            &&& c.turn(now).number is Some <==> c.turn(now).rings > 0
            &&& c.turn(now).number matches Some(n) ==> n + dings_due(t0, now) == 4 && 1 <= n <= 3
            &&& c.next(now).turn(now).rings == 0
        }),
{
}

/// A countdown that is not running does nothing.
pub proof fn law_no_countdown_is_silent(c: Countdown, now: u64)
    requires
        c.started is None,
        c.wf(),
    ensures
        c.turn(now).rings == 0 && c.turn(now).number is None && !c.turn(now).begin,
        c.next(now) == c,
{
}

/// A record keeps the better of each of its three parts, whichever round it was made in.
pub proof fn law_a_record_keeps_the_best(old_record: Record, round: Record)
    ensures
        ({
            let new = old_record.with_round(round);
            &&& new.hits == old_record.hits || new.hits == round.hits
            &&& new.acc == old_record.acc || new.acc == round.acc
            &&& new.chain == old_record.chain || new.chain == round.chain
            &&& new.hits >= round.hits && new.acc >= round.acc && new.chain >= round.chain
            &&& new == round.with_round(old_record)
            &&& old_record.beaten(round) <==> round.hits > old_record.hits || round.acc
                > old_record.acc || round.chain > old_record.chain
        }),
{
}

/// Each part of a record is read and written under its own name.
pub proof fn law_parts_of_a_record(r: Record, s: Stat, n: u32)
    ensures
        r.stat(Stat::Hits) == r.hits && r.stat(Stat::Acc) == r.acc && r.stat(Stat::Chain)
            == r.chain,
        r.with_stat(s, n).stat(s) == n,
        forall|o: Stat| o != s ==> #[trigger] r.with_stat(s, n).stat(o) == r.stat(o),
        stat_of(s.name()) == Some(s),
{
    reveal_strlit("hits");
    reveal_strlit("acc");
    reveal_strlit("chain");
    assert("hits"@[0] == 'h');
    assert("acc"@[0] == 'a');
    assert("chain"@[0] == 'c');
}

/// The share of hits, to the nearest percent: all of them is a hundred, none is zero, and one more
/// hit never lowers it.
pub proof fn law_accuracy_is_the_share_of_hits(hits: u32, more: u32, shots: u32)
    requires
        hits <= more <= shots,
    ensures
        shots == 0 ==> accuracy_of(hits, shots) == 0,
        shots > 0 ==> -(shots as int) <= 2 * (100 * hits - shots * accuracy_of(hits, shots))
            <= shots as int,
        shots > 0 && hits == shots ==> accuracy_of(hits, shots) == 100,
        hits == 0 ==> accuracy_of(hits, shots) == 0,
        accuracy_of(hits, shots) <= accuracy_of(more, shots),
{
    if shots > 0 {
        let d = shots as int;
        let a = hits * 100 + shots / 2;
        let b = more * 100 + shots / 2;
        vstd::arithmetic::div_mod::lemma_fundamental_div_mod(a as int, d);
        vstd::arithmetic::div_mod::lemma_div_is_ordered(a as int, b as int, d);
        law_accuracy_is_a_percentage(hits, shots);
        law_accuracy_is_a_percentage(more, shots);
        let q = a as int / d;
        assert(a as int == d * q + (a as int) % d);
        assert(0 <= (a as int) % d < d);
        assert(q >= 0) by (nonlinear_arith)
            requires
                a >= 0,
                d > 0,
                q == a as int / d,
        ;
        assert(q <= 100) by (nonlinear_arith)
            requires
                d * q <= 100 * d + d / 2,
                d > 0,
        ;
        if hits == shots {
            assert(q >= 100) by (nonlinear_arith)
                requires
                    d * q + (a as int) % d == 100 * d + d / 2,
                    (a as int) % d < d,
                    d > 0,
            ;
        }
        if hits == 0 {
            assert(q < 1) by (nonlinear_arith)
                requires
                    d * q <= d / 2,
                    d > 0,
            ;
        }
    }
}

/// A round counts its soldiers up to twenty; endless play counts none.
pub proof fn law_what_the_progress_says(thrown: u32)
    ensures
        thrown <= 20 ==> progress_of(true, thrown).0 == decimal(thrown as nat) + "/"@ + decimal(20),
        thrown >= 20 ==> progress_of(true, thrown) == progress_of(true, 20),
        progress_of(true, thrown).1 == "SOLDIER"@,
        progress_of(false, thrown).1 == "ENDLESS"@,
        progress_of(false, thrown) == progress_of(false, 0),
{
}

/// A result stays for three and a half seconds, and a record five seconds longer.
pub proof fn law_how_long_a_result_stays(now: u64)
    requires
        now + 8_500_000_000 <= u64::MAX,
    ensures
        result_until(now, false) == now + 3_500_000_000,
        result_until(now, true) == now + 8_500_000_000,
{
}

/// Each round that ends is told once, in order, and is told as a record exactly where it beat what
/// stood before it; no other event is told or moves the record.
pub proof fn law_each_round_is_told_once(was: Record, events: Seq<SimEvent>, n: int)
    requires
        0 < n <= events.len(),
    ensures
        ({
            let before = results_of(was, events, n - 1);
            let after = results_of(was, events, n);
            let best = after_rounds(was, events, n - 1);
            let new = after_rounds(was, events, n);
            &&& !(events[n - 1] is RoundOver) ==> after == before && new == best
            &&& events[n - 1] matches SimEvent::RoundOver { hits, shots, best_chain } ==> {
                let round = Record {
                    hits,
                    acc: accuracy_of(hits, shots) as u32,
                    chain: best_chain,
                };
                &&& after.len() == before.len() + 1
                &&& after.drop_last() == before
                &&& after.last().1 <==> round.hits > best.hits || round.acc > best.acc
                    || round.chain > best.chain
                &&& new.hits >= hits && new.hits >= best.hits && new.chain >= best_chain
            }
        }),
        after_rounds(was, events, 0) == was,
        results_of(was, events, 0).len() == 0,
{
    let before = results_of(was, events, n - 1);
    let after = results_of(was, events, n);
    if events[n - 1] is RoundOver {
        assert(after.drop_last() =~= before);
    }
}

/// An option button is lit exactly while its option is the chosen one; pressing it chooses that and
/// leaves every other setting alone.
pub proof fn law_what_an_option_button_chooses(b: OptionButton, s: SettingsView)
    ensures
        b.chooses(s).fruit_difficulty >= 0 || s.fruit_difficulty < 0 ==> b.chosen(b.chooses(s)),
        b.chosen(s) ==> b.chooses(s) == s,
        b matches OptionButton::Difficulty(d) ==> b.chooses(s).fruit_difficulty == d && b.chooses(
            s,
        ).fruit_rounds == s.fruit_rounds,
        b matches OptionButton::Rounds(r) ==> b.chooses(s).fruit_rounds == r && b.chooses(
            s,
        ).fruit_difficulty == s.fruit_difficulty,
        b.chooses(s) == (SettingsView {
            fruit_difficulty: b.chooses(s).fruit_difficulty,
            fruit_rounds: b.chooses(s).fruit_rounds,
            ..s
        }),
{
}

/// The chosen option is lit whatever the mouse does; the others show what it does.
pub proof fn law_how_an_option_is_shaded(touch: Touch, active: bool)
    ensures
        option_shade(touch, active) == OptionShade::Lit <==> active,
        option_shade(touch, active) == OptionShade::Active <==> !active && touch == Touch::Pressed,
        option_shade(touch, active) == OptionShade::Hover <==> !active && touch == Touch::Hovered,
        option_shade(touch, active) == OptionShade::Resting <==> !active && touch == Touch::Away,
{
}

/// A frame is held from where it was grabbed until the button is let go of or the mouse leaves.
pub proof fn law_how_long_a_frame_is_held(grab: Option<(int, int)>, m: FrameMouse)
    ensures
        !m.held || m.cursor is None ==> grab_after(grab, m) is None,
        m.held && m.cursor is Some && m.grabbed ==> grab_after(grab, m) == Some(
            ((m.cursor->0).0 - m.place.0, (m.cursor->0).1 - m.place.1),
        ),
        m.held && m.cursor is Some && !m.grabbed ==> grab_after(grab, m) == grab,
{
}

/// A dragged frame goes where the mouse takes it, to the nearest millionth of the room there is,
/// and no further than the window.
pub proof fn law_a_frame_follows_the_mouse(cursor: int, offset: int, room: u32)
    requires
        room > 0,
    ensures
        cursor <= offset ==> dragged_anchor(cursor, offset, room) == 0,
        cursor - offset >= room ==> dragged_anchor(cursor, offset, room) == 1_000_000,
        0 <= cursor - offset <= room ==> {
            let a = dragged_anchor(cursor, offset, room);
            room * a <= 1_000_000 * (cursor - offset) < room * (a + 1)
        },
{
    let d = room as int;
    let x = crate::numeral::clamped(cursor - offset, 0, d);
    vstd::arithmetic::div_mod::lemma_fundamental_div_mod(1_000_000 * x, d);
    let a = 1_000_000 * x / d;
    assert(d * (a + 1) == d * a + d) by (nonlinear_arith);
    if x == 0 {
        assert(a == 0) by (nonlinear_arith)
            requires
                a == 0int / d,
                d > 0,
        ;
    }
    if x == d {
        vstd::arithmetic::div_mod::lemma_div_multiples_vanish(1_000_000, d);
        assert(1_000_000 * d == d * 1_000_000) by (nonlinear_arith);
    }
}

/// A slot is freed exactly where its target is gone; a target that has no slot gets the first free
/// one, and every other slot stays as it is.
pub proof fn law_which_slot_a_target_gets(slots: Seq<Option<u32>>, ids: Seq<u32>, id: u32)
    ensures
        freed(slots, ids).len() == slots.len(),
        forall|i: int|
            0 <= i < slots.len() ==> (#[trigger] freed(slots, ids)[i]) == if slots[i] is Some
                && ids.contains(slots[i]->0) {
                slots[i]
            } else {
                None
            },
        seated(slots, id).len() == slots.len(),
        slots.contains(Some(id)) ==> seated(slots, id) == slots,
        !slots.contains(Some(id)) && (exists|i: int|
            0 <= i < slots.len() && #[trigger] slots[i] is None) ==> seated(slots, id).contains(
            Some(id),
        ),
        forall|i: int|
            0 <= i < slots.len() && #[trigger] slots[i] is Some ==> seated(slots, id)[i]
                == slots[i],
{
    lemma_first_free(slots);
    if !slots.contains(Some(id)) && (exists|i: int|
        0 <= i < slots.len() && #[trigger] slots[i] is None) {
        let k = first_free(slots);
        let i = choose|i: int| 0 <= i < slots.len() && #[trigger] slots[i] is None;
        assert(k < slots.len());
        assert(seated(slots, id)[k] == Some(id));
    }
}

/// A result is told with this round's figures and the best ones behind them; a record says so first.
pub proof fn law_how_a_result_is_told(round: Record, best: Record)
    ensures
        result_text(round, best, true) == "NEW RECORD!\n"@ + result_text(round, best, false),
        result_text(round, best, false) == decimal(round.hits as nat) + " hit (best "@ + decimal(
            best.hits as nat,
        ) + ")\n"@ + decimal(round.acc as nat) + "% acc (best "@ + decimal(best.acc as nat)
            + "%)\n"@ + decimal(round.chain as nat) + " chain (best "@ + decimal(
            best.chain as nat,
        ) + ")"@,
{
    reveal_strlit("");
    let body = decimal(round.hits as nat) + " hit (best "@ + decimal(best.hits as nat) + ")\n"@
        + decimal(round.acc as nat) + "% acc (best "@ + decimal(best.acc as nat) + "%)\n"@
        + decimal(round.chain as nat) + " chain (best "@ + decimal(best.chain as nat) + ")"@;
    assert(result_text(round, best, false) =~= body);
    assert(result_text(round, best, true) =~= "NEW RECORD!\n"@ + body);
}

} // verus!
