//! The profile's match history: which matches are listed, and what a line of it says.

use vstd::prelude::*;
use vstd::string::*;

use super::date::{date_of, ymd};
use crate::account::HistoryEntry;
use crate::single::nearest;
use crate::text::{cat, cat3, decimal, lower, lowered, owned, show, show_signed, show_with_sign,
    signed_decimal, with_sign};
use crate::theme::Tint;

verus! {

// ---- searching for an opponent ----

/// Whether `at` places the characters of `part` in `whole`, in order.
pub open spec fn places(at: Seq<int>, part: Seq<char>, whole: Seq<char>) -> bool {
    &&& at.len() == part.len()
    &&& forall|i: int|
        0 <= i < at.len() ==> 0 <= #[trigger] at[i] < whole.len() && whole[at[i]] == part[i]
    &&& forall|i: int, j: int| 0 <= i < j < at.len() ==> #[trigger] at[i] < #[trigger] at[j]
}

/// Whether every character of `part` appears in `whole`, in order.
pub open spec fn scattered(part: Seq<char>, whole: Seq<char>) -> bool {
    exists|at: Seq<int>| places(at, part, whole)
}

/// Fuzzy name match: every character of `query` appears in `name`, in order, ignoring case.
pub fn fuzzy(name: &str, query: &str) -> (r: bool)
    ensures
        r == scattered(lowered(query@), lowered(name@)),
{
    let n = lower(name);
    let q = lower(query);
    let mut p: usize = 0;
    let mut i: usize = 0;
    let ghost mut at = Seq::<int>::empty();
    proof {
        assert(q@.take(0) =~= Seq::<char>::empty());
        assert(places(at, q@.take(0), n@));
    }
    while i < q.len()
        invariant
            i <= q.len(),
            p <= n.len(),
            i == 0 ==> p == 0,
            n@ == lowered(name@),
            q@ == lowered(query@),
            places(at, q@.take(i as int), n@),
            forall|k: int| 0 <= k < at.len() ==> #[trigger] at[k] < p,
            // No placement of the characters so far ends earlier.
            forall|other: Seq<int>| #[trigger]
                places(other, q@, n@) && i > 0 ==> other[i - 1] >= p - 1,
        decreases q.len() - i,
    {
        let start = p;
        let c = q[i];
        while p < n.len() && n[p] != c
            invariant
                start <= p <= n.len(),
                forall|k: int| start <= k < p ==> n@[k] != c,
            decreases n.len() - p,
        {
            p = p + 1;
        }
        if p == n.len() {
            proof {
                if scattered(q@, n@) {
                    let other = choose|other: Seq<int>| places(other, q@, n@);
                    assert(n@[other[i as int]] == q@[i as int]);
                    if i > 0 {
                        assert(other[i - 1] < other[i as int]);
                    }
                    assert(other[i as int] >= start);
                    assert(false);
                }
            }
            return false;
        }
        proof {
            let was = at;
            at = at.push(p as int);
            let part = q@.take(i as int + 1);
            assert(part.take(i as int) =~= q@.take(i as int));
            assert forall|k: int| 0 <= k < at.len() implies 0 <= #[trigger] at[k] < n@.len()
                && n@[at[k]] == part[k] by {
                if k < was.len() {
                    assert(was[k] == at[k]);
                    assert(part[k] == q@.take(i as int)[k]);
                }
            }
            assert(places(at, part, n@));
            assert forall|other: Seq<int>| #[trigger] places(other, q@, n@) implies other[i as int]
                >= p by {
                assert(n@[other[i as int]] == q@[i as int]);
                if i > 0 {
                    assert(other[i - 1] < other[i as int]);
                }
                if other[i as int] < p {
                    assert(other[i as int] >= start);
                    assert(n@[other[i as int]] != c);
                }
            }
        }
        p = p + 1;
        i = i + 1;
    }
    proof {
        assert(q@.take(q@.len() as int) =~= q@);
        assert(scattered(q@, n@));
    }
    true
}

/// An empty search lists everyone.
pub proof fn law_empty_search_matches(name: Seq<char>)
    ensures
        scattered(lowered(Seq::empty()), lowered(name)),
{
    assert(places(Seq::empty(), lowered(Seq::empty()), lowered(name)));
}

/// A name is found by itself.
pub proof fn law_name_matches_itself(name: Seq<char>)
    ensures
        scattered(lowered(name), lowered(name)),
{
    let s = lowered(name);
    let at = Seq::new(s.len(), |i: int| i);
    assert(places(at, s, s));
}

// ---- a line of the history ----

/// `part` of `whole` in percent, rounded.
pub open spec fn percentage(part: int, whole: int) -> Seq<char> {
    if part < 0 {
        "-"@ + decimal(nearest(-100 * part, whole) as nat)
    } else {
        decimal(nearest(100 * part, whole) as nat)
    }
}

/// `part` of `whole` in percent, rounded.
pub fn show_percentage(part: i64, whole: i64) -> (r: String)
    requires
        whole > 0,
        -0x1_0000_0000 <= part <= 0x1_0000_0000,
    ensures
        r@ == percentage(part as int, whole as int),
{
    let n: u64 = if part < 0 {
        100 * (-part) as u64
    } else {
        100 * part as u64
    };
    let d: u64 = whole as u64;
    let q: u64 = n / d;
    let rest: u64 = n % d;
    proof {
        assert(q <= n) by (nonlinear_arith)
            requires
                q == n / d,
                d >= 1,
        ;
    }
    // Twice the rest against the divisor, without doubling.
    let up = rest > d - rest || (rest == d - rest && q % 2 == 1);
    let s = show(
        if up {
            q + 1
        } else {
            q
        },
    );
    if part < 0 {
        cat("-", s.as_str())
    } else {
        s
    }
}

/// What a line of the match history says.
#[derive(Debug, PartialEq)]
pub struct HistoryRow {
    pub date: String,
    pub result: String,
    /// The colour of the result and of the rating's change.
    pub tint: Tint,
    pub score: String,
    pub versus: String,
    /// The rating's change, and the ratings before and after; casual rounds carry no rating, and the
    /// two cells say so instead.
    pub change: String,
    pub ratings: String,
}

#[verifier::ext_equal]
pub struct HistoryRowView {
    pub date: Seq<char>,
    pub result: Seq<char>,
    pub tint: Tint,
    pub score: Seq<char>,
    pub versus: Seq<char>,
    pub change: Seq<char>,
    pub ratings: Seq<char>,
}

impl View for HistoryRow {
    type V = HistoryRowView;

    open spec fn view(&self) -> HistoryRowView {
        HistoryRowView {
            date: self.date@,
            result: self.result@,
            tint: self.tint,
            score: self.score@,
            versus: self.versus@,
            change: self.change@,
            ratings: self.ratings@,
        }
    }
}

pub open spec fn rows_view(v: Seq<HistoryRow>) -> Seq<HistoryRowView> {
    v.map_values(|r: HistoryRow| r@)
}

pub open spec fn row_of(m: HistoryEntry) -> HistoryRowView {
    let (change, ratings) = match (m.ranked, m.my_elo, m.delta) {
        (true, Some(elo), Some(delta)) => (
            with_sign(delta as int),
            signed_decimal(elo as int) + " → "@ + signed_decimal(elo + delta),
        ),
        _ => (""@, "casual"@),
    };
    HistoryRowView {
        date: date_of(m.played_at as int),
        result: if m.won {
            "WIN"@
        } else {
            "LOSS"@
        },
        tint: if m.won {
            Tint::Yellow
        } else {
            Tint::LightRed
        },
        score: signed_decimal(m.my_score as int) + " - "@ + signed_decimal(m.their_score as int),
        versus: match m.their_elo {
            Some(elo) => "vs "@ + m.opponent@ + " ("@ + signed_decimal(elo as int) + ")"@,
            None => "vs "@ + m.opponent@,
        },
        change,
        ratings,
    }
}

/// One line of the match history.
pub fn history_row(m: &HistoryEntry) -> (r: HistoryRow)
    ensures
        r@ == row_of(*m),
{
    let date = ymd(m.played_at);
    let mine = show_signed(m.my_score as i64);
    let theirs = show_signed(m.their_score as i64);
    let score = cat3(mine.as_str(), " - ", theirs.as_str());
    let mut versus = cat("vs ", m.opponent.as_str());
    if let Some(elo) = m.their_elo {
        let elo = show_signed(elo as i64);
        versus.append(" (");
        versus.append(elo.as_str());
        versus.append(")");
    }
    let mut change = owned("");
    let mut ratings = owned("casual");
    if m.ranked {
        if let Some(elo) = m.my_elo {
            if let Some(delta) = m.delta {
                change = show_with_sign(delta as i64);
                let before = show_signed(elo as i64);
                let after = show_signed(elo as i64 + delta as i64);
                ratings = cat3(before.as_str(), " → ", after.as_str());
            }
        }
    }
    let (result, tint) = if m.won {
        ("WIN", Tint::Yellow)
    } else {
        ("LOSS", Tint::LightRed)
    };
    HistoryRow { date, result: owned(result), tint, score, versus, change, ratings }
}

// ---- the list ----

/// Whether the filter and the search let a match through.
pub open spec fn listed(m: HistoryEntry, comp_only: bool, query: Seq<char>) -> bool {
    (!comp_only || m.ranked) && scattered(lowered(query), lowered(m.opponent@))
}

/// The lines of the matches that are listed, in order.
pub open spec fn listed_rows(
    matches: Seq<HistoryEntry>,
    comp_only: bool,
    query: Seq<char>,
) -> Seq<HistoryRowView>
    decreases matches.len(),
{
    if matches.len() == 0 {
        Seq::empty()
    } else {
        let before = listed_rows(matches.drop_last(), comp_only, query);
        if listed(matches.last(), comp_only, query) {
            before.push(row_of(matches.last()))
        } else {
            before
        }
    }
}

/// The lines of the matches that are listed, in order.
pub fn history_rows(matches: &Vec<HistoryEntry>, comp_only: bool, query: &str) -> (r: Vec<HistoryRow>)
    ensures
        rows_view(r@) == listed_rows(matches@, comp_only, query@),
{
    let mut out: Vec<HistoryRow> = Vec::new();
    let mut i: usize = 0;
    proof {
        assert(matches@.take(0) =~= Seq::<HistoryEntry>::empty());
        assert(rows_view(out@) =~= Seq::<HistoryRowView>::empty());
    }
    while i < matches.len()
        invariant
            i <= matches.len(),
            rows_view(out@) == listed_rows(matches@.take(i as int), comp_only, query@),
        decreases matches.len() - i,
    {
        proof {
            assert(matches@.take(i as int + 1).drop_last() =~= matches@.take(i as int));
        }
        if (!comp_only || matches[i].ranked) && fuzzy(matches[i].opponent.as_str(), query) {
            let row = history_row(&matches[i]);
            let ghost before = rows_view(out@);
            out.push(row);
            proof {
                assert(rows_view(out@) =~= before.push(row@));
            }
        }
        i = i + 1;
    }
    proof {
        assert(matches@.take(matches@.len() as int) =~= matches@);
    }
    out
}

/// Without filter and search every match is listed.
pub proof fn law_everything_is_listed(matches: Seq<HistoryEntry>)
    ensures
        listed_rows(matches, false, Seq::empty()) == matches.map_values(|m: HistoryEntry| row_of(m)),
    decreases matches.len(),
{
    if matches.len() > 0 {
        law_everything_is_listed(matches.drop_last());
        law_empty_search_matches(matches.last().opponent@);
        assert(matches.map_values(|m: HistoryEntry| row_of(m)) =~= matches.drop_last().map_values(
            |m: HistoryEntry| row_of(m),
        ).push(row_of(matches.last())));
    } else {
        assert(matches.map_values(|m: HistoryEntry| row_of(m)) =~= Seq::empty());
    }
}

/// A row says how the match went for this player: a win in its colour, a loss in its own, this
/// player's score first. A rated match shows the change and where it led; any other says that it was
/// casual.
pub proof fn law_what_a_row_says(m: HistoryEntry)
    ensures
        ({
            let r = row_of(m);
            let rated = m.ranked && m.my_elo is Some && m.delta is Some;
            &&& m.won ==> r.result == "WIN"@ && r.tint == Tint::Yellow
            &&& !m.won ==> r.result == "LOSS"@ && r.tint == Tint::LightRed
            &&& r.score == signed_decimal(m.my_score as int) + " - "@ + signed_decimal(
                m.their_score as int,
            )
            &&& rated ==> r.change == with_sign(m.delta->0 as int) && r.ratings == signed_decimal(
                m.my_elo->0 as int,
            ) + " → "@ + signed_decimal(m.my_elo->0 + m.delta->0)
            &&& !rated ==> r.change == ""@ && r.ratings == "casual"@
            &&& m.their_elo is None ==> r.versus == "vs "@ + m.opponent@
            &&& m.their_elo matches Some(e) ==> r.versus == "vs "@ + m.opponent@ + " ("@
                + signed_decimal(e as int) + ")"@
            &&& r.date == date_of(m.played_at as int)
        }),
{
}

/// A match is listed where the filter and the search both let it through, and the listed ones keep
/// their order.
pub proof fn law_which_matches_are_listed(
    matches: Seq<HistoryEntry>,
    m: HistoryEntry,
    comp_only: bool,
    query: Seq<char>,
)
    ensures
        comp_only && !m.ranked ==> listed_rows(matches.push(m), comp_only, query) == listed_rows(
            matches,
            comp_only,
            query,
        ),
        (!comp_only || m.ranked) && scattered(lowered(query), lowered(m.opponent@)) ==> listed_rows(
            matches.push(m),
            comp_only,
            query,
        ) == listed_rows(matches, comp_only, query).push(row_of(m)),
        !scattered(lowered(query), lowered(m.opponent@)) ==> listed_rows(
            matches.push(m),
            comp_only,
            query,
        ) == listed_rows(matches, comp_only, query),
{
    assert(matches.push(m).drop_last() =~= matches);
}

/// A search goes by the letters in their order: what is found is no longer than the name, each of
/// its letters is in it, and two letters are not found the other way around.
pub proof fn law_a_search_goes_by_order(part: Seq<char>, whole: Seq<char>, a: char, b: char)
    requires
        a != b,
    ensures
        scattered(part, whole) ==> part.len() <= whole.len(),
        scattered(part, whole) ==> forall|i: int|
            0 <= i < part.len() ==> whole.contains(#[trigger] part[i]),
        scattered(seq![a, b], seq![a, b]),
        !scattered(seq![a, b], seq![b, a]),
        !scattered(seq![a, a], seq![a, b]),
{
    if scattered(part, whole) {
        let at = choose|at: Seq<int>| places(at, part, whole);
        assert forall|i: int| 0 <= i < part.len() implies whole.contains(#[trigger] part[i]) by {
            assert(whole[at[i]] == part[i]);
        }
        lemma_spread(at, whole.len() as int);
    }
    assert(places(seq![0int, 1], seq![a, b], seq![a, b]));
    if scattered(seq![a, b], seq![b, a]) {
        let at = choose|at: Seq<int>| places(at, seq![a, b], seq![b, a]);
        assert(at[0] < at[1]);
        assert(seq![b, a][at[0]] == a && seq![b, a][at[1]] == b);
    }
    if scattered(seq![a, a], seq![a, b]) {
        let at = choose|at: Seq<int>| places(at, seq![a, a], seq![a, b]);
        assert(at[0] < at[1]);
        assert(seq![a, b][at[0]] == a && seq![a, b][at[1]] == a);
    }
}

proof fn lemma_spread(at: Seq<int>, n: int)
    requires
        forall|i: int| 0 <= i < at.len() ==> 0 <= #[trigger] at[i] < n,
        forall|i: int, j: int| 0 <= i < j < at.len() ==> #[trigger] at[i] < #[trigger] at[j],
    ensures
        at.len() <= n || at.len() == 0,
    decreases at.len(),
{
    if at.len() > 0 {
        let d = at.drop_last();
        let last = at.last();
        assert(at[at.len() - 1] == last);
        assert forall|i: int| 0 <= i < d.len() implies 0 <= #[trigger] d[i] < last by {
            assert(d[i] == at[i]);
            assert(at[i] < at[at.len() - 1]);
        }
        assert forall|i: int, j: int| 0 <= i < j < d.len() implies #[trigger] d[i]
            < #[trigger] d[j] by {
            assert(at[i] < at[j]);
        }
        lemma_spread(d, last);
    }
}

/// A share is written to the nearest percent: none is nought, all of it a hundred, and below nothing
/// with a minus.
pub proof fn law_how_a_share_is_written(part: int, whole: int)
    requires
        whole > 0,
    ensures
        percentage(0, whole) == decimal(0),
        percentage(whole, whole) == decimal(100),
        part < 0 ==> percentage(part, whole) == "-"@ + percentage(-part, whole),
        part >= 0 ==> exists|q: nat|
            percentage(part, whole) == #[trigger] decimal(q) && -whole <= 2 * (100 * part - whole
                * q) <= whole,
{
    crate::single::law_nearest_is_nearest(0, whole);
    crate::single::law_nearest_is_nearest(100 * whole, whole);
    vstd::arithmetic::div_mod::lemma_small_mod(0, whole as nat);
    vstd::arithmetic::div_mod::lemma_mod_multiples_basic(100, whole);
    let z = nearest(0, whole);
    let h = nearest(100 * whole, whole);
    assert(z == 0) by (nonlinear_arith)
        requires
            whole * z == 0,
            whole > 0,
    ;
    assert(h == 100) by (nonlinear_arith)
        requires
            whole * h == 100 * whole,
            whole > 0,
    ;
    if part >= 0 {
        crate::single::law_nearest_is_nearest(100 * part, whole);
        let q = nearest(100 * part, whole);
        assert(q >= 0) by (nonlinear_arith)
            requires
                2 * (100 * part - whole * q) <= whole,
                part >= 0,
                whole > 0,
        ;
        assert(percentage(part, whole) == decimal(q as nat));
    }
}

} // verus!
