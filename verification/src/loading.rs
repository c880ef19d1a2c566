//! Startup progress for the loading screen: how many of the assets and the render warm-up's steps
//! are done, when that is worth reporting, and when the screen goes away.

use vstd::prelude::*;

use crate::clock::{elapsed, since, SECOND};

verus! {

/// Time between two lists of what is still waited for.
pub const PENDING_EVERY: u64 = 5 * SECOND;

/// The assets the loading screen waits for, and what was last reported to the page.
pub struct StartupAssets {
    /// Per asset: already seen finished.
    pub done: Vec<bool>,
    pub reported: Option<u64>,
    /// When the pending list was last given.
    pub last_pending: u64,
}

/// How many of the flags are set.
pub open spec fn set_count(flags: Seq<bool>) -> nat
    decreases flags.len(),
{
    if flags.len() == 0 {
        0
    } else {
        set_count(flags.drop_last()) + if flags.last() {
            1nat
        } else {
            0
        }
    }
}

/// What is seen finished after a look at what has settled.
pub open spec fn seen(done: Seq<bool>, settled: Seq<bool>) -> Seq<bool> {
    Seq::new(done.len(), |i: int| done[i] || settled[i])
}

/// The assets among the first `n` that have just finished, in order.
pub open spec fn newly(done: Seq<bool>, settled: Seq<bool>, n: int) -> Seq<usize>
    decreases n,
{
    if n <= 0 {
        Seq::empty()
    } else if settled[n - 1] && !done[n - 1] {
        newly(done, settled, n - 1).push((n - 1) as usize)
    } else {
        newly(done, settled, n - 1)
    }
}

/// What a look at the assets comes to.
pub struct LoadingReport {
    /// The assets that have just finished.
    pub finished: Vec<usize>,
    /// How much is done, of how much.
    pub done: u64,
    pub total: u64,
    /// The list of what is still waited for is due.
    pub pending: bool,
    /// The page is told how much is done.
    pub told: bool,
    /// Everything is done: the screen goes away.
    pub over: bool,
}

proof fn lemma_set_count(flags: Seq<bool>)
    ensures
        set_count(flags) <= flags.len(),
    decreases flags.len(),
{
    if flags.len() > 0 {
        lemma_set_count(flags.drop_last());
    }
}

proof fn lemma_set_count_prefix(flags: Seq<bool>, i: int)
    requires
        0 <= i < flags.len(),
    ensures
        set_count(flags.take(i + 1)) == set_count(flags.take(i)) + if flags[i] {
            1nat
        } else {
            0
        },
{
    assert(flags.take(i + 1).drop_last() =~= flags.take(i));
}

impl StartupAssets {
    pub fn new(count: usize, now: u64) -> (r: StartupAssets)
        ensures
            r.done@ == Seq::new(count as nat, |i: int| false),
            r.reported is None,
            r.last_pending == now,
    {
        let mut done: Vec<bool> = Vec::new();
        while done.len() < count
            invariant
                done@.len() <= count,
                forall|i: int| 0 <= i < done@.len() ==> !done@[i],
            decreases count - done.len(),
        {
            done.push(false);
        }
        proof {
            assert(done@ =~= Seq::new(count as nat, |i: int| false));
        }
        StartupAssets { done, reported: None, last_pending: now }
    }

    /// A look at the assets: `settled` says which have loaded with all they need, or failed (a
    /// missing file must not keep the screen up forever). The render warm-up counts its steps into
    /// the total, so the screen stays up until it is through.
    pub fn report(
        &mut self,
        settled: &Vec<bool>,
        warm_done: u32,
        warm_total: u32,
        now: u64,
    ) -> (r: LoadingReport)
        requires
            settled@.len() == old(self).done@.len(),
            old(self).done@.len() + u32::MAX <= u64::MAX,
        ensures
            final(self).done@ == seen(old(self).done@, settled@),
            r.finished@ == newly(old(self).done@, settled@, settled@.len() as int),
            r.done == set_count(final(self).done@) + warm_done,
            r.total == settled@.len() + warm_total,
            r.pending == (r.done < r.total && elapsed(old(self).last_pending, now)
                >= PENDING_EVERY),
            final(self).last_pending == if r.pending {
                now
            } else {
                old(self).last_pending
            },
            r.told == (old(self).reported != Some(r.done)),
            final(self).reported == Some(r.done),
            r.over == (r.told && r.done == r.total),
    {
        let mut finished: Vec<usize> = Vec::new();
        let mut count: u64 = 0;
        let ghost start = self.done@;
        let n = self.done.len();
        let mut i: usize = 0;
        proof {
            assert(self.done@ =~= seen(start, settled@).take(0) + start.skip(0));
        }
        while i < n
            invariant
                i <= n,
                n == self.done@.len(),
                n == start.len(),
                n == settled@.len(),
                n + u32::MAX <= u64::MAX,
                self.reported == old(self).reported,
                self.last_pending == old(self).last_pending,
                self.done@ == seen(start, settled@).take(i as int) + start.skip(i as int),
                count == set_count(seen(start, settled@).take(i as int)),
                count <= i,
                finished@ == newly(start, settled@, i as int),
            decreases n - i,
        {
            proof {
                lemma_set_count_prefix(seen(start, settled@), i as int);
            }
            proof {
                assert(self.done@[i as int] == start[i as int]);
            }
            if !self.done[i] && settled[i] {
                self.done.set(i, true);
                finished.push(i);
            }
            proof {
                assert(self.done@[i as int] == (start[i as int] || settled@[i as int]));
                assert(self.done@ =~= seen(start, settled@).take(i + 1) + start.skip(i + 1));
            }
            if self.done[i] {
                count = count + 1;
            }
            i = i + 1;
        }
        proof {
            assert(self.done@ =~= seen(start, settled@));
            assert(seen(start, settled@).take(n as int) =~= self.done@);
        }
        let total: u64 = n as u64 + warm_total as u64;
        let done: u64 = count + warm_done as u64;
        let pending = done < total && since(self.last_pending, now) >= PENDING_EVERY;
        if pending {
            self.last_pending = now;
        }
        let told = match self.reported {
            Some(r) => r != done,
            None => true,
        };
        self.reported = Some(done);
        LoadingReport { finished, done, total, pending, told, over: told && done == total }
    }
}

/// Progress never goes back: what was seen finished stays finished.
pub proof fn law_progress_never_falls(done: Seq<bool>, settled: Seq<bool>)
    requires
        done.len() == settled.len(),
    ensures
        set_count(seen(done, settled)) >= set_count(done),
        set_count(seen(done, settled)) <= done.len(),
    decreases done.len(),
{
    lemma_set_count(seen(done, settled));
    if done.len() > 0 {
        law_progress_never_falls(done.drop_last(), settled.drop_last());
        assert(seen(done, settled).drop_last() =~= seen(done.drop_last(), settled.drop_last()));
    }
}

/// The screen goes away exactly when every asset has settled and the warm-up is through: all of it
/// counts, and nothing else does.
pub proof fn law_all_settled_is_all_done(done: Seq<bool>)
    ensures
        set_count(done) == done.len() <==> forall|i: int| 0 <= i < done.len() ==> done[i],
    decreases done.len(),
{
    if done.len() > 0 {
        let front = done.drop_last();
        law_all_settled_is_all_done(front);
        lemma_set_count(front);
        if set_count(done) == done.len() {
            assert forall|i: int| 0 <= i < done.len() implies done[i] by {
                if i < front.len() {
                    assert(front[i] == done[i]);
                }
            }
        }
        if forall|i: int| 0 <= i < done.len() ==> done[i] {
            assert forall|i: int| 0 <= i < front.len() implies front[i] by {
                assert(done[i]);
            }
            assert(done[done.len() - 1]);
        }
    }
}

/// What has just finished is what is settled and was not seen finished before, each once and in
/// order.
pub proof fn law_what_has_just_finished(done: Seq<bool>, settled: Seq<bool>, n: int)
    requires
        0 <= n <= settled.len(),
        n <= done.len(),
        n <= usize::MAX,
    ensures
        forall|i: int|
            #![trigger settled[i]]
            0 <= i < n ==> (newly(done, settled, n).contains(i as usize) <==> settled[i]
                && !done[i]),
        forall|a: int, b: int|
            0 <= a < b < newly(done, settled, n).len() ==> newly(done, settled, n)[a] < newly(
                done,
                settled,
                n,
            )[b],
        forall|a: int|
            0 <= a < newly(done, settled, n).len() ==> (#[trigger] newly(done, settled, n)[a]) < n,
    decreases n,
{
    if n > 0 {
        law_what_has_just_finished(done, settled, n - 1);
        let before = newly(done, settled, n - 1);
        let all = newly(done, settled, n);
        assert forall|i: int| #![trigger settled[i]] 0 <= i < n implies (all.contains(i as usize)
            <==> settled[i] && !done[i]) by {
            if i < n - 1 {
                assert(before.contains(i as usize) <==> settled[i] && !done[i]);
                if before.contains(i as usize) {
                    let j = choose|j: int| 0 <= j < before.len() && before[j] == i as usize;
                    assert(all[j] == i as usize);
                }
                if all.contains(i as usize) {
                    let j = choose|j: int| 0 <= j < all.len() && all[j] == i as usize;
                    if j < before.len() {
                        assert(before[j] == i as usize);
                    }
                }
            } else {
                if settled[i] && !done[i] {
                    assert(all[all.len() - 1] == i as usize);
                } else if all.contains(i as usize) {
                    let j = choose|j: int| 0 <= j < all.len() && all[j] == i as usize;
                    assert(before[j] < n - 1);
                }
            }
        }
    }
}

} // verus!
