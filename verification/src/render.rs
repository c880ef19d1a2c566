//! What the view of a match does: how far between two states it stands, which rockets get a model,
//! which players are shown, and how an explosion's light dies down. The view reads the simulation's
//! states and never touches them.

use vstd::prelude::*;

use crate::clock::{elapsed, since, MILLISECOND};
use crate::game::ROLLBACK_FPS;
use crate::numeral::clamped;

verus! {

/// Ticks, in millionths, past the newest state the view keeps moving at the last velocity when no new
/// state arrives. Short stalls then read as motion instead of a freeze; after that the view holds,
/// since guessing further only makes the correction bigger when the frames do come.
pub const EXTRAPOLATE: u32 = 2_000_000;

pub const TICK: u32 = 1_000_000;

/// How long an explosion's light lasts.
pub const LIGHT_FOR: u64 = 350 * MILLISECOND;

/// An explosion's light at its brightest.
pub const LIGHT: u32 = 400_000;

/// The longest frame that is moved through at once.
pub const LONGEST_FRAME: u64 = 100 * MILLISECOND;

/// Thousandths of a game unit a dead player's eye lies above their place.
pub const DEAD_EYE: u32 = 14_000;

/// Ticks since the previous state, in millionths.
pub open spec fn alpha_of(last_advance: u64, now: u64) -> int {
    clamped(elapsed(last_advance, now) * ROLLBACK_FPS / 1_000, 0, TICK + EXTRAPOLATE)
}

/// Ticks since the previous state, in millionths: up to one tick while a new state arrives every
/// tick, up to three while waiting for one.
pub fn interp_alpha(last_advance: u64, now: u64) -> (r: u32)
    ensures
        r == alpha_of(last_advance, now),
        r <= TICK + EXTRAPOLATE,
{
    let q: u128 = since(last_advance, now) as u128 * ROLLBACK_FPS as u128 / 1_000;
    if q > (TICK + EXTRAPOLATE) as u128 {
        TICK + EXTRAPOLATE
    } else {
        q as u32
    }
}

/// What a state says of a player that decides whether they move smoothly.
#[derive(Clone, Copy, Debug, PartialEq, Eq, Structural)]
pub struct Standing {
    pub spawn_tick: u32,
    pub alive: bool,
}

/// Where something stands between two states.
#[derive(Clone, Copy, Debug, PartialEq, Eq, Structural)]
pub enum Motion {
    /// Where the newest state has it.
    Current,
    /// So many millionths of the way from the older state's place to the newer one's.
    Between(u32),
    /// So many millionths of a tick past the newest state's place, at its velocity.
    Ahead(u32),
}

/// The motion of something that is in both states, `alpha` millionths of a tick after the older.
pub open spec fn moved(alpha: u32) -> Motion {
    if alpha > TICK {
        Motion::Ahead((alpha - TICK) as u32)
    } else {
        Motion::Between(alpha)
    }
}

/// The motion of something that is in both states, as a rocket or a target.
pub fn motion(alpha: u32) -> (r: Motion)
    ensures
        r == moved(alpha),
{
    if alpha > TICK {
        Motion::Ahead(alpha - TICK)
    } else {
        Motion::Between(alpha)
    }
}

/// A player's motion: never across a respawn or a death.
pub fn lerp_state(prev: &Standing, cur: &Standing, alpha: u32) -> (r: Motion)
    ensures
        r == if prev.spawn_tick != cur.spawn_tick || !prev.alive || !cur.alive {
            Motion::Current
        } else {
            moved(alpha)
        },
{
    if prev.spawn_tick != cur.spawn_tick || !prev.alive || !cur.alive {
        Motion::Current
    } else {
        motion(alpha)
    }
}

/// The view never guesses further ahead than two ticks, and a fresh state is never guessed past.
pub proof fn law_view_guesses_little(last_advance: u64, now: u64)
    ensures
        match moved(alpha_of(last_advance, now) as u32) {
            Motion::Ahead(t) => 0 < t <= EXTRAPOLATE,
            Motion::Between(t) => t <= TICK,
            Motion::Current => false,
        },
        elapsed(last_advance, now) * ROLLBACK_FPS <= 1_000_000_000 ==> moved(
            alpha_of(last_advance, now) as u32,
        ) is Between,
{
    let e = elapsed(last_advance, now);
    assert(e * ROLLBACK_FPS >= 0) by (nonlinear_arith)
        requires
            e >= 0,
    ;
}

/// Whether a player's model shows: the others', while they are alive.
pub fn player_shown(player: u8, local: u8, alive: bool) -> (r: bool)
    ensures
        r == (player != local && alive),
{
    player != local && alive
}

/// The time a frame moves things by.
pub fn frame_time(dt: u64) -> (r: u64)
    ensures
        r == clamped(dt as int, 0, LONGEST_FRAME as int),
{
    if dt < LONGEST_FRAME {
        dt
    } else {
        LONGEST_FRAME
    }
}

/// Whether an id is among the first `n`.
fn among(ids: &Vec<u32>, id: u32) -> (r: bool)
    ensures
        r == ids@.contains(id),
{
    let mut i: usize = 0;
    while i < ids.len()
        invariant
            i <= ids.len(),
            forall|j: int| 0 <= j < i ==> ids@[j] != id,
        decreases ids.len() - i,
    {
        if ids[i] == id {
            return true;
        }
        i = i + 1;
    }
    false
}

/// The ids among the first `n` of `ids` that `others` does not hold, in order.
pub open spec fn missing(ids: Seq<u32>, others: Seq<u32>, n: int) -> Seq<u32>
    decreases n,
{
    if n <= 0 {
        Seq::empty()
    } else if others.contains(ids[n - 1]) {
        missing(ids, others, n - 1)
    } else {
        missing(ids, others, n - 1).push(ids[n - 1])
    }
}

fn not_in(ids: &Vec<u32>, others: &Vec<u32>) -> (r: Vec<u32>)
    ensures
        r@ == missing(ids@, others@, ids@.len() as int),
{
    let mut out: Vec<u32> = Vec::new();
    let mut i: usize = 0;
    while i < ids.len()
        invariant
            i <= ids.len(),
            out@ == missing(ids@, others@, i as int),
        decreases ids.len() - i,
    {
        if !among(others, ids[i]) {
            out.push(ids[i]);
        }
        i = i + 1;
    }
    out
}

/// What becomes of the rockets' models.
pub struct RocketSync {
    /// These rockets are gone, and their models with them.
    pub gone: Vec<u32>,
    /// These rockets are new and get a model.
    pub fresh: Vec<u32>,
}

/// Matches the rockets' models, by the ids they show, with the rockets there are.
pub fn sync_rockets(shown: &Vec<u32>, rockets: &Vec<u32>) -> (r: RocketSync)
    ensures
        r.gone@ == missing(shown@, rockets@, shown@.len() as int),
        r.fresh@ == missing(rockets@, shown@, rockets@.len() as int),
{
    RocketSync { gone: not_in(shown, rockets), fresh: not_in(rockets, shown) }
}

proof fn lemma_missing(ids: Seq<u32>, others: Seq<u32>, n: int, id: u32)
    requires
        0 <= n <= ids.len(),
    ensures
        missing(ids, others, n).contains(id) == (ids.take(n).contains(id) && !others.contains(
            id,
        )),
    decreases n,
{
    if n > 0 {
        let before = missing(ids, others, n - 1);
        lemma_missing(ids, others, n - 1, id);
        assert(ids.take(n) =~= ids.take(n - 1).push(ids[n - 1]));
        vstd::seq_lib::lemma_seq_contains_after_push(ids.take(n - 1), ids[n - 1], id);
        vstd::seq_lib::lemma_seq_contains_after_push(before, ids[n - 1], id);
    }
}

/// Afterwards every rocket has a model and every model has a rocket: a model that goes shows no
/// rocket, one that comes up shows a rocket that had none, and nothing else changes.
pub proof fn law_every_rocket_has_its_model(shown: Seq<u32>, rockets: Seq<u32>, id: u32)
    ensures
        ({
            let gone = missing(shown, rockets, shown.len() as int);
            let fresh = missing(rockets, shown, rockets.len() as int);
            rockets.contains(id) <==> shown.contains(id) && !gone.contains(id) || fresh.contains(id)
        }),
{
    lemma_missing(shown, rockets, shown.len() as int, id);
    lemma_missing(rockets, shown, rockets.len() as int, id);
    assert(shown.take(shown.len() as int) =~= shown);
    assert(rockets.take(rockets.len() as int) =~= rockets);
}

/// Where an explosion leaves its scorch mark.
#[derive(Clone, Copy, Debug, PartialEq, Eq, Structural)]
pub enum Scorch {
    /// On the surface that was hit.
    Surface,
    /// On the ground below.
    Ground,
}

/// Where an explosion leaves its scorch mark. A direct hit on a player has the player as its surface,
/// so the mark goes on the ground below, where that is close enough for the blast to scorch it.
pub fn scorch(hit_player: bool, ground_close: bool) -> (r: Option<Scorch>)
    ensures
        r == if !hit_player {
            Some(Scorch::Surface)
        } else if ground_close {
            Some(Scorch::Ground)
        } else {
            None
        },
{
    if !hit_player {
        Some(Scorch::Surface)
    } else if ground_close {
        Some(Scorch::Ground)
    } else {
        None
    }
}

/// An explosion's light: how bright it is, until it is out.
pub open spec fn light_at(age: int) -> Option<int> {
    if age >= LIGHT_FOR {
        None
    } else {
        Some(LIGHT * (LIGHT_FOR - age) / (LIGHT_FOR as int))
    }
}

/// An explosion's light: how bright it is, until it is out.
pub fn animate_explosion(t0: u64, now: u64) -> (r: Option<u32>)
    ensures
        match r {
            Some(l) => light_at(elapsed(t0, now)) == Some(l as int) && l <= LIGHT,
            None => light_at(elapsed(t0, now)) is None,
        },
{
    let age = since(t0, now);
    if age >= LIGHT_FOR {
        return None;
    }
    let l: u64 = LIGHT as u64 * (LIGHT_FOR - age) / LIGHT_FOR;
    Some(l as u32)
}

/// The light only dies down.
pub proof fn law_light_dies_down(a: int, b: int)
    requires
        0 <= a <= b < LIGHT_FOR,
    ensures
        light_at(b)->0 <= light_at(a)->0 <= LIGHT,
{
}

/// The view moves on with time: not at all at the tick itself, a whole tick after a 67th of a
/// second, and no more than two ticks past the newest state.
pub proof fn law_the_view_moves_on(last_advance: u64, now: u64, next: u64)
    requires
        now <= next,
    ensures
        alpha_of(last_advance, now) <= alpha_of(last_advance, next),
        now <= last_advance ==> alpha_of(last_advance, now) == 0,
        alpha_of(last_advance, now) <= 3_000_000,
        elapsed(last_advance, now) * 67 >= 3_000_000_000 ==> alpha_of(last_advance, now)
            == 3_000_000,
        elapsed(last_advance, now) * 67 <= 3_000_000_000 ==> alpha_of(last_advance, now)
            == elapsed(last_advance, now) * 67 / 1_000,
{
    let a = elapsed(last_advance, now) * 67;
    let b = elapsed(last_advance, next) * 67;
    assert(a / 1_000 <= b / 1_000);
}

/// Up to a tick the view lies between the two states, beyond it ahead of the newer one by the rest.
pub proof fn law_where_the_view_lies(alpha: u32)
    ensures
        alpha <= 1_000_000 ==> moved(alpha) == Motion::Between(alpha),
        alpha > 1_000_000 ==> moved(alpha) == Motion::Ahead((alpha - 1_000_000) as u32),
{
}

/// An explosion's light starts at its full strength, loses it evenly, and is out after 350
/// milliseconds.
pub proof fn law_how_long_the_light_lasts(age: int)
    requires
        age >= 0,
    ensures
        light_at(0) == Some(400_000int),
        light_at(age) is None <==> age >= 350_000_000,
        light_at(175_000_000) == Some(200_000int),
        age < 350_000_000 ==> {
            let l = light_at(age)->0;
            350_000_000 * l <= 400_000 * (350_000_000 - age) < 350_000_000 * (l + 1)
        },
{
}

/// A model is missing where the rocket has none, and each is listed once for each time it stands
/// there, in order.
pub proof fn law_what_is_missing(ids: Seq<u32>, others: Seq<u32>, n: int)
    requires
        0 < n <= ids.len(),
    ensures
        others.contains(ids[n - 1]) ==> missing(ids, others, n) == missing(ids, others, n - 1),
        !others.contains(ids[n - 1]) ==> missing(ids, others, n) == missing(ids, others, n - 1).push(
            ids[n - 1],
        ),
        missing(ids, others, 0).len() == 0,
{
}

} // verus!
