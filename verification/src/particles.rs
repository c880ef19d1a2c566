//! Billboard particles: how many an explosion and a rocket's trail are made of, what each is born
//! with, how it fades and when it dies. Lengths are thousandths of a game unit, lifetimes
//! microseconds, colours and alphas millionths, turns 16,777,216ths of a full one; where a particle
//! is and where it flies is geometry on top of this.

use vstd::prelude::*;

use crate::assets::Sprite;
use crate::numeral::clamped;
use crate::single::{lemma_single_zero, single, to_single};

verus! {

// ---- chance ----

/// Draws are fractions with this denominator.
pub const UNITY: u32 = 16_777_216;

/// The seed the generator starts with.
pub const SEED: u64 = 0x9E37_79B9_7F4A_7C15;

/// The generator's state after a draw from `x`: a xorshift.
pub open spec fn stirred(x: u64) -> u64 {
    let a = x ^ (x << 13);
    let b = a ^ (a >> 7);
    b ^ (b << 17)
}

/// The generator's next state.
pub open spec fn next(x: u64) -> u64 {
    stirred(
        if x == 0 {
            SEED
        } else {
            x
        },
    )
}

/// What the draw after state `x` comes to, in `UNITY`ths.
pub open spec fn drawn(x: u64) -> int {
    (next(x) >> 40) as int
}

/// Every draw is a fraction less than one.
pub proof fn law_draws_are_fractions(x: u64)
    ensures
        0 <= drawn(x) < UNITY,
{
    let y = next(x);
    assert(y >> 40 < 16_777_216) by (bit_vector);
}

/// The generator never runs dry: no state leads to zero.
pub proof fn law_generator_keeps_going(x: u64)
    ensures
        next(x) != 0,
{
    let y = if x == 0 {
        SEED
    } else {
        x
    };
    assert(y != 0);
    assert(y != 0 ==> ({
        let a = y ^ (y << 13);
        let b = a ^ (a >> 7);
        b ^ (b << 17) != 0
    })) by (bit_vector);
}

/// A range of values, drawn from evenly.
#[derive(Clone, Copy, Debug, PartialEq, Eq, Structural)]
pub struct Span {
    pub lo: i32,
    pub hi: i32,
}

impl Span {
    pub open spec fn wf(self) -> bool {
        self.lo <= self.hi
    }

    /// What a draw of `d` comes to.
    pub open spec fn at(self, d: int) -> int {
        self.lo + (self.hi - self.lo) * d / (UNITY as int)
    }

    /// The value drawn in state `x`, and the state afterwards.
    pub open spec fn picked(self, x: u64) -> (u64, int) {
        (next(x), self.at(drawn(x)))
    }
}

/// What is drawn from a range lies between its ends.
pub proof fn law_draws_stay_in_range(s: Span, x: u64)
    ensures
        s.wf() ==> s.lo <= s.picked(x).1 <= s.hi,
        !s.wf() ==> s.hi <= s.picked(x).1 <= s.lo,
{
    law_draws_are_fractions(x);
    let d = drawn(x);
    let w = s.hi - s.lo;
    if w >= 0 {
        assert(0 <= w * d / 16_777_216 <= w) by (nonlinear_arith)
            requires
                0 <= d < 16_777_216,
                w >= 0,
        ;
    } else {
        assert(w <= w * d / 16_777_216 <= 0) by (nonlinear_arith)
            requires
                0 <= d < 16_777_216,
                w < 0,
        ;
    }
}

/// The frame of a strip of `n` that a draw of `d` comes to: the whole part of their single-precision
/// product.
pub open spec fn frame_at(d: int, n: nat) -> int {
    single((d * n) as nat, 1) as int / (UNITY as int) % (n as int)
}

/// A point in the cube around a ball, in `UNITY`ths of the ball's radius.
#[derive(Clone, Copy, Debug, PartialEq, Eq, Structural)]
pub struct Point {
    pub x: i32,
    pub y: i32,
    pub z: i32,
}

impl Point {
    /// The square of its distance from the middle, in single precision.
    pub open spec fn length_squared(self) -> nat {
        let (a, b, c) = (
            single((self.x * self.x) as nat, 1),
            single((self.y * self.y) as nat, 1),
            single((self.z * self.z) as nat, 1),
        );
        single(single(a + b, 1) + c, 1)
    }

    /// Whether it lies in the ball.
    pub open spec fn inside(self) -> bool {
        self.length_squared() <= UNITY * UNITY
    }
}

/// The middle of the ball.
pub open spec fn middle() -> Point {
    Point { x: 0, y: 0, z: 0 }
}

/// The point of the cube drawn in state `x`.
pub open spec fn cube_point(x: u64) -> Point {
    Point {
        x: (2 * drawn(x) - UNITY) as i32,
        y: (2 * drawn(next(x)) - UNITY) as i32,
        z: (2 * drawn(next(next(x))) - UNITY) as i32,
    }
}

/// The first of the points drawn from state `x` on that lies in the ball, and the state afterwards;
/// the middle where none of the first `tries` does.
pub open spec fn ball_from(x: u64, tries: nat) -> (u64, Point)
    decreases tries,
{
    let y = next(next(next(x)));
    if tries == 0 {
        (x, middle())
    } else if cube_point(x).inside() {
        (y, cube_point(x))
    } else {
        ball_from(y, (tries - 1) as nat)
    }
}

/// The point of the ball drawn in state `x`, and the state afterwards. A generator of 64 bits that
/// missed the ball that many times has been through all its states, and would never hit it.
pub open spec fn ball(x: u64) -> (u64, Point) {
    ball_from(x, u64::MAX as nat)
}

proof fn lemma_ball_from(x: u64, tries: nat)
    ensures
        ball_from(x, tries).1.inside(),
    decreases tries,
{
    if tries == 0 {
        lemma_single_zero();
    } else if !cube_point(x).inside() {
        lemma_ball_from(next(next(next(x))), (tries - 1) as nat);
    }
}

/// Every point that is drawn lies in the ball.
pub proof fn law_points_lie_in_the_ball(x: u64)
    ensures
        ball(x).1.inside(),
{
    lemma_ball_from(x, u64::MAX as nat);
}

// ---- what particles are born with ----

/// A colour, in millionths.
#[derive(Clone, Copy, Debug, PartialEq, Eq, Structural)]
pub struct Rgb {
    pub r: u32,
    pub g: u32,
    pub b: u32,
}

/// The colour a particle fades to, and the thousandths of its life that takes.
#[derive(Clone, Copy, Debug, PartialEq, Eq, Structural)]
pub struct FadeTo {
    pub color: Rgb,
    pub over: u32,
}

/// A number of particles born alike.
#[derive(Clone, Copy, Debug, PartialEq, Eq, Structural)]
pub struct Burst {
    pub count: u32,
    pub sprite: Sprite,
    /// How far off the surface.
    pub lift: i32,
    /// Random offset of the birth place: anywhere in a ball of this radius.
    pub ball: i32,
    /// Random offset of the birth place: on a sphere of this radius.
    pub shell: Span,
    /// How far the flight leans along the surface's normal, and the weight of a random direction
    /// added to it; both thousandths.
    pub along: Span,
    pub scatter: i32,
    /// Flies along the surface in a random direction, from this far out; `along` is then the speed
    /// at which it leaves the surface.
    pub slide: Option<i32>,
    /// A thousandth of a unit a second.
    pub speed: Span,
    /// Diameter at birth; at death (the same draw where there is none); and what it gains over a
    /// second and a half of life.
    pub size0: Span,
    pub size1: Option<Span>,
    pub growth: i32,
    pub life: Span,
    /// Born somewhere between the two colours.
    pub color0: Rgb,
    pub color1: Rgb,
    pub fade_to: Option<FadeTo>,
    pub alpha: Span,
    /// Thousandths of the lifetime spent fading in and out.
    pub fade_in: u32,
    pub fade_out: u32,
    pub rot: Span,
    /// Thousandths of a radian a second.
    pub spin: Span,
    /// Upwards, thousandths of a unit a second squared; and thousandths of the speed lost a second.
    pub gravity: i32,
    pub drag: u32,
}

impl Burst {
    pub open spec fn wf(self) -> bool {
        &&& self.shell.wf() && self.along.wf() && self.speed.wf() && self.size0.wf()
            && self.life.wf() && self.alpha.wf() && self.rot.wf() && self.spin.wf()
        &&& self.size1 matches Some(s) ==> s.wf()
        &&& 0 < self.life.lo && self.life.hi <= 10_000_000
        &&& 0 <= self.alpha.lo && self.alpha.hi <= 1_000_000
        &&& 0 <= self.size0.lo && self.size0.hi <= 1_000_000
        &&& self.size1 matches Some(s) ==> 0 <= s.lo && s.hi <= 1_000_000
        &&& 0 <= self.growth <= 1_000_000
    }
}

/// A particle's birth: its kind and what was drawn for it.
#[derive(Clone, Copy, Debug, PartialEq, Eq, Structural)]
pub struct Birth {
    pub burst: Burst,
    pub frame: u32,
    pub shell: i32,
    pub along: i32,
    /// Which way along the surface, in turns.
    pub heading: u32,
    pub speed: i32,
    pub life: i32,
    pub size0: i32,
    pub size1: i32,
    /// How far from the one colour to the other.
    pub mix: u32,
    pub alpha: i32,
    pub rot: i32,
    pub spin: i32,
    /// Where in the ball around its birth place.
    pub ball: Point,
    /// Its random direction; points of a ball, of any length.
    pub aim: Point,
}

impl Birth {
    /// Everything that can be drawn lies in its range.
    pub open spec fn within(self) -> bool {
        let b = self.burst;
        &&& self.frame < b.sprite.frame_count()
        &&& b.shell.lo <= self.shell <= b.shell.hi
        &&& b.along.lo <= self.along <= b.along.hi
        &&& self.heading < UNITY
        &&& b.speed.lo <= self.speed <= b.speed.hi
        &&& b.life.lo <= self.life <= b.life.hi
        &&& b.size0.lo <= self.size0 <= b.size0.hi
        &&& b.size1 matches Some(s) ==> s.lo <= self.size1 <= s.hi
        &&& self.mix < UNITY
        &&& b.alpha.lo <= self.alpha <= b.alpha.hi
        &&& b.rot.lo <= self.rot <= b.rot.hi
        &&& b.spin.lo <= self.spin <= b.spin.hi
        &&& self.ball.inside()
        &&& self.aim.inside()
    }
}

/// What can be drawn for a particle.
#[derive(Clone, Copy, Debug, PartialEq, Eq, Structural)]
pub enum Draw {
    Frame,
    Shell,
    Along,
    Heading,
    Speed,
    Life,
    Size0,
    Size1,
    Mix,
    Alpha,
    Rot,
    Spin,
    Ball,
    Aim,
}

/// A birth before anything is drawn: everything is at the start of its range.
pub open spec fn blank(b: Burst) -> Birth {
    Birth {
        burst: b,
        frame: 0,
        shell: b.shell.lo,
        along: b.along.lo,
        heading: 0,
        speed: b.speed.lo,
        life: b.life.lo,
        size0: b.size0.lo,
        size1: match b.size1 {
            Some(s) => s.lo,
            None => 0,
        },
        mix: 0,
        alpha: b.alpha.lo,
        rot: b.rot.lo,
        spin: b.spin.lo,
        ball: middle(),
        aim: middle(),
    }
}

/// The birth with one thing drawn in state `x`, and the state afterwards.
pub open spec fn drawn_for(p: Birth, d: Draw, x: u64) -> (u64, Birth) {
    let b = p.burst;
    match d {
        Draw::Frame => (
            next(x),
            Birth { frame: frame_at(drawn(x), b.sprite.frame_count()) as u32, ..p },
        ),
        Draw::Shell => (next(x), Birth { shell: b.shell.picked(x).1 as i32, ..p }),
        Draw::Along => (next(x), Birth { along: b.along.picked(x).1 as i32, ..p }),
        Draw::Heading => (next(x), Birth { heading: drawn(x) as u32, ..p }),
        Draw::Speed => (next(x), Birth { speed: b.speed.picked(x).1 as i32, ..p }),
        Draw::Life => (next(x), Birth { life: b.life.picked(x).1 as i32, ..p }),
        Draw::Size0 => (next(x), Birth { size0: b.size0.picked(x).1 as i32, ..p }),
        Draw::Size1 => match b.size1 {
            Some(s) => (next(x), Birth { size1: s.picked(x).1 as i32, ..p }),
            None => (x, p),
        },
        Draw::Mix => (next(x), Birth { mix: drawn(x) as u32, ..p }),
        Draw::Alpha => (next(x), Birth { alpha: b.alpha.picked(x).1 as i32, ..p }),
        Draw::Rot => (next(x), Birth { rot: b.rot.picked(x).1 as i32, ..p }),
        Draw::Spin => (next(x), Birth { spin: b.spin.picked(x).1 as i32, ..p }),
        Draw::Ball => (ball(x).0, Birth { ball: ball(x).1, ..p }),
        Draw::Aim => (ball(x).0, Birth { aim: ball(x).1, ..p }),
    }
}

/// The birth with the first `n` things drawn, and the state afterwards.
pub open spec fn drawn_first(b: Burst, order: Seq<Draw>, x: u64, n: int) -> (u64, Birth)
    decreases n,
{
    if n <= 0 {
        (x, blank(b))
    } else {
        let (y, p) = drawn_first(b, order, x, n - 1);
        drawn_for(p, order[n - 1], y)
    }
}

/// A birth with its last size: one that was not drawn is the first, and it grows with the life.
pub open spec fn grown(p: Birth) -> Birth {
    let last = if p.burst.size1 is Some {
        p.size1
    } else {
        p.size0
    };
    Birth { size1: (last + p.burst.growth * p.life / 1_500_000) as i32, ..p }
}

/// The birth drawn in state `x`, and the state afterwards.
pub open spec fn born(kind: Kind, x: u64) -> (u64, Birth) {
    let (y, p) = drawn_first(kind.make(), kind.order(), x, kind.order().len() as int);
    (y, grown(p))
}

/// The births of the first `n` particles of a burst, and the state afterwards.
pub open spec fn burst_born(kind: Kind, x: u64, n: int) -> (u64, Seq<Birth>)
    decreases n,
{
    if n <= 0 {
        (x, Seq::empty())
    } else {
        let (y, before) = burst_born(kind, x, n - 1);
        let (z, one) = born(kind, y);
        (z, before.push(one))
    }
}

/// The births of the first `n` bursts, and the state afterwards.
pub open spec fn all_born(kinds: Seq<Kind>, x: u64, n: int) -> (u64, Seq<Birth>)
    decreases n,
{
    if n <= 0 {
        (x, Seq::empty())
    } else {
        let (y, before) = all_born(kinds, x, n - 1);
        let (z, more) = burst_born(kinds[n - 1], y, kinds[n - 1].make().count as int);
        (z, before + more)
    }
}

/// The kinds of bursts: an explosion's, then a rocket trail's.
#[derive(Clone, Copy, Debug, PartialEq, Eq, Structural)]
pub enum Kind {
    /// Wall fragments: a spray of tiny chips knocked out of the surface, fast and short-lived, thrown
    /// mostly along the normal and dropping under full gravity.
    Chips,
    /// The core flash.
    Flash,
    /// Additive glows around the core.
    Fireball,
    /// The smoke cloud.
    Smoke,
    /// Dust rolling out along the surface.
    Dust,
    /// Embers.
    Embers,
    /// Debris chunks.
    Chunks,
    /// A rocket's smoke, so many a second: a puff sits where the rocket left it and only grows and
    /// thins.
    TrailSmoke,
    /// The glow at a rocket's tail, so many a second.
    TrailFire,
}

impl Kind {
    /// What the burst is made of.
    pub open spec fn make(self) -> Burst {
        match self {
            Kind::Chips => (Burst {
                count: 28,
                sprite: Sprite::Debris,
                lift: 2_000,
                ball: 0,
                shell: Span { lo: 0, hi: 0 },
                along: Span { lo: 600, hi: 2_000 },
                scatter: 1_000,
                slide: None,
                speed: Span { lo: 250_000, hi: 650_000 },
                size0: Span { lo: 1_000, hi: 2_500 },
                size1: None,
                growth: 0,
                life: Span { lo: 400_000, hi: 800_000 },
                color0: Rgb { r: 500_000, g: 485_000, b: 460_000 },
                color1: Rgb { r: 680_000, g: 659_600, b: 625_600 },
                fade_to: None,
                alpha: Span { lo: 1_000_000, hi: 1_000_000 },
                fade_in: 0,
                fade_out: 300,
                rot: Span { lo: 0, hi: 16_777_216 },
                spin: Span { lo: (-20_000) as i32, hi: 20_000 },
                gravity: (-800_000) as i32,
                drag: 200,
            }),
            Kind::Flash => (Burst {
                count: 1,
                sprite: Sprite::Softglow,
                lift: 6_000,
                ball: 0,
                shell: Span { lo: 0, hi: 0 },
                along: Span { lo: 0, hi: 0 },
                scatter: 0,
                slide: None,
                speed: Span { lo: 0, hi: 0 },
                size0: Span { lo: 90_000, hi: 90_000 },
                size1: Some(Span { lo: 150_000, hi: 150_000 }),
                growth: 0,
                life: Span { lo: 220_000, hi: 220_000 },
                color0: Rgb { r: 1_000_000, g: 800_000, b: 500_000 },
                color1: Rgb { r: 1_000_000, g: 800_000, b: 500_000 },
                fade_to: None,
                alpha: Span { lo: 1_000_000, hi: 1_000_000 },
                fade_in: 80,
                fade_out: 600,
                rot: Span { lo: 0, hi: 16_777_216 },
                spin: Span { lo: 0, hi: 0 },
                gravity: 0,
                drag: 0,
            }),
            Kind::Fireball => (Burst {
                count: 3,
                sprite: Sprite::Glow,
                lift: 6_000,
                ball: 8_000,
                shell: Span { lo: 0, hi: 0 },
                along: Span { lo: 1_000, hi: 1_000 },
                scatter: 0,
                slide: None,
                speed: Span { lo: 30_000, hi: 30_000 },
                size0: Span { lo: 50_000, hi: 70_000 },
                size1: Some(Span { lo: 90_000, hi: 120_000 }),
                growth: 0,
                life: Span { lo: 250_000, hi: 400_000 },
                color0: Rgb { r: 1_000_000, g: 500_000, b: 150_000 },
                color1: Rgb { r: 1_000_000, g: 500_000, b: 150_000 },
                fade_to: None,
                alpha: Span { lo: 900_000, hi: 900_000 },
                fade_in: 50,
                fade_out: 700,
                rot: Span { lo: 0, hi: 16_777_216 },
                spin: Span { lo: (-2_000) as i32, hi: 2_000 },
                gravity: 0,
                drag: 0,
            }),
            Kind::Smoke => (Burst {
                count: 10,
                sprite: Sprite::Smoke1,
                lift: 6_000,
                ball: 12_000,
                shell: Span { lo: 0, hi: 0 },
                along: Span { lo: 600, hi: 1_600 },
                scatter: 1_000,
                slide: None,
                speed: Span { lo: 80_000, hi: 200_000 },
                size0: Span { lo: 22_000, hi: 32_000 },
                size1: Some(Span { lo: 60_000, hi: 90_000 }),
                growth: 0,
                life: Span { lo: 1_000_000, hi: 1_700_000 },
                color0: Rgb { r: 660_000, g: 630_000, b: 590_000 },
                color1: Rgb { r: 660_000, g: 630_000, b: 590_000 },
                fade_to: None,
                alpha: Span { lo: 380_000, hi: 380_000 },
                fade_in: 50,
                fade_out: 600,
                rot: Span { lo: 0, hi: 16_777_216 },
                spin: Span { lo: (-1_000) as i32, hi: 1_000 },
                gravity: 25_000,
                drag: 2_500,
            }),
            Kind::Dust => (Burst {
                count: 8,
                sprite: Sprite::Smoke1,
                lift: 6_000,
                ball: 0,
                shell: Span { lo: 0, hi: 0 },
                along: Span { lo: 20_000, hi: 20_000 },
                scatter: 0,
                slide: Some(10_000),
                speed: Span { lo: 200_000, hi: 320_000 },
                size0: Span { lo: 18_000, hi: 18_000 },
                size1: Some(Span { lo: 45_000, hi: 65_000 }),
                growth: 0,
                life: Span { lo: 700_000, hi: 1_100_000 },
                color0: Rgb { r: 700_000, g: 660_000, b: 600_000 },
                color1: Rgb { r: 700_000, g: 660_000, b: 600_000 },
                fade_to: None,
                alpha: Span { lo: 300_000, hi: 300_000 },
                fade_in: 50,
                fade_out: 500,
                rot: Span { lo: 0, hi: 16_777_216 },
                spin: Span { lo: (-2_000) as i32, hi: 2_000 },
                gravity: 0,
                drag: 3_500,
            }),
            Kind::Embers => (Burst {
                count: 16,
                sprite: Sprite::Ember,
                lift: 6_000,
                ball: 0,
                shell: Span { lo: 0, hi: 0 },
                along: Span { lo: 500, hi: 1_500 },
                scatter: 1_200,
                slide: None,
                speed: Span { lo: 150_000, hi: 450_000 },
                size0: Span { lo: 3_000, hi: 5_000 },
                size1: Some(Span { lo: 1_000, hi: 1_000 }),
                growth: 0,
                life: Span { lo: 400_000, hi: 900_000 },
                color0: Rgb { r: 1_000_000, g: 550_000, b: 150_000 },
                color1: Rgb { r: 1_000_000, g: 550_000, b: 150_000 },
                fade_to: None,
                alpha: Span { lo: 1_000_000, hi: 1_000_000 },
                fade_in: 0,
                fade_out: 500,
                rot: Span { lo: 0, hi: 0 },
                spin: Span { lo: 0, hi: 0 },
                gravity: (-800_000) as i32,
                drag: 500,
            }),
            Kind::Chunks => (Burst {
                count: 6,
                sprite: Sprite::Debris,
                lift: 6_000,
                ball: 0,
                shell: Span { lo: 0, hi: 0 },
                along: Span { lo: 800, hi: 1_800 },
                scatter: 1_000,
                slide: None,
                speed: Span { lo: 200_000, hi: 420_000 },
                size0: Span { lo: 5_000, hi: 9_000 },
                size1: Some(Span { lo: 5_000, hi: 9_000 }),
                growth: 0,
                life: Span { lo: 900_000, hi: 1_400_000 },
                color0: Rgb { r: 550_000, g: 500_000, b: 450_000 },
                color1: Rgb { r: 550_000, g: 500_000, b: 450_000 },
                fade_to: None,
                alpha: Span { lo: 1_000_000, hi: 1_000_000 },
                fade_in: 0,
                fade_out: 250,
                rot: Span { lo: 0, hi: 16_777_216 },
                spin: Span { lo: (-12_000) as i32, hi: 12_000 },
                gravity: (-800_000) as i32,
                drag: 300,
            }),
            Kind::TrailSmoke => (Burst {
                count: 150,
                sprite: Sprite::Smokelit,
                lift: 0,
                ball: 1_200,
                shell: Span { lo: 0, hi: 0 },
                along: Span { lo: 0, hi: 0 },
                scatter: 1_000,
                slide: None,
                speed: Span { lo: 1_000, hi: 1_000 },
                size0: Span { lo: 5_000, hi: 5_000 },
                size1: None,
                growth: 35_000,
                life: Span { lo: 800_000, hi: 1_200_000 },
                color0: Rgb { r: 968_627, g: 760_784, b: 458_824 },
                color1: Rgb { r: 984_314, g: 556_863, b: 0 },
                fade_to: Some(
                    FadeTo { color: Rgb { r: 764_706, g: 745_098, b: 792_157 }, over: 100 },
                ),
                alpha: Span { lo: 376_471, hi: 501_961 },
                fade_in: 50,
                fade_out: 900,
                rot: Span { lo: (-2_097_152) as i32, hi: 0 },
                spin: Span { lo: 0, hi: 0 },
                gravity: 6_000,
                drag: 0,
            }),
            Kind::TrailFire => (Burst {
                count: 128,
                sprite: Sprite::Glow,
                lift: 0,
                ball: 0,
                shell: Span { lo: 1_000, hi: 2_000 },
                along: Span { lo: 0, hi: 0 },
                scatter: 0,
                slide: None,
                speed: Span { lo: 0, hi: 0 },
                size0: Span { lo: 30_000, hi: 30_000 },
                size1: Some(Span { lo: 0, hi: 0 }),
                growth: 0,
                life: Span { lo: 200_000, hi: 200_000 },
                color0: Rgb { r: 1_000_000, g: 658_824, b: 0 },
                color1: Rgb { r: 1_000_000, g: 917_647, b: 0 },
                fade_to: Some(
                    FadeTo { color: Rgb { r: 282_353, g: 145_098, b: 0 }, over: 1_000 },
                ),
                alpha: Span { lo: 250_980, hi: 250_980 },
                fade_in: 100,
                fade_out: 900,
                rot: Span { lo: 0, hi: 16_777_216 },
                spin: Span { lo: 0, hi: 0 },
                gravity: 6_000,
                drag: 0,
            }),
        }
    }

    /// What the burst is made of.
    pub fn burst(self) -> (r: Burst)
        ensures
            r == self.make(),
            r.wf(),
    {
        match self {
            Kind::Chips => Burst {
                count: 28,
                sprite: Sprite::Debris,
                lift: 2_000,
                ball: 0,
                shell: Span { lo: 0, hi: 0 },
                along: Span { lo: 600, hi: 2_000 },
                scatter: 1_000,
                slide: None,
                speed: Span { lo: 250_000, hi: 650_000 },
                size0: Span { lo: 1_000, hi: 2_500 },
                size1: None,
                growth: 0,
                life: Span { lo: 400_000, hi: 800_000 },
                color0: Rgb { r: 500_000, g: 485_000, b: 460_000 },
                color1: Rgb { r: 680_000, g: 659_600, b: 625_600 },
                fade_to: None,
                alpha: Span { lo: 1_000_000, hi: 1_000_000 },
                fade_in: 0,
                fade_out: 300,
                rot: Span { lo: 0, hi: 16_777_216 },
                spin: Span { lo: -20_000, hi: 20_000 },
                gravity: -800_000,
                drag: 200,
            },
            Kind::Flash => Burst {
                count: 1,
                sprite: Sprite::Softglow,
                lift: 6_000,
                ball: 0,
                shell: Span { lo: 0, hi: 0 },
                along: Span { lo: 0, hi: 0 },
                scatter: 0,
                slide: None,
                speed: Span { lo: 0, hi: 0 },
                size0: Span { lo: 90_000, hi: 90_000 },
                size1: Some(Span { lo: 150_000, hi: 150_000 }),
                growth: 0,
                life: Span { lo: 220_000, hi: 220_000 },
                color0: Rgb { r: 1_000_000, g: 800_000, b: 500_000 },
                color1: Rgb { r: 1_000_000, g: 800_000, b: 500_000 },
                fade_to: None,
                alpha: Span { lo: 1_000_000, hi: 1_000_000 },
                fade_in: 80,
                fade_out: 600,
                rot: Span { lo: 0, hi: 16_777_216 },
                spin: Span { lo: 0, hi: 0 },
                gravity: 0,
                drag: 0,
            },
            Kind::Fireball => Burst {
                count: 3,
                sprite: Sprite::Glow,
                lift: 6_000,
                ball: 8_000,
                shell: Span { lo: 0, hi: 0 },
                along: Span { lo: 1_000, hi: 1_000 },
                scatter: 0,
                slide: None,
                speed: Span { lo: 30_000, hi: 30_000 },
                size0: Span { lo: 50_000, hi: 70_000 },
                size1: Some(Span { lo: 90_000, hi: 120_000 }),
                growth: 0,
                life: Span { lo: 250_000, hi: 400_000 },
                color0: Rgb { r: 1_000_000, g: 500_000, b: 150_000 },
                color1: Rgb { r: 1_000_000, g: 500_000, b: 150_000 },
                fade_to: None,
                alpha: Span { lo: 900_000, hi: 900_000 },
                fade_in: 50,
                fade_out: 700,
                rot: Span { lo: 0, hi: 16_777_216 },
                spin: Span { lo: -2_000, hi: 2_000 },
                gravity: 0,
                drag: 0,
            },
            Kind::Smoke => Burst {
                count: 10,
                sprite: Sprite::Smoke1,
                lift: 6_000,
                ball: 12_000,
                shell: Span { lo: 0, hi: 0 },
                along: Span { lo: 600, hi: 1_600 },
                scatter: 1_000,
                slide: None,
                speed: Span { lo: 80_000, hi: 200_000 },
                size0: Span { lo: 22_000, hi: 32_000 },
                size1: Some(Span { lo: 60_000, hi: 90_000 }),
                growth: 0,
                life: Span { lo: 1_000_000, hi: 1_700_000 },
                color0: Rgb { r: 660_000, g: 630_000, b: 590_000 },
                color1: Rgb { r: 660_000, g: 630_000, b: 590_000 },
                fade_to: None,
                alpha: Span { lo: 380_000, hi: 380_000 },
                fade_in: 50,
                fade_out: 600,
                rot: Span { lo: 0, hi: 16_777_216 },
                spin: Span { lo: -1_000, hi: 1_000 },
                gravity: 25_000,
                drag: 2_500,
            },
            Kind::Dust => Burst {
                count: 8,
                sprite: Sprite::Smoke1,
                lift: 6_000,
                ball: 0,
                shell: Span { lo: 0, hi: 0 },
                along: Span { lo: 20_000, hi: 20_000 },
                scatter: 0,
                slide: Some(10_000),
                speed: Span { lo: 200_000, hi: 320_000 },
                size0: Span { lo: 18_000, hi: 18_000 },
                size1: Some(Span { lo: 45_000, hi: 65_000 }),
                growth: 0,
                life: Span { lo: 700_000, hi: 1_100_000 },
                color0: Rgb { r: 700_000, g: 660_000, b: 600_000 },
                color1: Rgb { r: 700_000, g: 660_000, b: 600_000 },
                fade_to: None,
                alpha: Span { lo: 300_000, hi: 300_000 },
                fade_in: 50,
                fade_out: 500,
                rot: Span { lo: 0, hi: 16_777_216 },
                spin: Span { lo: -2_000, hi: 2_000 },
                gravity: 0,
                drag: 3_500,
            },
            Kind::Embers => Burst {
                count: 16,
                sprite: Sprite::Ember,
                lift: 6_000,
                ball: 0,
                shell: Span { lo: 0, hi: 0 },
                along: Span { lo: 500, hi: 1_500 },
                scatter: 1_200,
                slide: None,
                speed: Span { lo: 150_000, hi: 450_000 },
                size0: Span { lo: 3_000, hi: 5_000 },
                size1: Some(Span { lo: 1_000, hi: 1_000 }),
                growth: 0,
                life: Span { lo: 400_000, hi: 900_000 },
                color0: Rgb { r: 1_000_000, g: 550_000, b: 150_000 },
                color1: Rgb { r: 1_000_000, g: 550_000, b: 150_000 },
                fade_to: None,
                alpha: Span { lo: 1_000_000, hi: 1_000_000 },
                fade_in: 0,
                fade_out: 500,
                rot: Span { lo: 0, hi: 0 },
                spin: Span { lo: 0, hi: 0 },
                gravity: -800_000,
                drag: 500,
            },
            Kind::Chunks => Burst {
                count: 6,
                sprite: Sprite::Debris,
                lift: 6_000,
                ball: 0,
                shell: Span { lo: 0, hi: 0 },
                along: Span { lo: 800, hi: 1_800 },
                scatter: 1_000,
                slide: None,
                speed: Span { lo: 200_000, hi: 420_000 },
                size0: Span { lo: 5_000, hi: 9_000 },
                size1: Some(Span { lo: 5_000, hi: 9_000 }),
                growth: 0,
                life: Span { lo: 900_000, hi: 1_400_000 },
                color0: Rgb { r: 550_000, g: 500_000, b: 450_000 },
                color1: Rgb { r: 550_000, g: 500_000, b: 450_000 },
                fade_to: None,
                alpha: Span { lo: 1_000_000, hi: 1_000_000 },
                fade_in: 0,
                fade_out: 250,
                rot: Span { lo: 0, hi: 16_777_216 },
                spin: Span { lo: -12_000, hi: 12_000 },
                gravity: -800_000,
                drag: 300,
            },
            Kind::TrailSmoke => Burst {
                count: 150,
                sprite: Sprite::Smokelit,
                lift: 0,
                ball: 1_200,
                shell: Span { lo: 0, hi: 0 },
                along: Span { lo: 0, hi: 0 },
                scatter: 1_000,
                slide: None,
                speed: Span { lo: 1_000, hi: 1_000 },
                size0: Span { lo: 5_000, hi: 5_000 },
                size1: None,
                growth: 35_000,
                life: Span { lo: 800_000, hi: 1_200_000 },
                color0: Rgb { r: 968_627, g: 760_784, b: 458_824 },
                color1: Rgb { r: 984_314, g: 556_863, b: 0 },
                fade_to: Some(
                    FadeTo { color: Rgb { r: 764_706, g: 745_098, b: 792_157 }, over: 100 },
                ),
                alpha: Span { lo: 376_471, hi: 501_961 },
                fade_in: 50,
                fade_out: 900,
                rot: Span { lo: -2_097_152, hi: 0 },
                spin: Span { lo: 0, hi: 0 },
                gravity: 6_000,
                drag: 0,
            },
            Kind::TrailFire => Burst {
                count: 128,
                sprite: Sprite::Glow,
                lift: 0,
                ball: 0,
                shell: Span { lo: 1_000, hi: 2_000 },
                along: Span { lo: 0, hi: 0 },
                scatter: 0,
                slide: None,
                speed: Span { lo: 0, hi: 0 },
                size0: Span { lo: 30_000, hi: 30_000 },
                size1: Some(Span { lo: 0, hi: 0 }),
                growth: 0,
                life: Span { lo: 200_000, hi: 200_000 },
                color0: Rgb { r: 1_000_000, g: 658_824, b: 0 },
                color1: Rgb { r: 1_000_000, g: 917_647, b: 0 },
                fade_to: Some(
                    FadeTo { color: Rgb { r: 282_353, g: 145_098, b: 0 }, over: 1_000 },
                ),
                alpha: Span { lo: 250_980, hi: 250_980 },
                fade_in: 100,
                fade_out: 900,
                rot: Span { lo: 0, hi: 16_777_216 },
                spin: Span { lo: 0, hi: 0 },
                gravity: 6_000,
                drag: 0,
            },
        }
    }
}

impl Kind {
    /// What is drawn for a particle of the burst, in order; the rest is the same for all of them. A
    /// trail's particle has its place drawn first.
    pub open spec fn order(self) -> Seq<Draw> {
        match self {
            Kind::Chips => seq![
                Draw::Frame,
                Draw::Along,
                Draw::Aim,
                Draw::Size0,
                Draw::Mix,
                Draw::Speed,
                Draw::Life,
                Draw::Rot,
                Draw::Spin,
            ],
            Kind::Flash => seq![Draw::Rot],
            Kind::Fireball => seq![
                Draw::Ball,
                Draw::Life,
                Draw::Size0,
                Draw::Size1,
                Draw::Rot,
                Draw::Spin,
            ],
            Kind::Smoke => seq![
                Draw::Frame,
                Draw::Along,
                Draw::Aim,
                Draw::Ball,
                Draw::Speed,
                Draw::Life,
                Draw::Size0,
                Draw::Size1,
                Draw::Rot,
                Draw::Spin,
            ],
            Kind::Dust => seq![
                Draw::Heading,
                Draw::Frame,
                Draw::Speed,
                Draw::Life,
                Draw::Size1,
                Draw::Rot,
                Draw::Spin,
            ],
            Kind::Embers => seq![Draw::Along, Draw::Aim, Draw::Speed, Draw::Life, Draw::Size0],
            Kind::Chunks => seq![
                Draw::Frame,
                Draw::Along,
                Draw::Aim,
                Draw::Speed,
                Draw::Life,
                Draw::Size0,
                Draw::Size1,
                Draw::Rot,
                Draw::Spin,
            ],
            Kind::TrailSmoke => seq![
                Draw::Ball,
                Draw::Frame,
                Draw::Life,
                Draw::Aim,
                Draw::Mix,
                Draw::Alpha,
                Draw::Rot,
            ],
            Kind::TrailFire => seq![Draw::Aim, Draw::Shell, Draw::Mix, Draw::Rot],
        }
    }

    /// What is drawn for a particle of the burst, in order.
    pub fn draws(self) -> (r: Vec<Draw>)
        ensures
            r@ == self.order(),
    {
        let r = match self {
            Kind::Chips => vec![
                Draw::Frame,
                Draw::Along,
                Draw::Aim,
                Draw::Size0,
                Draw::Mix,
                Draw::Speed,
                Draw::Life,
                Draw::Rot,
                Draw::Spin,
            ],
            Kind::Flash => vec![Draw::Rot],
            Kind::Fireball => vec![
                Draw::Ball,
                Draw::Life,
                Draw::Size0,
                Draw::Size1,
                Draw::Rot,
                Draw::Spin,
            ],
            Kind::Smoke => vec![
                Draw::Frame,
                Draw::Along,
                Draw::Aim,
                Draw::Ball,
                Draw::Speed,
                Draw::Life,
                Draw::Size0,
                Draw::Size1,
                Draw::Rot,
                Draw::Spin,
            ],
            Kind::Dust => vec![
                Draw::Heading,
                Draw::Frame,
                Draw::Speed,
                Draw::Life,
                Draw::Size1,
                Draw::Rot,
                Draw::Spin,
            ],
            Kind::Embers => vec![Draw::Along, Draw::Aim, Draw::Speed, Draw::Life, Draw::Size0],
            Kind::Chunks => vec![
                Draw::Frame,
                Draw::Along,
                Draw::Aim,
                Draw::Speed,
                Draw::Life,
                Draw::Size0,
                Draw::Size1,
                Draw::Rot,
                Draw::Spin,
            ],
            Kind::TrailSmoke => vec![
                Draw::Ball,
                Draw::Frame,
                Draw::Life,
                Draw::Aim,
                Draw::Mix,
                Draw::Alpha,
                Draw::Rot,
            ],
            Kind::TrailFire => vec![Draw::Aim, Draw::Shell, Draw::Mix, Draw::Rot],
        };
        proof {
            assert(r@ =~= self.order());
        }
        r
    }
}

proof fn lemma_drawn_within(p: Birth, d: Draw, x: u64)
    requires
        p.burst.wf(),
        p.within(),
    ensures
        drawn_for(p, d, x).1.within(),
        drawn_for(p, d, x).1.burst == p.burst,
{
    let b = p.burst;
    law_draws_are_fractions(x);
    law_points_lie_in_the_ball(x);
    law_draws_stay_in_range(b.shell, x);
    law_draws_stay_in_range(b.along, x);
    law_draws_stay_in_range(b.speed, x);
    law_draws_stay_in_range(b.life, x);
    law_draws_stay_in_range(b.size0, x);
    law_draws_stay_in_range(b.alpha, x);
    law_draws_stay_in_range(b.rot, x);
    law_draws_stay_in_range(b.spin, x);
    if let Some(s) = b.size1 {
        law_draws_stay_in_range(s, x);
    }
    let n = b.sprite.frame_count() as int;
    let f = single((drawn(x) * n) as nat, 1) as int / 16_777_216;
    assert(0 <= f % n < n) by (nonlinear_arith)
        requires
            n > 0,
    ;
}

proof fn lemma_first_within(b: Burst, order: Seq<Draw>, x: u64, n: int)
    requires
        b.wf(),
    ensures
        drawn_first(b, order, x, n).1.within(),
        drawn_first(b, order, x, n).1.burst == b,
    decreases n,
{
    if n > 0 {
        lemma_first_within(b, order, x, n - 1);
        let (y, p) = drawn_first(b, order, x, n - 1);
        lemma_drawn_within(p, order[n - 1], y);
    } else {
        lemma_ball_from(x, 0);
    }
}

/// Whatever is drawn for a particle lies in the ranges of its burst.
pub proof fn law_births_keep_to_their_ranges(kind: Kind, x: u64)
    ensures
        drawn_first(kind.make(), kind.order(), x, kind.order().len() as int).1.within(),
{
    lemma_first_within(kind.make(), kind.order(), x, kind.order().len() as int);
}

/// The kinds of bursts an explosion is made of, in order.
pub open spec fn explosion_make() -> Seq<Kind> {
    seq![
        Kind::Chips,
        Kind::Flash,
        Kind::Fireball,
        Kind::Smoke,
        Kind::Dust,
        Kind::Embers,
        Kind::Chunks,
    ]
}

// ---- the particles ----

/// A living particle, and its age in nanoseconds.
#[derive(Clone, Copy, Debug, PartialEq, Eq, Structural)]
pub struct Particle {
    pub birth: Birth,
    pub age: u64,
}

/// The living particles and the generator's state.
pub struct Particles {
    pub list: Vec<Particle>,
    pub rng: u64,
}

/// New-born particles.
pub open spec fn fresh(births: Seq<Birth>) -> Seq<Particle> {
    births.map_values(|b: Birth| Particle { birth: b, age: 0 })
}

/// How many particles of a trail are born in a frame of `dt` nanoseconds, at `rate` a second.
pub open spec fn trail_count(rate: int, dt: u64) -> int {
    let n = (rate * dt + 999_999_999) / 1_000_000_000;
    if n < 1 {
        1
    } else {
        n
    }
}

/// Where along the way covered in the frame the `k`th of `n` particles is born, with draw `d`.
pub open spec fn trail_place(k: int, n: int, d: int) -> int {
    (k * UNITY + d) / n
}

/// The age of a particle born at `place` of a frame of `dt` nanoseconds.
pub open spec fn trail_age(place: int, dt: u64) -> int {
    (UNITY - place) * dt / (UNITY as int)
}

/// The first `k` of the `n` particles of a trail born in a frame, with their places, and the state
/// afterwards.
pub open spec fn trail_born(kind: Kind, x: u64, n: int, dt: u64, k: int) -> (
    u64,
    Seq<(Particle, int)>,
)
    decreases k,
{
    if k <= 0 {
        (x, Seq::empty())
    } else {
        let (y, before) = trail_born(kind, x, n, dt, k - 1);
        let place = trail_place(k - 1, n, drawn(y));
        let (z, birth) = born(kind, next(y));
        (
            z,
            before.push((Particle { birth, age: trail_age(place, dt) as u64 }, place)),
        )
    }
}

/// The particles of a trail, without their places.
pub open spec fn trail_particles(t: Seq<(Particle, int)>) -> Seq<Particle> {
    t.map_values(|e: (Particle, int)| e.0)
}

/// The places, as numbers.
pub open spec fn places_of(v: Seq<u32>) -> Seq<int> {
    v.map_values(|p: u32| p as int)
}

/// The places of a trail's particles.
pub open spec fn trail_places(t: Seq<(Particle, int)>) -> Seq<int> {
    t.map_values(|e: (Particle, int)| e.1)
}

proof fn lemma_place(k: int, n: int, d: int)
    requires
        0 <= k < n,
        0 <= d < UNITY,
    ensures
        0 <= trail_place(k, n, d) < UNITY,
{
    let p = k * 16_777_216 + d;
    assert(0 <= p / n < 16_777_216) by (nonlinear_arith)
        requires
            p == k * 16_777_216 + d,
            0 <= k < n,
            0 <= d < 16_777_216,
    ;
}

proof fn lemma_age(place: int, dt: u64)
    requires
        0 <= place < UNITY,
    ensures
        0 <= trail_age(place, dt) <= dt,
        0 <= (UNITY - place) * dt <= UNITY * dt,
{
    let w = UNITY - place;
    assert(0 <= w * dt / 16_777_216 <= dt && 0 <= w * dt <= 16_777_216 * dt) by (nonlinear_arith)
        requires
            0 < w <= 16_777_216,
            0 <= dt,
    ;
}

impl Particles {
    pub fn new() -> (r: Particles)
        ensures
            r.list@.len() == 0,
            r.rng == 0,
    {
        Particles { list: Vec::new(), rng: 0 }
    }

    /// A draw, in `UNITY`ths; presentation only, never touches the simulation.
    pub fn rand(&mut self) -> (r: u32)
        ensures
            r == drawn(old(self).rng),
            r < UNITY,
            final(self).rng == next(old(self).rng),
            final(self).list == old(self).list,
    {
        proof {
            law_draws_are_fractions(self.rng);
        }
        let mut x: u64 = self.rng;
        if x == 0 {
            x = SEED;
        }
        x = x ^ (x << 13);
        x = x ^ (x >> 7);
        x = x ^ (x << 17);
        self.rng = x;
        (x >> 40) as u32
    }

    /// A draw from a range.
    pub fn range(&mut self, s: Span) -> (r: i32)
        ensures
            (final(self).rng, r as int) == s.picked(old(self).rng),
            final(self).list == old(self).list,
    {
        proof {
            law_draws_stay_in_range(s, self.rng);
        }
        let d = self.rand();
        let w: i64 = s.hi as i64 - s.lo as i64;
        proof {
            let v = if w < 0 {
                -w
            } else {
                w as int
            };
            assert(0 <= v * d <= 0xFFFF_FFFF * 16_777_216) by (nonlinear_arith)
                requires
                    0 <= v <= 0xFFFF_FFFF,
                    0 <= d <= 16_777_216,
            ;
            assert((-v) * d == -(v * d)) by (nonlinear_arith);
        }
        // Division rounds towards zero; a falling range is rounded down by counting from its start.
        if w >= 0 {
            (s.lo as i64 + w * d as i64 / UNITY as i64) as i32
        } else {
            (s.lo as i64 - ((-w) * d as i64 + (UNITY as i64 - 1)) / UNITY as i64) as i32
        }
    }

    /// A random frame of a sprite's strip.
    pub fn frame_for(&mut self, sprite: Sprite) -> (r: u32)
        ensures
            r == frame_at(drawn(old(self).rng), sprite.frame_count()),
            r < sprite.frame_count(),
            final(self).rng == next(old(self).rng),
            final(self).list == old(self).list,
    {
        let d = self.rand();
        let n = sprite.frames();
        proof {
            assert(0 <= d * n <= 16_777_216 * 6) by (nonlinear_arith)
                requires
                    0 <= d < 16_777_216,
                    0 < n <= 6,
            ;
        }
        let product: u128 = to_single(d as u128 * n as u128, 1);
        (product / UNITY as u128 % n as u128) as u32
    }

    /// A point drawn from a ball: the first point of the cube around it that lies inside.
    pub fn sphere(&mut self) -> (r: Point)
        ensures
            (final(self).rng, r) == ball(old(self).rng),
            r.inside(),
            final(self).list == old(self).list,
    {
        proof {
            law_points_lie_in_the_ball(self.rng);
        }
        let mut tries: u64 = u64::MAX;
        while tries > 0
            invariant
                ball_from(self.rng, tries as nat) == ball(old(self).rng),
                self.list == old(self).list,
            decreases tries,
        {
            let x: i64 = 2 * self.rand() as i64 - UNITY as i64;
            let y: i64 = 2 * self.rand() as i64 - UNITY as i64;
            let z: i64 = 2 * self.rand() as i64 - UNITY as i64;
            let p = Point { x: x as i32, y: y as i32, z: z as i32 };
            if p.in_ball() {
                return p;
            }
            tries = tries - 1;
        }
        Point { x: 0, y: 0, z: 0 }
    }

    /// One thing is drawn for a particle.
    fn draw(&mut self, p: Birth, d: Draw) -> (r: Birth)
        ensures
            (final(self).rng, r) == drawn_for(p, d, old(self).rng),
            final(self).list == old(self).list,
    {
        let b = p.burst;
        match d {
            Draw::Frame => Birth { frame: self.frame_for(b.sprite), ..p },
            Draw::Shell => Birth { shell: self.range(b.shell), ..p },
            Draw::Along => Birth { along: self.range(b.along), ..p },
            Draw::Heading => Birth { heading: self.rand(), ..p },
            Draw::Speed => Birth { speed: self.range(b.speed), ..p },
            Draw::Life => Birth { life: self.range(b.life), ..p },
            Draw::Size0 => Birth { size0: self.range(b.size0), ..p },
            Draw::Size1 => match b.size1 {
                Some(s) => Birth { size1: self.range(s), ..p },
                None => p,
            },
            Draw::Mix => Birth { mix: self.rand(), ..p },
            Draw::Alpha => Birth { alpha: self.range(b.alpha), ..p },
            Draw::Rot => Birth { rot: self.range(b.rot), ..p },
            Draw::Spin => Birth { spin: self.range(b.spin), ..p },
            Draw::Ball => Birth { ball: self.sphere(), ..p },
            Draw::Aim => Birth { aim: self.sphere(), ..p },
        }
    }

    /// One particle's birth.
    fn bear(&mut self, kind: Kind) -> (r: Birth)
        ensures
            (final(self).rng, r) == born(kind, old(self).rng),
            final(self).list == old(self).list,
    {
        let b = kind.burst();
        let order = kind.draws();
        let ghost x0 = self.rng;
        let mut p = Birth {
            burst: b,
            frame: 0,
            shell: b.shell.lo,
            along: b.along.lo,
            heading: 0,
            speed: b.speed.lo,
            life: b.life.lo,
            size0: b.size0.lo,
            size1: match b.size1 {
                Some(s) => s.lo,
                None => 0,
            },
            mix: 0,
            alpha: b.alpha.lo,
            rot: b.rot.lo,
            spin: b.spin.lo,
            ball: Point { x: 0, y: 0, z: 0 },
            aim: Point { x: 0, y: 0, z: 0 },
        };
        let mut i: usize = 0;
        while i < order.len()
            invariant
                i <= order@.len(),
                (self.rng, p) == drawn_first(b, order@, x0, i as int),
                self.list == old(self).list,
            decreases order.len() - i,
        {
            p = self.draw(p, order[i]);
            i = i + 1;
        }
        proof {
            lemma_first_within(b, order@, x0, i as int);
            let (g, life) = (b.growth as int, p.life as int);
            assert(0 <= g * life <= 1_000_000 * 10_000_000) by (nonlinear_arith)
                requires
                    0 <= g <= 1_000_000,
                    0 <= life <= 10_000_000,
            ;
        }
        let more: i64 = b.growth as i64 * p.life as i64 / 1_500_000;
        let last = if b.size1.is_some() {
            p.size1
        } else {
            p.size0
        };
        Birth { size1: (last as i64 + more) as i32, ..p }
    }

    /// An explosion: wall fragments, flash, fireball, smoke cloud, dust along the surface, embers and
    /// debris come to life.
    pub fn explosion(&mut self)
        ensures
            ({
                let (x, births) = all_born(explosion_make(), old(self).rng, 7);
                &&& final(self).rng == x
                &&& final(self).list@ == old(self).list@ + fresh(births)
            }),
    {
        let kinds: Vec<Kind> = vec![
            Kind::Chips,
            Kind::Flash,
            Kind::Fireball,
            Kind::Smoke,
            Kind::Dust,
            Kind::Embers,
            Kind::Chunks,
        ];
        let ghost x0 = self.rng;
        let ghost start = self.list@;
        let mut i: usize = 0;
        proof {
            assert(kinds@ =~= explosion_make());
            assert(start =~= start + fresh(Seq::empty()));
        }
        while i < kinds.len()
            invariant
                i <= kinds@.len(),
                kinds@ == explosion_make(),
                self.rng == all_born(kinds@, x0, i as int).0,
                self.list@ == start + fresh(all_born(kinds@, x0, i as int).1),
            decreases kinds.len() - i,
        {
            let kind = kinds[i];
            let count = kind.burst().count;
            let ghost y = self.rng;
            let ghost before = all_born(kinds@, x0, i as int).1;
            let mut k: u32 = 0;
            proof {
                assert(self.list@ =~= start + fresh(before + burst_born(kind, y, 0).1));
            }
            while k < count
                invariant
                    k <= count,
                    self.rng == burst_born(kind, y, k as int).0,
                    self.list@ == start + fresh(before + burst_born(kind, y, k as int).1),
                decreases count - k,
            {
                let ghost so_far = burst_born(kind, y, k as int).1;
                let birth = self.bear(kind);
                self.list.push(Particle { birth, age: 0 });
                k = k + 1;
                proof {
                    assert(burst_born(kind, y, k as int).1 == so_far.push(birth));
                    assert(fresh(before + so_far.push(birth)) =~= fresh(before + so_far).push(
                        Particle { birth, age: 0 },
                    ));
                    assert(self.list@ =~= start + fresh(before + burst_born(kind, y, k as int).1));
                }
            }
            i = i + 1;
        }
    }

    /// One trail of a rocket's: its particles are spread along the way covered this frame, so that it
    /// has no gaps at low frame rates. What comes back is where along that way each is born, in
    /// `UNITY`ths.
    pub fn trail(&mut self, kind: Kind, dt: u64) -> (r: Vec<u32>)
        ensures
            ({
                let b = kind.make();
                let n = trail_count(b.count as int, dt);
                let (x, born) = trail_born(kind, old(self).rng, n, dt, n);
                &&& final(self).rng == x
                &&& final(self).list@ == old(self).list@ + trail_particles(born)
                &&& places_of(r@) == trail_places(born)
            }),
    {
        let b = kind.burst();
        let ghost x0 = self.rng;
        let ghost start = self.list@;
        proof {
            let c = b.count as int;
            assert(0 <= c * dt <= 0xFFFF_FFFF * 0xFFFF_FFFF_FFFF_FFFF) by (nonlinear_arith)
                requires
                    0 <= c <= 0xFFFF_FFFF,
                    0 <= dt <= 0xFFFF_FFFF_FFFF_FFFF,
            ;
        }
        let n: u128 = (b.count as u128 * dt as u128 + 999_999_999) / 1_000_000_000;
        let n: u128 = if n < 1 {
            1
        } else {
            n
        };
        let mut places: Vec<u32> = Vec::new();
        let mut k: u128 = 0;
        proof {
            assert(start =~= start + trail_particles(Seq::empty()));
            assert(places_of(places@) =~= trail_places(Seq::empty()));
        }
        while k < n
            invariant
                k <= n,
                n <= 0x1_0000_0000 * 0x1_0000_0000_0000_0000,
                self.rng == trail_born(kind, x0, n as int, dt, k as int).0,
                self.list@ == start + trail_particles(
                    trail_born(kind, x0, n as int, dt, k as int).1,
                ),
                places_of(places@) == trail_places(trail_born(kind, x0, n as int, dt, k as int).1),
            decreases n - k,
        {
            let ghost y = self.rng;
            let ghost so_far = trail_born(kind, x0, n as int, dt, k as int).1;
            let d = self.rand();
            proof {
                lemma_place(k as int, n as int, d as int);
                lemma_age(trail_place(k as int, n as int, d as int), dt);
            }
            let place: u128 = (k * UNITY as u128 + d as u128) / n;
            let age: u128 = (UNITY as u128 - place) * dt as u128 / UNITY as u128;
            let birth = self.bear(kind);
            let p = Particle { birth, age: age as u64 };
            self.list.push(p);
            let ghost placed = places@;
            places.push(place as u32);
            k = k + 1;
            proof {
                let now = trail_born(kind, x0, n as int, dt, k as int).1;
                assert(now == so_far.push((p, place as int)));
                assert(trail_particles(now) =~= trail_particles(so_far).push(p));
                assert(self.list@ =~= start + trail_particles(now));
                assert(trail_places(now) =~= trail_places(so_far).push(place as int));
                assert(places_of(places@) =~= places_of(placed).push(place as int));
            }
        }
        places
    }

    /// A rocket's trail this frame, smoke and fire: where along its way each particle is born.
    pub fn rocket_trail(&mut self, dt: u64) -> (r: (Vec<u32>, Vec<u32>))
        ensures
            ({
                let n = trail_count(150, dt);
                let m = trail_count(128, dt);
                let (x, smoke) = trail_born(Kind::TrailSmoke, old(self).rng, n, dt, n);
                let (y, fire) = trail_born(Kind::TrailFire, x, m, dt, m);
                &&& final(self).rng == y
                &&& final(self).list@ == old(self).list@ + trail_particles(smoke)
                    + trail_particles(fire)
                &&& places_of(r.0@) == trail_places(smoke)
                &&& places_of(r.1@) == trail_places(fire)
            }),
    {
        let smoke = self.trail(Kind::TrailSmoke, dt);
        let fire = self.trail(Kind::TrailFire, dt);
        (smoke, fire)
    }
}

proof fn lemma_square(a: i64)
    requires
        -16_777_216 <= a <= 16_777_216,
    ensures
        0 <= a * a <= 16_777_216 * 16_777_216,
{
    assert(0 <= a * a <= 16_777_216 * 16_777_216) by (nonlinear_arith)
        requires
            -16_777_216 <= a <= 16_777_216,
    ;
}

impl Point {
    /// Whether it lies in the ball.
    fn in_ball(&self) -> (r: bool)
        requires
            -UNITY <= self.x <= UNITY,
            -UNITY <= self.y <= UNITY,
            -UNITY <= self.z <= UNITY,
        ensures
            r == self.inside(),
    {
        let (x, y, z) = (self.x as i64, self.y as i64, self.z as i64);
        proof {
            lemma_square(x);
            lemma_square(y);
            lemma_square(z);
        }
        let a = to_single((x * x) as u128, 1);
        let b = to_single((y * y) as u128, 1);
        let c = to_single((z * z) as u128, 1);
        to_single(to_single(a + b, 1) + c, 1) <= UNITY as u128 * UNITY as u128
    }
}

/// An explosion is made of seventy-two particles, whatever is drawn.
pub proof fn law_explosions_are_alike(x: u64)
    ensures
        all_born(explosion_make(), x, 7).1.len() == 72,
{
    let bs = explosion_make();
    assert(bs[0].make().count == 28 && bs[1].make().count == 1 && bs[2].make().count == 3
        && bs[3].make().count == 10 && bs[4].make().count == 8 && bs[5].make().count == 16
        && bs[6].make().count == 6);
    lemma_born_len(bs, x, 1);
    lemma_born_len(bs, x, 2);
    lemma_born_len(bs, x, 3);
    lemma_born_len(bs, x, 4);
    lemma_born_len(bs, x, 5);
    lemma_born_len(bs, x, 6);
    lemma_born_len(bs, x, 7);
}

proof fn lemma_born_len(bs: Seq<Kind>, x: u64, n: int)
    requires
        0 < n <= bs.len(),
    ensures
        all_born(bs, x, 0).1.len() == 0,
        all_born(bs, x, n).1.len() == all_born(bs, x, n - 1).1.len() + bs[n - 1].make().count,
{
    lemma_burst_len(bs[n - 1], all_born(bs, x, n - 1).0, bs[n - 1].make().count as int);
}

proof fn lemma_burst_len(b: Kind, x: u64, n: int)
    requires
        n >= 0,
    ensures
        burst_born(b, x, n).1.len() == n,
    decreases n,
{
    if n > 0 {
        lemma_burst_len(b, x, n - 1);
    }
}

// ---- a particle's life ----

impl Particle {
    pub open spec fn wf(self) -> bool {
        &&& self.birth.life > 0
        &&& self.birth.size0 >= 0
        &&& self.birth.size1 >= 0
        &&& 0 <= self.birth.alpha <= 1_000_000
        &&& self.birth.burst.fade_in <= 1_000
        &&& self.birth.burst.fade_out <= 1_000
    }

    /// How much of its life is over, in millionths.
    pub open spec fn lived(self) -> int {
        clamped(self.age * 1_000 / (self.birth.life as int), 0, 1_000_000)
    }

    /// How far a fade that takes `over` thousandths of the life is after `t` millionths of it.
    pub open spec fn fade(t: int, over: u32) -> int {
        if over == 0 {
            1_000_000
        } else {
            clamped(t * 1_000 / (over as int), 0, 1_000_000)
        }
    }

    /// Its alpha now, in millionths.
    pub open spec fn alpha_of(self) -> int {
        let t = self.lived();
        self.birth.alpha * Self::fade(t, self.birth.burst.fade_in) / 1_000_000 * Self::fade(
            1_000_000 - t,
            self.birth.burst.fade_out,
        ) / 1_000_000
    }

    /// Its diameter now.
    pub open spec fn size_of(self) -> int {
        self.birth.size0 + (self.birth.size1 - self.birth.size0) * self.lived() / 1_000_000
    }

    /// How much of its life is over, in millionths.
    pub fn t(&self) -> (r: u32)
        requires
            self.wf(),
        ensures
            r == self.lived(),
            r <= 1_000_000,
    {
        let q: u128 = self.age as u128 * 1_000 / self.birth.life as u128;
        if q > 1_000_000 {
            1_000_000
        } else {
            q as u32
        }
    }

    fn faded(t: u32, over: u32) -> (r: u32)
        requires
            t <= 1_000_000,
        ensures
            r == Self::fade(t as int, over),
            r <= 1_000_000,
    {
        if over == 0 {
            return 1_000_000;
        }
        let q: u64 = t as u64 * 1_000 / over as u64;
        proof {
            assert(t * 1_000 / (over as int) >= 0) by (nonlinear_arith)
                requires
                    t >= 0,
                    over > 0,
            ;
        }
        if q > 1_000_000 {
            1_000_000
        } else {
            q as u32
        }
    }

    /// Its alpha now, in millionths.
    pub fn alpha_now(&self) -> (r: u32)
        requires
            self.wf(),
        ensures
            r == self.alpha_of(),
            r <= self.birth.alpha,
    {
        let t = self.t();
        let a = self.birth.alpha as u64;
        let fi = Self::faded(t, self.birth.burst.fade_in) as u64;
        let fo = Self::faded(1_000_000 - t, self.birth.burst.fade_out) as u64;
        proof {
            lemma_share(a as int, fi as int);
            lemma_share(a * fi / 1_000_000, fo as int);
        }
        (a * fi / 1_000_000 * fo / 1_000_000) as u32
    }

    /// Its diameter now.
    pub fn size_now(&self) -> (r: i32)
        requires
            self.wf(),
        ensures
            r == self.size_of(),
            r >= 0,
    {
        let t = self.t();
        let (a, b) = (self.birth.size0 as i64, self.birth.size1 as i64);
        proof {
            lemma_between(a as int, b as int, t as int);
        }
        // Division rounds towards zero; a shrinking size is rounded down by counting from the end.
        if b >= a {
            (a + (b - a) * t as i64 / 1_000_000) as i32
        } else {
            (a - ((a - b) * t as i64 + 999_999) / 1_000_000) as i32
        }
    }

    /// How far its colour has faded, in millionths, where it fades.
    pub fn color_fade(&self) -> (r: Option<u32>)
        requires
            self.wf(),
        ensures
            r == match self.birth.burst.fade_to {
                Some(f) => if f.over > 0 {
                    Some(Self::fade(self.lived(), f.over) as u32)
                } else {
                    None
                },
                None => None,
            },
    {
        match self.birth.burst.fade_to {
            Some(f) => if f.over > 0 {
                Some(Self::faded(self.t(), f.over))
            } else {
                None
            },
            None => None,
        }
    }
}

proof fn lemma_share(a: int, f: int)
    requires
        0 <= a <= 1_000_000,
        0 <= f <= 1_000_000,
    ensures
        0 <= a * f <= 1_000_000 * 1_000_000,
        0 <= a * f / 1_000_000 <= a,
{
    assert(0 <= a * f <= a * 1_000_000) by (nonlinear_arith)
        requires
            0 <= a,
            0 <= f <= 1_000_000,
    ;
}

proof fn lemma_between(a: int, b: int, t: int)
    requires
        0 <= a <= i32::MAX,
        0 <= b <= i32::MAX,
        0 <= t <= 1_000_000,
    ensures
        b >= a ==> 0 <= (b - a) * t <= (b - a) * 1_000_000,
        b < a ==> 0 <= (a - b) * t <= (a - b) * 1_000_000,
        (b - a) * t == -((a - b) * t),
{
    assert((b - a) * t == -((a - b) * t)) by (nonlinear_arith);
    if b >= a {
        let w = b - a;
        assert(0 <= w * t <= w * 1_000_000) by (nonlinear_arith)
            requires
                w >= 0,
                0 <= t <= 1_000_000,
        ;
    } else {
        let w = a - b;
        assert(0 <= w * t <= w * 1_000_000) by (nonlinear_arith)
            requires
                w >= 0,
                0 <= t <= 1_000_000,
        ;
    }
}

/// A particle that fades out is gone by the end of its life: nothing is seen of it then.
pub proof fn law_particles_fade_away(p: Particle)
    requires
        p.wf(),
        p.birth.burst.fade_out > 0,
        p.age >= p.birth.life * 1_000,
    ensures
        p.alpha_of() == 0,
{
    let life = p.birth.life as int;
    let a = p.age * 1_000;
    assert(a / life >= 1_000_000) by (nonlinear_arith)
        requires
            life > 0,
            a >= life * 1_000_000,
    ;
    assert(p.lived() == 1_000_000);
    let over = p.birth.burst.fade_out as int;
    assert((0int * 1_000) / over == 0) by (nonlinear_arith)
        requires
            over > 0,
    ;
    let x = p.birth.alpha * Particle::fade(p.lived(), p.birth.burst.fade_in) / 1_000_000;
    assert(x * 0 == 0) by (nonlinear_arith);
}

/// A particle after `dt` nanoseconds.
pub open spec fn aged(p: Particle, dt: u64) -> Particle {
    Particle { age: crate::clock::later(p.age, dt) as u64, ..p }
}

/// Whether a particle is still alive.
pub open spec fn alive(p: Particle) -> bool {
    p.age < p.birth.life * 1_000
}

/// The first `n` particles a frame later, without the dead.
pub open spec fn survivors(ps: Seq<Particle>, dt: u64, n: int) -> Seq<Particle>
    decreases n,
{
    if n <= 0 {
        Seq::empty()
    } else {
        let p = aged(ps[n - 1], dt);
        if alive(p) {
            survivors(ps, dt, n - 1).push(p)
        } else {
            survivors(ps, dt, n - 1)
        }
    }
}

impl Particles {
    /// A frame passes: the particles age, and those whose life is over go. What comes back says of
    /// each whether it stays.
    pub fn update_particles(&mut self, dt: u64) -> (r: Vec<bool>)
        ensures
            final(self).list@ == survivors(
                old(self).list@,
                dt,
                old(self).list@.len() as int,
            ),
            final(self).rng == old(self).rng,
            r@ == old(self).list@.map_values(|p: Particle| alive(aged(p, dt))),
    {
        let mut list: Vec<Particle> = Vec::new();
        let mut stays: Vec<bool> = Vec::new();
        let mut i: usize = 0;
        while i < self.list.len()
            invariant
                i <= self.list@.len(),
                self.list == old(self).list,
                self.rng == old(self).rng,
                list@ == survivors(self.list@, dt, i as int),
                stays@ == self.list@.take(i as int).map_values(
                    |p: Particle| alive(aged(p, dt)),
                ),
            decreases self.list.len() - i,
        {
            let p = Particle {
                birth: self.list[i].birth,
                age: crate::clock::after(self.list[i].age, dt),
            };
            let lives = p.birth.life > 0 && p.age < p.birth.life as u64 * 1_000;
            if lives {
                list.push(p);
            }
            stays.push(lives);
            i = i + 1;
            proof {
                assert(stays@ =~= self.list@.take(i as int).map_values(
                    |p: Particle| alive(aged(p, dt)),
                ));
            }
        }
        proof {
            assert(self.list@.take(i as int) =~= self.list@);
        }
        self.list = list;
        stays
    }

    /// The match is over.
    pub fn clear(&mut self)
        ensures
            final(self).list@.len() == 0,
            final(self).rng == old(self).rng,
    {
        self.list = Vec::new();
    }
}

/// The corners of the two triangles of each of `n` quads.
pub open spec fn corner(i: int) -> int {
    4 * (i / 6) + if i % 6 == 0 || i % 6 == 3 {
        0int
    } else if i % 6 == 1 {
        1
    } else if i % 6 == 2 || i % 6 == 4 {
        2
    } else {
        3
    }
}

/// The index buffer of a layer of `n` quads: two triangles each.
pub fn quad_indices(n: u32) -> (r: Vec<u32>)
    requires
        4 * n <= u32::MAX,
    ensures
        r@.len() == 6 * n,
        forall|i: int| 0 <= i < r@.len() ==> (#[trigger] r@[i]) == corner(i),
{
    let mut out: Vec<u32> = Vec::new();
    let mut k: u32 = 0;
    while k < n
        invariant
            k <= n,
            4 * n <= u32::MAX,
            out@.len() == 6 * k,
            forall|i: int| 0 <= i < out@.len() ==> (#[trigger] out@[i]) == corner(i),
        decreases n - k,
    {
        let base: u32 = 4 * k;
        out.push(base);
        out.push(base + 1);
        out.push(base + 2);
        out.push(base);
        out.push(base + 2);
        out.push(base + 3);
        k = k + 1;
    }
    out
}

/// What becomes of a sprite's layer in a frame.
#[derive(Clone, Copy, Debug, PartialEq, Eq, Structural)]
pub enum LayerTurn {
    /// Nothing to draw, as before.
    Hidden,
    /// Nothing to draw any more: hidden, and its mesh replaced by an empty one.
    Emptied,
    /// Drawn, with a new mesh.
    Drawn,
}

/// What becomes of a sprite's layer with `count` particles in it.
pub fn layer_turn(count: usize, hidden: bool) -> (r: LayerTurn)
    ensures
        r == if count > 0 {
            LayerTurn::Drawn
        } else if hidden {
            LayerTurn::Hidden
        } else {
            LayerTurn::Emptied
        },
{
    if count > 0 {
        LayerTurn::Drawn
    } else if hidden {
        LayerTurn::Hidden
    } else {
        LayerTurn::Emptied
    }
}

/// A step of the generator is a 64-bit xorshift (13 left, 7 right, 17 left), from the seed where it
/// stands at zero; a draw is the upper 24 bits of the step.
pub proof fn law_how_a_draw_is_made(x: u64)
    ensures
        x != 0 ==> ({
            let a = x ^ (x << 13);
            let b = a ^ (a >> 7);
            next(x) == b ^ (b << 17)
        }),
        next(0) == next(11_400_714_819_323_198_485),
        drawn(x) == next(x) / 1_099_511_627_776,
{
    let y = next(x);
    assert(y >> 40 == y / 1_099_511_627_776) by (bit_vector);
}

/// A draw picks from its range evenly: the lower end at zero, half way at a half, and a larger draw
/// never less.
pub proof fn law_draws_spread_evenly(s: Span, d: int, e: int)
    requires
        s.wf(),
        0 <= d <= e <= UNITY,
    ensures
        s.at(0) == s.lo,
        s.at(UNITY as int) == s.hi,
        s.at(d) <= s.at(e),
{
    let w = s.hi - s.lo;
    let u = UNITY as int;
    assert(w * 0 / u == 0) by {
        assert(w * 0 == 0);
    }
    vstd::arithmetic::div_mod::lemma_div_multiples_vanish(w, u);
    assert(w * u == u * w) by (nonlinear_arith);
    assert(w * d <= w * e) by (nonlinear_arith)
        requires
            0 <= w,
            d <= e,
    ;
    vstd::arithmetic::div_mod::lemma_div_is_ordered(w * d, w * e, u);
}

/// A particle's life runs from nothing to the whole of it, and never back; it is drawn while there
/// is some of it left.
pub proof fn law_how_a_life_runs(p: Particle, dt: u64)
    requires
        p.wf(),
    ensures
        p.age == 0 ==> p.lived() == 0,
        p.age >= p.birth.life * 1_000 ==> p.lived() == 1_000_000,
        p.lived() <= aged(p, dt).lived(),
        alive(p) <==> p.age < p.birth.life * 1_000,
        !alive(p) ==> !alive(aged(p, dt)),
        p.age + dt <= u64::MAX ==> aged(p, dt).age == p.age + dt,
        aged(p, dt).birth == p.birth,
{
    let d = p.birth.life as int;
    let a = p.age as int;
    let b = aged(p, dt).age as int;
    vstd::arithmetic::div_mod::lemma_div_is_ordered(a * 1_000, b * 1_000, d);
    if a == 0 {
        assert(0int / d == 0) by (nonlinear_arith)
            requires
                d > 0,
        ;
    }
    if a >= d * 1_000 {
        vstd::arithmetic::div_mod::lemma_div_is_ordered(d * 1_000_000, a * 1_000, d);
        vstd::arithmetic::div_mod::lemma_div_multiples_vanish(1_000_000, d);
    }
}

/// A fade begins at nothing, ends at everything, and never goes back; one that takes no time is over
/// at once.
pub proof fn law_how_a_fade_runs(t: int, u: int, over: u32)
    requires
        0 <= t <= u <= 1_000_000,
        over <= 1_000,
    ensures
        Particle::fade(t, 0) == 1_000_000,
        over > 0 ==> Particle::fade(0, over) == 0,
        over > 0 && t >= 1_000 * over ==> Particle::fade(t, over) == 1_000_000,
        Particle::fade(t, over) <= Particle::fade(u, over),
        0 <= Particle::fade(t, over) <= 1_000_000,
{
    if over > 0 {
        let d = over as int;
        vstd::arithmetic::div_mod::lemma_div_is_ordered(t * 1_000, u * 1_000, d);
        assert(0int / d == 0) by (nonlinear_arith)
            requires
                d > 0,
        ;
        assert(t * 1_000 / d >= 0) by (nonlinear_arith)
            requires
                d > 0,
                t >= 0,
        ;
        if t >= 1_000 * d {
            vstd::arithmetic::div_mod::lemma_div_is_ordered(d * 1_000_000, t * 1_000, d);
            vstd::arithmetic::div_mod::lemma_div_multiples_vanish(1_000_000, d);
        }
    }
}

/// A particle is as opaque as it was born once it has faded in and before it fades out, and grows
/// from its first size to its last.
pub proof fn law_how_a_particle_looks(p: Particle)
    requires
        p.wf(),
    ensures
        p.lived() >= 1_000 * p.birth.burst.fade_in && 1_000_000 - p.lived() >= 1_000
            * p.birth.burst.fade_out ==> p.alpha_of() == p.birth.alpha,
        p.age == 0 && p.birth.burst.fade_in > 0 ==> p.alpha_of() == 0,
        p.age == 0 ==> p.size_of() == p.birth.size0,
        p.age >= p.birth.life * 1_000 ==> p.size_of() == p.birth.size1,
{
    law_how_a_life_runs(p, 0);
    let t = p.lived();
    law_how_a_fade_runs(t, t, p.birth.burst.fade_in);
    law_how_a_fade_runs(1_000_000 - t, 1_000_000 - t, p.birth.burst.fade_out);
    let a = p.birth.alpha as int;
    let fi = Particle::fade(t, p.birth.burst.fade_in);
    let fo = Particle::fade(1_000_000 - t, p.birth.burst.fade_out);
    if fi == 1_000_000 && fo == 1_000_000 {
        assert(a * fi / 1_000_000 == a);
        assert(a * fo / 1_000_000 == a);
    }
    if fi == 0 {
        assert(a * fi == 0) by (nonlinear_arith)
            requires
                fi == 0,
        ;
        assert(0 * fo == 0);
    }
    let g = p.birth.size1 - p.birth.size0;
    if t == 0 {
        assert(g * t == 0) by (nonlinear_arith)
            requires
                t == 0,
        ;
    }
    if t == 1_000_000 {
        assert(g * t / 1_000_000 == g);
    }
}

/// After a step the particles that are still alive are left, older by the step, in order.
pub proof fn law_who_survives_a_step(ps: Seq<Particle>, dt: u64, n: int)
    requires
        0 < n <= ps.len(),
    ensures
        ({
            let p = Particle { age: crate::clock::later(ps[n - 1].age, dt) as u64, ..ps[n - 1] };
            &&& p.age < p.birth.life * 1_000 ==> survivors(ps, dt, n) == survivors(
                ps,
                dt,
                n - 1,
            ).push(p)
            &&& p.age >= p.birth.life * 1_000 ==> survivors(ps, dt, n) == survivors(ps, dt, n - 1)
        }),
        survivors(ps, dt, 0).len() == 0,
{
}

/// A trail puffs at its rate: at least once, and otherwise as often as the time holds, rounded up.
pub proof fn law_how_often_a_trail_puffs(rate: int, dt: u64)
    requires
        rate >= 0,
    ensures
        trail_count(rate, dt) >= 1,
        1_000_000_000 * trail_count(rate, dt) >= rate * dt,
        trail_count(rate, dt) > 1 ==> 1_000_000_000 * (trail_count(rate, dt) - 1) < rate * dt,
{
}

/// The puffs of a trail lie along the way, one behind the other, and those nearer its beginning are
/// older.
pub proof fn law_where_a_trail_puffs(k: int, n: int, d: int, e: int, dt: u64)
    requires
        0 <= k < n,
        0 <= d < UNITY,
        0 <= e < UNITY,
    ensures
        0 <= trail_place(k, n, d) < UNITY,
        trail_place(k, n, d) <= trail_place(k + 1, n, e),
        0 <= trail_age(trail_place(k, n, d), dt) <= dt,
        trail_age(trail_place(k + 1, n, e), dt) <= trail_age(trail_place(k, n, d), dt),
{
    let u = UNITY as int;
    let a = k * u + d;
    let b = (k + 1) * u + e;
    assert(0 <= a <= b && a < n * u) by (nonlinear_arith)
        requires
            a == k * u + d,
            b == (k + 1) * u + e,
            0 <= k < n,
            0 <= d < u,
            0 <= e,
    ;
    vstd::arithmetic::div_mod::lemma_div_is_ordered(a, b, n);
    assert(0 <= a / n < u) by (nonlinear_arith)
        requires
            0 <= a < n * u,
            n > 0,
    ;
    let p = a / n;
    let q = b / n;
    assert((u - q) * dt <= (u - p) * dt && 0 <= (u - p) * dt <= u * dt) by (nonlinear_arith)
        requires
            p <= q,
            0 <= p < u,
            dt >= 0,
    ;
    vstd::arithmetic::div_mod::lemma_div_is_ordered((u - q) * dt, (u - p) * dt, u);
    vstd::arithmetic::div_mod::lemma_div_is_ordered((u - p) * dt, u * dt, u);
    vstd::arithmetic::div_mod::lemma_div_multiples_vanish(dt as int, u);
}

/// A square is two triangles over its four corners, each square with corners of its own.
pub proof fn law_how_a_square_is_drawn(k: int)
    requires
        k >= 0,
    ensures
        corner(6 * k) == 4 * k,
        corner(6 * k + 1) == 4 * k + 1,
        corner(6 * k + 2) == 4 * k + 2,
        corner(6 * k + 3) == 4 * k,
        corner(6 * k + 4) == 4 * k + 2,
        corner(6 * k + 5) == 4 * k + 3,
{
}

/// Chips, embers and chunks fall; smoke rises; what is solid is drawn as debris and what burns as a
/// glow.
pub proof fn law_what_an_explosion_throws()
    ensures
        Kind::Chips.make().gravity < 0,
        Kind::Embers.make().gravity < 0,
        Kind::Chunks.make().gravity < 0,
        Kind::Smoke.make().gravity > 0,
        Kind::TrailSmoke.make().gravity > 0,
        Kind::Chips.make().sprite == Sprite::Debris,
        Kind::Chunks.make().sprite == Sprite::Debris,
        Kind::Flash.make().sprite == Sprite::Softglow,
        Kind::Fireball.make().sprite == Sprite::Glow,
        Kind::TrailFire.make().sprite == Sprite::Glow,
        Kind::Embers.make().sprite == Sprite::Ember,
        Kind::Smoke.make().sprite == Sprite::Smoke1,
        Kind::Dust.make().sprite == Sprite::Smoke1,
        Kind::TrailSmoke.make().sprite == Sprite::Smokelit,
        Kind::Dust.make().slide is Some,
        Kind::TrailSmoke.make().count == 150,
        Kind::TrailFire.make().count == 128,
{
}

/// Each draw sets its own part of a particle and no other, and moves the generator on.
pub proof fn law_each_draw_sets_its_own_part(p: Birth, x: u64)
    requires
        p.burst.shell.wf() && p.burst.along.wf() && p.burst.speed.wf() && p.burst.life.wf()
            && p.burst.size0.wf() && p.burst.alpha.wf() && p.burst.rot.wf() && p.burst.spin.wf(),
    ensures
        drawn_for(p, Draw::Frame, x) == (
            next(x),
            Birth { frame: drawn_for(p, Draw::Frame, x).1.frame, ..p },
        ),
        drawn_for(p, Draw::Shell, x) == (
            next(x),
            Birth { shell: p.burst.shell.at(drawn(x)) as i32, ..p },
        ),
        drawn_for(p, Draw::Along, x) == (
            next(x),
            Birth { along: p.burst.along.at(drawn(x)) as i32, ..p },
        ),
        drawn_for(p, Draw::Heading, x) == (next(x), Birth { heading: drawn(x) as u32, ..p }),
        drawn_for(p, Draw::Speed, x) == (
            next(x),
            Birth { speed: p.burst.speed.at(drawn(x)) as i32, ..p },
        ),
        drawn_for(p, Draw::Life, x) == (
            next(x),
            Birth { life: p.burst.life.at(drawn(x)) as i32, ..p },
        ),
        drawn_for(p, Draw::Size0, x) == (
            next(x),
            Birth { size0: p.burst.size0.at(drawn(x)) as i32, ..p },
        ),
        p.burst.size1 matches Some(s) ==> drawn_for(p, Draw::Size1, x) == (
            next(x),
            Birth { size1: s.at(drawn(x)) as i32, ..p },
        ),
        p.burst.size1 is None ==> drawn_for(p, Draw::Size1, x) == (x, p),
        drawn_for(p, Draw::Mix, x) == (next(x), Birth { mix: drawn(x) as u32, ..p }),
        drawn_for(p, Draw::Alpha, x) == (
            next(x),
            Birth { alpha: p.burst.alpha.at(drawn(x)) as i32, ..p },
        ),
        drawn_for(p, Draw::Rot, x) == (
            next(x),
            Birth { rot: p.burst.rot.at(drawn(x)) as i32, ..p },
        ),
        drawn_for(p, Draw::Spin, x) == (
            next(x),
            Birth { spin: p.burst.spin.at(drawn(x)) as i32, ..p },
        ),
        drawn_for(p, Draw::Ball, x) == (ball(x).0, Birth { ball: ball(x).1, ..p }),
        drawn_for(p, Draw::Aim, x) == (ball(x).0, Birth { aim: ball(x).1, ..p }),
{
}

/// A particle ends at the size drawn for its end, or at its first size where there is none, and gains
/// its growth over a second and a half of life besides; nothing else of it changes.
pub proof fn law_how_a_particle_grows(p: Birth)
    requires
        0 <= p.burst.growth <= 1_000_000,
        0 < p.life <= 10_000_000,
        0 <= p.size0 <= 1_000_000,
        0 <= p.size1 <= 1_000_000,
    ensures
        ({
            let last = if p.burst.size1 is Some {
                p.size1
            } else {
                p.size0
            };
            let gain = grown(p).size1 - last;
            &&& grown(p) == (Birth { size1: grown(p).size1, ..p })
            &&& 1_500_000 * gain <= p.burst.growth * p.life < 1_500_000 * (gain + 1)
            &&& p.burst.growth == 0 ==> gain == 0
        }),
{
    let x = p.burst.growth * p.life;
    assert(0 <= x <= 1_000_000 * 10_000_000) by (nonlinear_arith)
        requires
            x == p.burst.growth * p.life,
            0 <= p.burst.growth <= 1_000_000,
            0 < p.life <= 10_000_000,
    ;
    if p.burst.growth == 0 {
        assert(x == 0) by (nonlinear_arith)
            requires
                x == p.burst.growth * p.life,
                p.burst.growth == 0,
        ;
    }
}

/// A trail has as many puffs as it was asked for, each no older than the time it covers.
pub proof fn law_a_trail_has_its_puffs(kind: Kind, x: u64, n: int, dt: u64, k: int)
    requires
        0 <= k <= n,
        0 < n,
    ensures
        trail_born(kind, x, n, dt, k).1.len() == k,
        forall|i: int|
            0 <= i < k ==> (#[trigger] trail_born(kind, x, n, dt, k).1[i]).0.age <= dt && 0
                <= trail_born(kind, x, n, dt, k).1[i].1 < UNITY,
    decreases k,
{
    if k > 0 {
        law_a_trail_has_its_puffs(kind, x, n, dt, k - 1);
        let (y, before) = trail_born(kind, x, n, dt, k - 1);
        law_draws_are_fractions(y);
        law_where_a_trail_puffs(k - 1, n, drawn(y), 0, dt);
    }
}

/// A burst is as many particles as it was asked for.
pub proof fn law_a_burst_has_its_particles(kind: Kind, x: u64, n: int)
    requires
        0 <= n,
    ensures
        burst_born(kind, x, n).1.len() == n,
        n > 0 ==> burst_born(kind, x, n).1.drop_last() == burst_born(kind, x, n - 1).1,
    decreases n,
{
    if n > 0 {
        law_a_burst_has_its_particles(kind, x, n - 1);
        assert(burst_born(kind, x, n).1.drop_last() =~= burst_born(kind, x, n - 1).1);
    }
}

} // verus!
