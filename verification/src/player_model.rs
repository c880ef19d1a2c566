//! The third-person soldier's animation: which of the locomotion poses it stands in, how the nine
//! directions of a run are mixed, which rows of the aim matrix apply, and which gestures play.
//! Pose parameters are thousandths, weights millionths, pitches thousandths of a degree.

use vstd::prelude::*;
use vstd::string::*;

use crate::game::SimEvent;
use crate::numeral::clamped;
use crate::text::cat3;

verus! {

/// Grid order of the run and crouch-walk clips: rows for backward to forward, columns for left to
/// right.
pub open spec fn direction(i: int) -> Seq<char> {
    if i == 0 {
        "SW"@
    } else if i == 1 {
        "S"@
    } else if i == 2 {
        "SE"@
    } else if i == 3 {
        "W"@
    } else if i == 4 {
        "Center"@
    } else if i == 5 {
        "E"@
    } else if i == 6 {
        "NW"@
    } else if i == 7 {
        "N"@
    } else {
        "NE"@
    }
}

/// The name of a run (or crouch-walk) clip.
pub fn grid_clip(i: usize, crouched: bool) -> (r: String)
    requires
        i < 9,
    ensures
        r@ == (if crouched {
            "a_crouch_walk"@
        } else {
            "a_run"@
        }) + direction(i as int) + "_PRIMARY"@,
{
    let dir = if i == 0 {
        "SW"
    } else if i == 1 {
        "S"
    } else if i == 2 {
        "SE"
    } else if i == 3 {
        "W"
    } else if i == 4 {
        "Center"
    } else if i == 5 {
        "E"
    } else if i == 6 {
        "NW"
    } else if i == 7 {
        "N"
    } else {
        "NE"
    };
    cat3(
        if crouched {
            "a_crouch_walk"
        } else {
            "a_run"
        },
        dir,
        "_PRIMARY",
    )
}

/// Where a pose parameter falls on the grid: thousandths of a cell from its low edge, just short of
/// the far edge.
pub open spec fn on_grid(x: int) -> int {
    clamped(clamped(x, -1_000, 1_000) + 1_000, 0, 1_999)
}

/// How much a cell's low corner weighs in thousandths, where it is `c`; the next corner has the rest.
pub open spec fn corner_weight(f: int, c: int) -> int {
    if c == f / 1_000 {
        1_000 - f % 1_000
    } else if c == f / 1_000 + 1 {
        f % 1_000
    } else {
        0
    }
}

/// The weight of the clip at column `c` and row `r` of the grid, in millionths.
pub open spec fn grid_weight(x: int, y: int, c: int, r: int) -> int {
    corner_weight(on_grid(x), c) * corner_weight(on_grid(y), r)
}

fn place_on_grid(x: i32) -> (r: u32)
    ensures
        r == on_grid(x as int),
        r <= 1_999,
{
    let x: i32 = if x < -1_000 {
        -1_000
    } else if x > 1_000 {
        1_000
    } else {
        x
    };
    let f: i32 = x + 1_000;
    if f > 1_999 {
        1_999
    } else {
        f as u32
    }
}

fn weight_of(f: u32, c: u32) -> (r: u32)
    requires
        f <= 1_999,
        c <= 2,
    ensures
        r == corner_weight(f as int, c as int),
        r <= 1_000,
{
    if c == f / 1_000 {
        1_000 - f % 1_000
    } else if c == f / 1_000 + 1 {
        f % 1_000
    } else {
        0
    }
}

/// Bilinear weights of a three by three grid of poses.
pub fn grid_weights(x: i32, y: i32) -> (w: Vec<u32>)
    ensures
        w@.len() == 9,
        forall|i: int|
            0 <= i < 9 ==> (#[trigger] w@[i]) == grid_weight(x as int, y as int, i % 3, i / 3),
{
    let fx = place_on_grid(x);
    let fy = place_on_grid(y);
    let mut w: Vec<u32> = Vec::new();
    let mut i: u32 = 0;
    while i < 9
        invariant
            i <= 9,
            fx == on_grid(x as int),
            fy == on_grid(y as int),
            fx <= 1_999,
            fy <= 1_999,
            w@.len() == i,
            forall|j: int|
                0 <= j < i ==> (#[trigger] w@[j]) == grid_weight(x as int, y as int, j % 3, j / 3),
        decreases 9 - i,
    {
        let a = weight_of(fx, i % 3);
        let b = weight_of(fy, i / 3);
        proof {
            assert(0 <= a * b <= 1_000_000) by (nonlinear_arith)
                requires
                    a <= 1_000,
                    b <= 1_000,
            ;
        }
        w.push(a * b);
        i = i + 1;
    }
    w
}

/// The weights make up the whole pose: they add up to one.
pub proof fn law_grid_weights_add_up(x: int, y: int)
    ensures
        grid_weight(x, y, 0, 0) + grid_weight(x, y, 1, 0) + grid_weight(x, y, 2, 0) + grid_weight(
            x,
            y,
            0,
            1,
        ) + grid_weight(x, y, 1, 1) + grid_weight(x, y, 2, 1) + grid_weight(x, y, 0, 2)
            + grid_weight(x, y, 1, 2) + grid_weight(x, y, 2, 2) == 1_000_000,
{
    let (fx, fy) = (on_grid(x), on_grid(y));
    let (a, b, c) = (corner_weight(fx, 0), corner_weight(fx, 1), corner_weight(fx, 2));
    let (p, q, r) = (corner_weight(fy, 0), corner_weight(fy, 1), corner_weight(fy, 2));
    assert(a + b + c == 1_000);
    assert(p + q + r == 1_000);
    assert(a * p + b * p + c * p + a * q + b * q + c * q + a * r + b * r + c * r == (a + b + c) * (p
        + q + r)) by (nonlinear_arith);
}

/// What a soldier is doing.
#[derive(Clone, Copy, Debug, PartialEq, Eq, Structural)]
pub struct Doing {
    pub on_ground: bool,
    pub ducked: bool,
    /// Thousandths of a unit a second over the ground.
    pub speed: u32,
    /// Pose parameters: forward and to the right, in thousandths of the class speed.
    pub move_x: i32,
    pub move_y: i32,
}

/// Slower than this is standing still.
pub const STILL: u32 = 15_000;

impl Doing {
    /// Whether the soldier runs or walks.
    pub open spec fn moving(self) -> bool {
        self.on_ground && self.speed > STILL
    }

    /// The weight a locomotion clip is heading for, in millionths: standing, crouching, floating,
    /// the nine runs, the nine crouch-walks.
    pub open spec fn target(self, k: int) -> int {
        if !self.on_ground {
            if k == 2 {
                1_000_000
            } else {
                0
            }
        } else if self.moving() {
            let base: int = if self.ducked {
                12
            } else {
                3
            };
            if base <= k < base + 9 {
                grid_weight(
                    self.move_y as int,
                    self.move_x as int,
                    (k - base) % 3,
                    (k - base) / 3,
                )
            } else {
                0
            }
        } else if self.ducked {
            if k == 1 {
                1_000_000
            } else {
                0
            }
        } else if k == 0 {
            1_000_000
        } else {
            0
        }
    }

    /// The weights the locomotion clips are heading for.
    pub fn locomotion(&self) -> (w: Vec<u32>)
        ensures
            w@.len() == 21,
            forall|k: int| 0 <= k < 21 ==> (#[trigger] w@[k]) == self.target(k),
    {
        let moving = self.on_ground && self.speed > STILL;
        let grid = grid_weights(self.move_y, self.move_x);
        let base: usize = if self.ducked {
            12
        } else {
            3
        };
        let only: usize = if !self.on_ground {
            2
        } else if self.ducked {
            1
        } else {
            0
        };
        let mut w: Vec<u32> = Vec::new();
        let mut k: usize = 0;
        while k < 21
            invariant
                k <= 21,
                moving == self.moving(),
                base == if self.ducked {
                    12int
                } else {
                    3
                },
                only == if !self.on_ground {
                    2int
                } else if self.ducked {
                    1
                } else {
                    0
                },
                grid@.len() == 9,
                forall|i: int|
                    0 <= i < 9 ==> (#[trigger] grid@[i]) == grid_weight(
                        self.move_y as int,
                        self.move_x as int,
                        i % 3,
                        i / 3,
                    ),
                w@.len() == k,
                forall|j: int| 0 <= j < k ==> (#[trigger] w@[j]) == self.target(j),
            decreases 21 - k,
        {
            let v = if moving {
                if k >= base && k < base + 9 {
                    grid[k - base]
                } else {
                    0
                }
            } else if k == only {
                1_000_000
            } else {
                0
            };
            w.push(v);
            k = k + 1;
        }
        w
    }

    /// The aim poses in use.
    pub fn aim_set(&self) -> (r: AimSet)
        ensures
            r == if self.ducked && self.on_ground {
                AimSet::Crouch
            } else if self.moving() {
                AimSet::Run
            } else {
                AimSet::Idle
            },
    {
        if self.ducked && self.on_ground {
            AimSet::Crouch
        } else if self.on_ground && self.speed > STILL {
            AimSet::Run
        } else {
            AimSet::Idle
        }
    }
}

/// The sets of aim poses.
#[derive(Clone, Copy, Debug, PartialEq, Eq, Structural)]
pub enum AimSet {
    Idle,
    Run,
    Crouch,
}

/// How far down the aim matrix a pitch is: thousandths of a degree below straight up, short of the
/// last row. The rows lie at 90, 45, 0 and -45 degrees.
pub open spec fn aim_depth(pitch: int) -> int {
    clamped(90_000 - clamped(-pitch, -45_000, 90_000), 0, 134_955)
}

/// The row of the aim matrix above a pitch, and how far it is to the one below, in 45,000ths.
pub fn aim_row(pitch: i32) -> (r: (u32, u32))
    ensures
        r.0 == aim_depth(pitch as int) / 45_000,
        r.1 == aim_depth(pitch as int) % 45_000,
        r.0 <= 2,
{
    let up: i64 = -(pitch as i64);
    let up: i64 = if up < -45_000 {
        -45_000
    } else if up > 90_000 {
        90_000
    } else {
        up
    };
    let depth: i64 = 90_000 - up;
    let depth: u32 = if depth > 134_955 {
        134_955
    } else {
        depth as u32
    };
    (depth / 45_000, depth % 45_000)
}

/// Looking further down never moves up the aim matrix.
pub proof fn law_aim_follows_the_pitch(a: int, b: int)
    requires
        a <= b,
    ensures
        aim_depth(a) <= aim_depth(b),
{
}

/// Gestures on top of the locomotion.
#[derive(Clone, Copy, Debug, PartialEq, Eq, Structural)]
pub enum Gesture {
    AttackStand,
    AttackCrouch,
    Land,
}

/// What is done to a soldier's gestures.
#[derive(Clone, Copy, Debug, PartialEq, Eq, Structural)]
pub enum GestureCommand {
    Stop(Gesture),
    /// Started from the beginning, once.
    Start(Gesture),
}

/// What an event does to the gestures of soldier `who`.
pub open spec fn gestured(e: SimEvent, who: u8, ducked: bool) -> Seq<GestureCommand> {
    match e {
        SimEvent::RocketFired { shooter } => if shooter != who {
            Seq::empty()
        } else if ducked {
            seq![
                GestureCommand::Stop(Gesture::AttackStand),
                GestureCommand::Start(Gesture::AttackCrouch),
            ]
        } else {
            seq![
                GestureCommand::Stop(Gesture::AttackCrouch),
                GestureCommand::Start(Gesture::AttackStand),
            ]
        },
        SimEvent::Landed { player } => if player == who {
            seq![GestureCommand::Start(Gesture::Land)]
        } else {
            Seq::empty()
        },
        _ => Seq::empty(),
    }
}

/// What the first `n` events do to the gestures of soldier `who`.
pub open spec fn all_gestured(es: Seq<SimEvent>, who: u8, ducked: bool, n: int) -> Seq<
    GestureCommand,
>
    decreases n,
{
    if n <= 0 {
        Seq::empty()
    } else {
        all_gestured(es, who, ducked, n - 1) + gestured(es[n - 1], who, ducked)
    }
}

/// What the events do to the gestures of soldier `who`.
pub fn gestures(events: &Vec<SimEvent>, who: u8, ducked: bool) -> (r: Vec<GestureCommand>)
    ensures
        r@ == all_gestured(events@, who, ducked, events@.len() as int),
{
    let mut out: Vec<GestureCommand> = Vec::new();
    let mut i: usize = 0;
    while i < events.len()
        invariant
            i <= events.len(),
            out@ == all_gestured(events@, who, ducked, i as int),
        decreases events.len() - i,
    {
        let ghost before = out@;
        match &events[i] {
            SimEvent::RocketFired { shooter } => {
                if *shooter == who {
                    if ducked {
                        out.push(GestureCommand::Stop(Gesture::AttackStand));
                        out.push(GestureCommand::Start(Gesture::AttackCrouch));
                    } else {
                        out.push(GestureCommand::Stop(Gesture::AttackCrouch));
                        out.push(GestureCommand::Start(Gesture::AttackStand));
                    }
                }
            },
            SimEvent::Landed { player } => {
                if *player == who {
                    out.push(GestureCommand::Start(Gesture::Land));
                }
            },
            _ => {},
        }
        proof {
            assert(out@ =~= before + gestured(events@[i as int], who, ducked));
        }
        i = i + 1;
    }
    out
}

/// Standing on the spot is the middle of the grid; all the way to one side is that side.
pub proof fn law_the_corners_of_the_grid()
    ensures
        grid_weight(0, 0, 1, 1) == 1_000_000,
        grid_weight(-1_000, -1_000, 0, 0) == 1_000_000,
        grid_weight(-1_000, 0, 0, 1) == 1_000_000,
        grid_weight(0, -1_000, 1, 0) == 1_000_000,
        grid_weight(1_000, 0, 2, 1) == 999_000,
        grid_weight(0, 1_000, 1, 2) == 999_000,
        on_grid(1_000) == on_grid(5_000),
        on_grid(-1_000) == on_grid(-5_000),
{
    assert(corner_weight(on_grid(0), 1) == 1_000);
    assert(corner_weight(on_grid(-1_000), 0) == 1_000);
    assert(corner_weight(on_grid(1_000), 2) == 999);
    assert(1_000int * 1_000int == 1_000_000);
    assert(999int * 1_000int == 999_000);
    assert(1_000int * 999int == 999_000);
}

/// Further to the right weighs the right side no less and the left side no more.
pub proof fn law_weights_follow_the_motion(a: int, b: int)
    requires
        a <= b,
    ensures
        on_grid(a) <= on_grid(b),
        corner_weight(on_grid(a), 2) <= corner_weight(on_grid(b), 2),
        corner_weight(on_grid(a), 0) >= corner_weight(on_grid(b), 0),
{
}

/// What a player is doing picks the animation: in the air the fall, on the move the grid of walking
/// or of crouching, at rest standing or crouching; nothing else plays.
pub proof fn law_which_animation_plays(d: Doing, k: int)
    requires
        0 <= k < 21,
    ensures
        !d.on_ground ==> (d.target(k) == 1_000_000 <==> k == 2) && (d.target(k) == 0 <==> k != 2),
        d.on_ground && d.speed <= 15_000 && !d.ducked ==> (d.target(k) == 1_000_000 <==> k == 0) && (
        d.target(k) == 0 <==> k != 0),
        d.on_ground && d.speed <= 15_000 && d.ducked ==> (d.target(k) == 1_000_000 <==> k == 1) && (
        d.target(k) == 0 <==> k != 1),
        d.on_ground && d.speed > 15_000 && !d.ducked && !(3 <= k < 12) ==> d.target(k) == 0,
        d.on_ground && d.speed > 15_000 && d.ducked && !(12 <= k < 21) ==> d.target(k) == 0,
        d.on_ground && d.speed > 15_000 && !d.ducked && 3 <= k < 12 ==> d.target(k) == grid_weight(
            d.move_y as int,
            d.move_x as int,
            (k - 3) % 3,
            (k - 3) / 3,
        ),
        d.on_ground && d.speed > 15_000 && d.ducked && 12 <= k < 21 ==> d.target(k) == grid_weight(
            d.move_y as int,
            d.move_x as int,
            (k - 12) % 3,
            (k - 12) / 3,
        ),
{
}

/// A level view aims along the middle row, a view all the way up along the first, and one half way
/// down along the last.
pub proof fn law_where_the_aim_points()
    ensures
        aim_depth(-90_000) == 0,
        aim_depth(0) == 90_000,
        aim_depth(-45_000) == 45_000,
        aim_depth(45_000) == 134_955,
        aim_depth(89_000) == 134_955,
{
}

/// A player gestures for their own shots and landings only: a shot in the stance that they are in,
/// which ends the shot of the other stance.
pub proof fn law_what_a_player_gestures(who: u8, other: u8, ducked: bool)
    requires
        who != other,
    ensures
        ({
            let shot = gestured(SimEvent::RocketFired { shooter: who }, who, ducked);
            &&& shot.len() == 2
            &&& ducked ==> shot[1] == GestureCommand::Start(Gesture::AttackCrouch) && shot[0]
                == GestureCommand::Stop(Gesture::AttackStand)
            &&& !ducked ==> shot[1] == GestureCommand::Start(Gesture::AttackStand) && shot[0]
                == GestureCommand::Stop(Gesture::AttackCrouch)
        }),
        gestured(SimEvent::Landed { player: who }, who, ducked) == seq![
            GestureCommand::Start(Gesture::Land),
        ],
        gestured(SimEvent::RocketFired { shooter: other }, who, ducked).len() == 0,
        gestured(SimEvent::Landed { player: other }, who, ducked).len() == 0,
        gestured(SimEvent::Jumped { player: who }, who, ducked).len() == 0,
        gestured(SimEvent::Respawn { player: who }, who, ducked).len() == 0,
{
}

/// The nine directions of the grid, row by row from the back, left to right.
pub proof fn law_directions_of_the_grid()
    ensures
        direction(0) == "SW"@ && direction(1) == "S"@ && direction(2) == "SE"@,
        direction(3) == "W"@ && direction(4) == "Center"@ && direction(5) == "E"@,
        direction(6) == "NW"@ && direction(7) == "N"@ && direction(8) == "NE"@,
{
}

} // verus!
