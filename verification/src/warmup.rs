//! The render warm-up that runs before the loading screen goes away: which part of the scene is
//! built in which frame, when a frame waits, and how far along it is. The scene is built one step
//! per frame, so that the screen can be repainted in between.

use vstd::prelude::*;

use crate::assets::SPRITE_COUNT;
use crate::game::ButtonBits;

verus! {

/// Frames to keep the warm-up scene alive once everything has spawned.
pub const FRAMES: u32 = 12;

/// The glTF scenes: soldier, viewmodel, rocket.
pub const SCENES: usize = 3;

/// Arena surfaces: floor, wall.
pub const SURFACES: usize = 2;

/// Spawn steps, one per frame: cameras, lights, the scenes, the surfaces, the emissive line, the
/// scorch decal, the particle sprites.
pub const STEPS: u32 = 16;

/// Ticks the throwaway simulation is stepped through.
pub const SIM_TICKS: u32 = 400;

/// A part of the warm-up scene.
#[derive(Clone, Copy, Debug, PartialEq, Eq, Structural)]
pub enum Step {
    Cameras,
    Lights,
    Scene(usize),
    Surface(usize),
    Emissive,
    Scorch,
    Sprite(usize),
}

impl Step {
    /// Whether there is such a step.
    pub open spec fn exists_in_scene(self) -> bool {
        match self {
            Step::Scene(i) => i < SCENES,
            Step::Surface(i) => i < SURFACES,
            Step::Sprite(i) => i < SPRITE_COUNT,
            _ => true,
        }
    }

    /// When it comes.
    pub open spec fn turn(self) -> int {
        match self {
            Step::Cameras => 0,
            Step::Lights => 1,
            Step::Scene(i) => 2 + i,
            Step::Surface(i) => 2 + SCENES + i,
            Step::Emissive => 2 + SCENES + SURFACES,
            Step::Scorch => 3 + SCENES + SURFACES,
            Step::Sprite(i) => 4 + SCENES + SURFACES + i,
        }
    }
}

/// The step that comes `i`th.
pub open spec fn step_at(i: int) -> Step {
    if i <= 0 {
        Step::Cameras
    } else if i == 1 {
        Step::Lights
    } else if i < 2 + SCENES {
        Step::Scene((i - 2) as usize)
    } else if i < 2 + SCENES + SURFACES {
        Step::Surface((i - 2 - SCENES) as usize)
    } else if i == 2 + SCENES + SURFACES {
        Step::Emissive
    } else if i == 3 + SCENES + SURFACES {
        Step::Scorch
    } else {
        Step::Sprite((i - 4 - SCENES - SURFACES) as usize)
    }
}

/// The step that comes `i`th.
pub fn step(i: usize) -> (r: Step)
    requires
        i < STEPS,
    ensures
        r == step_at(i as int),
        r.exists_in_scene(),
{
    if i == 0 {
        Step::Cameras
    } else if i == 1 {
        Step::Lights
    } else if i < 2 + SCENES {
        Step::Scene(i - 2)
    } else if i < 2 + SCENES + SURFACES {
        Step::Surface(i - 2 - SCENES)
    } else if i == 2 + SCENES + SURFACES {
        Step::Emissive
    } else if i == 3 + SCENES + SURFACES {
        Step::Scorch
    } else {
        Step::Sprite(i - 4 - SCENES - SURFACES)
    }
}

/// Every part of the scene has its turn, and no other part has it.
pub proof fn law_every_step_has_its_turn(s: Step)
    requires
        s.exists_in_scene(),
    ensures
        0 <= s.turn() < STEPS,
        step_at(s.turn()) == s,
{
}

/// The name of a glTF scene, and the clips the warm-up plays on it.
pub fn scene_clips(i: usize) -> (r: (&'static str, Vec<&'static str>))
    requires
        i < SCENES,
    ensures
        r.0@ == if i == 0 {
            "soldier"@
        } else if i == 1 {
            "viewmodel"@
        } else {
            "rocket"@
        },
        i == 0 ==> r.1@ == seq!["stand_PRIMARY", "a_runN_PRIMARY", "AttackStand_PRIMARY"],
        i == 1 ==> r.1@ == seq!["dh_idle", "dh_fire"],
        i == 2 ==> r.1@.len() == 0,
{
    if i == 0 {
        let clips = vec!["stand_PRIMARY", "a_runN_PRIMARY", "AttackStand_PRIMARY"];
        proof {
            assert(clips@ =~= seq!["stand_PRIMARY", "a_runN_PRIMARY", "AttackStand_PRIMARY"]);
        }
        ("soldier", clips)
    } else if i == 1 {
        let clips = vec!["dh_idle", "dh_fire"];
        proof {
            assert(clips@ =~= seq!["dh_idle", "dh_fire"]);
        }
        ("viewmodel", clips)
    } else {
        ("rocket", Vec::new())
    }
}

/// What a frame of the warm-up does.
#[derive(Clone, Copy, Debug, PartialEq, Eq, Structural)]
pub enum WarmupTurn {
    /// Something is still on its way.
    Wait,
    /// This part of the scene is spawned; before the first, the simulation is stepped through.
    Spawn(Step),
    /// A scene whose file failed to load is passed over.
    Skip(usize),
    /// The scene is complete and is rendered.
    Render,
    /// The last frame was rendered: the scene goes away.
    Finish,
    /// Nothing is left to do.
    Over,
}

/// How far the warm-up is.
#[derive(Clone, Copy, Debug, PartialEq, Eq, Structural)]
pub struct WarmupState {
    /// Next step to run.
    pub next: u32,
    /// A spawned glTF scene has not instantiated yet.
    pub scene_pending: bool,
    pub scenes_ready: u32,
    pub frames: u32,
}

/// One more, as far as numbers go.
pub open spec fn one_more(n: u32) -> u32 {
    if n < u32::MAX {
        (n + 1) as u32
    } else {
        n
    }
}

impl WarmupState {
    pub open spec fn wf(&self) -> bool {
        &&& self.next <= STEPS
        &&& self.frames <= FRAMES
        &&& self.frames > 0 ==> self.next == STEPS
    }

    /// Steps done (spawn steps plus rendered frames); the loading screen counts these.
    pub open spec fn progress(&self) -> int {
        self.next + self.frames
    }

    pub fn new() -> (r: WarmupState)
        ensures
            r.wf(),
            r.progress() == 0,
            r.scenes_ready == 0,
            !r.scene_pending,
    {
        WarmupState { next: 0, scene_pending: false, scenes_ready: 0, frames: 0 }
    }

    /// Steps done, of how many.
    pub fn done(&self) -> (r: (u32, u32))
        requires
            self.wf(),
        ensures
            r.0 == self.progress(),
            r.1 == STEPS + FRAMES,
    {
        (self.next + self.frames, STEPS + FRAMES)
    }

    /// The step that is next to be spawned.
    pub fn coming(&self) -> (r: Option<Step>)
        requires
            self.wf(),
        ensures
            r == if self.next < STEPS {
                Some(step_at(self.next as int))
            } else {
                None
            },
    {
        if self.next < STEPS {
            Some(step(self.next as usize))
        } else {
            None
        }
    }

    /// What this frame does. `ready` is whether the assets the coming step draws have arrived (or
    /// failed), `found` whether its scene is there.
    pub open spec fn turned(&self, ready: bool, found: bool) -> (WarmupState, WarmupTurn) {
        let s = step_at(self.next as int);
        if self.next < STEPS {
            if self.scene_pending || !ready {
                (*self, WarmupTurn::Wait)
            } else if s is Scene && !found {
                (
                    WarmupState {
                        next: (self.next + 1) as u32,
                        scenes_ready: one_more(self.scenes_ready),
                        ..*self
                    },
                    WarmupTurn::Skip(s->Scene_0),
                )
            } else {
                (
                    WarmupState {
                        next: (self.next + 1) as u32,
                        scene_pending: s is Scene,
                        ..*self
                    },
                    WarmupTurn::Spawn(s),
                )
            }
        } else if self.frames >= FRAMES {
            (*self, WarmupTurn::Over)
        } else if self.scenes_ready < SCENES {
            (*self, WarmupTurn::Wait)
        } else {
            (
                WarmupState { frames: (self.frames + 1) as u32, ..*self },
                if self.frames + 1 >= FRAMES {
                    WarmupTurn::Finish
                } else {
                    WarmupTurn::Render
                },
            )
        }
    }

    /// A frame of the warm-up. A glTF scene instantiates a frame or two after it is spawned; its
    /// materials get their own frame before the next step adds more.
    pub fn warmup(&mut self, ready: bool, found: bool) -> (r: WarmupTurn)
        requires
            old(self).wf(),
        ensures
            final(self).wf(),
            (*final(self), r) == old(self).turned(ready, found),
    {
        if self.next < STEPS {
            let s = step(self.next as usize);
            if self.scene_pending || !ready {
                return WarmupTurn::Wait;
            }
            if let Step::Scene(i) = s {
                if !found {
                    if self.scenes_ready < u32::MAX {
                        self.scenes_ready = self.scenes_ready + 1;
                    }
                    self.next = self.next + 1;
                    return WarmupTurn::Skip(i);
                }
            }
            self.scene_pending = matches!(s, Step::Scene(_));
            self.next = self.next + 1;
            return WarmupTurn::Spawn(s);
        }
        if self.frames >= FRAMES {
            return WarmupTurn::Over;
        }
        if self.scenes_ready < SCENES as u32 {
            return WarmupTurn::Wait;
        }
        self.frames = self.frames + 1;
        if self.frames >= FRAMES {
            WarmupTurn::Finish
        } else {
            WarmupTurn::Render
        }
    }

    /// A spawned scene has instantiated.
    pub fn scene_ready(&mut self)
        requires
            old(self).wf(),
        ensures
            final(self).wf(),
            *final(self) == (WarmupState {
                scene_pending: false,
                scenes_ready: one_more(old(self).scenes_ready),
                ..*old(self)
            }),
    {
        self.scene_pending = false;
        if self.scenes_ready < u32::MAX {
            self.scenes_ready = self.scenes_ready + 1;
        }
    }
}

/// A frame moves the count on by one or waits, and the count reaches its total exactly when the
/// warm-up finishes.
pub proof fn law_warmup_counts_up(w: WarmupState, ready: bool, found: bool)
    requires
        w.wf(),
    ensures
        ({
            let (after, turn) = w.turned(ready, found);
            &&& after.wf()
            &&& after.progress() == w.progress() + if turn is Wait || turn is Over {
                0int
            } else {
                1
            }
            &&& turn is Finish <==> w.progress() < STEPS + FRAMES && after.progress() == STEPS
                + FRAMES
        }),
{
}

/// The input of one player in a tick of the throwaway simulation; angles in degrees.
#[derive(Clone, Copy, Debug, PartialEq, Eq, Structural)]
pub struct WarmInput {
    pub buttons: u32,
    pub pitch: i32,
    pub yaw: i32,
}

/// The two players' inputs in tick `i`: one runs and rocket jumps, the other shoots now and then.
pub fn warm_inputs(i: u32, bits: &ButtonBits) -> (r: (WarmInput, WarmInput))
    ensures
        r.0.buttons == if i % 60 < 3 {
            bits.attack | bits.jump | bits.duck
        } else {
            bits.forward
        },
        r.0.pitch == if i % 60 < 3 {
            89int
        } else {
            0
        },
        r.0.yaw == 180,
        r.1.buttons == if i % 40 == 0 {
            bits.attack
        } else {
            0
        },
        r.1.pitch == -15,
        r.1.yaw == 0,
{
    let jumping = i % 60 < 3;
    (
        WarmInput {
            buttons: if jumping {
                bits.attack | bits.jump | bits.duck
            } else {
                bits.forward
            },
            pitch: if jumping {
                89
            } else {
                0
            },
            yaw: 180,
        },
        WarmInput {
            buttons: if i % 40 == 0 {
                bits.attack
            } else {
                0
            },
            pitch: -15,
            yaw: 0,
        },
    )
}

/// A part of the scene is spawned in its own turn, once it is ready and no scene is still coming
/// up; a scene is then waited for, and one whose file is missing is passed over and counts as up.
/// Frames are rendered only once every part is there and every scene is up.
pub proof fn law_when_each_turn_comes(w: WarmupState, ready: bool, found: bool)
    requires
        w.wf(),
    ensures
        ({
            let (after, turn) = w.turned(ready, found);
            &&& turn matches WarmupTurn::Spawn(s) ==> {
                &&& s.exists_in_scene() && s.turn() == w.next
                &&& ready && !w.scene_pending && (s is Scene ==> found)
                &&& after.next == w.next + 1 && after.scenes_ready == w.scenes_ready
                &&& after.scene_pending <==> s is Scene
            }
            &&& turn matches WarmupTurn::Skip(i) ==> {
                &&& i < SCENES && Step::Scene(i).turn() == w.next
                &&& ready && !w.scene_pending && !found
                &&& after.next == w.next + 1 && !after.scene_pending
                &&& w.scenes_ready < u32::MAX ==> after.scenes_ready == w.scenes_ready + 1
            }
            &&& turn is Wait ==> after == w
            &&& w.next < STEPS && (w.scene_pending || !ready) ==> turn is Wait
            &&& w.next < STEPS && !w.scene_pending && ready ==> turn is Spawn || turn is Skip
            &&& turn is Render || turn is Finish ==> w.next == STEPS && w.scenes_ready >= SCENES
                && after.frames == w.frames + 1
            &&& turn is Over <==> w.next == STEPS && w.frames == FRAMES
        }),
{
}

/// A scene that came up counts for one.
pub proof fn law_scenes_are_counted(n: u32)
    ensures
        n < u32::MAX ==> one_more(n) == n + 1,
        one_more(n) >= n,
{
}

} // verus!
