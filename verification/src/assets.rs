//! The game's asset files: where they lie, how the particle sprite strips are cut, and which glTF
//! scenes have arrived. A handle to a loaded asset is its number here.

use vstd::prelude::*;
use vstd::string::*;

use crate::text::cat3;

verus! {

/// Particle sprite strips: square frames side by side.
#[derive(Clone, Copy, Debug, PartialEq, Eq, Structural)]
pub enum Sprite {
    Smoke1,
    Smokelit,
    Smoke2lit,
    Debris,
    Glow,
    Softglow,
    Ember,
}

pub const SPRITE_COUNT: usize = 7;

impl Sprite {
    /// The sprite's place in the tables.
    pub open spec fn place(self) -> int {
        match self {
            Sprite::Smoke1 => 0,
            Sprite::Smokelit => 1,
            Sprite::Smoke2lit => 2,
            Sprite::Debris => 3,
            Sprite::Glow => 4,
            Sprite::Softglow => 5,
            Sprite::Ember => 6,
        }
    }

    /// Frames side by side in the strip.
    pub open spec fn frame_count(self) -> nat {
        match self {
            Sprite::Smoke1 | Sprite::Debris => 6,
            Sprite::Smokelit | Sprite::Smoke2lit => 5,
            Sprite::Glow | Sprite::Softglow | Sprite::Ember => 1,
        }
    }

    pub fn index(self) -> (r: usize)
        ensures
            r == self.place(),
            r < SPRITE_COUNT,
    {
        match self {
            Sprite::Smoke1 => 0,
            Sprite::Smokelit => 1,
            Sprite::Smoke2lit => 2,
            Sprite::Debris => 3,
            Sprite::Glow => 4,
            Sprite::Softglow => 5,
            Sprite::Ember => 6,
        }
    }

    /// The sprites, in the tables' order.
    pub fn all() -> (r: Vec<Sprite>)
        ensures
            r@.len() == SPRITE_COUNT,
            forall|i: int| 0 <= i < r@.len() ==> (#[trigger] r@[i]).place() == i,
    {
        vec![
            Sprite::Smoke1,
            Sprite::Smokelit,
            Sprite::Smoke2lit,
            Sprite::Debris,
            Sprite::Glow,
            Sprite::Softglow,
            Sprite::Ember,
        ]
    }

    pub fn frames(self) -> (r: u32)
        ensures
            r == self.frame_count(),
            r > 0,
    {
        match self {
            Sprite::Smoke1 | Sprite::Debris => 6,
            Sprite::Smokelit | Sprite::Smoke2lit => 5,
            Sprite::Glow | Sprite::Softglow | Sprite::Ember => 1,
        }
    }

    /// Whether the sprite is drawn additively or alpha blended.
    pub fn additive(self) -> (r: bool)
        ensures
            r == (self == Sprite::Glow || self == Sprite::Softglow || self == Sprite::Ember),
    {
        match self {
            Sprite::Glow | Sprite::Softglow | Sprite::Ember => true,
            _ => false,
        }
    }

    /// The name of the strip's file.
    pub open spec fn file(self) -> Seq<char> {
        match self {
            Sprite::Smoke1 => "smoke1"@,
            Sprite::Smokelit => "smokelit"@,
            Sprite::Smoke2lit => "smoke2lit"@,
            Sprite::Debris => "debris_chunk"@,
            Sprite::Glow => "brightglow_y"@,
            Sprite::Softglow => "softglow"@,
            Sprite::Ember => "circle1"@,
        }
    }

    /// Where the strip lies in the asset directory.
    pub fn path(self) -> (r: String)
        ensures
            r@ == "particles/"@ + self.file() + ".png"@,
    {
        let file = match self {
            Sprite::Smoke1 => "smoke1",
            Sprite::Smokelit => "smokelit",
            Sprite::Smoke2lit => "smoke2lit",
            Sprite::Debris => "debris_chunk",
            Sprite::Glow => "brightglow_y",
            Sprite::Softglow => "softglow",
            Sprite::Ember => "circle1",
        };
        cat3("particles/", file, ".png")
    }
}

/// The glTF files: soldier, viewmodel, rocket.
pub const GLTF_COUNT: usize = 3;

/// Where the glTF files lie in the asset directory.
pub fn gltf_path(i: usize) -> (r: &'static str)
    requires
        i < GLTF_COUNT,
    ensures
        r@ == if i == 0 {
            "models/soldier.glb"@
        } else if i == 1 {
            "models/viewmodel.glb"@
        } else {
            "models/rocket.glb"@
        },
{
    if i == 0 {
        "models/soldier.glb"
    } else if i == 1 {
        "models/viewmodel.glb"
    } else {
        "models/rocket.glb"
    }
}

/// A loaded glTF file's scenes.
pub struct LoadedGltf {
    pub default_scene: Option<u64>,
    pub scenes: Vec<u64>,
}

impl LoadedGltf {
    /// The scene that is drawn: the default one, else the first.
    pub open spec fn drawn(self) -> Option<u64> {
        if self.default_scene is Some {
            self.default_scene
        } else if self.scenes@.len() > 0 {
            Some(self.scenes@[0])
        } else {
            None
        }
    }
}

/// The scenes of the glTF files, which are missing until the file has loaded.
pub struct GameAssets {
    pub scenes: Vec<Option<u64>>,
}

/// A scene after a look at its file: one that is there stays.
pub open spec fn resolved(scene: Option<u64>, file: Option<LoadedGltf>) -> Option<u64> {
    match (scene, file) {
        (None, Some(f)) => f.drawn(),
        _ => scene,
    }
}

impl GameAssets {
    pub open spec fn wf(&self) -> bool {
        self.scenes@.len() == GLTF_COUNT
    }

    pub fn new() -> (r: GameAssets)
        ensures
            r.wf(),
            r.scenes@ == seq![None::<u64>, None, None],
    {
        let r = GameAssets { scenes: vec![None, None, None] };
        proof {
            assert(r.scenes@ =~= seq![None::<u64>, None, None]);
        }
        r
    }

    /// The drawn scene of file `i`, once it has loaded.
    pub fn scene(&self, i: usize) -> (r: Option<u64>)
        requires
            self.wf(),
            i < GLTF_COUNT,
        ensures
            r == self.scenes@[i as int],
    {
        self.scenes[i]
    }

    /// Whether every file's scene is there.
    pub fn scenes_resolved(&self) -> (r: bool)
        requires
            self.wf(),
        ensures
            r == forall|i: int| 0 <= i < GLTF_COUNT ==> (#[trigger] self.scenes@[i]) is Some,
    {
        let mut i: usize = 0;
        while i < GLTF_COUNT
            invariant
                self.wf(),
                i <= GLTF_COUNT,
                forall|j: int| 0 <= j < i ==> (#[trigger] self.scenes@[j]) is Some,
            decreases GLTF_COUNT - i,
        {
            if self.scenes[i].is_none() {
                return false;
            }
            i = i + 1;
        }
        true
    }

    /// Fills in the scenes as the glTF files finish loading.
    pub fn resolve_scenes(&mut self, files: &Vec<Option<LoadedGltf>>)
        requires
            old(self).wf(),
            files@.len() == GLTF_COUNT,
        ensures
            final(self).wf(),
            forall|i: int|
                0 <= i < GLTF_COUNT ==> (#[trigger] final(self).scenes@[i]) == resolved(
                    old(self).scenes@[i],
                    files@[i],
                ),
    {
        let ghost start = self.scenes@;
        let mut i: usize = 0;
        while i < GLTF_COUNT
            invariant
                self.wf(),
                start.len() == GLTF_COUNT,
                files@.len() == GLTF_COUNT,
                i <= GLTF_COUNT,
                forall|j: int|
                    0 <= j < i ==> (#[trigger] self.scenes@[j]) == resolved(start[j], files@[j]),
                forall|j: int| i <= j < GLTF_COUNT ==> (#[trigger] self.scenes@[j]) == start[j],
            decreases GLTF_COUNT - i,
        {
            if self.scenes[i].is_none() {
                if let Some(f) = &files[i] {
                    let scene = match f.default_scene {
                        Some(s) => Some(s),
                        None => if f.scenes.len() > 0 {
                            Some(f.scenes[0])
                        } else {
                            None
                        },
                    };
                    self.scenes.set(i, scene);
                }
            }
            i = i + 1;
        }
    }
}

/// A scene that has arrived is never replaced, whatever is loaded later.
pub proof fn law_scenes_stay(scene: Option<u64>, file: Option<LoadedGltf>)
    requires
        scene is Some,
    ensures
        resolved(scene, file) == scene,
{
}

/// Each sprite has a place of its own.
pub proof fn law_sprites_have_their_places(a: Sprite, b: Sprite)
    ensures
        a.place() == b.place() <==> a == b,
        0 <= a.place() < SPRITE_COUNT,
{
}

/// A scene that is not there yet comes from its file, once that is loaded: the default one, or else
/// the first.
pub proof fn law_where_a_scene_comes_from(f: LoadedGltf)
    ensures
        resolved(None, None) is None,
        resolved(None, Some(f)) == f.drawn(),
        f.default_scene is Some ==> f.drawn() == f.default_scene,
        f.default_scene is None && f.scenes@.len() > 0 ==> f.drawn() == Some(f.scenes@[0]),
        f.default_scene is None && f.scenes@.len() == 0 ==> f.drawn() is None,
{
}

/// Each sprite has its own picture, with so many frames in it.
pub proof fn law_sprites_have_their_pictures()
    ensures
        Sprite::Smoke1.file() == "smoke1"@ && Sprite::Smoke1.frame_count() == 6,
        Sprite::Smokelit.file() == "smokelit"@ && Sprite::Smokelit.frame_count() == 5,
        Sprite::Smoke2lit.file() == "smoke2lit"@ && Sprite::Smoke2lit.frame_count() == 5,
        Sprite::Debris.file() == "debris_chunk"@ && Sprite::Debris.frame_count() == 6,
        Sprite::Glow.file() == "brightglow_y"@ && Sprite::Glow.frame_count() == 1,
        Sprite::Softglow.file() == "softglow"@ && Sprite::Softglow.frame_count() == 1,
        Sprite::Ember.file() == "circle1"@ && Sprite::Ember.frame_count() == 1,
{
}

} // verus!
