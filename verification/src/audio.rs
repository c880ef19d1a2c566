//! Which sounds play when: the menu music, UI clicks, and the in-game sounds driven by simulation
//! events (rocket launcher, explosions, crit/airshot stings, announcer, soldier voice lines).
//! Volumes are counted in millionths.

use vstd::prelude::*;
use vstd::string::*;

use crate::chance::random_word;
use crate::clock::{after, later};
use crate::game::SimEvent;
use crate::menu::{Touch, UiScreen};
use crate::net::RoomFailure;
use crate::numeral::clamped;
use crate::text::{cat3, owned, strings};

verus! {

/// A sound, or a set of sounds of which one is picked.
#[derive(Clone, Copy, Debug, PartialEq, Eq, Structural)]
pub enum Sound {
    RocketShoot,
    RocketReload,
    Explode,
    CritHit,
    CritReceived,
    Hit,
    Kill,
    FreezeCam,
    ButtonClick,
    ButtonRollover,
    PanelOpen,
    PanelClose,
    Join,
    Notification,
    Victory,
    YouFailed,
    /// "Begin!" - the one round-start line that does not mention carts or points.
    Begin,
    FlawlessVictory,
    FlawlessDefeat,
    Cheers,
    Jeers,
    Death,
    Pain,
    Battlecry,
    /// Menu music: the TF2 theme, Rocket Jump Waltz, The Art of War, Faster Than a Speeding
    /// Bullet, Right Behind You.
    Music,
}

impl Sound {
    /// The files of the sound.
    pub open spec fn files(self) -> Seq<Seq<char>> {
        match self {
            Sound::RocketShoot => seq!["weapons/rocket_shoot"@],
            Sound::RocketReload => seq!["weapons/rocket_reload"@],
            Sound::Explode => seq!["weapons/explode1"@, "weapons/explode2"@, "weapons/explode3"@],
            Sound::CritHit => seq!["player/crit_hit"@, "player/crit_hit2"@, "player/crit_hit3"@],
            Sound::CritReceived => seq![
                "player/crit_received1"@,
                "player/crit_received2"@,
                "player/crit_received3"@,
            ],
            Sound::Hit => seq!["ui/hitsound"@],
            Sound::Kill => seq!["ui/killsound"@],
            Sound::FreezeCam => seq!["misc/freeze_cam"@],
            Sound::ButtonClick => seq!["ui/buttonclick"@],
            Sound::ButtonRollover => seq!["ui/buttonrollover"@],
            Sound::PanelOpen => seq!["ui/panel_open"@],
            Sound::PanelClose => seq!["ui/panel_close"@],
            Sound::Join => seq!["ui/mm_join"@],
            Sound::Notification => seq!["ui/notification_alert"@],
            Sound::Victory => seq!["vo/announcer_victory"@],
            Sound::YouFailed => seq!["vo/announcer_you_failed"@],
            Sound::Begin => seq!["vo/announcer_am_roundstart03"@],
            Sound::FlawlessVictory => seq![
                "vo/announcer_am_flawlessvictory01"@,
                "vo/announcer_am_flawlessvictory02"@,
            ],
            Sound::FlawlessDefeat => seq![
                "vo/announcer_am_flawlessdefeat01"@,
                "vo/announcer_am_flawlessdefeat02"@,
            ],
            Sound::Cheers => seq![
                "vo/soldier_cheers01"@,
                "vo/soldier_cheers02"@,
                "vo/soldier_cheers03"@,
                "vo/soldier_laughlong01"@,
                "vo/soldier_laughlong02"@,
            ],
            Sound::Jeers => seq!["vo/soldier_jeers01"@, "vo/soldier_jeers02"@, "vo/soldier_jeers03"@],
            Sound::Death => seq![
                "vo/soldier_paincrticialdeath01"@,
                "vo/soldier_paincrticialdeath02"@,
                "vo/soldier_paincrticialdeath03"@,
            ],
            Sound::Pain => seq![
                "vo/soldier_painsevere01"@,
                "vo/soldier_painsevere02"@,
                "vo/soldier_painsevere03"@,
            ],
            Sound::Battlecry => seq![
                "vo/soldier_battlecry01"@,
                "vo/soldier_battlecry02"@,
                "vo/soldier_battlecry03"@,
            ],
            Sound::Music => seq![
                "music/gamestartup1"@,
                "music/gamestartup3"@,
                "music/gamestartup4"@,
                "music/gamestartup5"@,
                "music/gamestartup6"@,
            ],
        }
    }

    /// The files of the sound.
    pub fn list(self) -> (r: Vec<String>)
        ensures
            strings(r@) == self.files(),
            r@.len() > 0,
    {
        let v: Vec<String> = match self {
            Sound::RocketShoot => vec![owned("weapons/rocket_shoot")],
            Sound::RocketReload => vec![owned("weapons/rocket_reload")],
            Sound::Explode => vec![
                owned("weapons/explode1"),
                owned("weapons/explode2"),
                owned("weapons/explode3"),
            ],
            Sound::CritHit => vec![
                owned("player/crit_hit"),
                owned("player/crit_hit2"),
                owned("player/crit_hit3"),
            ],
            Sound::CritReceived => vec![
                owned("player/crit_received1"),
                owned("player/crit_received2"),
                owned("player/crit_received3"),
            ],
            Sound::Hit => vec![owned("ui/hitsound")],
            Sound::Kill => vec![owned("ui/killsound")],
            Sound::FreezeCam => vec![owned("misc/freeze_cam")],
            Sound::ButtonClick => vec![owned("ui/buttonclick")],
            Sound::ButtonRollover => vec![owned("ui/buttonrollover")],
            Sound::PanelOpen => vec![owned("ui/panel_open")],
            Sound::PanelClose => vec![owned("ui/panel_close")],
            Sound::Join => vec![owned("ui/mm_join")],
            Sound::Notification => vec![owned("ui/notification_alert")],
            Sound::Victory => vec![owned("vo/announcer_victory")],
            Sound::YouFailed => vec![owned("vo/announcer_you_failed")],
            Sound::Begin => vec![owned("vo/announcer_am_roundstart03")],
            Sound::FlawlessVictory => vec![
                owned("vo/announcer_am_flawlessvictory01"),
                owned("vo/announcer_am_flawlessvictory02"),
            ],
            Sound::FlawlessDefeat => vec![
                owned("vo/announcer_am_flawlessdefeat01"),
                owned("vo/announcer_am_flawlessdefeat02"),
            ],
            Sound::Cheers => vec![
                owned("vo/soldier_cheers01"),
                owned("vo/soldier_cheers02"),
                owned("vo/soldier_cheers03"),
                owned("vo/soldier_laughlong01"),
                owned("vo/soldier_laughlong02"),
            ],
            Sound::Jeers => vec![
                owned("vo/soldier_jeers01"),
                owned("vo/soldier_jeers02"),
                owned("vo/soldier_jeers03"),
            ],
            Sound::Death => vec![
                owned("vo/soldier_paincrticialdeath01"),
                owned("vo/soldier_paincrticialdeath02"),
                owned("vo/soldier_paincrticialdeath03"),
            ],
            Sound::Pain => vec![
                owned("vo/soldier_painsevere01"),
                owned("vo/soldier_painsevere02"),
                owned("vo/soldier_painsevere03"),
            ],
            Sound::Battlecry => vec![
                owned("vo/soldier_battlecry01"),
                owned("vo/soldier_battlecry02"),
                owned("vo/soldier_battlecry03"),
            ],
            Sound::Music => vec![
                owned("music/gamestartup1"),
                owned("music/gamestartup3"),
                owned("music/gamestartup4"),
                owned("music/gamestartup5"),
                owned("music/gamestartup6"),
            ],
        };
        proof {
            assert(strings(v@) =~= self.files());
        }
        v
    }

    /// Every sound except the menu music, in the order they are fetched.
    pub open spec fn startup() -> Seq<Sound> {
        seq![
            Sound::RocketShoot,
            Sound::RocketReload,
            Sound::Hit,
            Sound::Kill,
            Sound::FreezeCam,
            Sound::ButtonClick,
            Sound::ButtonRollover,
            Sound::PanelOpen,
            Sound::PanelClose,
            Sound::Join,
            Sound::Notification,
            Sound::Victory,
            Sound::YouFailed,
            Sound::Begin,
            Sound::Explode,
            Sound::CritHit,
            Sound::CritReceived,
            Sound::FlawlessVictory,
            Sound::FlawlessDefeat,
            Sound::Cheers,
            Sound::Jeers,
            Sound::Death,
            Sound::Pain,
            Sound::Battlecry,
        ]
    }

    /// The files of the first `n` startup sounds.
    pub open spec fn startup_files(n: int) -> Seq<Seq<char>>
        decreases n,
    {
        if n <= 0 {
            Seq::empty()
        } else {
            Sound::startup_files(n - 1) + Sound::startup()[n - 1].files()
        }
    }
}

/// Every file except the menu music, for the loading screen to wait on (the music is fetched after
/// the screen is gone).
pub fn startup_clips() -> (r: Vec<String>)
    ensures
        strings(r@) == Sound::startup_files(Sound::startup().len() as int),
{
    let all: Vec<Sound> = vec![
        Sound::RocketShoot,
        Sound::RocketReload,
        Sound::Hit,
        Sound::Kill,
        Sound::FreezeCam,
        Sound::ButtonClick,
        Sound::ButtonRollover,
        Sound::PanelOpen,
        Sound::PanelClose,
        Sound::Join,
        Sound::Notification,
        Sound::Victory,
        Sound::YouFailed,
        Sound::Begin,
        Sound::Explode,
        Sound::CritHit,
        Sound::CritReceived,
        Sound::FlawlessVictory,
        Sound::FlawlessDefeat,
        Sound::Cheers,
        Sound::Jeers,
        Sound::Death,
        Sound::Pain,
        Sound::Battlecry,
    ];
    proof {
        assert(all@ =~= Sound::startup());
    }
    let mut out: Vec<String> = Vec::new();
    let mut i: usize = 0;
    proof {
        assert(strings(out@) =~= Seq::<Seq<char>>::empty());
    }
    while i < all.len()
        invariant
            i <= all.len(),
            all@ == Sound::startup(),
            strings(out@) == Sound::startup_files(i as int),
        decreases all.len() - i,
    {
        let mut files = all[i].list();
        let ghost before = strings(out@);
        let ghost more = files@;
        out.append(&mut files);
        proof {
            assert(strings(out@) =~= before + strings(more));
        }
        i = i + 1;
    }
    out
}

/// The file that a draw picks of a sound.
pub open spec fn picked_file(sound: Sound, draw: usize) -> Seq<char> {
    "sounds/"@ + sound.files()[draw as int % sound.files().len() as int] + ".ogg"@
}

/// The file that a draw picks of a sound.
pub fn clip(sound: Sound, draw: usize) -> (r: String)
    ensures
        r@ == picked_file(sound, draw),
{
    let files = sound.list();
    let ghost all = strings(files@);
    let i: usize = draw % files.len();
    proof {
        assert(all.len() == files@.len());
        assert(all[i as int] == files@[i as int]@);
    }
    cat3("sounds/", files[i].as_str(), ".ogg")
}

/// A file of a sound, picked at random.
pub fn pick(sound: Sound) -> (r: String)
    ensures
        exists|draw: usize| r@ == #[trigger] picked_file(sound, draw),
{
    let draw = random_word();
    clip(sound, draw)
}

/// A sound to play, at once or later.
#[derive(Clone, Copy, Debug, PartialEq, Eq, Structural)]
pub struct Cue {
    pub sound: Sound,
    pub volume: u32,
    /// When, where it is not at once.
    pub at: Option<u64>,
}

pub open spec fn cue(sound: Sound, volume: u32) -> Cue {
    Cue { sound, volume, at: None }
}

pub open spec fn cue_at(sound: Sound, volume: u32, at: int) -> Cue {
    Cue { sound, volume, at: Some(at as u64) }
}

fn now_cue(sound: Sound, volume: u32) -> (r: Cue)
    ensures
        r == cue(sound, volume),
{
    Cue { sound, volume, at: None }
}

fn later_cue(sound: Sound, volume: u32, now: u64, wait: u64) -> (r: Cue)
    ensures
        r == cue_at(sound, volume, later(now, wait)),
{
    Cue { sound, volume, at: Some(after(now, wait)) }
}

/// Distance falloff for sounds made by the opponent: full volume within 200 units, then linear down
/// to a quarter at 2700 units. Distances are in thousandths of a unit.
pub open spec fn attenuated(distance: u32, base: u32) -> int {
    let beyond = if distance > 200_000 {
        distance - 200_000
    } else {
        0
    };
    base * (10_000_000 - 3 * clamped(beyond, 0, 2_500_000)) / 10_000_000
}

/// Distance falloff for sounds made by the opponent.
pub fn attenuate(distance: u32, base: u32) -> (r: u32)
    ensures
        r == attenuated(distance, base),
        r <= base,
{
    let beyond: u64 = if distance > 200_000 {
        distance as u64 - 200_000
    } else {
        0
    };
    let left: u64 = if beyond >= 2_500_000 {
        2_500_000
    } else {
        10_000_000 - 3 * beyond
    };
    proof {
        assert(base as u64 * left <= base as u64 * 10_000_000) by (nonlinear_arith)
            requires
                left <= 10_000_000,
        ;
    }
    (base as u64 * left / 10_000_000) as u32
}

/// A sound never gets louder with the distance, and never falls below a quarter.
pub proof fn law_attenuation_falls_to_a_quarter(near: u32, far: u32, base: u32)
    requires
        near <= far,
    ensures
        attenuated(far, base) <= attenuated(near, base) <= base,
        attenuated(far, base) >= base / 4,
{
    let n = if near > 200_000 {
        near - 200_000
    } else {
        0
    };
    let f = if far > 200_000 {
        far - 200_000
    } else {
        0
    };
    let x = 10_000_000 - 3 * clamped(f, 0, 2_500_000);
    let y = 10_000_000 - 3 * clamped(n, 0, 2_500_000);
    assert(base * x <= base * y) by (nonlinear_arith)
        requires
            x <= y,
            base >= 0,
    ;
    assert(base * y <= base * 10_000_000) by (nonlinear_arith)
        requires
            y <= 10_000_000,
            base >= 0,
    ;
    assert(base * x >= base * 2_500_000) by (nonlinear_arith)
        requires
            x >= 2_500_000,
            base >= 0,
    ;
}

// ---- music ----

/// The track that a draw picks, never the one that played last.
pub open spec fn next_track(draw: usize, last: Option<usize>) -> int {
    let i = draw as int % 5;
    if last == Some(i as usize) {
        (i + 1) % 5
    } else {
        i
    }
}

/// The menu track that a draw picks. `last` is the one that played before.
pub fn track(draw: usize, last: &mut Option<usize>) -> (r: usize)
    ensures
        r == next_track(draw, *old(last)),
        *final(last) == Some(r),
{
    let mut i: usize = draw % 5;
    if let Some(l) = *last {
        if l == i {
            i = (i + 1) % 5;
        }
    }
    *last = Some(i);
    i
}

/// The menu track to play next, picked at random: a different one each time one ends.
pub fn menu_music(last: &mut Option<usize>) -> (r: usize)
    ensures
        exists|draw: usize| r == #[trigger] next_track(draw, *old(last)),
        *final(last) == Some(r),
        r < Sound::Music.files().len(),
        *old(last) != Some(r),
{
    let draw = random_word();
    track(draw, last)
}

/// No track plays twice in a row, and there is always one to play.
pub proof fn law_music_changes(draw: usize, last: Option<usize>)
    ensures
        0 <= next_track(draw, last) < Sound::Music.files().len(),
        last != Some(next_track(draw, last) as usize),
{
}

// ---- the interface ----

/// The sound of a button.
pub fn ui_sounds(touch: Touch) -> (r: Option<Cue>)
    ensures
        r == match touch {
            Touch::Hovered => Some(cue(Sound::ButtonRollover, 500_000)),
            Touch::Pressed => Some(cue(Sound::ButtonClick, 700_000)),
            Touch::Away => None,
        },
{
    match touch {
        Touch::Hovered => Some(now_cue(Sound::ButtonRollover, 500_000)),
        Touch::Pressed => Some(now_cue(Sound::ButtonClick, 700_000)),
        Touch::Away => None,
    }
}

/// The sound of one screen giving way to another.
pub open spec fn screen_sound(before: Option<UiScreen>, screen: UiScreen) -> Option<Cue> {
    match before {
        None => None,
        Some(b) => if b == UiScreen::Hidden && screen == UiScreen::Pause {
            Some(cue(Sound::PanelOpen, 600_000))
        } else if b == UiScreen::Pause && screen == UiScreen::Hidden {
            Some(cue(Sound::PanelClose, 600_000))
        } else if screen is Settings {
            Some(cue(Sound::PanelOpen, 600_000))
        } else {
            None
        },
    }
}

/// The sound of a screen change. `prev` is the screen before.
pub fn screen_sounds(prev: &mut Option<UiScreen>, screen: UiScreen) -> (r: Option<Cue>)
    ensures
        r == screen_sound(*old(prev), screen),
        *final(prev) == Some(screen),
{
    let before = *prev;
    *prev = Some(screen);
    match before {
        None => None,
        Some(b) => if b == UiScreen::Hidden && screen == UiScreen::Pause {
            Some(now_cue(Sound::PanelOpen, 600_000))
        } else if b == UiScreen::Pause && screen == UiScreen::Hidden {
            Some(now_cue(Sound::PanelClose, 600_000))
        } else if matches!(screen, UiScreen::Settings { .. }) {
            Some(now_cue(Sound::PanelOpen, 600_000))
        } else {
            None
        },
    }
}

/// The sound of the room's error box, once when it comes up. `played` is whether it is up.
pub fn room_error_sound(played: &mut bool, failure: Option<RoomFailure>) -> (r: Option<Cue>)
    ensures
        *final(played) == (failure is Some && failure->0 != RoomFailure::Checking),
        r == if *final(played) && !*old(played) {
            Some(cue(Sound::Notification, 600_000))
        } else {
            None
        },
{
    let error = match failure {
        Some(f) => f != RoomFailure::Checking,
        None => false,
    };
    let r = if error && !*played {
        Some(now_cue(Sound::Notification, 600_000))
    } else {
        None
    };
    *played = error;
    r
}

// ---- the match ----

/// The sounds a match starts on.
pub fn match_start(now: u64) -> (r: Vec<Cue>)
    ensures
        r@ == seq![
            cue(Sound::Begin, 850_000),
            cue_at(Sound::Battlecry, 550_000, later(now, 1_600_000_000)),
        ],
{
    let v: Vec<Cue> = vec![
        now_cue(Sound::Begin, 850_000),
        later_cue(Sound::Battlecry, 550_000, now, 1_600_000_000),
    ];
    proof {
        assert(v@ =~= seq![
            cue(Sound::Begin, 850_000),
            cue_at(Sound::Battlecry, 550_000, later(now, 1_600_000_000)),
        ]);
    }
    v
}

/// The sounds of a hit, for the one who hit and for the one who was hit.
pub open spec fn hit_sounds(me: u8, attacker: u8, victim: u8, airshot_kill: bool) -> Seq<Cue> {
    if attacker == me && victim != me {
        if airshot_kill {
            seq![cue(Sound::CritHit, 900_000), cue(Sound::Kill, 600_000)]
        } else {
            seq![cue(Sound::Hit, 500_000)]
        }
    } else if victim == me && attacker != me {
        if airshot_kill {
            seq![cue(Sound::CritReceived, 900_000), cue(Sound::FreezeCam, 500_000)]
        } else {
            seq![cue(Sound::Pain, 500_000)]
        }
    } else {
        Seq::empty()
    }
}

/// The sounds of a round's end: the announcer, the soldier, a line for a round in which one side
/// scored nothing, and the start of the next.
pub open spec fn round_sounds(won: bool, flawless: bool, now: u64) -> Seq<Cue> {
    let first = if won {
        seq![
            cue(Sound::Victory, 900_000),
            cue_at(Sound::Cheers, 700_000, later(now, 1_300_000_000)),
        ]
    } else {
        seq![
            cue(Sound::YouFailed, 900_000),
            cue_at(Sound::Jeers, 600_000, later(now, 1_300_000_000)),
        ]
    };
    let line = if flawless {
        seq![
            cue_at(
                if won {
                    Sound::FlawlessVictory
                } else {
                    Sound::FlawlessDefeat
                },
                900_000,
                later(now, 3_000_000_000),
            ),
        ]
    } else {
        Seq::empty()
    };
    first + line + seq![cue_at(Sound::Begin, 850_000, later(now, 5_500_000_000))]
}

/// The sounds of an event; `distance` is how far off it was.
pub open spec fn event_sounds(ev: SimEvent, distance: u32, me: u8, now: u64) -> Seq<Cue> {
    match ev {
        SimEvent::RocketFired { shooter } => seq![
            cue(
                Sound::RocketShoot,
                if shooter == me {
                    550_000
                } else {
                    attenuated(distance, 550_000) as u32
                },
            ),
        ],
        SimEvent::Explosion { .. } => seq![
            cue(Sound::Explode, attenuated(distance, 800_000) as u32),
        ],
        SimEvent::PlayerHit { victim, attacker, airshot_kill } => hit_sounds(
            me,
            attacker,
            victim,
            airshot_kill,
        ),
        SimEvent::Killed { victim, .. } => seq![
            cue(
                Sound::Death,
                if victim == me {
                    800_000
                } else {
                    550_000
                },
            ),
        ],
        SimEvent::RoundWon { winner, score } => round_sounds(
            winner == me,
            score@[0] == 0 || score@[1] == 0,
            now,
        ),
        _ => Seq::empty(),
    }
}

/// The sounds of the first `n` events.
pub open spec fn events_sounds(
    events: Seq<SimEvent>,
    distances: Seq<u32>,
    me: u8,
    now: u64,
    n: int,
) -> Seq<Cue>
    decreases n,
{
    if n <= 0 {
        Seq::empty()
    } else {
        events_sounds(events, distances, me, now, n - 1) + event_sounds(
            events[n - 1],
            distances[n - 1],
            me,
            now,
        )
    }
}

fn sounds_of(ev: &SimEvent, distance: u32, me: u8, now: u64) -> (r: Vec<Cue>)
    ensures
        r@ == event_sounds(*ev, distance, me, now),
{
    let v: Vec<Cue> = match ev {
        SimEvent::RocketFired { shooter } => {
            let volume: u32 = if *shooter == me {
                550_000
            } else {
                attenuate(distance, 550_000)
            };
            vec![now_cue(Sound::RocketShoot, volume)]
        },
        SimEvent::Explosion { .. } => vec![now_cue(Sound::Explode, attenuate(distance, 800_000))],
        SimEvent::PlayerHit { victim, attacker, airshot_kill } => if *attacker == me && *victim != me {
            if *airshot_kill {
                vec![now_cue(Sound::CritHit, 900_000), now_cue(Sound::Kill, 600_000)]
            } else {
                vec![now_cue(Sound::Hit, 500_000)]
            }
        } else if *victim == me && *attacker != me {
            if *airshot_kill {
                vec![now_cue(Sound::CritReceived, 900_000), now_cue(Sound::FreezeCam, 500_000)]
            } else {
                vec![now_cue(Sound::Pain, 500_000)]
            }
        } else {
            Vec::new()
        },
        SimEvent::Killed { victim, .. } => {
            let volume: u32 = if *victim == me {
                800_000
            } else {
                550_000
            };
            vec![now_cue(Sound::Death, volume)]
        },
        SimEvent::RoundWon { winner, score } => {
            let won = *winner == me;
            let flawless = score[0] == 0 || score[1] == 0;
            let mut v: Vec<Cue> = if won {
                vec![
                    now_cue(Sound::Victory, 900_000),
                    later_cue(Sound::Cheers, 700_000, now, 1_300_000_000),
                ]
            } else {
                vec![
                    now_cue(Sound::YouFailed, 900_000),
                    later_cue(Sound::Jeers, 600_000, now, 1_300_000_000),
                ]
            };
            if flawless {
                v.push(
                    later_cue(
                        if won {
                            Sound::FlawlessVictory
                        } else {
                            Sound::FlawlessDefeat
                        },
                        900_000,
                        now,
                        3_000_000_000,
                    ),
                );
            }
            v.push(later_cue(Sound::Begin, 850_000, now, 5_500_000_000));
            v
        },
        _ => Vec::new(),
    };
    proof {
        assert(v@ =~= event_sounds(*ev, distance, me, now));
    }
    v
}

/// The sounds of a frame's events; `distances` go with the events.
pub fn game_sounds(events: &Vec<SimEvent>, distances: &Vec<u32>, me: u8, now: u64) -> (r: Vec<Cue>)
    requires
        distances.len() == events.len(),
    ensures
        r@ == events_sounds(events@, distances@, me, now, events@.len() as int),
{
    let mut out: Vec<Cue> = Vec::new();
    let mut i: usize = 0;
    proof {
        assert(out@ =~= Seq::<Cue>::empty());
    }
    while i < events.len()
        invariant
            i <= events.len(),
            distances.len() == events.len(),
            out@ == events_sounds(events@, distances@, me, now, i as int),
        decreases events.len() - i,
    {
        let mut more = sounds_of(&events[i], distances[i], me, now);
        out.append(&mut more);
        i = i + 1;
    }
    out
}

/// A hit on oneself is not heard; any other is heard by the two players it concerns and by nobody
/// else.
pub proof fn law_hits_are_heard_by_one_side(attacker: u8, victim: u8, airshot_kill: bool, me: u8)
    ensures
        attacker == victim ==> hit_sounds(me, attacker, victim, airshot_kill) == Seq::<Cue>::empty(),
        attacker != victim && (me == attacker || me == victim) ==> hit_sounds(
            me,
            attacker,
            victim,
            airshot_kill,
        ).len() > 0,
        me != attacker && me != victim ==> hit_sounds(me, attacker, victim, airshot_kill) == Seq::<
            Cue,
        >::empty(),
{
}

/// What the launcher's sound depends on.
#[derive(Clone, Copy, Debug, PartialEq, Eq, Structural)]
pub struct Loaded {
    pub alive: bool,
    pub spawn_tick: u32,
    pub clip: i32,
}

/// The launcher reloads a rocket a while after firing; the reload click plays when the clip
/// refills within one life.
pub fn reload_sound(before: Loaded, now: Loaded) -> (r: Option<Cue>)
    ensures
        r == if before.alive && now.alive && before.spawn_tick == now.spawn_tick && now.clip
            > before.clip {
            Some(cue(Sound::RocketReload, 600_000))
        } else {
            None
        },
{
    if before.alive && now.alive && before.spawn_tick == now.spawn_tick && now.clip > before.clip {
        Some(now_cue(Sound::RocketReload, 600_000))
    } else {
        None
    }
}

// ---- sounds for later ----

/// Sounds scheduled for a later time (announcer lines after a round, ...).
pub struct Delayed {
    pub waiting: Vec<Cue>,
}

/// Whether a scheduled sound is due.
pub open spec fn due(c: Cue, now: u64) -> bool {
    match c.at {
        Some(t) => t <= now,
        None => true,
    }
}

fn is_due(c: &Cue, now: u64) -> (r: bool)
    ensures
        r == due(*c, now),
{
    match c.at {
        Some(t) => t <= now,
        None => true,
    }
}

impl Delayed {
    /// Schedules the sounds that are for later; what comes back plays at once.
    pub fn schedule(&mut self, cues: Vec<Cue>) -> (r: Vec<Cue>)
        ensures
            r@ == cues@.filter(|c: Cue| c.at is None),
            final(self).waiting@ == old(self).waiting@ + cues@.filter(|c: Cue| c.at is Some),
    {
        let mut out: Vec<Cue> = Vec::new();
        let mut i: usize = 0;
        let ghost later_ones = |c: Cue| c.at is Some;
        let ghost now_ones = |c: Cue| c.at is None;
        let ghost start = self.waiting@;
        proof {
            assert(cues@.take(0) =~= Seq::<Cue>::empty());
            reveal(Seq::filter);
            assert(start + cues@.take(0).filter(later_ones) =~= start);
            assert(out@ =~= cues@.take(0).filter(now_ones));
        }
        while i < cues.len()
            invariant
                i <= cues.len(),
                later_ones == (|c: Cue| c.at is Some),
                now_ones == (|c: Cue| c.at is None),
                out@ == cues@.take(i as int).filter(now_ones),
                self.waiting@ == start + cues@.take(i as int).filter(later_ones),
            decreases cues.len() - i,
        {
            proof {
                assert(cues@.take(i as int + 1).drop_last() =~= cues@.take(i as int));
                assert(cues@.take(i as int + 1).last() == cues@[i as int]);
                reveal(Seq::filter);
            }
            let c = cues[i];
            let ghost before = cues@.take(i as int);
            if c.at.is_some() {
                self.waiting.push(c);
                proof {
                    assert(cues@.take(i as int + 1).filter(later_ones) == before.filter(
                        later_ones,
                    ).push(c));
                    assert(self.waiting@ =~= start + cues@.take(i as int + 1).filter(later_ones));
                }
            } else {
                out.push(c);
            }
            i = i + 1;
        }
        proof {
            assert(cues@.take(cues@.len() as int) =~= cues@);
        }
        out
    }

    /// Takes out every sound whose time has come.
    pub fn flush_delayed(&mut self, now: u64) -> (r: Vec<Cue>)
        ensures
            r@.to_multiset().add(final(self).waiting@.to_multiset())
                == old(self).waiting@.to_multiset(),
            forall|i: int| 0 <= i < r@.len() ==> due(#[trigger] r@[i], now),
            forall|i: int|
                0 <= i < final(self).waiting@.len() ==> !due(
                    #[trigger] final(self).waiting@[i],
                    now,
                ),
    {
        broadcast use vstd::seq_lib::group_to_multiset_ensures;

        let mut out: Vec<Cue> = Vec::new();
        let mut i: usize = 0;
        let ghost all = self.waiting@.to_multiset();
        proof {
            assert(out@ =~= Seq::<Cue>::empty());
            assert(out@.to_multiset().add(self.waiting@.to_multiset()) =~= all);
        }
        while i < self.waiting.len()
            invariant
                i <= self.waiting.len(),
                out@.to_multiset().add(self.waiting@.to_multiset()) == all,
                forall|j: int| 0 <= j < out@.len() ==> due(#[trigger] out@[j], now),
                forall|j: int| 0 <= j < i ==> !due(#[trigger] self.waiting@[j], now),
            decreases self.waiting.len() - i,
        {
            broadcast use vstd::seq_lib::group_to_multiset_ensures;

            if is_due(&self.waiting[i], now) {
                let ghost before = self.waiting@;
                let ghost gone = out@;
                let c = self.waiting.swap_remove(i);
                proof {
                    let n = before.len() as int;
                    let last = before[n - 1];
                    let u = before.update(i as int, last);
                    assert(c == before[i as int]);
                    assert(u.drop_last() =~= u.remove(n - 1));
                    assert(before.contains(before[i as int]));
                    assert(u.to_multiset() =~= before.to_multiset().insert(last).remove(c));
                    assert(u.remove(n - 1).to_multiset() =~= u.to_multiset().remove(u[n - 1]));
                    assert(self.waiting@ =~= u.drop_last());
                    assert(gone.push(c).to_multiset() =~= gone.to_multiset().insert(c));
                }
                out.push(c);
                proof {
                    assert(out@.to_multiset().add(self.waiting@.to_multiset()) =~= all);
                }
            } else {
                i = i + 1;
            }
        }
        out
    }
}

/// Up close a sound keeps its volume; from 2700 units on a quarter of it is left.
pub proof fn law_where_attenuation_ends(distance: u32, base: u32)
    ensures
        distance <= 200_000 ==> attenuated(distance, base) == base,
        distance >= 2_700_000 ==> attenuated(distance, base) == base / 4,
{
    if distance >= 2_700_000 {
        assert(base * 2_500_000 / 10_000_000 == base / 4);
    }
}

/// Each file of a sound can come up, and nothing else does.
pub proof fn law_every_file_of_a_sound_comes_up(sound: Sound, draw: usize)
    ensures
        sound.files().len() > 0,
        exists|i: int|
            0 <= i < sound.files().len() && picked_file(sound, draw) == "sounds/"@
                + #[trigger] sound.files()[i] + ".ogg"@,
        draw < sound.files().len() ==> picked_file(sound, draw) == "sounds/"@
            + sound.files()[draw as int] + ".ogg"@,
{
    let n = sound.files().len() as int;
    let i = draw as int % n;
    assert(0 <= i < n);
    if draw < n {
        vstd::arithmetic::div_mod::lemma_small_mod(draw as nat, n as nat);
    }
    assert(picked_file(sound, draw) == "sounds/"@ + sound.files()[i] + ".ogg"@);
}

/// Without a track before it, the draw alone says which track comes; a draw of another track than
/// the last one stands.
pub proof fn law_the_draw_picks_the_track(draw: usize, last: usize)
    ensures
        next_track(draw, None) == draw % 5,
        draw % 5 != last ==> next_track(draw, Some(last)) == draw % 5,
{
}

/// What a hit sounds like: to who landed it, the hit, or the critical hit and the kill where it
/// killed in the air; to who took it, the pain, or the critical hit and the freeze frame.
pub proof fn law_what_a_hit_sounds_like(attacker: u8, victim: u8)
    requires
        attacker != victim,
    ensures
        hit_sounds(attacker, attacker, victim, false) == seq![
            Cue { sound: Sound::Hit, volume: 500_000, at: None },
        ],
        hit_sounds(attacker, attacker, victim, true) == seq![
            Cue { sound: Sound::CritHit, volume: 900_000, at: None },
            Cue { sound: Sound::Kill, volume: 600_000, at: None },
        ],
        hit_sounds(victim, attacker, victim, false) == seq![
            Cue { sound: Sound::Pain, volume: 500_000, at: None },
        ],
        hit_sounds(victim, attacker, victim, true) == seq![
            Cue { sound: Sound::CritReceived, volume: 900_000, at: None },
            Cue { sound: Sound::FreezeCam, volume: 500_000, at: None },
        ],
{
}

/// A player's own shot is heard in full wherever it is; the opponent's is a shot too, never louder
/// than one's own, and no louder from further away. An explosion is heard the same by both.
pub proof fn law_shots_and_explosions(
    me: u8,
    other: u8,
    near: u32,
    far: u32,
    hit: Option<u8>,
    now: u64,
)
    requires
        me != other,
        near <= far,
    ensures
        ({
            let shot = SimEvent::RocketFired { shooter: me };
            let mine = event_sounds(shot, far, me, now);
            let close = event_sounds(shot, near, other, now);
            let distant = event_sounds(shot, far, other, now);
            &&& mine.len() == 1 && mine[0].sound == Sound::RocketShoot && mine[0].volume == 550_000
                && mine[0].at is None
            &&& close.len() == 1 && close[0].sound == Sound::RocketShoot && close[0].at is None
            &&& distant.len() == 1 && distant[0].sound == Sound::RocketShoot
            &&& distant[0].volume <= close[0].volume <= mine[0].volume
        }),
        ({
            let boom = SimEvent::Explosion { hit_player: hit };
            let close = event_sounds(boom, near, me, now);
            let distant = event_sounds(boom, far, me, now);
            &&& close == event_sounds(boom, near, other, now)
            &&& close.len() == 1 && close[0].sound == Sound::Explode && close[0].at is None
            &&& near <= 200_000 ==> close[0].volume == 800_000
            &&& distant[0].volume <= close[0].volume <= 800_000
        }),
{
    law_attenuation_falls_to_a_quarter(near, far, 550_000);
    law_attenuation_falls_to_a_quarter(near, far, 800_000);
    law_where_attenuation_ends(near, 800_000);
}

/// A death is heard by both, louder by who died. Spawns, landings, jumps and the end of a round of
/// soldiers are silent.
pub proof fn law_deaths_are_heard(victim: u8, attacker: u8, me: u8, distance: u32, now: u64)
    ensures
        ({
            let heard = event_sounds(SimEvent::Killed { victim, attacker }, distance, me, now);
            &&& heard.len() == 1 && heard[0].sound == Sound::Death && heard[0].at is None
            &&& heard[0].volume == 800_000 <==> me == victim
            &&& me != victim ==> heard[0].volume == 550_000
        }),
        event_sounds(SimEvent::Respawn { player: victim }, distance, me, now).len() == 0,
        event_sounds(SimEvent::Landed { player: victim }, distance, me, now).len() == 0,
        event_sounds(SimEvent::Jumped { player: victim }, distance, me, now).len() == 0,
{
}

/// At the end of a round the winner hears the victory and the cheers, the loser the failure and the
/// jeers; a round without a point for one side is announced as flawless, to each by their side; and
/// the next round is announced last.
pub proof fn law_what_the_end_of_a_round_sounds_like(
    winner: u8,
    score: [i32; 2],
    distance: u32,
    me: u8,
    now: u64,
)
    requires
        now + 5_500_000_000 <= u64::MAX,
    ensures
        ({
            let heard = event_sounds(SimEvent::RoundWon { winner, score }, distance, me, now);
            let flawless = score@[0] == 0 || score@[1] == 0;
            let n = heard.len() as int;
            &&& n == if flawless {
                4int
            } else {
                3
            }
            &&& heard[0] == Cue {
                sound: if me == winner {
                    Sound::Victory
                } else {
                    Sound::YouFailed
                },
                volume: 900_000,
                at: None,
            }
            &&& heard[1].sound == (if me == winner {
                Sound::Cheers
            } else {
                Sound::Jeers
            })
            &&& heard[1].at == Some((now + 1_300_000_000) as u64)
            &&& heard[1].volume == if me == winner {
                700_000u32
            } else {
                600_000
            }
            &&& flawless ==> heard[2].volume == 900_000
            &&& heard[n - 1].volume == 850_000
            &&& flawless ==> heard[2].sound == (if me == winner {
                Sound::FlawlessVictory
            } else {
                Sound::FlawlessDefeat
            }) && heard[2].at == Some((now + 3_000_000_000) as u64)
            &&& heard[n - 1].sound == Sound::Begin
            &&& heard[n - 1].at == Some((now + 5_500_000_000) as u64)
        }),
{
}

/// Nothing that an event sounds like is lost among the others: the sounds of one event are heard
/// wherever it stands, and a run of events sounds like its parts, one after the other.
pub proof fn law_every_event_is_heard(
    events: Seq<SimEvent>,
    distances: Seq<u32>,
    me: u8,
    now: u64,
    n: int,
    i: int,
)
    requires
        0 <= i < n <= events.len(),
    ensures
        forall|c: Cue| #[trigger]
            event_sounds(events[i], distances[i], me, now).contains(c) ==> events_sounds(
                events,
                distances,
                me,
                now,
                n,
            ).contains(c),
        events_sounds(events, distances, me, now, n) == events_sounds(
            events,
            distances,
            me,
            now,
            n - 1,
        ) + event_sounds(events[n - 1], distances[n - 1], me, now),
        events_sounds(events, distances, me, now, 0).len() == 0,
    decreases n,
{
    let all = events_sounds(events, distances, me, now, n);
    let before = events_sounds(events, distances, me, now, n - 1);
    let last = event_sounds(events[n - 1], distances[n - 1], me, now);
    if i < n - 1 {
        law_every_event_is_heard(events, distances, me, now, n - 1, i);
    }
    assert forall|c: Cue| #[trigger]
        event_sounds(events[i], distances[i], me, now).contains(c) implies all.contains(c) by {
        if i < n - 1 {
            let j = choose|j: int| 0 <= j < before.len() && before[j] == c;
            assert(all[j] == c);
        } else {
            let j = choose|j: int| 0 <= j < last.len() && last[j] == c;
            assert(all[before.len() + j] == c);
        }
    }
}

/// The panel opens with the pause menu and any settings, closes with the pause menu, and a run's
/// first screen comes up in silence.
pub proof fn law_when_the_panel_is_heard(before: UiScreen, screen: UiScreen)
    ensures
        screen_sound(None, screen) is None,
        screen_sound(Some(before), screen) is Some <==> before == UiScreen::Hidden && screen
            == UiScreen::Pause || before == UiScreen::Pause && screen == UiScreen::Hidden || screen
            is Settings,
        screen_sound(Some(before), screen) matches Some(c) ==> c.at is None && c.volume == 600_000
            && (c.sound == Sound::PanelClose <==> screen == UiScreen::Hidden) && (c.sound
            == Sound::PanelOpen <==> screen != UiScreen::Hidden),
{
}

/// Everything but the menu music is loaded at the start.
pub proof fn law_what_is_loaded_at_the_start(s: Sound)
    ensures
        Sound::startup().contains(s) <==> s != Sound::Music,
        Sound::startup().len() == 24,
{
    let all = Sound::startup();
    assert(all[0] == Sound::RocketShoot && all[1] == Sound::RocketReload && all[2] == Sound::Hit);
    assert(all[3] == Sound::Kill && all[4] == Sound::FreezeCam && all[5] == Sound::ButtonClick);
    assert(all[6] == Sound::ButtonRollover && all[7] == Sound::PanelOpen);
    assert(all[8] == Sound::PanelClose && all[9] == Sound::Join && all[10] == Sound::Notification);
    assert(all[11] == Sound::Victory && all[12] == Sound::YouFailed && all[13] == Sound::Begin);
    assert(all[14] == Sound::Explode && all[15] == Sound::CritHit);
    assert(all[16] == Sound::CritReceived && all[17] == Sound::FlawlessVictory);
    assert(all[18] == Sound::FlawlessDefeat && all[19] == Sound::Cheers && all[20] == Sound::Jeers);
    assert(all[21] == Sound::Death && all[22] == Sound::Pain && all[23] == Sound::Battlecry);
    if s == Sound::Music {
        assert forall|i: int| 0 <= i < 24 implies #[trigger] all[i] != s by {}
    }
}

/// The sounds with one recording, by their files.
pub proof fn law_single_recordings()
    ensures
        Sound::RocketShoot.files() == seq!["weapons/rocket_shoot"@],
        Sound::RocketReload.files() == seq!["weapons/rocket_reload"@],
        Sound::Hit.files() == seq!["ui/hitsound"@],
        Sound::Kill.files() == seq!["ui/killsound"@],
        Sound::FreezeCam.files() == seq!["misc/freeze_cam"@],
        Sound::ButtonClick.files() == seq!["ui/buttonclick"@],
        Sound::ButtonRollover.files() == seq!["ui/buttonrollover"@],
        Sound::PanelOpen.files() == seq!["ui/panel_open"@],
        Sound::PanelClose.files() == seq!["ui/panel_close"@],
        Sound::Join.files() == seq!["ui/mm_join"@],
        Sound::Notification.files() == seq!["ui/notification_alert"@],
        Sound::Victory.files() == seq!["vo/announcer_victory"@],
        Sound::YouFailed.files() == seq!["vo/announcer_you_failed"@],
        Sound::Begin.files() == seq!["vo/announcer_am_roundstart03"@],
        Sound::FlawlessVictory.files()[0] == "vo/announcer_am_flawlessvictory01"@,
        Sound::FlawlessDefeat.files()[0] == "vo/announcer_am_flawlessdefeat01"@,
        Sound::Cheers.files()[0] == "vo/soldier_cheers01"@,
        Sound::Jeers.files()[0] == "vo/soldier_jeers01"@,
        Sound::CritHit.files()[0] == "player/crit_hit"@,
        Sound::CritReceived.files()[0] == "player/crit_received1"@,
        Sound::Explode.files()[0] == "weapons/explode1"@,
        Sound::Battlecry.files()[0] == "vo/soldier_battlecry01"@,
{
}

} // verus!
