//! What happens around the first frames: assets, the warm-up, the window and the launch.

use endif_client::assets::{gltf_path, GameAssets, LoadedGltf, Sprite, SPRITE_COUNT};
use endif_client::fullscreen::{mode_for, toggle_fullscreen, FullscreenKeys, WindowMode};
use endif_client::game::{ButtonBits, SimEvent};
use endif_client::icon::{decode_icon, icon_of, IconTurn, WindowIcon};
use endif_client::launch::{answer, display_notice, survives, wayland_socket, DisplayEnv};
use endif_client::loading::{StartupAssets, PENDING_EVERY};
use endif_client::settings::{FruitRules, Settings};
use endif_client::update::{updater_args, updater_name, UpdaterFault};
use endif_client::viewmodel::{fired, AnimCommand, Clip, ViewmodelAnim};
use endif_client::warmup::{scene_clips, step, warm_inputs, Step, WarmupState, WarmupTurn, FRAMES, STEPS};

fn strings(list: &[&str]) -> Vec<String> {
    list.iter().map(|s| s.to_string()).collect()
}

/// A PNG file of two pixels, red and half-transparent blue.
const PNG: [u8; 71] = [
    0x89, 0x50, 0x4e, 0x47, 0x0d, 0x0a, 0x1a, 0x0a, 0x00, 0x00, 0x00, 0x0d, 0x49, 0x48, 0x44, 0x52,
    0x00, 0x00, 0x00, 0x02, 0x00, 0x00, 0x00, 0x01, 0x08, 0x06, 0x00, 0x00, 0x00, 0xf4, 0x22, 0x7f,
    0x8a, 0x00, 0x00, 0x00, 0x0e, 0x49, 0x44, 0x41, 0x54, 0x78, 0x9c, 0x63, 0xf8, 0xcf, 0xc0, 0x00,
    0x42, 0x0d, 0x00, 0x0f, 0x7a, 0x03, 0x7e, 0x77, 0xe9, 0x7f, 0x97, 0x00, 0x00, 0x00, 0x00, 0x49,
    0x45, 0x4e, 0x44, 0xae, 0x42, 0x60, 0x82,
];

#[test]
fn sprites_have_their_strips() {
    let all = Sprite::all();
    assert_eq!(all.len(), SPRITE_COUNT);
    assert_eq!(Sprite::Debris.path(), "particles/debris_chunk.png");
    assert_eq!((Sprite::Smoke1.frames(), Sprite::Glow.frames()), (6, 1));
    assert!(Sprite::Ember.additive() && !Sprite::Smoke1.additive());
    for (i, s) in all.iter().enumerate() {
        assert_eq!(s.index(), i);
    }
    assert_eq!(gltf_path(1), "models/viewmodel.glb");
}

#[test]
fn scenes_arrive() {
    let mut a = GameAssets::new();
    assert!(!a.scenes_resolved());
    a.resolve_scenes(&vec![
        Some(LoadedGltf { default_scene: None, scenes: vec![5, 6] }),
        Some(LoadedGltf { default_scene: Some(9), scenes: vec![8] }),
        None,
    ]);
    assert_eq!((a.scene(0), a.scene(1), a.scene(2)), (Some(5), Some(9), None));
    a.resolve_scenes(&vec![
        Some(LoadedGltf { default_scene: Some(1), scenes: vec![] }),
        None,
        Some(LoadedGltf { default_scene: Some(2), scenes: vec![] }),
    ]);
    assert_eq!(a.scene(0), Some(5));
    assert!(a.scenes_resolved());
}

#[test]
fn progress_is_reported_when_it_changes() {
    let mut s = StartupAssets::new(3, 0);
    let r = s.report(&vec![false, false, false], 0, 2, 1);
    assert!(r.told && !r.over && !r.pending);
    assert_eq!((r.done, r.total), (0, 5));
    let r = s.report(&vec![false, true, false], 0, 2, PENDING_EVERY);
    assert_eq!(r.finished, vec![1]);
    assert!(r.told && r.pending);
    let r = s.report(&vec![false, false, false], 0, 2, PENDING_EVERY + 1);
    assert!(!r.told && !r.pending && r.finished.is_empty());
    let r = s.report(&vec![true, true, true], 1, 2, PENDING_EVERY + 2);
    assert_eq!(r.finished, vec![0, 2]);
    assert!(!r.over);
    let r = s.report(&vec![true, true, true], 2, 2, PENDING_EVERY + 3);
    assert!(r.over && r.done == r.total);
}

#[test]
fn the_warmup_runs_through() {
    let mut w = WarmupState::new();
    assert_eq!(w.coming(), Some(Step::Cameras));
    assert_eq!(w.warmup(false, true), WarmupTurn::Wait);
    let mut spawned = 0;
    let mut frames = 0;
    for _ in 0..200 {
        match w.warmup(true, true) {
            WarmupTurn::Spawn(s) => {
                spawned += 1;
                if matches!(s, Step::Scene(_)) {
                    assert_eq!(w.warmup(true, true), WarmupTurn::Wait);
                    w.scene_ready();
                }
            }
            WarmupTurn::Render | WarmupTurn::Finish => frames += 1,
            WarmupTurn::Over => break,
            t => panic!("{t:?}"),
        }
    }
    assert_eq!((spawned, frames), (STEPS, FRAMES));
    assert_eq!(w.done(), (STEPS + FRAMES, STEPS + FRAMES));
}

#[test]
fn failed_models_are_passed_over() {
    let mut w = WarmupState { next: 2, scene_pending: false, scenes_ready: 0, frames: 0 };
    assert_eq!(w.warmup(true, false), WarmupTurn::Skip(0));
    assert_eq!(w.scenes_ready, 1);
    assert_eq!(step(15), Step::Sprite(6));
    assert_eq!(scene_clips(1), ("viewmodel", vec!["dh_idle", "dh_fire"]));
}

#[test]
fn the_simulation_is_warmed_up() {
    let bits = ButtonBits {
        forward: 1,
        back: 2,
        left: 4,
        right: 8,
        jump: 16,
        duck: 32,
        attack: 64,
        weapon_stock: 128,
        weapon_original: 256,
    };
    let (a, b) = warm_inputs(61, &bits);
    assert_eq!((a.buttons, a.pitch, b.buttons, b.pitch), (112, 89, 0, -15));
    let (a, b) = warm_inputs(80, &bits);
    assert_eq!((a.buttons, a.pitch, b.buttons), (1, 0, 64));
}

#[test]
fn icons_are_decoded() {
    let icon = decode_icon(&PNG.to_vec()).unwrap();
    assert_eq!((icon.width, icon.height), (2, 1));
    assert_eq!(icon.rgba, vec![255, 0, 0, 255, 0, 0, 255, 128]);
    assert!(decode_icon(&vec![1, 2, 3]).is_none());
    assert!(icon_of(vec![0; 7], 2, 1).is_none());
    assert!(icon_of(vec![0; 8], 2, 1).is_some());
}

#[test]
fn the_icon_waits_for_a_window() {
    let mut w = WindowIcon::new();
    assert!(w.wants_icon());
    assert_eq!(w.set_window_icon(icon_of(vec![0; 4], 1, 1), 0), IconTurn::Wait);
    assert!(!w.wants_icon());
    assert_eq!(w.set_window_icon(None, 1), IconTurn::Hand);
    assert_eq!(w.set_window_icon(None, 1), IconTurn::Nothing);
    let mut bad = WindowIcon::new();
    assert_eq!(bad.set_window_icon(None, 1), IconTurn::Warn);
    assert_eq!(bad.set_window_icon(None, 1), IconTurn::Nothing);
}

#[test]
fn questions_are_answered() {
    assert_eq!(answer(&strings(&["endif"]), "b1", "p1"), None);
    assert_eq!(answer(&strings(&["endif", "--protocol"]), "b1", "p1").as_deref(), Some("p1"));
    assert_eq!(answer(&strings(&["endif", "--protocol", "--build-id"]), "b1", "p1").as_deref(), Some("b1"));
}

fn display(wayland: &str, dir: &str) -> DisplayEnv {
    DisplayEnv {
        forced: false,
        wayland: Some(wayland.to_string()),
        display: Some(":0".to_string()),
        runtime_dir: Some(dir.to_string()),
    }
}

#[test]
fn displays_are_looked_for() {
    assert_eq!(wayland_socket(&display("wayland-0", "/run/user/1000")).as_deref(), Some("/run/user/1000/wayland-0"));
    assert_eq!(wayland_socket(&display("wayland-0", "/run/")).as_deref(), Some("/run/wayland-0"));
    assert_eq!(wayland_socket(&display("/tmp/w", "")).as_deref(), Some("/tmp/w"));
    assert_eq!(wayland_socket(&display("wayland-0", "")), None);
    assert_eq!(wayland_socket(&display("", "/run")), None);
    let mut forced = display("wayland-0", "/run");
    forced.forced = true;
    assert_eq!(wayland_socket(&forced), None);
    let mut no_x = display("wayland-0", "/run");
    no_x.display = None;
    assert_eq!(wayland_socket(&no_x), None);
    assert_eq!(display_notice("w", "/run/w"), "WAYLAND_DISPLAY=w but /run/w does not exist; using X11 (DISPLAY)");
}

#[test]
fn only_the_swap_chain_is_survived() {
    assert!(survives(true, "Destroyed texture 'swap chain texture' used"));
    assert!(!survives(false, "swap chain texture"));
    assert!(!survives(true, "out of memory"));
}

#[test]
fn the_updater_is_told_everything() {
    assert_eq!(
        updater_args("/game", "https://x/d", "/game/endif", 42, "b2"),
        strings(&["--dir", "/game", "--url", "https://x/d", "--launch", "/game/endif", "--wait-pid", "42", "--expect", "b2"])
    );
    assert_eq!(updater_args("d", "u", "e", 1, "").len(), 8);
    assert_eq!(updater_name(true), "endif-updater.exe");
    assert_eq!(updater_name(false), "endif-updater");
    assert_eq!(UpdaterFault::NoExecutable("gone".to_string()).text(), "cannot find the game executable: gone");
    assert_eq!(UpdaterFault::NoDirectory.text(), "the game executable has no directory");
    assert_eq!(
        UpdaterFault::Missing("https://x".to_string()).text(),
        "the updater is missing next to the game; download the current build from https://x"
    );
    assert_eq!(UpdaterFault::NotStarted("no".to_string()).text(), "could not start the updater: no");
}

#[test]
fn fullscreen_is_toggled_and_kept() {
    let mut s = Settings::new(
        &FruitRules {
            difficulties: strings(&["Easy"]),
            soldiers_min: 1,
            soldiers_max: 10,
            speed_min: 0,
            speed_max: 1000,
            distance_min: 500,
            distance_max: 2000,
            difficulty: 0,
            soldiers: 3,
            speed: 300,
            distance: 1000,
        },
        false,
    );
    let none = FullscreenKeys { f11: false, enter: true, alt: false };
    assert_eq!(toggle_fullscreen(&mut s, WindowMode::Windowed, none), None);
    let alt_enter = FullscreenKeys { f11: false, enter: true, alt: true };
    assert_eq!(toggle_fullscreen(&mut s, WindowMode::Windowed, alt_enter), Some(WindowMode::BorderlessFullscreen));
    assert!(s.fullscreen);
    let f11 = FullscreenKeys { f11: true, enter: false, alt: false };
    assert_eq!(toggle_fullscreen(&mut s, mode_for(true), f11), Some(WindowMode::Windowed));
    assert!(!s.fullscreen);
}

#[test]
fn the_viewmodel_plays_one_thing() {
    let (mut v, first) = ViewmodelAnim::drawn();
    assert_eq!(first, vec![AnimCommand::Start(Clip::Draw)]);
    assert!(v.settle(false, false).is_empty());
    assert_eq!(v.settle(true, false), vec![AnimCommand::Stop(Clip::Draw), AnimCommand::Loop(Clip::Idle)]);
    assert!(v.settle(true, true).is_empty());
    let events = vec![SimEvent::RocketFired { shooter: 1 }];
    assert!(fired(&events, 1) && !fired(&events, 0));
    assert_eq!(v.shoot(true), vec![AnimCommand::Stop(Clip::Idle), AnimCommand::Start(Clip::Fire)]);
    assert_eq!(
        v.shoot(true),
        vec![AnimCommand::Stop(Clip::Fire), AnimCommand::Stop(Clip::Idle), AnimCommand::Start(Clip::Fire)]
    );
    assert_eq!(Clip::Fire.name(), "dh_fire");
}
