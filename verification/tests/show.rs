//! The overlay, the sounds and the gallery.

use endif_client::audio::{
    attenuate, clip, game_sounds, match_start, menu_music, pick, reload_sound, room_error_sound,
    screen_sounds, startup_clips, track, ui_sounds, Delayed, Loaded, Sound,
};
use endif_client::fruit::{
    accuracy, button_colour, collapse_frame, drag_frame, in_gallery, option_button, place_frame,
    progress_text, reset_button, shown, update_score, Countdown, FrameMouse, OptionButton, OptionShade,
    Record, Records, ScoreInput, TargetPool, COUNTDOWN, FRAME_ANCHOR, RECORD_RESULT_FOR, SECOND_DING,
    THIRD_DING,
};
use endif_client::game::SimEvent;
use endif_client::hud::{line_opacity, update_hud, Flash, HudInput, KillFeed, NetStatus, KILL_FADE, KILL_HOLD};
use endif_client::menu::{Touch, UiScreen};
use endif_client::net::{MatchKind, PlayerNames, RoomFailure};
use endif_client::settings::{FruitRules, Settings};
use endif_client::theme::Tint;

const SECOND: u64 = 1_000_000_000;

fn rules() -> FruitRules {
    FruitRules {
        difficulties: vec!["Easy".to_string(), "Hard".to_string()],
        soldiers_min: 1,
        soldiers_max: 10,
        speed_min: 0,
        speed_max: 1000,
        distance_min: 500,
        distance_max: 2000,
        difficulty: 0,
        soldiers: 3,
        speed: 300,
        distance: 1000,
    }
}

fn hud(height: i32) -> HudInput {
    HudInput {
        local: 1,
        score: (3, 5),
        alive: true,
        clip: 4,
        height,
        airshot_height: 100_000,
        speed: 240_400,
        captured: true,
        seconds: 75,
    }
}

#[test]
fn the_overlay_reads_the_match() {
    let status = NetStatus { text: "connected".to_string(), ping_ms: 31, frames_ahead: 0 };
    let look = update_hud(&hud(50_000), &Some(MatchKind::Room { code: "ABCDEF".to_string() }), &status);
    assert_eq!((look.my_score.as_str(), look.their_score.as_str()), ("5", "3"));
    assert_eq!(look.clip, "4");
    assert_eq!(look.speed, "SPEED 240 U/S");
    assert_eq!(look.timer, "1:15");
    assert_eq!(look.status, "Tab to unfocus - Esc for menu\nping 31 ms");
    assert!(!look.above);
    // Half the airshot height is a third of the bar.
    assert_eq!(look.bar.0 * 3, look.bar.1);
    let look = update_hud(&hud(100_001), &None, &status);
    assert!(look.above);
    assert_eq!(look.status, "Tab to unfocus - Esc for menu");
}

#[test]
fn rounds_are_announced() {
    let mut f = Flash::new();
    f.kill_flashes(&vec![SimEvent::RoundWon { winner: 1, score: [3, 5] }], 1, SECOND);
    assert_eq!((f.text.as_str(), f.won), ("VICTORY!\n5 - 3", true));
    f.kill_flashes(&vec![], 1, 5 * SECOND);
    assert_eq!(f.text, "");
}

#[test]
fn kills_are_listed_for_a_while() {
    let names = PlayerNames { first: "Alice".to_string(), second: String::new() };
    let mut feed = KillFeed { lines: Vec::new() };
    let kill = SimEvent::PlayerHit { victim: 1, attacker: 0, airshot_kill: true };
    let hit = SimEvent::PlayerHit { victim: 1, attacker: 0, airshot_kill: false };
    feed.kill_feed(&vec![kill, hit], &vec![512_400, 1], &names, 0, SECOND);
    assert_eq!(feed.lines.len(), 1);
    let line = &feed.lines[0];
    assert_eq!((line.killer.as_str(), line.victim.as_str(), line.distance.as_str()), ("Alice", "???", "512 U"));
    assert_eq!((line.killer_tint, line.victim_tint), (Tint::RedTeam, Tint::BluTeam));
    feed.kill_feed(&vec![kill; 7], &vec![0; 7], &names, 0, SECOND);
    assert!(feed.lines.len() <= 7);
    feed.kill_feed(&vec![], &vec![], &names, 0, SECOND + KILL_HOLD + KILL_FADE + 1);
    assert!(feed.lines.is_empty());
    assert_eq!(line_opacity(0, KILL_HOLD), KILL_FADE);
    assert_eq!(line_opacity(0, KILL_HOLD + KILL_FADE / 2), KILL_FADE / 2);
    assert_eq!(line_opacity(0, KILL_HOLD + KILL_FADE), 0);
}

#[test]
fn distant_sounds_are_quieter() {
    assert_eq!(attenuate(0, 800_000), 800_000);
    assert_eq!(attenuate(200_000, 800_000), 800_000);
    assert_eq!(attenuate(1_450_000, 800_000), 500_000);
    assert_eq!(attenuate(1_450_000, 1_000_000), 625_000);
    assert_eq!(attenuate(2_700_000, 800_000), 200_000);
    assert_eq!(attenuate(9_000_000, 800_000), 200_000);
}

#[test]
fn clips_are_drawn() {
    let files = Sound::Death.list();
    for d in 0..files.len() {
        assert_eq!(clip(Sound::Death, d), format!("sounds/{}.ogg", files[d]));
    }
    assert_eq!(clip(Sound::Death, files.len()), clip(Sound::Death, 0));
    let drawn = pick(Sound::Death);
    assert!(files.iter().any(|f| drawn == format!("sounds/{f}.ogg")));
    assert!(startup_clips().len() > 20);
}

#[test]
fn the_music_changes() {
    let n = Sound::Music.list().len();
    let mut last = None;
    assert_eq!(track(3 % n, &mut last), 3 % n);
    assert_eq!(track(3 % n, &mut last), 4 % n);
    for _ in 0..20 {
        let before = last;
        let now = menu_music(&mut last);
        assert!(now < n && before != Some(now) && last == Some(now));
    }
}

#[test]
fn each_side_hears_its_hits() {
    let ev = vec![SimEvent::PlayerHit { victim: 1, attacker: 0, airshot_kill: true }];
    let mine: Vec<Sound> = game_sounds(&ev, &vec![0], 0, 0).iter().map(|c| c.sound).collect();
    assert_eq!(mine, vec![Sound::CritHit, Sound::Kill]);
    let theirs: Vec<Sound> = game_sounds(&ev, &vec![0], 1, 0).iter().map(|c| c.sound).collect();
    assert_eq!(theirs, vec![Sound::CritReceived, Sound::FreezeCam]);
    let over = game_sounds(&vec![SimEvent::RoundWon { winner: 0, score: [5, 0] }], &vec![0], 0, SECOND);
    assert!(over.iter().any(|c| c.sound == Sound::FlawlessVictory && c.at == Some(4 * SECOND)));
}

#[test]
fn delayed_sounds_wait() {
    let mut d = Delayed { waiting: Vec::new() };
    let cues = game_sounds(&vec![SimEvent::RoundWon { winner: 0, score: [5, 1] }], &vec![0], 0, 0);
    let now = d.schedule(cues);
    assert!(now.iter().all(|c| c.at.is_none()));
    assert_eq!(d.waiting.len(), 2);
    assert!(d.flush_delayed(SECOND).is_empty());
    assert_eq!(d.flush_delayed(2 * SECOND).len(), 1);
    assert_eq!(d.flush_delayed(6 * SECOND).len(), 1);
    assert!(!match_start(0).is_empty());
}

#[test]
fn small_sounds() {
    assert_eq!(ui_sounds(Touch::Away), None);
    assert_eq!(ui_sounds(Touch::Pressed).unwrap().sound, Sound::ButtonClick);
    let mut prev = Some(UiScreen::Hidden);
    assert_eq!(screen_sounds(&mut prev, UiScreen::Pause).unwrap().sound, Sound::PanelOpen);
    assert_eq!(screen_sounds(&mut prev, UiScreen::Hidden).unwrap().sound, Sound::PanelClose);
    let mut played = false;
    assert!(room_error_sound(&mut played, Some(RoomFailure::Checking)).is_none());
    assert!(room_error_sound(&mut played, Some(RoomFailure::Full)).is_some());
    assert!(room_error_sound(&mut played, Some(RoomFailure::Full)).is_none());
    let one = Loaded { alive: true, spawn_tick: 1, clip: 1 };
    assert_eq!(reload_sound(one, Loaded { clip: 2, ..one }).unwrap().sound, Sound::RocketReload);
    assert!(reload_sound(one, Loaded { clip: 2, spawn_tick: 2, ..one }).is_none());
}

#[test]
fn the_countdown_rings_three_times() {
    let mut c = Countdown::new();
    assert!(!c.active());
    c.start(SECOND);
    let t = c.run_countdown(SECOND);
    assert_eq!((t.rings, t.number, t.begin), (1, Some(3), false));
    assert_eq!(c.run_countdown(SECOND + SECOND_DING).number, Some(2));
    assert_eq!(c.run_countdown(SECOND + THIRD_DING).number, Some(1));
    let t = c.run_countdown(SECOND + COUNTDOWN);
    assert!(t.begin && t.rings == 0);
    assert!(!c.active());
    // One long frame rings for all of them.
    c.start(0);
    let t = c.run_countdown(COUNTDOWN);
    assert_eq!((t.rings, t.begin), (3, true));
}

#[test]
fn records_only_improve_and_are_kept() {
    let mut r = Records::load("", &rules());
    assert!(r.submit(1, Record { hits: 10, acc: 50, chain: 3 }));
    assert!(!r.submit(1, Record { hits: 10, acc: 40, chain: 3 }));
    assert!(r.submit(1, Record { hits: 2, acc: 90, chain: 1 }));
    assert_eq!(r.get(1), Record { hits: 10, acc: 90, chain: 3 });
    let text = r.save(&rules());
    let back = Records::load(&text, &rules());
    assert_eq!(back.best, r.best);
    assert_eq!(Records::load("rubbish\nEasy_hits = x\n", &rules()).get(0), Record { hits: 0, acc: 0, chain: 0 });
}

#[test]
fn a_round_ends() {
    let mut r = Records::load("", &rules());
    let mut c = Countdown::new();
    let events = vec![SimEvent::RoundOver { hits: 15, shots: 20, best_chain: 6 }];
    let out = r.round_result(&mut c, &events, 0, SECOND);
    assert_eq!(out.len(), 1);
    assert!(out[0].record);
    assert_eq!(out[0].text, "NEW RECORD!\n15 hit (best 15)\n75% acc (best 75%)\n6 chain (best 6)");
    assert_eq!(c.started, Some(SECOND + RECORD_RESULT_FOR));
    let out = r.round_result(&mut c, &vec![SimEvent::RoundOver { hits: 1, shots: 3, best_chain: 1 }], 0, SECOND);
    assert_eq!(out[0].text, "1 hit (best 15)\n33% acc (best 75%)\n1 chain (best 6)");
    assert_eq!(c.started, Some(SECOND + RECORD_RESULT_FOR));
    assert_eq!(accuracy(0, 0), 0);
    assert_eq!(accuracy(1, 8), 13);
}

#[test]
fn the_score_strip() {
    assert_eq!(progress_text(true, 25), ("20/20".to_string(), "SOLDIER"));
    assert_eq!(progress_text(false, 25), ("\u{221e}".to_string(), "ENDLESS"));
    assert_eq!(progress_text(false, 7), ("∞".to_string(), "ENDLESS"));
    let look = update_score(
        &ScoreInput { hits: 3, accuracy: 60, chain: 2, thrown: 7, rounds: true },
        Record { hits: 9, acc: 80, chain: 4 },
    );
    assert_eq!((look.hits.as_str(), look.accuracy.as_str(), look.progress.as_str()), ("3", "60%", "7/20"));
    assert_eq!((look.best_hits.as_str(), look.best_acc.as_str(), look.best_chain.as_str()), ("9", "80%", "4"));
    assert!(shown(true, look.rounds) && !shown(false, look.rounds));
}

#[test]
fn options_start_over() {
    let mut s = Settings::new(&rules(), false);
    let mut c = Countdown::new();
    assert!(!option_button(&mut s, &mut c, OptionButton::Difficulty(0), true, 5));
    assert!(!c.active());
    assert!(option_button(&mut s, &mut c, OptionButton::Difficulty(1), true, 5));
    assert_eq!((s.fruit_difficulty, c.started), (1, Some(5)));
    let rounds = s.fruit_rounds;
    assert!(option_button(&mut s, &mut c, OptionButton::Rounds(!rounds), true, 6));
    assert_eq!(s.fruit_rounds, !rounds);
    reset_button(&mut c, true, 9);
    assert_eq!(c.started, Some(6));
    let mut idle = Countdown::new();
    reset_button(&mut idle, true, 9);
    assert_eq!(idle.started, Some(9));
    assert_eq!(button_colour(Touch::Hovered, true), OptionShade::Lit);
    assert_eq!(button_colour(Touch::Hovered, false), OptionShade::Hover);
}

#[test]
fn the_frame_is_dragged_within_the_window() {
    let mut grab = None;
    let mut anchor = FRAME_ANCHOR;
    let mut m = FrameMouse { cursor: Some((110, 60)), grabbed: true, held: true, place: (100, 50), room: Some((1000, 500)) };
    drag_frame(&mut grab, &mut anchor, &m);
    assert_eq!(grab, Some((10, 10)));
    assert_eq!(anchor, (100_000, 100_000));
    m.grabbed = false;
    m.cursor = Some((5000, -40));
    drag_frame(&mut grab, &mut anchor, &m);
    assert_eq!(anchor, (1_000_000, 0));
    assert_eq!(place_frame(anchor.0, 1000), 1000);
    assert_eq!(place_frame(970_000, 1000), 970);
    m.held = false;
    drag_frame(&mut grab, &mut anchor, &m);
    assert_eq!(grab, None);
    assert_eq!(collapse_frame(true), (false, "+"));
    assert_eq!(collapse_frame(false), (true, "-"));
}

#[test]
fn every_target_gets_one_model() {
    let mut p = TargetPool::new(3);
    assert!(p.sync_targets(&vec![7, 8]).is_empty());
    assert_eq!(p.slots, vec![Some(7), Some(8), None]);
    assert_eq!(p.sync_targets(&vec![8, 9, 10]), vec![0]);
    assert_eq!(p.slots, vec![Some(9), Some(8), Some(10)]);
    p.sync_targets(&vec![8, 9, 10, 11]);
    assert_eq!(p.slots, vec![Some(9), Some(8), Some(10)]);
    assert!(in_gallery(&Some(MatchKind::FruitNinja)) && !in_gallery(&None));
}
