//! Effects, the mouse, the keys and the link's read-outs in a match.

use endif_client::game::{
    discards_motion, follows_spawn, is_long_frame, local_buttons, ButtonBits, Capture, Cursor,
    CursorInput, DevTools, PendingFx, SimEvent, Spawn, SpikeFilter, FX_HISTORY, LOCK_GRACE,
};
use endif_client::netsim::{Impaired, NetSim, Pipe};
use endif_client::netstats::{initial_input_delay, signal_level, LinkReport, NetStats};
use endif_client::settings::{Action, FruitRules, Held, MouseButton, Settings, Weapon};

const SECOND: u64 = 1_000_000_000;
const MS: u64 = 1_000_000;

fn settings() -> Settings {
    Settings::new(
        &FruitRules {
            difficulties: vec!["Easy".to_string()],
            soldiers_min: 1,
            soldiers_max: 10,
            speed_min: 0,
            speed_max: 1000,
            distance_min: 500,
            distance_max: 2000,
            difficulty: 0,
            soldiers: 3,
            speed: 300,
            distance: 1000,
        },
        false,
    )
}

#[test]
fn a_resimulated_frame_is_silent() {
    let mut fx = PendingFx::new();
    let shot = SimEvent::RocketFired { shooter: 0 };
    let boom = SimEvent::Explosion { hit_player: Some(1) };
    assert_eq!(fx.push_frame(10, &vec![shot, boom]), vec![0, 1]);
    assert_eq!(fx.push_frame(10, &vec![shot, boom]), Vec::<usize>::new());
    // A late shot of the other player is new, the rest is not.
    let other = SimEvent::RocketFired { shooter: 1 };
    assert_eq!(fx.push_frame(10, &vec![other, shot, boom]), vec![0]);
    assert_eq!(fx.events, vec![shot, boom, other]);
    fx.clear();
    assert!(fx.events.is_empty());
    assert_eq!(fx.push_frame(10, &vec![boom]), Vec::<usize>::new());
    assert_eq!(fx.push_frame(11, &vec![boom]), vec![0]);
}

#[test]
fn twice_the_same_counts_twice() {
    let mut fx = PendingFx::new();
    let boom = SimEvent::Explosion { hit_player: None };
    assert_eq!(fx.push_frame(1, &vec![boom]), vec![0]);
    assert_eq!(fx.push_frame(1, &vec![boom, boom]), vec![1]);
}

#[test]
fn old_frames_are_forgotten() {
    let mut fx = PendingFx::new();
    let boom = SimEvent::Explosion { hit_player: None };
    fx.push_frame(1, &vec![boom]);
    fx.push_frame(2 + FX_HISTORY, &vec![]);
    assert_eq!(fx.push_frame(1, &vec![boom]), vec![0]);
}

fn still(now: u64) -> CursorInput {
    CursorInput { overlay: false, screen_changed: false, lost_focus: false, clicked: false, tab: false, now }
}

#[test]
fn a_click_captures_and_menus_release() {
    let mut c = Capture { captured: false, requested: None };
    assert_eq!(c.step(still(0)), Cursor::Keep);
    assert_eq!(c.step(CursorInput { clicked: true, ..still(5) }), Cursor::Lock);
    assert!(c.captured && c.requested == Some(5));
    assert_eq!(c.step(CursorInput { overlay: true, ..still(6) }), Cursor::Release);
    assert!(!c.captured);
    assert_eq!(c.step(CursorInput { overlay: true, clicked: true, ..still(7) }), Cursor::Keep);
    // Closing the menu takes the mouse back.
    assert_eq!(c.step(CursorInput { screen_changed: true, ..still(8) }), Cursor::Lock);
    assert_eq!(c.step(CursorInput { tab: true, ..still(9) }), Cursor::Release);
    assert_eq!(c.step(CursorInput { lost_focus: true, clicked: true, ..still(9) }), Cursor::Keep);
}

#[test]
fn the_browser_may_let_go() {
    let mut c = Capture { captured: true, requested: Some(0) };
    assert!(!c.sync_browser_lock(false, LOCK_GRACE - 1));
    assert!(!c.sync_browser_lock(true, LOCK_GRACE));
    assert_eq!(c.requested, None);
    assert!(c.sync_browser_lock(false, LOCK_GRACE));
    assert!(!c.captured);
}

#[test]
fn motion_before_the_capture_is_dropped() {
    let mut was = false;
    assert!(discards_motion(false, &mut was));
    assert!(discards_motion(true, &mut was));
    assert!(!discards_motion(true, &mut was));
}

#[test]
fn spikes_are_no_motion() {
    let mut f = SpikeFilter { peak: 0 };
    assert!(f.accept(300_000, 0));
    assert_eq!(f.peak, 300_000);
    assert!(!f.accept(1_300_000, 300_000));
    assert!(f.accept(1_100_000, 300_000));
    assert!(!f.accept(400_001, 0));
    assert!(f.accept(400_000, 0));
}

#[test]
fn the_view_follows_every_spawn() {
    let mut last = None;
    let a = Spawn { tick: 1, pitch: 0, yaw: 90_000 };
    assert!(follows_spawn(&mut last, a));
    assert!(!follows_spawn(&mut last, a));
    assert!(follows_spawn(&mut last, Spawn { yaw: -90_000, ..a }));
}

#[test]
fn keys_turn_into_buttons() {
    let bits = ButtonBits {
        forward: 1,
        back: 2,
        left: 4,
        right: 8,
        jump: 16,
        duck: 32,
        attack: 64,
        weapon_stock: 128,
        weapon_original: 256,
    };
    let mut s = settings();
    let held = Held { keys: vec!["KeyW".to_string(), "Space".to_string()], mouse: vec![MouseButton::Left] };
    assert!(s.bindings.pressed(Action::Forward, &held));
    assert_eq!(local_buttons(&s, &held, true, false, bits), 1 | 16 | 64 | 128);
    assert_eq!(local_buttons(&s, &held, false, false, bits), 128);
    assert_eq!(local_buttons(&s, &held, true, true, bits), 128);
    s.weapon = Weapon::Original;
    assert_eq!(local_buttons(&s, &held, false, false, bits), 256);
}

#[test]
fn long_frames_stand_out() {
    assert!(!is_long_frame(79 * MS));
    assert!(is_long_frame(80 * MS));
    assert!(!is_long_frame(5 * SECOND));
}

#[test]
fn the_screenshot_is_taken_once() {
    let mut d = DevTools { entered_at: None, shot_taken: false };
    assert_eq!(d.step(None, true, true, 0), (false, false));
    assert_eq!(d.step(None, true, true, 4 * SECOND), (false, false));
    assert_eq!(d.step(None, true, true, 4 * SECOND + 1), (false, true));
    assert_eq!(d.step(Some(5 * SECOND as i64), true, true, 6 * SECOND), (true, false));
    assert_eq!(d.step(None, true, false, 7 * SECOND), (false, false));
    assert_eq!(d.entered_at, None);
}

fn link(ping: u32) -> LinkReport {
    LinkReport { ping_ms: ping, local_behind: 1, remote_behind: -2, send_queue: 3, frames_ahead: 0 }
}

#[test]
fn a_quiet_link_shows_all_bars() {
    let mut n = NetStats::new(2, 0);
    n.synced = true;
    let mut t = 0;
    for _ in 0..20 {
        t += 300 * MS;
        n.record_stats(link(30), t);
    }
    assert_eq!(n.ping_ms, 30);
    let (sum, count) = n.jitter_ms();
    assert!(count > 0 && sum == 0);
    assert_eq!(n.quality(t), 4);
    assert_eq!(signal_level(&n, "connected", t), 4);
    let text = n.overlay_text(t, false, &None);
    assert!(text.starts_with("ping 30 ms   jitter 0 ms   range 30-30\nahead +0   behind me 1 / them -2   queue 3\n"), "{text}");
    assert!(text.contains("delay 2 frames (30 ms, manual)"), "{text}");
    let text = n.overlay_text(t, true, &Some("netsim".to_string()));
    assert!(text.ends_with("\nnetsim"), "{text}");
}

#[test]
fn rollbacks_and_stalls_are_counted() {
    let mut n = NetStats::new(2, 0);
    n.synced = true;
    for f in 0..10 {
        n.record_step(f, (f as u64 + 1) * 15 * MS);
    }
    n.record_step(4, 160 * MS);
    assert_eq!(n.rollbacks_total, 1);
    n.tick(160 * MS, 16 * MS);
    n.tick(900 * MS, 16 * MS);
    assert_eq!(n.stalls_total, 1);
    assert!(n.quality(900 * MS) < 4);
    assert!(n.summary(900 * MS).contains("1 rollbacks"));
    n.reset(SECOND);
    assert_eq!((n.rollbacks_total, n.stalls_total), (0, 0));
}

#[test]
fn the_delay_follows_the_setting() {
    let mut s = settings();
    s.adaptive_delay = false;
    s.input_delay = 5;
    assert_eq!(initial_input_delay(&s), 5);
    let mut n = NetStats::new(2, 0);
    n.synced = true;
    assert_eq!(n.wanted_delay(&s, SECOND), Some(5));
    n.delay_applied(5, SECOND);
    assert_eq!(n.input_delay, 5);
    assert_eq!(n.wanted_delay(&s, SECOND), None);
}

#[test]
fn the_adaptive_delay_moves_one_frame_at_a_time() {
    let mut n = NetStats::new(2, 0);
    n.synced = true;
    n.record_stats(link(300), SECOND);
    let first = n.adaptive_target(SECOND);
    assert_eq!(first, 2);
    let later = n.adaptive_target(3 * SECOND);
    assert!(later == 2 || later == 3);
}

#[test]
fn links_are_impaired() {
    let sim = NetSim::parse("delay=80,jitter=20;loss:2 spike=300,every=5").unwrap();
    assert_eq!((sim.delay, sim.jitter, sim.loss, sim.spike, sim.every, sim.seed), (80 * MS, 20 * MS, 2_000_000, 300 * MS, 5 * SECOND, 1));
    assert_eq!(sim.describe(), "delay 80 ms, jitter 20 ms, loss 2.0%, 300 ms spike every 5.0 s");
    assert_eq!(NetSim::parse("delay%3D2.5").unwrap().delay, 2_500_000);
    assert_eq!(NetSim::parse("delay=0.0001").unwrap().delay, 100);
    assert_eq!(NetSim::parse("loss=400").unwrap().loss, 100_000_000);
    assert_eq!(NetSim::parse(""), None);
    assert_eq!(NetSim::parse("delay"), None);
    assert_eq!(NetSim::parse("delay=fast"), None);
    assert_eq!(NetSim::parse("speed=3"), None);
    let both = Impaired::new(NetSim { seed: u64::MAX, ..sim });
    assert_eq!((both.out_seed, both.inp_seed), (u64::MAX, 0));
    assert_eq!(both.inp.sim.delay, 80 * MS);
}

#[test]
fn packets_come_out_when_they_are_due() {
    let sim = NetSim::parse("delay=100,loss=50").unwrap();
    let mut p = Pipe::new(sim);
    p.push(0, false, 0, 1, vec![1]);
    p.push(0, true, 0, 1, vec![2]);
    p.push(50 * MS, false, 0, 2, vec![3]);
    assert!(p.drain_due(99 * MS).is_empty());
    let out = p.drain_due(100 * MS);
    assert_eq!(out.len(), 1);
    assert_eq!((out[0].peer, out[0].packet.clone()), (1, vec![1]));
    let out = p.drain_due(SECOND);
    assert_eq!(out.len(), 1);
    assert_eq!(out[0].packet, vec![3]);
}

#[test]
fn impairments_are_described_as_rounded() {
    for k in 0..=1000 {
        let text = format!("{}.{:02}", k / 100, k % 100);
        let sim = NetSim::parse(&format!("delay={text},loss={text},spike=1,every={text}")).unwrap();
        let v: f32 = text.parse().unwrap();
        let mut want = format!("delay {v:.0} ms, jitter 0 ms, loss {:.1}%", (v / 100.0) * 100.0);
        if v > 0.0 {
            want.push_str(&format!(", 1 ms spike every {v:.1} s"));
        }
        assert_eq!(sim.describe(), want);
    }
}
