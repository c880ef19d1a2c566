//! The view of a match: particles, rockets, players and the soldier's animation.

use endif_client::assets::Sprite;
use endif_client::game::SimEvent;
use endif_client::particles::{
    layer_turn, quad_indices, Kind, LayerTurn, Particle, Particles, Point, Span, SEED, UNITY,
};
use endif_client::player_model::{
    aim_row, gestures, grid_clip, grid_weights, AimSet, Doing, Gesture, GestureCommand,
};
use endif_client::render::{
    animate_explosion, frame_time, interp_alpha, lerp_state, motion, player_shown, scorch, sync_rockets,
    Motion, Scorch, Standing, LIGHT, LIGHT_FOR,
};

const MS: u64 = 1_000_000;

#[test]
fn the_generator_is_a_xorshift() {
    let mut p = Particles::new();
    let d = p.rand();
    let mut x: u64 = SEED;
    x ^= x << 13;
    x ^= x >> 7;
    x ^= x << 17;
    assert_eq!(p.rng, x);
    assert_eq!(d as u64, x >> 40);
    for _ in 0..1000 {
        assert!(p.rand() < UNITY);
        let v = p.range(Span { lo: -5, hi: 9 });
        assert!((-5..=9).contains(&v));
        assert!(p.frame_for(Sprite::Debris) < 6);
    }
    let before = p.rng;
    assert_eq!(p.range(Span { lo: 4, hi: 4 }), 4);
    assert_ne!(p.rng, before);
    for _ in 0..1000 {
        let v = p.range(Span { lo: 9, hi: -5 });
        assert!((-5..=9).contains(&v));
    }
}

/// The same generator in floating point.
struct Floats(u64);

impl Floats {
    fn rand(&mut self) -> f32 {
        if self.0 == 0 {
            self.0 = SEED;
        }
        self.0 ^= self.0 << 13;
        self.0 ^= self.0 >> 7;
        self.0 ^= self.0 << 17;
        (self.0 >> 40) as f32 / (1u64 << 24) as f32
    }

    fn range(&mut self, lo: f32, hi: f32) -> f32 {
        lo + (hi - lo) * self.rand()
    }

    fn sphere(&mut self) -> (f32, f32, f32) {
        loop {
            let v = (self.range(-1.0, 1.0), self.range(-1.0, 1.0), self.range(-1.0, 1.0));
            if v.0 * v.0 + v.1 * v.1 + v.2 * v.2 <= 1.0 {
                return v;
            }
        }
    }

    fn frame(&mut self, n: u32) -> u32 {
        (self.rand() * n as f32) as u32 % n
    }
}

fn point(p: Point) -> (f32, f32, f32) {
    let f = |v: i32| v as f32 / UNITY as f32;
    (f(p.x), f(p.y), f(p.z))
}

fn close(whole: i32, scale: f32, v: f32) -> bool {
    (whole as f32 / scale - v).abs() <= 2.0 / scale + v.abs() * 1.0e-6
}

#[test]
fn points_lie_in_the_ball() {
    let mut p = Particles::new();
    let mut f = Floats(0);
    for _ in 0..2000 {
        assert_eq!(point(p.sphere()), f.sphere());
        assert_eq!(p.frame_for(Sprite::Smokelit), f.frame(5));
        assert_eq!(p.rng, f.0);
    }
}

#[test]
fn explosions_draw_in_order() {
    let mut p = Particles::new();
    let mut f = Floats(0);
    for _ in 0..20 {
        p.clear();
        p.explosion();
        for q in &p.list[0..28] {
            let b = q.birth;
            assert_eq!(b.frame, f.frame(6));
            assert!(close(b.along, 1.0e3, f.range(0.6, 2.0)));
            assert_eq!(point(b.aim), f.sphere());
            assert!(close(b.size0, 1.0e3, f.range(1.0, 2.5)));
            assert_eq!(b.size1, b.size0);
            assert_eq!(b.mix as f32 / UNITY as f32, f.rand());
            assert!(close(b.speed, 1.0e3, f.range(250.0, 650.0)));
            assert!(close(b.life, 1.0e6, f.range(0.4, 0.8)));
            assert!(close(b.rot, UNITY as f32, f.rand()));
            assert!(close(b.spin, 1.0e3, f.range(-20.0, 20.0)));
        }
        assert!(close(p.list[28].birth.rot, UNITY as f32, f.rand()));
        for q in &p.list[29..32] {
            let b = q.birth;
            assert_eq!(point(b.ball), f.sphere());
            assert!(close(b.life, 1.0e6, f.range(0.25, 0.4)));
            assert!(close(b.size0, 1.0e3, f.range(50.0, 70.0)));
            assert!(close(b.size1, 1.0e3, f.range(90.0, 120.0)));
            assert!(close(b.rot, UNITY as f32, f.rand()));
            assert!(close(b.spin, 1.0e3, f.range(-2.0, 2.0)));
        }
        for q in &p.list[32..42] {
            let b = q.birth;
            assert_eq!(b.frame, f.frame(6));
            assert!(close(b.along, 1.0e3, f.range(0.6, 1.6)));
            assert_eq!(point(b.aim), f.sphere());
            assert_eq!(point(b.ball), f.sphere());
            assert!(close(b.speed, 1.0e3, f.range(80.0, 200.0)));
            assert!(close(b.life, 1.0e6, f.range(1.0, 1.7)));
            assert!(close(b.size0, 1.0e3, f.range(22.0, 32.0)));
            assert!(close(b.size1, 1.0e3, f.range(60.0, 90.0)));
            assert!(close(b.rot, UNITY as f32, f.rand()));
            assert!(close(b.spin, 1.0e3, f.range(-1.0, 1.0)));
        }
        for q in &p.list[42..50] {
            let b = q.birth;
            assert_eq!(b.heading as f32 / UNITY as f32, f.rand());
            assert_eq!(b.frame, f.frame(6));
            assert!(close(b.speed, 1.0e3, f.range(200.0, 320.0)));
            assert!(close(b.life, 1.0e6, f.range(0.7, 1.1)));
            assert!(close(b.size1, 1.0e3, f.range(45.0, 65.0)));
            assert!(close(b.rot, UNITY as f32, f.rand()));
            assert!(close(b.spin, 1.0e3, f.range(-2.0, 2.0)));
        }
        for q in &p.list[50..66] {
            let b = q.birth;
            assert!(close(b.along, 1.0e3, f.range(0.5, 1.5)));
            assert_eq!(point(b.aim), f.sphere());
            assert!(close(b.speed, 1.0e3, f.range(150.0, 450.0)));
            assert!(close(b.life, 1.0e6, f.range(0.4, 0.9)));
            assert!(close(b.size0, 1.0e3, f.range(3.0, 5.0)));
        }
        for q in &p.list[66..72] {
            let b = q.birth;
            assert_eq!(b.frame, f.frame(6));
            assert!(close(b.along, 1.0e3, f.range(0.8, 1.8)));
            assert_eq!(point(b.aim), f.sphere());
            assert!(close(b.speed, 1.0e3, f.range(200.0, 420.0)));
            assert!(close(b.life, 1.0e6, f.range(0.9, 1.4)));
            assert!(close(b.size0, 1.0e3, f.range(5.0, 9.0)));
            assert!(close(b.size1, 1.0e3, f.range(5.0, 9.0)));
            assert!(close(b.rot, UNITY as f32, f.rand()));
            assert!(close(b.spin, 1.0e3, f.range(-12.0, 12.0)));
        }
        assert_eq!(p.rng, f.0);
    }
}

#[test]
fn trails_draw_in_order() {
    let mut p = Particles::new();
    let mut f = Floats(0);
    p.rocket_trail(100 * MS);
    for q in &p.list[0..15] {
        let b = q.birth;
        f.rand();
        assert_eq!(point(b.ball), f.sphere());
        assert_eq!(b.frame, f.frame(5));
        assert!(close(b.life, 1.0e6, f.range(0.8, 1.2)));
        assert_eq!(point(b.aim), f.sphere());
        assert_eq!(b.mix as f32 / UNITY as f32, f.rand());
        assert!(close(b.alpha, 1.0e6, f.range(96.0, 128.0) / 255.0));
        assert!(close(b.rot, UNITY as f32, f.range(-45.0, 0.0) / 360.0));
    }
    for q in &p.list[15..28] {
        let b = q.birth;
        f.rand();
        assert_eq!(point(b.aim), f.sphere());
        assert!(close(b.shell, 1.0e3, f.range(1.0, 2.0)));
        assert_eq!(b.mix as f32 / UNITY as f32, f.rand());
        assert!(close(b.rot, UNITY as f32, f.range(0.0, 360.0) / 360.0));
    }
    assert_eq!(p.rng, f.0);
}

#[test]
fn explosions_are_made_of_seven_bursts() {
    let mut p = Particles::new();
    p.explosion();
    assert_eq!(p.list.len(), 72);
    let chips = p.list.iter().filter(|q| q.birth.burst == Kind::Chips.burst()).count();
    assert_eq!(chips, 28);
    assert_eq!(p.list.iter().filter(|q| q.birth.burst.sprite == Sprite::Ember).count(), 16);
    for q in &p.list {
        let b = q.birth;
        assert!(b.burst.life.lo <= b.life && b.life <= b.burst.life.hi);
        assert!(b.burst.speed.lo <= b.speed && b.speed <= b.burst.speed.hi);
        assert!(b.frame < b.burst.sprite.frames());
        assert_eq!(q.age, 0);
    }
    p.clear();
    assert!(p.list.is_empty());
}

#[test]
fn trails_have_no_gaps() {
    let mut p = Particles::new();
    let (smoke, fire) = p.rocket_trail(100 * MS);
    assert_eq!((smoke.len(), fire.len()), (15, 13));
    for (k, place) in smoke.iter().enumerate() {
        let cell = UNITY as usize / 15;
        assert!(*place as usize >= k * cell && (*place as usize) < (k + 1) * cell + 15);
    }
    assert_eq!(p.list.len(), 28);
    let (smoke, fire) = p.rocket_trail(0);
    assert_eq!((smoke.len(), fire.len()), (1, 1));
}

#[test]
fn particles_age_and_die() {
    let mut p = Particles::new();
    p.explosion();
    let flash = p.list.iter().position(|q| q.birth.burst.sprite == Sprite::Softglow).unwrap();
    let stays = p.update_particles(220 * MS);
    assert!(!stays[flash]);
    assert_eq!(stays.iter().filter(|s| **s).count(), p.list.len());
    let q = p.list[0];
    assert!(q.t() > 0 && q.t() <= 1_000_000);
    assert!(q.alpha_now() <= q.birth.alpha as u32);
    p.update_particles(10_000 * MS);
    assert!(p.list.is_empty());
}

#[test]
fn particles_fade_and_grow() {
    let mut p = Particles::new();
    p.trail(Kind::TrailSmoke, 0);
    let b = p.list[0].birth;
    let at = |age: u64| Particle { birth: b, age };
    let life = b.life as u64 * 1000;
    assert_eq!(at(0).size_now(), b.size0);
    assert_eq!(at(life).size_now(), b.size1);
    assert_eq!(at(0).alpha_now(), 0);
    assert_eq!(at(life).alpha_now(), 0);
    assert!(at(life / 10).alpha_now() > 0);
    assert_eq!(at(life / 10 + 1000).color_fade(), Some(1_000_000));
    p.trail(Kind::TrailFire, 0);
    let f = p.list[1].birth;
    let half = Particle { birth: f, age: f.life as u64 * 500 };
    assert_eq!(half.size_now(), 15_000);
}

#[test]
fn layers_are_drawn_when_there_is_something() {
    assert_eq!(quad_indices(2), vec![0, 1, 2, 0, 2, 3, 4, 5, 6, 4, 6, 7]);
    assert_eq!(layer_turn(0, true), LayerTurn::Hidden);
    assert_eq!(layer_turn(0, false), LayerTurn::Emptied);
    assert_eq!(layer_turn(3, true), LayerTurn::Drawn);
}

#[test]
fn the_view_stands_between_states() {
    assert_eq!(interp_alpha(0, 0), 0);
    assert_eq!(interp_alpha(0, 7_462_687), 500_000);
    assert_eq!(interp_alpha(0, 1_000 * MS), 3_000_000);
    assert_eq!(interp_alpha(5, 0), 0);
    assert_eq!(motion(500_000), Motion::Between(500_000));
    assert_eq!(motion(1_250_000), Motion::Ahead(250_000));
    let a = Standing { spawn_tick: 1, alive: true };
    assert_eq!(lerp_state(&a, &a, 500_000), Motion::Between(500_000));
    assert_eq!(lerp_state(&a, &Standing { spawn_tick: 2, alive: true }, 500_000), Motion::Current);
    assert_eq!(lerp_state(&a, &Standing { spawn_tick: 1, alive: false }, 500_000), Motion::Current);
    assert!(player_shown(1, 0, true) && !player_shown(0, 0, true) && !player_shown(1, 0, false));
    assert_eq!(frame_time(500 * MS), 100 * MS);
    assert_eq!(frame_time(16 * MS), 16 * MS);
}

#[test]
fn rockets_have_their_models() {
    let r = sync_rockets(&vec![1, 2, 3], &vec![2, 4]);
    assert_eq!(r.gone, vec![1, 3]);
    assert_eq!(r.fresh, vec![4]);
}

#[test]
fn explosions_leave_light_and_marks() {
    assert_eq!(animate_explosion(0, 0), Some(LIGHT));
    assert_eq!(animate_explosion(0, LIGHT_FOR / 2), Some(LIGHT / 2));
    assert_eq!(animate_explosion(0, LIGHT_FOR), None);
    assert_eq!(scorch(false, false), Some(Scorch::Surface));
    assert_eq!(scorch(true, true), Some(Scorch::Ground));
    assert_eq!(scorch(true, false), None);
}

fn standing() -> Doing {
    Doing { on_ground: true, ducked: false, speed: 0, move_x: 0, move_y: 0 }
}

#[test]
fn soldiers_stand_run_crouch_and_float() {
    let w = standing().locomotion();
    assert_eq!((w.len(), w[0]), (21, 1_000_000));
    assert_eq!(Doing { ducked: true, ..standing() }.locomotion()[1], 1_000_000);
    assert_eq!(Doing { on_ground: false, ..standing() }.locomotion()[2], 1_000_000);
    let run = Doing { speed: 240_000, move_x: 1_000, ..standing() }.locomotion();
    assert_eq!(run[0], 0);
    assert_eq!(run[3 + 7], 999_000);
    assert_eq!(run.iter().sum::<u32>(), 1_000_000);
    let walk = Doing { speed: 80_000, ducked: true, move_x: 0, ..standing() }.locomotion();
    assert_eq!(walk[12 + 4], 1_000_000);
    assert_eq!(standing().aim_set(), AimSet::Idle);
    assert_eq!(Doing { speed: 240_000, ..standing() }.aim_set(), AimSet::Run);
    assert_eq!(Doing { ducked: true, ..standing() }.aim_set(), AimSet::Crouch);
}

#[test]
fn directions_are_mixed() {
    let w = grid_weights(-500, 250);
    assert_eq!(w.iter().sum::<u32>(), 1_000_000);
    assert_eq!((w[3], w[4], w[6], w[7]), (375_000, 375_000, 125_000, 125_000));
    assert_eq!(grid_clip(7, false), "a_runN_PRIMARY");
    assert_eq!(grid_clip(0, true), "a_crouch_walkSW_PRIMARY");
}

#[test]
fn aim_follows_the_pitch() {
    assert_eq!(aim_row(-90_000), (0, 0));
    assert_eq!(aim_row(0), (2, 0));
    assert_eq!(aim_row(-22_500), (1, 22_500));
    assert_eq!(aim_row(89_000), (2, 44_955));
}

#[test]
fn gestures_go_with_events() {
    let events = vec![
        SimEvent::RocketFired { shooter: 1 },
        SimEvent::Landed { player: 1 },
        SimEvent::Landed { player: 0 },
    ];
    assert_eq!(
        gestures(&events, 1, true),
        vec![
            GestureCommand::Stop(Gesture::AttackStand),
            GestureCommand::Start(Gesture::AttackCrouch),
            GestureCommand::Start(Gesture::Land),
        ]
    );
    assert_eq!(gestures(&events, 0, false), vec![GestureCommand::Start(Gesture::Land)]);
}
