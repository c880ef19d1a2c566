//! The settings, their sliders and their file.

use endif_client::numeral::{read, show_hundredths, Number};
use endif_client::settings::{
    alt_held, find_name, frames_to_ms, Action, Axis, Binding, Bindings, FruitRules, Held, MouseButton,
    Settings, Slider, Weapon, VOLUME_DEFAULT,
};

fn rules() -> FruitRules {
    FruitRules {
        difficulties: vec!["Easy".to_string(), "Normal".to_string(), "Hard".to_string()],
        soldiers_min: 1,
        soldiers_max: 10,
        speed_min: 0,
        speed_max: 1000,
        distance_min: 500,
        distance_max: 2000,
        difficulty: 1,
        soldiers: 3,
        speed: 300,
        distance: 1000,
    }
}

fn fresh() -> Settings {
    Settings::new(&rules(), false)
}

fn number(s: &str) -> Number {
    read(s).unwrap()
}

fn reread(s: &Settings) -> Settings {
    Settings::from_ini(&s.to_ini(&rules()), &rules(), false)
}

fn from(text: &str) -> Settings {
    Settings::from_ini(text, &rules(), false)
}

#[test]
fn locked_axes_move_together_and_persist() {
    let mut s = fresh();
    assert!(!s.separate_sensitivity);
    s.set_sensitivity(Axis::Y, &number("3.1"));
    assert_eq!((s.sensitivity_x, s.sensitivity_y), (310, 310));
    let back = reread(&s);
    assert_eq!(back, s);

    s.set_separate_sensitivity(true);
    s.set_sensitivity(Axis::Y, &number("1.5"));
    assert_eq!((s.sensitivity_x, s.sensitivity_y), (310, 150));
    let back = reread(&s);
    assert_eq!(back, s);

    // Relocking snaps Y back to X, also when an old file had no lock key.
    s.set_separate_sensitivity(false);
    assert_eq!(s.sensitivity_y, 310);
    let legacy = from("[mouse]\nsensitivity_x = 2.00\nsensitivity_y = 4.00\n");
    assert!(!legacy.separate_sensitivity);
    assert_eq!((legacy.sensitivity_x, legacy.sensitivity_y), (200, 200));
    assert_eq!(legacy.volume, 75);
}

#[test]
fn volume_slider_round_trips() {
    let mut s = fresh();
    assert_eq!(s.volume, 75);
    assert_eq!(Slider::Volume.display(&s), "75%");
    Slider::Volume.set(&mut s, &Slider::Volume.parse("40").unwrap(), &rules());
    assert_eq!(s.volume, 40);
    let loud = Slider::Volume.parse("120%").unwrap();
    assert_eq!(loud.settle(2, 0, 1_000), Some(120));
    Slider::Volume.set(&mut s, &number("1.2"), &rules());
    assert_eq!(s.volume, 100);
    s.set_volume(&number("0.333"));
    assert_eq!(reread(&s), s);
    assert_eq!(s.volume, 33);
}

#[test]
fn launcher_round_trips_and_defaults_to_stock() {
    let mut s = fresh();
    assert_eq!(s.weapon, Weapon::Stock);
    s.weapon = Weapon::Original;
    assert_eq!(reread(&s).weapon, Weapon::Original);
    assert_eq!(from("[loadout]\nrocket_launcher = Original\n").weapon, Weapon::Original);
    assert_eq!(from("[loadout]\nrocket_launcher = whatever\n").weapon, Weapon::Stock);
    assert_eq!(from("[audio]\nvolume = 0.50\n").weapon, Weapon::Stock);
}

#[test]
fn fullscreen_round_trips_and_defaults_off() {
    let mut s = fresh();
    assert!(!s.fullscreen);
    s.fullscreen = true;
    assert!(reread(&s).fullscreen);
    assert!(!from("[audio]\nvolume = 0.50\n").fullscreen);
}

#[test]
fn everything_survives_the_file() {
    let mut s = fresh();
    s.separate_sensitivity = true;
    s.sensitivity_x = 123;
    s.sensitivity_y = 456;
    s.invert_y = true;
    s.volume = 5;
    s.adaptive_delay = !s.adaptive_delay;
    s.input_delay = 7;
    s.fruit_difficulty = 2;
    s.fruit_rounds = !s.fruit_rounds;
    s.fruit_soldiers = 9;
    s.bindings.set(Action::Jump, Binding::Key("KeyQ".to_string()));
    s.bindings.set(Action::Fire, Binding::Mouse(MouseButton::Other(7)));
    assert_eq!(reread(&s), s);
}

#[test]
fn rubbish_keeps_the_defaults() {
    assert_eq!(from("nonsense\n= 3\n[mouse\nsensitivity_x\n"), fresh());
    assert_eq!(from("volume = nan\n").volume, VOLUME_DEFAULT);
    assert_eq!(from("[audio]\nvolume = 7\n").volume, 100);
    assert_eq!(from("[mouse]\nsensitivity_x = -3\n").sensitivity_x, 10);
}

#[test]
fn only_plain_words_set_a_switch() {
    let fresh = fresh();
    for word in ["maybe", "2", "on", "TRUE"] {
        let text = format!(
            "separate_sensitivity = {word}\ninvert_y = {word}\nfullscreen = {word}\nadaptive_delay = {word}\n"
        );
        assert_eq!(from(&text), fresh, "{word}");
    }
    for (word, value) in [("true", true), ("1", true), ("yes", true), ("false", false), ("0", false), ("no", false)] {
        let s = from(&format!("invert_y = {word}\nadaptive_delay = {word}\n"));
        assert_eq!((s.invert_y, s.adaptive_delay), (value, value), "{word}");
    }
    assert_eq!(from("mode = sideways\n").fruit_rounds, fresh.fruit_rounds);
    assert!(!from("mode = endless\n").fruit_rounds);
    assert!(from("mode = rounds\n").fruit_rounds);
}

#[test]
fn bindings_are_written_and_read() {
    for b in [
        Binding::Key("KeyW".to_string()),
        Binding::Key("ControlLeft".to_string()),
        Binding::Mouse(MouseButton::Left),
        Binding::Mouse(MouseButton::Other(12)),
    ] {
        assert_eq!(Binding::from_ini(&b.to_ini()), Some(b));
    }
    // Only keys there are can be bound.
    assert_eq!(Binding::from_ini("key:KeyNope"), None);
    assert_eq!(Binding::from_ini("rubbish"), None);
}

#[test]
fn rebinding_leaves_the_others() {
    let mut b = Bindings::new(false);
    let before = b.get(Action::Back).copy();
    b.set(Action::Jump, Binding::Mouse(MouseButton::Middle));
    assert_eq!(b.get(Action::Jump), &Binding::Mouse(MouseButton::Middle));
    assert_eq!(b.get(Action::Back), &before);
    let held = Held { keys: Vec::new(), mouse: vec![MouseButton::Middle] };
    assert!(b.pressed(Action::Jump, &held));
    assert!(!b.pressed(Action::Back, &held));
}

#[test]
fn alt_is_either_alt() {
    assert!(alt_held(&Held { keys: vec!["AltLeft".to_string()], mouse: Vec::new() }));
    assert!(alt_held(&Held { keys: vec!["AltRight".to_string()], mouse: Vec::new() }));
    assert!(!alt_held(&Held { keys: vec!["KeyA".to_string()], mouse: Vec::new() }));
}

#[test]
fn what_is_typed_back_is_what_was_there() {
    let mut s = fresh();
    s.sensitivity_x = 275;
    s.sensitivity_y = 275;
    let text = Slider::Sens(Axis::X).edit_text(&s);
    assert_eq!(text, "2.75");
    let typed = Slider::Sens(Axis::X).parse(&text).unwrap();
    Slider::Sens(Axis::X).set(&mut s, &typed, &rules());
    assert_eq!(s.sensitivity_x, 275);
    assert!(Slider::Sens(Axis::X).parse("fast").is_none());
}

#[test]
fn sliders_know_their_range() {
    let s = fresh();
    assert_eq!(Slider::Sens(Axis::X).range(&rules()), (10, 1000));
    assert_eq!(Slider::Soldiers.range(&rules()), (1, 10));
    assert_eq!(Slider::Soldiers.value(&s), 3);
    let (at, of) = Slider::Soldiers.fraction(&s, &rules());
    assert_eq!(at * 9, of * 2);
}

#[test]
fn turning_follows_the_sensitivity() {
    let mut s = fresh();
    s.sensitivity_x = 300;
    s.sensitivity_y = 300;
    let yaw = s.yaw_per_count() as i64;
    assert_eq!(s.pitch_per_count(), yaw);
    s.invert_y = true;
    assert_eq!(s.pitch_per_count(), -yaw);
}

#[test]
fn the_gallery_gets_its_settings() {
    let mut s = fresh();
    s.fruit_rounds = true;
    let f = s.fruit_settings(true);
    assert!(f.reset && f.rounds);
    assert_eq!((f.difficulty, f.soldiers, f.speed, f.wall_distance), (1, 3, 300, 1000));
}

#[test]
fn frames_take_their_time() {
    assert_eq!(frames_to_ms(0), 0);
    assert_eq!(frames_to_ms(2), 30);
}

#[test]
fn names_are_found() {
    assert_eq!(find_name(&rules().difficulties, "Hard"), Some(2));
    assert_eq!(find_name(&rules().difficulties, "Nightmare"), None);
}

#[test]
fn numbers_are_read_exactly() {
    assert_eq!(number("3.1").settle(2, 0, 10_000), Some(310));
    assert_eq!(number("1e2").settle(0, 0, 10_000), Some(100));
    assert_eq!(number("-5").settle(0, 0, 10), Some(0));
    assert_eq!(number("inf").settle(0, 0, 10), Some(10));
    assert_eq!(number("nan").settle(0, 0, 10), None);
    assert!(read("").is_none());
    assert!(read("1.2.3").is_none());
    assert_eq!(show_hundredths(5), "0.05");
    assert_eq!(show_hundredths(1234), "12.34");
}

#[test]
fn rules_are_checked() {
    assert!(rules().valid());
    assert!(!FruitRules { difficulty: 9, ..rules() }.valid());
    assert!(!FruitRules { speed: 305, ..rules() }.valid());
    assert!(!FruitRules { difficulties: vec!["Easy".to_string(), "Easy".to_string()], difficulty: 0, ..rules() }.valid());
    assert!(!FruitRules { difficulties: vec![" Easy".to_string()], difficulty: 0, ..rules() }.valid());
}
