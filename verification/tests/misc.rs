//! Text boxes, JSON, room codes on screen and the link that can be selected.

use endif_client::copylink::{glyph_index_at, glyph_span, LinkInput, LinkSelection, COPIED_FOR, DOUBLE_CLICK};
use endif_client::json::Object;
use endif_client::menu::date::{civil, ymd};
use endif_client::menu::history::{fuzzy, show_percentage};
use endif_client::settings::{Binding, MouseButton};
use endif_client::text::{lower, replace, show_padded, show_with_sign, split, trim};
use endif_client::textfield::{display, field_keys, push, Field, Form, Tone, TypedKey, NAME_MAX};
use endif_client::theme::code_display;

#[test]
fn dates_come_out_civil() {
    assert_eq!(ymd(0), "1970-01-01");
    assert_eq!(ymd(951_782_400), "2000-02-29");
    assert_eq!(ymd(1_788_480_000), "2026-09-04");
}

#[test]
fn dates_before_the_epoch() {
    assert_eq!(ymd(-1), "1969-12-31");
    assert_eq!(civil(-719_468), (0, 3, 1));
    assert_eq!(civil(19_782), (2024, 2, 29));
    assert_eq!(civil(19_783), (2024, 3, 1));
}

#[test]
fn names_are_found_by_their_letters() {
    assert!(fuzzy("Painis Cupcake", ""));
    assert!(fuzzy("Painis Cupcake", "pnc"));
    assert!(fuzzy("Painis Cupcake", "Painis Cupcake"));
    assert!(!fuzzy("Painis", "pp"));
    assert!(fuzzy("ÄRGER", "ärger"));
}

#[test]
fn numbers_are_shown() {
    assert_eq!(show_with_sign(5), "+5");
    assert_eq!(show_with_sign(0), "+0");
    assert_eq!(show_with_sign(-5), "-5");
    assert_eq!(show_percentage(1, 3), "33");
    assert_eq!(show_percentage(2, 3), "67");
    assert_eq!(show_padded(7, 3), "007");
}

#[test]
fn texts_come_apart() {
    assert_eq!(split("a,,b", ','), vec!["a", "", "b"]);
    assert_eq!(trim(" \u{3000}x \n"), "x");
    assert_eq!(replace("aXbX", "X", "yy"), "ayybyy");
    assert_eq!(lower("AΣİ"), "aσi\u{307}".chars().collect::<Vec<char>>());
}

#[test]
fn objects_are_written() {
    let mut o = Object::new();
    o.text("name", "a\"b\\\n");
    o.number("n", -3);
    o.pair("score", 1, 2);
    o.flag("won", true);
    assert_eq!(o.finish(), "{\"name\":\"a\\\"b\\\\\\n\",\"n\":-3,\"score\":[1,2],\"won\":true}");
    assert_eq!(Object::new().finish(), "{}");
}

#[test]
fn boxes_take_what_fits() {
    let mut form = Form::new();
    push(&mut form, Field::Code, "12a34567");
    assert_eq!(form.get(Field::Code).len(), Field::Code.max_len());
    assert!(form.get(Field::Code).chars().all(|c| c.is_ascii_digit()));
    push(&mut form, Field::AnonName, "abcdefghijklmnopqrstuvwxyz");
    assert_eq!(form.get(Field::AnonName).len(), NAME_MAX);
    form.clear(Field::Code);
    assert_eq!(form.get(Field::Code), "");
}

#[test]
fn secrets_are_masked_and_forgotten() {
    let mut form = Form::new();
    push(&mut form, Field::Password, "hunter2");
    assert!(Field::Password.masked());
    let (shown, tone) = display("hunter2", Field::Password, false, "password", false);
    assert!(!shown.contains("hunter2"));
    assert_eq!(tone, Tone::Text);
    let (shown, _) = display("hunter2", Field::Password, false, "password", true);
    assert_eq!(shown, "hunter2");
    let (shown, tone) = display("", Field::Email, false, "e-mail", false);
    assert_eq!((shown.as_str(), tone), ("e-mail", Tone::Placeholder));
    form.clear_secrets();
    assert_eq!(form.get(Field::Password), "");
}

#[test]
fn keys_go_to_the_focused_box() {
    let mut form = Form::new();
    let boxes = vec![Field::Login, Field::Password];
    form.set_focus(Some(Field::Login));
    let typed = |s: &str| TypedKey::Character(s.to_string());
    field_keys(&mut form, &boxes, &vec![typed("a"), typed("b"), TypedKey::Backspace, TypedKey::Tab], false, false, false);
    field_keys(&mut form, &boxes, &vec![typed("x")], false, false, false);
    assert_eq!(form.get(Field::Login), "a");
    assert_eq!(form.get(Field::Password), "x");
    field_keys(&mut form, &boxes, &vec![TypedKey::Tab], false, false, true);
    assert_eq!(form.focus, Some(Field::Login));
    field_keys(&mut form, &boxes, &vec![typed("v")], true, false, false);
    assert_eq!(form.get(Field::Login), "a");
    field_keys(&mut form, &boxes, &vec![TypedKey::Enter], true, true, false);
    assert!(!form.take_submit());
    field_keys(&mut form, &boxes, &vec![TypedKey::Enter], false, false, false);
    assert!(form.take_submit());
    assert!(!form.take_submit());
    form.click(Field::Password);
    assert_eq!(form.focus, Some(Field::Password));
}

#[test]
fn codes_are_spaced_out() {
    assert_eq!(code_display("ABC", 6), "A B C _ _ _");
    assert_eq!(code_display("", 2), "_ _");
}

#[test]
fn bindings_have_names() {
    assert_eq!(Binding::Key("KeyW".to_string()).label(), "W");
    assert_eq!(Binding::Key("Digit1".to_string()).label(), "1");
    assert_eq!(Binding::Mouse(MouseButton::Left).label(), "Mouse 1");
    assert_eq!(Binding::Mouse(MouseButton::Forward).label(), "Mouse 5");
}

fn still(now: u64) -> LinkInput {
    LinkInput {
        just_pressed: false,
        pressed: false,
        just_released: false,
        hovered: false,
        copy_keys: false,
        cursor: None,
        local_x: None,
        now,
    }
}

#[test]
fn a_click_copies_the_link() {
    let centres = vec![5, 15, 25, 35];
    let mut sel = LinkSelection::new();
    let press = LinkInput { just_pressed: true, pressed: true, hovered: true, cursor: Some((0, 0)), local_x: Some(0), ..still(10 * DOUBLE_CLICK) };
    assert!(sel.link_input(&press, &centres, "link").is_empty());
    let release = LinkInput { just_released: true, hovered: true, cursor: Some((0, 0)), local_x: Some(0), ..still(10 * DOUBLE_CLICK + 1) };
    assert_eq!(sel.link_input(&release, &centres, "link"), vec!["link".to_string()]);
    sel.copied(11 * DOUBLE_CLICK);
    assert_eq!(sel.hint(11 * DOUBLE_CLICK).0, "copied!");
    assert_ne!(sel.hint(11 * DOUBLE_CLICK + COPIED_FOR).0, "copied!");
}

#[test]
fn glyphs_are_found() {
    let centres = vec![5, 15, 25, 35];
    assert_eq!(glyph_index_at(&centres, 0), 0);
    assert_eq!(glyph_index_at(&centres, 16), 2);
    assert_eq!(glyph_index_at(&centres, 100), 4);
    assert_eq!(glyph_span(4, 3, 1), Some((1, 2)));
    assert_eq!(glyph_span(4, 2, 2), None);
}

#[test]
fn an_eye_shows_its_password_while_it_is_held() {
    let mut form = Form::new();
    form.eye(Field::Password, true);
    assert_eq!(form.revealed, Some(Field::Password));
    form.keep_eyes(&vec![Field::Password]);
    assert_eq!(form.revealed, Some(Field::Password));
    form.keep_eyes(&vec![]);
    assert_eq!(form.revealed, None);
    form.eye(Field::Password, true);
    form.eye(Field::Password, false);
    assert_eq!(form.revealed, None);
}
