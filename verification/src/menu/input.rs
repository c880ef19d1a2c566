//! Keys, pasted text and the clock in the menus.

use vstd::prelude::*;
use vstd::string::*;
use vstd::utf8::{encode_utf8, is_ascii_chars_encode_utf8};

use super::act::{EffectView, Menu, MenuEffect, MenuEnv, MenuView};
use super::{back_of, back_target, UiScreen};
use crate::account::AccountView;
use crate::config::{code_from_text, law_normalizing_settles, normalize_room_code, pasted_code,
    room_char, room_code, ClientConfig, ConfigView, ROOM_CODE_LEN};
use crate::net::{CommandView, NetCommand, RoomFailure};
use crate::numeral::{clamped, scaled, shifted_round};
use crate::settings::{Action, Binding, BindingView, FruitRules, Held, MouseButton, Settings,
    tens, SettingsView, Slider};
use crate::text::{cat, chars, eq, is_digit, lemma_encode_cat, owned, string_of, strings, trim, trimmed};
use crate::textfield::{after_key, typed, Field, FormView, TypedKey};

verus! {

// ---- forms ----

impl MenuView {
    /// Enter in a form field presses that form's main button; in the anonymous name box it just
    /// finishes editing.
    pub open spec fn entered(
        self,
        api: Seq<char>,
        rules: &FruitRules,
        env: &MenuEnv,
    ) -> MenuView {
        let m = self.with_form(FormView { submitted: false, ..self.form });
        if !self.form.submitted {
            m
        } else {
            match self.screen.main_button() {
                Some(action) => m.performed(action, api, rules, env),
                None => m.with_form(FormView { focus: None, ..m.form }),
            }
        }
    }
}

impl Menu {
    /// Enter in a form field presses that form's main button.
    pub fn form_submit(&mut self, cfg: &ClientConfig, rules: &FruitRules, env: &MenuEnv)
        requires
            old(self).wf(),
            rules.wf(),
        ensures
            final(self).wf(),
            final(self)@ == old(self)@.entered(cfg.api(), rules, env),
    {
        if !self.form.take_submit() {
            return ;
        }
        match self.screen.submit_action() {
            Some(action) => {
                self.perform(action, cfg, rules, env);
            },
            None => {
                self.form.set_focus(None);
            },
        }
    }
}

// ---- Esc ----

/// Where Esc leads: in game it toggles the pause overlay; elsewhere it goes back a screen.
pub open spec fn escape_of(screen: UiScreen, in_game: bool) -> UiScreen {
    match screen {
        UiScreen::Hidden => if in_game {
            UiScreen::Pause
        } else {
            screen
        },
        UiScreen::Pause => UiScreen::Hidden,
        UiScreen::Main => screen,
        other => back_of(other, in_game),
    }
}

impl MenuView {
    /// Esc pressed. A value box that is open or has just closed, and a bind button that listens,
    /// swallow it; the result popup goes first; leaving the queue screen leaves the queue.
    pub open spec fn escaped(self, box_changed: bool, in_game: bool, api: Seq<char>) -> MenuView {
        let next = escape_of(self.screen, in_game);
        if self.listening is Some || self.editing is Some || box_changed {
            self
        } else if self.screen == UiScreen::Main && self.account.result is Some {
            self.with_account(AccountView { result: None, ..self.account }).refreshed()
        } else if next == self.screen {
            self
        } else {
            let m = if self.screen == UiScreen::Queue {
                self.out_of_queue(api)
            } else {
                self
            };
            m.cleared().at(next)
        }
    }
}

impl Menu {
    /// Esc: in game toggles the pause overlay; elsewhere goes back a screen. A focused text field
    /// does not keep it: Esc goes back from a form even while typing in it. `box_changed`: a value
    /// box was opened, typed in or closed since the last frame.
    pub fn escape_key(&mut self, pressed: bool, box_changed: bool, in_game: bool, cfg: &ClientConfig)
        requires
            old(self).wf(),
        ensures
            final(self).wf(),
            final(self)@ == if pressed {
                old(self)@.escaped(box_changed, in_game, cfg.api())
            } else {
                old(self)@
            },
    {
        if !pressed || self.listening.is_some() || self.editing.is_some() || box_changed {
            return ;
        }
        if self.screen == UiScreen::Main && self.account.result.is_some() {
            self.account.dismiss_result();
            self.refresh = true;
            return ;
        }
        let next = match self.screen {
            UiScreen::Hidden => if in_game {
                UiScreen::Pause
            } else {
                UiScreen::Hidden
            },
            UiScreen::Pause => UiScreen::Hidden,
            UiScreen::Main => UiScreen::Main,
            other => back_target(other, in_game),
        };
        if next != self.screen {
            if self.screen == UiScreen::Queue {
                self.leave_queue(cfg);
            }
            self.account.error = None;
            self.screen = next;
        }
    }
}

/// Esc pressed twice in a running match opens the pause overlay and closes it again.
pub proof fn law_escape_toggles_the_pause()
    ensures
        escape_of(UiScreen::Hidden, true) == UiScreen::Pause,
        escape_of(escape_of(UiScreen::Hidden, true), true) == UiScreen::Hidden,
{
}

/// Esc never strands the player: outside a match, pressing it again and again ends on the main
/// menu from every screen that is up.
pub proof fn law_escape_ends_on_the_main_menu(screen: UiScreen)
    requires
        screen != UiScreen::Hidden,
        !screen.overlay(),
    ensures
        escape_of(escape_of(escape_of(screen, false), false), false) == UiScreen::Main,
{
}

// ---- value boxes ----

/// Whether a text has nothing but digits and points.
pub open spec fn numeric(s: Seq<char>) -> bool {
    forall|i: int| 0 <= i < s.len() ==> is_digit(#[trigger] s[i]) || s[i] == '.'
}

/// Bytes that a value box has room for.
pub const BOX_ROOM: usize = 6;

impl MenuView {
    /// One key press in a value box. Enter applies (Alt+Enter is the fullscreen toggle), Esc
    /// cancels.
    pub open spec fn boxed_key(self, key: TypedKey, alt: bool, rules: &FruitRules) -> MenuView {
        match key {
            TypedKey::Character(c) => match self.editing {
                Some((slider, buf)) => if encode_utf8(buf).len() < BOX_ROOM && numeric(
                    c@,
                ) {
                    MenuView { editing: Some((slider, buf + c@)), ..self }
                } else {
                    self
                },
                None => self,
            },
            TypedKey::Backspace => match self.editing {
                Some((slider, buf)) => if buf.len() > 0 {
                    MenuView { editing: Some((slider, buf.drop_last())), ..self }
                } else {
                    self
                },
                None => self,
            },
            TypedKey::Enter => if alt {
                self
            } else {
                self.committed(rules)
            },
            TypedKey::Escape => MenuView { editing: None, ..self },
            _ => self,
        }
    }

    pub open spec fn boxed_keys(
        self,
        keys: Seq<TypedKey>,
        alt: bool,
        rules: &FruitRules,
    ) -> MenuView
        decreases keys.len(),
    {
        if keys.len() == 0 {
            self
        } else {
            self.boxed_keys(keys.drop_last(), alt, rules).boxed_key(keys.last(), alt, rules)
        }
    }
}

fn is_numeric(s: &str) -> (r: bool)
    ensures
        r == numeric(s@),
{
    let v = chars(s);
    let mut i: usize = 0;
    while i < v.len()
        invariant
            i <= v.len(),
            v@ == s@,
            forall|j: int| 0 <= j < i ==> is_digit(#[trigger] v@[j]) || v@[j] == '.',
        decreases v.len() - i,
    {
        let c = v[i];
        if !(('0' <= c && c <= '9') || c == '.') {
            proof {
                assert(!(is_digit(s@[i as int]) || s@[i as int] == '.'));
            }
            return false;
        }
        i = i + 1;
    }
    true
}

/// A text without its last character.
fn pop(s: &str) -> (r: String)
    ensures
        r@ == if s@.len() > 0 {
            s@.drop_last()
        } else {
            s@
        },
{
    let v = chars(s);
    let n = v.len();
    if n == 0 {
        return owned(s);
    }
    let r = string_of(&v, 0, n - 1);
    proof {
        assert(r@ =~= s@.drop_last());
    }
    r
}

impl Menu {
    fn box_key(&mut self, key: &TypedKey, alt: bool, rules: &FruitRules)
        requires
            old(self).wf(),
            rules.wf(),
        ensures
            final(self).wf(),
            final(self)@ == old(self)@.boxed_key(*key, alt, rules),
    {
        match key {
            TypedKey::Character(c) => {
                if let Some((slider, buf)) = self.editing.take() {
                    let n = buf.as_str().as_bytes().len();
                    let buf = if n < BOX_ROOM && is_numeric(c.as_str()) {
                        cat(buf.as_str(), c.as_str())
                    } else {
                        buf
                    };
                    self.editing = Some((slider, buf));
                }
            },
            TypedKey::Backspace => {
                if let Some((slider, buf)) = self.editing.take() {
                    self.editing = Some((slider, pop(buf.as_str())));
                }
            },
            TypedKey::Enter => {
                if !alt {
                    self.commit_edit(rules);
                }
            },
            TypedKey::Escape => {
                self.editing = None;
            },
            _ => {},
        }
    }

    /// Typing into an open value box. Enter applies, Esc cancels.
    pub fn edit_value_keys(&mut self, keys: &Vec<TypedKey>, alt: bool, rules: &FruitRules)
        requires
            old(self).wf(),
            rules.wf(),
        ensures
            final(self).wf(),
            final(self)@ == if old(self)@.editing is None {
                old(self)@
            } else {
                old(self)@.boxed_keys(keys@, alt, rules)
            },
    {
        if self.editing.is_none() {
            return ;
        }
        let ghost start = self@;
        let mut i: usize = 0;
        proof {
            assert(keys@.take(0) =~= Seq::<TypedKey>::empty());
        }
        while i < keys.len()
            invariant
                i <= keys.len(),
                self.wf(),
                rules.wf(),
                self@ == start.boxed_keys(keys@.take(i as int), alt, rules),
            decreases keys.len() - i,
        {
            proof {
                assert(keys@.take(i as int + 1).drop_last() =~= keys@.take(i as int));
                assert(keys@.take(i as int + 1).last() == keys@[i as int]);
            }
            self.box_key(&keys[i], alt, rules);
            i = i + 1;
        }
        proof {
            assert(keys@.take(keys@.len() as int) =~= keys@);
        }
    }

    /// What a value box shows, and whether it is being typed in: the text typed so far with a caret
    /// behind it, or the slider's value.
    pub fn value_text(&self, slider: Slider) -> (r: (String, bool))
        ensures
            ({
                let typing = self@.editing is Some && (self@.editing->0).0 == slider;
                &&& r.1 == typing
                &&& r.0@ == if typing {
                    (self@.editing->0).1 + "_"@
                } else {
                    slider.shown(self@.settings)
                }
            }),
    {
        match &self.editing {
            Some((s, buf)) => if *s == slider {
                (cat(buf.as_str(), "_"), true)
            } else {
                (slider.display(&self.settings), false)
            },
            None => (slider.display(&self.settings), false),
        }
    }
}

// ---- dragging a slider ----

/// The value that a slider takes at a point counted in millionths of its unit: rounded to its step
/// and brought into its range.
pub open spec fn landed(slider: Slider, at: nat, rules: &FruitRules) -> int {
    let (lo, hi) = slider.bounds(rules);
    if slider.places() == -1 {
        10 * clamped(
            shifted_round(at, -7) as int,
            tens(lo as nat) as int,
            tens(hi as nat) as int,
        )
    } else {
        clamped(shifted_round(at, -6) as int, lo, hi)
    }
}

impl MenuView {
    /// A slider dragged to a point along its track, in millionths of the track. What is closer to
    /// the value than a four-hundredth of the range leaves it alone.
    pub open spec fn dragged(self, slider: Slider, along: u32, rules: &FruitRules) -> MenuView {
        let (lo, hi) = slider.bounds(rules);
        let at = 1_000_000 * lo + clamped(along as int, 0, 1_000_000) * (hi - lo);
        let away = at - 1_000_000 * self.settings.value(slider);
        if away >= 2500 * (hi - lo) || -away >= 2500 * (hi - lo) {
            self.with_settings(
                self.settings.with_value(slider, landed(slider, at as nat, rules)),
            )
        } else {
            self
        }
    }

    /// A frame of dragging: what the menu and the slider being dragged become. The value is applied
    /// live; it is saved when the button is let go.
    pub open spec fn mouse_drag(
        self,
        active: Option<Slider>,
        mouse: DragInput,
        rules: &FruitRules,
    ) -> (MenuView, Option<Slider>) {
        let held = if mouse.just_pressed {
            mouse.over
        } else {
            active
        };
        let m = if mouse.just_pressed && held is Some {
            self.committed(rules)
        } else {
            self
        };
        if !mouse.down {
            (
                if held is Some {
                    m.emit(EffectView::SaveSettings)
                } else {
                    m
                },
                None,
            )
        } else {
            match (held, mouse.along) {
                (Some(slider), Some(along)) => (m.dragged(slider, along, rules), held),
                _ => (m, held),
            }
        }
    }
}

/// What the mouse does to the sliders in a frame.
#[derive(Clone, Copy, Debug, PartialEq, Eq, Structural)]
pub struct DragInput {
    /// The left button went down.
    pub just_pressed: bool,
    /// The left button is down.
    pub down: bool,
    /// The slider whose track is pressed.
    pub over: Option<Slider>,
    /// Where the mouse is along the track of the slider being dragged, in millionths of the track.
    pub along: Option<u32>,
}

fn drag_to(s: &mut Settings, slider: Slider, along: u32, rules: &FruitRules)
    requires
        rules.wf(),
    ensures
        ({
            let (lo, hi) = slider.bounds(rules);
            let at = 1_000_000 * lo + clamped(along as int, 0, 1_000_000) * (hi - lo);
            let away = at - 1_000_000 * old(s)@.value(slider);
            final(s)@ == if away >= 2500 * (hi - lo) || -away >= 2500 * (hi - lo) {
                old(s)@.with_value(slider, landed(slider, at as nat, rules))
            } else {
                old(s)@
            }
        }),
{
    let (lo, hi) = slider.range(rules);
    let part: u64 = if along > 1_000_000 {
        1_000_000
    } else {
        along as u64
    };
    let span: u64 = (hi - lo) as u64;
    proof {
        assert(part * span <= 1_000_000 * 0xffff_ffff) by (nonlinear_arith)
            requires
                part <= 1_000_000,
                span <= 0xffff_ffff,
        ;
    }
    let at: u64 = 1_000_000 * lo as u64 + part * span;
    let current: u64 = 1_000_000 * slider.value(s) as u64;
    let away: u64 = if at > current {
        at - current
    } else {
        current - at
    };
    if away >= 2500 * span {
        let v = match slider {
            Slider::Sens(_) | Slider::Volume => scaled(at, -8),
            _ => scaled(at, -6),
        };
        proof {
            let places = slider.places();
            if places == -1 {
                assert(v.settled(-1, tens(lo as nat) as int, tens(hi as nat) as int) is Some);
            } else {
                assert(v.settled(places, lo as int, hi as int) is Some);
            }
            assert(slider.stepped(v, rules) == Some(landed(slider, at as nat, rules)));
        }
        slider.set(s, &v, rules);
    }
}

impl Menu {
    /// Dragging a slider. The value is applied live; it is saved when the button is let go.
    /// `active` is the slider being dragged.
    pub fn slider_drag(&mut self, active: &mut Option<Slider>, mouse: DragInput, rules: &FruitRules)
        requires
            old(self).wf(),
            rules.wf(),
        ensures
            final(self).wf(),
            (final(self)@, *final(active)) == old(self)@.mouse_drag(*old(active), mouse, rules),
    {
        if mouse.just_pressed {
            *active = mouse.over;
            if active.is_some() {
                self.commit_edit(rules);
            }
        }
        if !mouse.down {
            if active.is_some() {
                *active = None;
                self.emit(MenuEffect::SaveSettings);
            }
            return ;
        }
        if let Some(slider) = *active {
            if let Some(along) = mouse.along {
                drag_to(&mut self.settings, slider, along, rules);
            }
        }
    }
}

// ---- key bindings ----

/// The last key pressed that is not Esc.
pub open spec fn last_key(keys: Seq<Seq<char>>) -> Option<Seq<char>>
    decreases keys.len(),
{
    if keys.len() == 0 {
        None
    } else if keys.last() == "Escape"@ {
        last_key(keys.drop_last())
    } else {
        Some(keys.last())
    }
}

/// What the presses of a frame bind: the last key, or else the first mouse button; Esc cancels.
pub open spec fn chosen_binding(keys: Seq<Seq<char>>, mouse: Seq<MouseButton>) -> Option<BindingView> {
    if keys.contains("Escape"@) {
        None
    } else {
        match last_key(keys) {
            Some(k) => Some(BindingView::Key(k)),
            None => if mouse.len() > 0 {
                Some(BindingView::Mouse(mouse[0]))
            } else {
                None
            },
        }
    }
}

impl MenuView {
    /// The presses of a frame while a bind button is active.
    pub open spec fn bound(self, keys: Seq<Seq<char>>, mouse: Seq<MouseButton>) -> MenuView {
        match self.listening {
            None => self,
            Some(action) => {
                let done = MenuView { listening: None, ..self };
                if keys.contains("Escape"@) {
                    done.refreshed()
                } else {
                    match chosen_binding(keys, mouse) {
                        Some(b) => done.resettled(
                            SettingsView {
                                bindings: self.settings.bindings.with(action, b),
                                ..self.settings
                            },
                        ),
                        None => self,
                    }
                }
            },
        }
    }
}

fn bind(s: &mut Settings, action: Action, b: Binding)
    ensures
        final(s)@ == (SettingsView { bindings: old(s)@.bindings.with(action, b@), ..old(s)@ }),
{
    s.bindings.set(action, b);
}

impl Menu {
    /// While a bind button is active, the next key or mouse press becomes the binding.
    pub fn capture_binding(&mut self, keys: &Vec<String>, mouse: &Vec<MouseButton>)
        requires
            old(self).wf(),
        ensures
            final(self).wf(),
            final(self)@ == old(self)@.bound(strings(keys@), mouse@),
    {
        let action = match self.listening {
            Some(a) => a,
            None => {
                return ;
            },
        };
        let ghost all = strings(keys@);
        let mut cancel = false;
        let mut chosen: Option<Binding> = None;
        let mut i: usize = 0;
        proof {
            assert(all.take(0) =~= Seq::<Seq<char>>::empty());
        }
        while i < keys.len()
            invariant
                i <= keys.len(),
                all == strings(keys@),
                cancel == all.take(i as int).contains("Escape"@),
                match last_key(all.take(i as int)) {
                    Some(k) => chosen matches Some(b) && b@ == BindingView::Key(k),
                    None => chosen is None,
                },
            decreases keys.len() - i,
        {
            proof {
                let a = all.take(i as int);
                let b = all.take(i as int + 1);
                assert(b.drop_last() =~= a);
                assert(b.last() == keys@[i as int]@);
                assert(b =~= a.push(b.last()));
                if a.contains("Escape"@) {
                    let j = choose|j: int| 0 <= j < a.len() && a[j] == "Escape"@;
                    assert(b[j] == "Escape"@);
                }
                if b.contains("Escape"@) && b.last() != "Escape"@ {
                    let j = choose|j: int| 0 <= j < b.len() && b[j] == "Escape"@;
                    assert(a[j] == "Escape"@);
                }
                if b.last() == "Escape"@ {
                    assert(b[i as int] == "Escape"@);
                }
            }
            if eq(keys[i].as_str(), "Escape") {
                cancel = true;
            } else {
                chosen = Some(Binding::Key(keys[i].clone()));
            }
            i = i + 1;
        }
        proof {
            assert(all.take(all.len() as int) =~= all);
        }
        if chosen.is_none() && !cancel && mouse.len() > 0 {
            chosen = Some(Binding::Mouse(mouse[0]));
        }
        if cancel {
            self.listening = None;
            self.refresh = true;
        } else if let Some(b) = chosen {
            bind(&mut self.settings, action, b);
            self.emit(MenuEffect::SaveSettings);
            self.listening = None;
            self.refresh = true;
        }
    }
}

/// A captured press binds the action that was listened for and no other, and the listening ends.
pub proof fn law_capture_binds_one_action(
    m: MenuView,
    action: Action,
    other: Action,
    keys: Seq<Seq<char>>,
    mouse: Seq<MouseButton>,
)
    requires
        m.listening == Some(action),
        chosen_binding(keys, mouse) is Some,
    ensures
        m.bound(keys, mouse).settings.bindings.of(action) == chosen_binding(keys, mouse)->0,
        other != action ==> m.bound(keys, mouse).settings.bindings.of(other)
            == m.settings.bindings.of(other),
        m.bound(keys, mouse).listening is None,
{
}

// ---- the room code ----

/// Ctrl or the system key is held: the key press is a shortcut.
pub open spec fn command_down(held: Held) -> bool {
    held.has_key("ControlLeft"@) || held.has_key("ControlRight"@) || held.has_key("SuperLeft"@)
        || held.has_key("SuperRight"@)
}

/// Ctrl or the system key is held.
pub fn command_held(held: &Held) -> (r: bool)
    ensures
        r == command_down(*held),
{
    held.key("ControlLeft") || held.key("ControlRight") || held.key("SuperLeft") || held.key(
        "SuperRight",
    )
}

/// The typed code with a pressed character's letters behind it, as far as there is room: a letter of
/// the room alphabet takes a byte.
pub open spec fn with_letters(code: Seq<char>, add: Seq<char>) -> Seq<char> {
    let room = ROOM_CODE_LEN - encode_utf8(code).len();
    if room <= 0 {
        code
    } else if add.len() > room {
        code + add.take(room)
    } else {
        code + add
    }
}

impl MenuView {
    /// One key press on the main menu. Shortcuts must not type their letter into the code, nor
    /// Alt+Enter, the fullscreen toggle, join.
    pub open spec fn coded_key(self, key: TypedKey, modifier: bool, alt: bool) -> MenuView {
        match key {
            TypedKey::Character(c) => if modifier {
                self
            } else {
                MenuView { typed: with_letters(self.typed, room_code(c@)), ..self }
            },
            TypedKey::Backspace => if self.typed.len() > 0 {
                MenuView { typed: self.typed.drop_last(), ..self }
            } else {
                self
            },
            TypedKey::Enter => if encode_utf8(self.typed).len() == ROOM_CODE_LEN && !alt {
                self.emit(EffectView::Net(CommandView::JoinRoom(self.typed)))
            } else {
                self
            },
            _ => self,
        }
    }

    pub open spec fn coded_keys(
        self,
        keys: Seq<TypedKey>,
        modifier: bool,
        alt: bool,
    ) -> MenuView
        decreases keys.len(),
    {
        if keys.len() == 0 {
            self
        } else {
            self.coded_keys(keys.drop_last(), modifier, alt).coded_key(keys.last(), modifier, alt)
        }
    }

    /// The keys go to the room code: the main menu is up and nothing else takes them.
    pub open spec fn takes_code(self) -> bool {
        self.screen == UiScreen::Main && self.editing is None && self.form.focus is None
    }
}

impl Menu {
    fn code_key(&mut self, key: &TypedKey, modifier: bool, alt: bool)
        requires
            old(self).wf(),
        ensures
            final(self).wf(),
            final(self)@ == old(self)@.coded_key(*key, modifier, alt),
    {
        match key {
            TypedKey::Character(c) => {
                if modifier {
                    return ;
                }
                let add = normalize_room_code(c.as_str());
                let n = self.typed.as_str().as_bytes().len();
                if n < ROOM_CODE_LEN {
                    let w = chars(add.as_str());
                    let room = ROOM_CODE_LEN - n;
                    let add = if w.len() > room {
                        proof {
                            assert(w@.subrange(0, room as int) =~= w@.take(room as int));
                        }
                        string_of(&w, 0, room)
                    } else {
                        add
                    };
                    self.typed = cat(self.typed.as_str(), add.as_str());
                }
            },
            TypedKey::Backspace => {
                self.typed = pop(self.typed.as_str());
            },
            TypedKey::Enter => {
                if self.typed.as_str().as_bytes().len() == ROOM_CODE_LEN && !alt {
                    let code = self.typed.clone();
                    self.emit(MenuEffect::Net(NetCommand::JoinRoom(code)));
                }
            },
            _ => {},
        }
    }

    /// Typing the room code on the main menu. A value box (the volume slider's) or the name box
    /// takes the keys while it is open.
    pub fn type_code(&mut self, keys: &Vec<TypedKey>, modifier: bool, alt: bool)
        requires
            old(self).wf(),
        ensures
            final(self).wf(),
            final(self)@ == if old(self)@.takes_code() {
                old(self)@.coded_keys(keys@, modifier, alt)
            } else {
                old(self)@
            },
    {
        if self.screen != UiScreen::Main || self.editing.is_some() || self.form.focus.is_some() {
            return ;
        }
        let ghost start = self@;
        let mut i: usize = 0;
        proof {
            assert(keys@.take(0) =~= Seq::<TypedKey>::empty());
        }
        while i < keys.len()
            invariant
                i <= keys.len(),
                self.wf(),
                self@ == start.coded_keys(keys@.take(i as int), modifier, alt),
            decreases keys.len() - i,
        {
            proof {
                assert(keys@.take(i as int + 1).drop_last() =~= keys@.take(i as int));
                assert(keys@.take(i as int + 1).last() == keys@[i as int]);
            }
            self.code_key(&keys[i], modifier, alt);
            i = i + 1;
        }
        proof {
            assert(keys@.take(keys@.len() as int) =~= keys@);
        }
    }

    /// Ctrl+V / Cmd+V starts a clipboard read on any menu screen (desktop; on the web the page
    /// keeps the key and the browser's paste event comes in instead).
    pub fn paste_shortcut(&mut self, held: &Held, v_pressed: bool)
        requires
            old(self).wf(),
        ensures
            final(self).wf(),
            final(self)@ == if command_down(*held) && v_pressed {
                old(self)@.emit(EffectView::ReadClipboard)
            } else {
                old(self)@
            },
    {
        if command_held(held) && v_pressed {
            self.emit(MenuEffect::ReadClipboard);
        }
    }

    /// Applies pasted text: into the focused text field, or else the room code (a bare code or an
    /// invite link). True where it was taken; text without a room code changes nothing.
    pub fn apply_paste(&mut self, text: &str) -> (taken: bool)
        requires
            old(self).wf(),
        ensures
            final(self).wf(),
            match old(self)@.form.focus {
                Some(f) => {
                    &&& taken
                    &&& final(self)@ == old(self)@.with_form(
                        old(self)@.form.with(
                            f,
                            typed(f, old(self)@.form.value(f), trimmed(text@)),
                        ),
                    )
                },
                None => {
                    &&& taken == (pasted_code(text@).len() > 0)
                    &&& final(self)@ == if taken {
                        (MenuView { typed: pasted_code(text@), ..old(self)@ })
                    } else {
                        old(self)@
                    }
                },
            },
    {
        if let Some(f) = self.form.focus {
            let t = trim(text);
            crate::textfield::push(&mut self.form, f, t.as_str());
            return true;
        }
        let code = code_from_text(text);
        if code.as_str().is_empty() {
            return false;
        }
        self.typed = code;
        true
    }
}

/// No key makes the typed code longer than a room code.
pub proof fn law_typed_code_fits(m: MenuView, keys: Seq<TypedKey>, modifier: bool, alt: bool)
    requires
        encode_utf8(m.typed).len() <= ROOM_CODE_LEN,
    ensures
        encode_utf8(m.coded_keys(keys, modifier, alt).typed).len() <= ROOM_CODE_LEN,
    decreases keys.len(),
{
    if keys.len() > 0 {
        law_typed_code_fits(m, keys.drop_last(), modifier, alt);
        let code = m.coded_keys(keys.drop_last(), modifier, alt).typed;
        match keys.last() {
            TypedKey::Character(c) => {
                let room = ROOM_CODE_LEN - encode_utf8(code).len();
                let add = room_code(c@);
                law_normalizing_settles(c@);
                let add = if add.len() > room {
                    add.take(room)
                } else {
                    add
                };
                assert forall|i: int| 0 <= i < add.len() implies '\0' <= #[trigger] add[i] <= '\u{7f}' by {
                    assert(room_char(room_code(c@)[i]));
                }
                is_ascii_chars_encode_utf8(add);
                lemma_encode_cat(code, add);
            },
            TypedKey::Backspace => {
                if code.len() > 0 {
                    lemma_encode_cat(code.drop_last(), seq![code.last()]);
                    assert(code.drop_last() + seq![code.last()] =~= code);
                }
            },
            _ => {},
        }
    }
}

/// Alt+Enter, the fullscreen toggle, submits nothing: not a form, not a value box, not the room
/// code.
pub proof fn law_alt_enter_submits_nothing(
    m: MenuView,
    focus: Field,
    fields: Seq<Field>,
    modifier: bool,
    shift: bool,
    rules: &FruitRules,
)
    ensures
        after_key(m.form, focus, fields, TypedKey::Enter, modifier, true, shift) == m.form,
        m.boxed_key(TypedKey::Enter, true, rules) == m,
        m.coded_key(TypedKey::Enter, modifier, true) == m,
{
}

// ---- joining at the start ----

impl MenuView {
    /// What the launch asked for: a room, the quick play queue, practice.
    pub open spec fn launched(self, cfg: ConfigView, now: u64) -> MenuView {
        let m = if names_a_room(cfg) {
            self.emit(EffectView::Net(CommandView::JoinRoom(cfg.initial_room->0))).emit(
                EffectView::ForgetJoin,
            )
        } else if cfg.initial_quick {
            self.quick_playing(now).emit(EffectView::ForgetJoin)
        } else {
            self
        };
        if cfg.auto_practice {
            m.emit(EffectView::Net(CommandView::Practice))
        } else {
            m
        }
    }
}

/// Whether the launch names a room that can be joined.
pub open spec fn names_a_room(cfg: ConfigView) -> bool {
    cfg.initial_room is Some && encode_utf8(cfg.initial_room->0).len() == ROOM_CODE_LEN
}

/// The configuration with the launch's wishes used up. A quick play invite outlives a room code
/// that was joined.
pub open spec fn wishes_used(cfg: ConfigView) -> ConfigView {
    ConfigView {
        initial_room: None,
        initial_quick: names_a_room(cfg) && cfg.initial_quick,
        auto_practice: false,
        ..cfg
    }
}

impl Menu {
    /// Joins when the program was launched with a room code (`?room=` or `--room`) or a quick play
    /// invite (`?qp` or `--quick`).
    pub fn auto_join(&mut self, cfg: &mut ClientConfig, now: u64)
        requires
            old(self).wf(),
        ensures
            final(self).wf(),
            final(self)@ == old(self)@.launched(old(cfg)@, now),
            final(cfg)@ == wishes_used(old(cfg)@),
    {
        let mut joined = false;
        if let Some(code) = cfg.initial_room.take() {
            if code.as_str().as_bytes().len() == ROOM_CODE_LEN {
                self.emit(MenuEffect::Net(NetCommand::JoinRoom(code)));
                self.emit(MenuEffect::ForgetJoin);
                joined = true;
            }
        }
        if !joined && cfg.initial_quick {
            cfg.initial_quick = false;
            self.quick_play(now);
            self.emit(MenuEffect::ForgetJoin);
        }
        if cfg.auto_practice {
            cfg.auto_practice = false;
            self.emit(MenuEffect::Net(NetCommand::Practice));
        }
    }
}

/// The launch's wishes are carried out once, unless it names a room that can be joined and the quick
/// play queue both.
pub proof fn law_launch_happens_once(m: MenuView, cfg: ConfigView, now: u64)
    requires
        !(names_a_room(cfg) && cfg.initial_quick),
    ensures
        m.launched(wishes_used(cfg), now) == m,
{
}

// ---- the waiting room ----

/// The room ended, and the box that says so is up.
pub open spec fn errored(failure: Option<RoomFailure>) -> bool {
    failure is Some && failure->0 != RoomFailure::Checking
}

impl Menu {
    /// Esc cancels waiting; on the error box Enter/Space/Esc all act as OK (Alt+Enter is the
    /// fullscreen toggle). True where the room is given up.
    pub fn connecting_keys(
        &mut self,
        failure: Option<RoomFailure>,
        escape: bool,
        enter: bool,
        space: bool,
        alt: bool,
    ) -> (leave: bool)
        requires
            old(self).wf(),
        ensures
            final(self).wf(),
            leave == (escape || (errored(failure) && ((enter && !alt) || space))),
            final(self)@ == if leave {
                let m = if errored(failure) {
                    MenuView { typed: Seq::empty(), ..old(self)@ }
                } else {
                    old(self)@
                };
                m.emit(EffectView::LeaveRoom)
            } else {
                old(self)@
            },
    {
        let error = match failure {
            Some(f) => f != RoomFailure::Checking,
            None => false,
        };
        let ok = error && ((enter && !alt) || space);
        if escape || ok {
            if error {
                self.typed = String::new();
                proof {
                    assert(self@.typed =~= Seq::<char>::empty());
                }
            }
            self.emit(MenuEffect::LeaveRoom);
            true
        } else {
            false
        }
    }
}

// ---- rebuilding ----

/// The field that has the keyboard when a screen opens. Forms open with their first field focused;
/// the anonymous name box does not steal keys.
pub open spec fn first_field(screen: UiScreen) -> Option<Field> {
    match screen {
        UiScreen::Login => Some(Field::Login),
        UiScreen::Register | UiScreen::Forgot => Some(Field::Email),
        UiScreen::Verify | UiScreen::Reset => Some(Field::Code),
        UiScreen::ChangeUsername => Some(Field::NewUsername),
        UiScreen::ChangePassword => Some(Field::CurrentPassword),
        _ => None,
    }
}

impl MenuView {
    /// The menu as it is when its screen is built. A form that is left drops its passwords. The
    /// connecting screen is built elsewhere and must not be torn down.
    pub open spec fn built(self, changed: bool, connecting: bool) -> MenuView {
        let m = MenuView { refresh: false, ..self };
        if !changed && !self.refresh {
            self
        } else if connecting || !changed {
            m
        } else {
            let form = FormView {
                focus: first_field(self.screen),
                ..self.form.without_secrets()
            };
            let form = if self.screen == UiScreen::Main || self.screen == UiScreen::Leaderboard {
                form.with(Field::AnonName, self.account.anon_name)
            } else {
                form
            };
            MenuView { editing: None, form, ..m }
        }
    }
}

/// Leaving a form drops its passwords: a screen that opens finds none.
pub proof fn law_left_form_keeps_no_password(m: MenuView, f: Field)
    requires
        f.secret(),
    ensures
        m.built(true, false).form.value(f) == Seq::<char>::empty(),
{
}

impl Menu {
    /// Readies the menu for a rebuild of its screen, and says whether there is one. `changed`: the
    /// screen is another than last time.
    pub fn rebuild_ui(&mut self, changed: bool, connecting: bool) -> (rebuild: bool)
        requires
            old(self).wf(),
        ensures
            final(self).wf(),
            rebuild == ((changed || old(self)@.refresh) && !connecting),
            final(self)@ == old(self)@.built(changed, connecting),
    {
        if !changed && !self.refresh {
            return false;
        }
        self.refresh = false;
        if connecting {
            return false;
        }
        if changed {
            self.editing = None;
            let focus = match self.screen {
                UiScreen::Login => Some(Field::Login),
                UiScreen::Register | UiScreen::Forgot => Some(Field::Email),
                UiScreen::Verify | UiScreen::Reset => Some(Field::Code),
                UiScreen::ChangeUsername => Some(Field::NewUsername),
                UiScreen::ChangePassword => Some(Field::CurrentPassword),
                _ => None,
            };
            self.form.clear_secrets();
            self.form.set_focus(focus);
            if self.screen == UiScreen::Main || self.screen == UiScreen::Leaderboard {
                let name = self.account.anon_name.clone();
                self.form.set(Field::AnonName, name);
            }
        }
        true
    }

    /// Rebuilds the profile while the opponent search is typed in, so the list follows the text.
    /// `last` is the text of the frame before.
    pub fn history_search(&mut self, last: &mut String)
        requires
            old(self).wf(),
        ensures
            final(self).wf(),
            final(last)@ == old(self)@.form.value(Field::HistorySearch),
            final(self)@ == if old(last)@ != final(last)@ && old(self)@.screen == UiScreen::Profile {
                old(self)@.refreshed()
            } else {
                old(self)@
            },
    {
        let query = owned(self.form.get(Field::HistorySearch));
        if !eq(last.as_str(), query.as_str()) {
            *last = query;
            if self.screen == UiScreen::Profile {
                self.refresh = true;
            }
        }
    }

    /// Rebuilds the verify / reset screen when the "resend code" wait runs out (or a request
    /// lands), so the button greys in and out without the screen polling every frame.
    pub fn resend_timer(&mut self, was_ready: &mut Option<bool>, now: u64)
        requires
            old(self).wf(),
        ensures
            final(self).wf(),
            ({
                let m = old(self)@;
                let ready = now >= m.account.resend_at && !m.account.waiting();
                if m.screen != UiScreen::Verify && m.screen != UiScreen::Reset {
                    final(self)@ == m && *final(was_ready) is None
                } else {
                    &&& *final(was_ready) == Some(ready)
                    &&& final(self)@ == if *old(was_ready) == Some(!ready) {
                        m.refreshed()
                    } else {
                        m
                    }
                }
            }),
    {
        if self.screen != UiScreen::Verify && self.screen != UiScreen::Reset {
            *was_ready = None;
            return ;
        }
        let ready = self.account.can_resend(now);
        if let Some(was) = *was_ready {
            if was != ready {
                self.refresh = true;
            }
        }
        *was_ready = Some(ready);
    }

    /// Asks for the first page once the leaderboard tab has been laid out and its row count is
    /// known (opening the tab cannot ask before then). A failure leaves its message and does not
    /// retry. `loading`: a page is on its way.
    pub fn leaderboard_fetch(&mut self, loading: bool)
        requires
            old(self).wf(),
        ensures
            final(self).wf(),
            ({
                let m = old(self)@;
                let due = m.screen == UiScreen::Leaderboard && m.account.leaderboard is None
                    && m.account.error is None && !loading;
                final(self)@ == match m.rows {
                    Some(per) => if due {
                        m.emit(EffectView::FetchLeaderboard { page: 1, per })
                    } else {
                        m
                    },
                    None => m,
                }
            }),
    {
        let per = match self.rows {
            Some(per) => per,
            None => {
                return ;
            },
        };
        if self.screen == UiScreen::Leaderboard && self.account.leaderboard.is_none()
            && self.account.error.is_none() && !loading {
            self.emit(MenuEffect::FetchLeaderboard { page: 1, per });
        }
    }

    /// Leaving the menu takes the keyboard away from its fields.
    pub fn leave_menu(&mut self)
        requires
            old(self).wf(),
        ensures
            final(self).wf(),
            final(self)@ == old(self)@.with_form(FormView { focus: None, ..old(self)@.form }),
    {
        self.form.set_focus(None);
    }

    /// A match starts, or the wait for one: no screen is up.
    pub fn enter_game(&mut self)
        requires
            old(self).wf(),
        ensures
            final(self).wf(),
            final(self)@ == old(self)@.at(UiScreen::Hidden),
    {
        self.screen = UiScreen::Hidden;
    }

    /// A match is over: no screen is up, and nothing waits for a key to bind.
    pub fn leave_game(&mut self)
        requires
            old(self).wf(),
        ensures
            final(self).wf(),
            final(self)@ == (MenuView { listening: None, ..old(self)@.at(UiScreen::Hidden) }),
    {
        self.screen = UiScreen::Hidden;
        self.listening = None;
    }
}

/// Most players ever asked for on one page (the server caps it there too).
pub const LB_ROWS_MAX: u64 = 50;

/// How many players fit in the leaderboard's table box, from its height in thousandths of a pixel:
/// rows of 26 pixels within the padding and the border, at least one.
pub fn rows_that_fit(height: u64) -> (r: u32)
    ensures
        r == clamped((height - 16_000) / 26_000, 1, LB_ROWS_MAX as int),
{
    let inner: u64 = if height > 16_000 {
        height - 16_000
    } else {
        0
    };
    let rows: u64 = inner / 26_000;
    if rows < 1 {
        1
    } else if rows > LB_ROWS_MAX {
        LB_ROWS_MAX as u32
    } else {
        rows as u32
    }
}

/// The mouse wheel scrolls a pane by `dy` (upwards positive), within what its content leaves to
/// scroll through; thousandths of a pixel.
pub fn wheel_scroll(at: u32, dy: i32, room: u32) -> (r: u32)
    ensures
        r == clamped(at - dy, 0, room as int),
{
    let to: i64 = at as i64 - dy as i64;
    if to < 0 {
        0
    } else if to > room as i64 {
        room
    } else {
        to as u32
    }
}

/// Where Escape leads: into the pause menu and out of it during a match, nowhere from the title,
/// and back from everything else.
pub proof fn law_where_escape_leads(screen: UiScreen, in_game: bool)
    ensures
        escape_of(UiScreen::Hidden, true) == UiScreen::Pause,
        escape_of(UiScreen::Hidden, false) == UiScreen::Hidden,
        escape_of(UiScreen::Pause, in_game) == UiScreen::Hidden,
        escape_of(UiScreen::Main, in_game) == UiScreen::Main,
        screen != UiScreen::Hidden && screen != UiScreen::Pause && screen != UiScreen::Main
            ==> escape_of(screen, in_game) == back_of(screen, in_game),
{
}

/// Escape does one thing at a time: what is listened for, typed or was just closed comes first and
/// is left alone here; then a result is dismissed; and only then the screen changes. Leaving the
/// queue screen leaves the queue.
pub proof fn law_what_escape_does(m: MenuView, box_changed: bool, in_game: bool, api: Seq<char>)
    ensures
        ({
            let t = m.escaped(box_changed, in_game, api);
            let busy = m.listening is Some || m.editing is Some || box_changed;
            let popup = m.screen == UiScreen::Main && m.account.result is Some;
            &&& busy ==> t == m
            &&& !busy && popup ==> t.account.result is None && t.screen == m.screen && t.effects
                == m.effects && t.refresh
            &&& !busy && !popup ==> t.screen == escape_of(m.screen, in_game)
            &&& !busy && m.screen == UiScreen::Queue ==> t.account.queue is None && t.screen
                == UiScreen::Main
            &&& m.screen != UiScreen::Queue ==> t.effects == m.effects && t.account.queue
                == m.account.queue
            &&& !busy && !popup && t.screen != m.screen ==> t.account.error is None
            &&& t.settings == m.settings && t.typed == m.typed && t.form == m.form
        }),
{
    reveal(MenuView::out_of_queue);
}

/// The value box takes digits and points, six at most, gives up its last character to backspace,
/// is read on Enter, and is closed unread on Escape: until it is read no setting changes.
pub proof fn law_what_the_value_box_takes(m: MenuView, key: TypedKey, alt: bool, rules: &FruitRules)
    requires
        m.editing is Some,
    ensures
        ({
            let t = m.boxed_key(key, alt, rules);
            let (slider, buf) = m.editing->0;
            &&& key matches TypedKey::Character(c) ==> {
                let fits = encode_utf8(buf).len() < 6 && (forall|i: int|
                    0 <= i < c@.len() ==> ('0' <= #[trigger] c@[i] && c@[i] <= '9') || c@[i] == '.');
                &&& fits ==> t == (MenuView { editing: Some((slider, buf + c@)), ..m })
                &&& !fits ==> t == m
            }
            &&& key is Backspace && buf.len() > 0 ==> t == (MenuView {
                editing: Some((slider, buf.drop_last())),
                ..m
            })
            &&& key is Backspace && buf.len() == 0 ==> t == m
            &&& key is Escape ==> t == (MenuView { editing: None, ..m })
            &&& key is Enter && !alt ==> t == m.committed(rules) && t.editing is None
            &&& key is Space || key is Tab || key is Other ==> t == m
            &&& !(key is Enter) ==> t.settings == m.settings && t.effects == m.effects
        }),
{
    reveal(MenuView::committed);
    if let TypedKey::Character(c) = key {
        if numeric(c@) {
            assert forall|i: int| 0 <= i < c@.len() implies ('0' <= #[trigger] c@[i] && c@[i]
                <= '9') || c@[i] == '.' by {}
        } else {
            let i = choose|i: int|
                0 <= i < c@.len() && !(is_digit(#[trigger] c@[i]) || c@[i] == '.');
            assert(!(('0' <= c@[i] && c@[i] <= '9') || c@[i] == '.'));
        }
    }
}

/// A slider lands in its range wherever it is dragged, and further along never lands lower.
pub proof fn law_where_a_slider_lands(slider: Slider, near: nat, far: nat, rules: &FruitRules)
    requires
        rules.wf(),
        near <= far,
    ensures
        slider.places() != -1 ==> slider.bounds(rules).0 <= landed(slider, near, rules)
            <= slider.bounds(rules).1,
        landed(slider, near, rules) <= landed(slider, far, rules),
        slider.places() == -1 ==> landed(slider, near, rules) % 10 == 0,
{
    let p: nat = if slider.places() == -1 {
        7
    } else {
        6
    };
    lemma_pow10_small();
    let d = crate::text::pow10(p);
    assert(d == 10_000_000 || d == 1_000_000);
    assert(shifted_round(near, -(p as int)) == (near + d / 2) / d);
    assert(shifted_round(far, -(p as int)) == (far + d / 2) / d);
    vstd::arithmetic::div_mod::lemma_div_is_ordered(
        (near + d / 2) as int,
        (far + d / 2) as int,
        d as int,
    );
}

proof fn lemma_pow10_small()
    ensures
        crate::text::pow10(6) == 1_000_000,
        crate::text::pow10(7) == 10_000_000,
{
    reveal_with_fuel(crate::text::pow10, 8);
}

/// Dragging moves the one slider that is held and saves nothing; letting go of it saves, and only
/// that does.
pub proof fn law_how_a_drag_goes(
    m: MenuView,
    active: Option<Slider>,
    mouse: DragInput,
    rules: &FruitRules,
)
    requires
        m.editing is None,
    ensures
        ({
            let (t, held) = m.mouse_drag(active, mouse, rules);
            let at = if mouse.just_pressed {
                mouse.over
            } else {
                active
            };
            &&& mouse.down ==> held == at && t.effects == m.effects
            &&& !mouse.down ==> held is None && t.settings == m.settings
            &&& !mouse.down && at is Some ==> t.effects == m.effects.push(
                EffectView::SaveSettings,
            )
            &&& !mouse.down && at is None ==> t == m
            &&& at is None ==> t.settings == m.settings && t.effects == m.effects
            &&& mouse.along is None ==> t.settings == m.settings
            &&& t.screen == m.screen && t.account == m.account && t.form == m.form
        }),
{
    reveal(MenuView::committed);
}

/// The binding that was asked for: none on Escape, else the last key, else the first mouse button.
pub proof fn law_which_binding_is_chosen(keys: Seq<Seq<char>>, mouse: Seq<MouseButton>)
    ensures
        keys.contains("Escape"@) ==> chosen_binding(keys, mouse) is None,
        !keys.contains("Escape"@) && keys.len() > 0 ==> chosen_binding(keys, mouse) == Some(
            BindingView::Key(keys.last()),
        ),
        keys.len() == 0 && mouse.len() > 0 ==> chosen_binding(keys, mouse) == Some(
            BindingView::Mouse(mouse[0]),
        ),
        keys.len() == 0 && mouse.len() == 0 ==> chosen_binding(keys, mouse) is None,
{
    if keys.len() > 0 && keys.last() == "Escape"@ {
        assert(keys[keys.len() - 1] == "Escape"@);
        assert(keys.contains("Escape"@));
    }
}

/// Listening ends with a binding, which is saved, or with Escape, which keeps the old one; until
/// then nothing happens.
pub proof fn law_how_listening_ends(m: MenuView, keys: Seq<Seq<char>>, mouse: Seq<MouseButton>)
    ensures
        ({
            let t = m.bound(keys, mouse);
            &&& m.listening is None ==> t == m
            &&& m.listening is Some && keys.contains("Escape"@) ==> t.listening is None
                && t.settings == m.settings && t.effects == m.effects
            &&& m.listening is Some && keys.len() == 0 && mouse.len() == 0 ==> t == m
            &&& m.listening is Some && !keys.contains("Escape"@) && (keys.len() > 0 || mouse.len()
                > 0) ==> t.listening is None && t.effects == m.effects.push(
                EffectView::SaveSettings,
            ) && t.refresh
            &&& t.screen == m.screen && t.account == m.account
        }),
{
    law_which_binding_is_chosen(keys, mouse);
    if !keys.contains("Escape"@) && keys.len() > 0 {
        assert(keys[keys.len() - 1] == keys.last());
    }
}

/// What is typed into the code box: letters behind what is there while there is room, backspace
/// takes the last one, Enter joins with a whole code and does nothing with part of one.
pub proof fn law_what_the_code_box_takes(m: MenuView, key: TypedKey, modifier: bool, alt: bool)
    ensures
        ({
            let t = m.coded_key(key, modifier, alt);
            &&& key matches TypedKey::Character(c) ==> {
                &&& modifier ==> t == m
                &&& m.typed.is_prefix_of(t.typed)
                &&& encode_utf8(m.typed).len() >= 6 ==> t == m
                &&& !modifier && encode_utf8(m.typed).len() + room_code(c@).len() <= 6 ==> t.typed
                    == m.typed + room_code(c@)
                &&& t.effects == m.effects
            }
            &&& key is Backspace && m.typed.len() > 0 ==> t == (MenuView {
                typed: m.typed.drop_last(),
                ..m
            })
            &&& key is Enter && !alt && encode_utf8(m.typed).len() == 6 ==> t == (MenuView {
                effects: m.effects.push(EffectView::Net(CommandView::JoinRoom(m.typed))),
                ..m
            })
            &&& key is Enter && (alt || encode_utf8(m.typed).len() != 6) ==> t == m
            &&& t.screen == m.screen && t.settings == m.settings && t.account == m.account
        }),
{
    if let TypedKey::Character(c) = key {
        let add = room_code(c@);
        assert(m.typed + add.take(add.len() as int) =~= m.typed + add);
        if encode_utf8(m.typed).len() + add.len() == 6 && add.len() == 0 {
            assert(m.typed + add =~= m.typed);
        }
    }
}

/// A run that was started with a room joins it; one that was started for quick play queues, unless
/// it names a room; either way the invitation is used up. Practice starts besides.
pub proof fn law_how_a_run_begins(m: MenuView, cfg: ConfigView, now: u64)
    requires
        !cfg.auto_practice,
    ensures
        ({
            let t = m.launched(cfg, now);
            let room = cfg.initial_room matches Some(c) && encode_utf8(c).len() == 6;
            &&& room ==> t.effects == m.effects.push(
                EffectView::Net(CommandView::JoinRoom(cfg.initial_room->0)),
            ).push(EffectView::ForgetJoin) && t.screen == m.screen
            &&& !room && cfg.initial_quick ==> t.effects == m.effects.push(
                EffectView::JoinQuick,
            ).push(EffectView::ForgetJoin) && t.screen == UiScreen::Queue && t.account.queue
                is Some && t.account.queue->0.kind == crate::account::QueueKind::Quick
                && t.account.queue->0.since == now
            &&& !room && !cfg.initial_quick ==> t == m
            &&& m.launched(ConfigView { auto_practice: true, ..cfg }, now).effects
                == t.effects.push(EffectView::Net(CommandView::Practice))
        }),
{
}

/// A form opens with its first field in focus; no other screen has the keyboard.
pub proof fn law_which_field_comes_first()
    ensures
        first_field(UiScreen::Login) == Some(Field::Login),
        first_field(UiScreen::Register) == Some(Field::Email),
        first_field(UiScreen::Forgot) == Some(Field::Email),
        first_field(UiScreen::Verify) == Some(Field::Code),
        first_field(UiScreen::Reset) == Some(Field::Code),
        first_field(UiScreen::ChangeUsername) == Some(Field::NewUsername),
        first_field(UiScreen::ChangePassword) == Some(Field::CurrentPassword),
        first_field(UiScreen::Main) is None,
        first_field(UiScreen::Profile) is None,
        first_field(UiScreen::Queue) is None,
        first_field(UiScreen::Pause) is None,
        first_field(UiScreen::Hidden) is None,
{
}

/// A new screen starts with no value box open and its first field in focus; the title shows the
/// anonymous name; a screen that is only redrawn keeps what is typed.
pub proof fn law_how_a_screen_is_built(m: MenuView)
    ensures
        ({
            let t = m.built(true, false);
            let redrawn = (MenuView { refresh: true, ..m }).built(false, false);
            &&& t.editing is None && !t.refresh
            &&& t.form.focus == first_field(m.screen)
            &&& m.screen == UiScreen::Main ==> t.form.value(Field::AnonName) == m.account.anon_name
            &&& t.form.value(Field::Email) == m.form.value(Field::Email)
            &&& t.screen == m.screen && t.account == m.account && t.settings == m.settings
                && t.effects == m.effects
            &&& redrawn.form == m.form && redrawn.editing == m.editing && !redrawn.refresh
            &&& m.built(true, true).form == m.form
            &&& !m.refresh ==> m.built(false, false) == m
        }),
{
}

/// Enter in a form presses its button, once; without a form it only lets go of the keyboard; and
/// without Enter nothing happens.
pub proof fn law_what_enter_does(m: MenuView, api: Seq<char>, rules: &FruitRules, env: &MenuEnv)
    ensures
        !m.form.submitted ==> m.entered(api, rules, env) == m,
        m.form.submitted && m.screen.main_button() is None ==> m.entered(api, rules, env).effects
            == m.effects && m.entered(api, rules, env).form.focus is None && !m.entered(
            api,
            rules,
            env,
        ).form.submitted,
        m.form.submitted && m.screen.main_button() is Some ==> m.entered(api, rules, env)
            == m.with_form(FormView { submitted: false, ..m.form }).performed(
            m.screen.main_button()->0,
            api,
            rules,
            env,
        ),
{
}

/// A dragged slider follows the mouse once it is a four-hundredth of its range away, and sets only
/// itself.
pub proof fn law_a_slider_follows_the_mouse(
    m: MenuView,
    slider: Slider,
    along: u32,
    rules: &FruitRules,
)
    requires
        along <= 1_000_000,
    ensures
        ({
            let (lo, hi) = slider.bounds(rules);
            let at = 1_000_000 * lo + along * (hi - lo);
            let away = at - 1_000_000 * m.settings.value(slider);
            let t = m.dragged(slider, along, rules);
            &&& away >= 2500 * (hi - lo) || -away >= 2500 * (hi - lo) ==> t.settings
                == m.settings.with_value(slider, landed(slider, at as nat, rules))
            &&& -(2500 * (hi - lo)) < away < 2500 * (hi - lo) ==> t == m
            &&& t.effects == m.effects && t.screen == m.screen && t.account == m.account
        }),
{
}

/// The code box has the keyboard on the title alone, and only while nothing else does.
pub proof fn law_when_the_code_box_listens(m: MenuView)
    ensures
        m.takes_code() <==> m.screen == UiScreen::Main && m.editing is None && m.form.focus is None,
        errored(None) == false,
        !errored(Some(RoomFailure::Checking)),
        errored(Some(RoomFailure::Full)) && errored(Some(RoomFailure::Timeout)) && errored(
            Some(RoomFailure::Unreachable),
        ),
{
}

} // verus!
