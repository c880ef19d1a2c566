//! User settings: mouse sensitivity, key bindings, sound, network and Fruit Ninja options, the
//! sliders that edit them, and the ini file they are kept in. Sensitivities are counted in
//! hundredths, the volume in percent, so every value is exact.

use vstd::prelude::*;
use vstd::string::*;

use crate::numeral::{clamped, finite_text, lemma_finite_hundredths, lemma_finite_whole,
    lemma_settled_hundredths, lemma_settled_range, lemma_settled_whole, lemma_shifted_round_tens, lemma_unsigned_decimal,
    parse_unsigned, read_finite, settle_text, settled_text, show_hundredths, two_decimals,
    unsigned_of, Number};
use crate::text::{ascii_lower, cat, cat3, chars, decimal, eq, eq_ignore_ascii_case, is_digit,
    lemma_decimal, lemma_decimal_len, lemma_pieces_cons, lemma_position_after,
    lemma_trim_leading_space, lemma_trim_trailing_space, lemma_zero_padded, opt, owned, pieces,
    position, same_ignoring_case, show, split, split_once, stands_at, starts, strings, strip_prefix,
    trim, trim_end_char, trim_end_either, trim_end_text, trimmed, white_space, without_trailing,
    without_trailing_either, without_trailing_text, zero_padded};

verus! {

/// TF2 `m_yaw` / `m_pitch`: thousandths of a degree per mouse count at sensitivity 1.
pub const MILLIDEGREES_PER_COUNT: u32 = 22;

/// Least and greatest sensitivity, in hundredths.
pub const SENS_MIN: u32 = 10;

pub const SENS_MAX: u32 = 1000;

/// Frames of input delay a player may pick by hand (0 = the tick you press it on).
pub const INPUT_DELAY_MAX: u8 = 8;

/// Input delay adaptive mode starts from (and the manual default), in frames.
pub const INPUT_DELAY_DEFAULT: u8 = 2;

/// Master volume of a fresh install, in percent.
pub const VOLUME_DEFAULT: u32 = 75;

/// Game actions that can be bound.
#[derive(Clone, Copy, Debug, PartialEq, Eq, Structural)]
pub enum Action {
    Forward,
    Back,
    Left,
    Right,
    Jump,
    Crouch,
    Fire,
}

impl Action {
    pub open spec fn label_text(self) -> Seq<char> {
        match self {
            Action::Forward => "Move forward"@,
            Action::Back => "Move back"@,
            Action::Left => "Strafe left"@,
            Action::Right => "Strafe right"@,
            Action::Jump => "Jump"@,
            Action::Crouch => "Crouch"@,
            Action::Fire => "Fire"@,
        }
    }

    pub fn label(self) -> (r: &'static str)
        ensures
            r@ == self.label_text(),
    {
        match self {
            Action::Forward => "Move forward",
            Action::Back => "Move back",
            Action::Left => "Strafe left",
            Action::Right => "Strafe right",
            Action::Jump => "Jump",
            Action::Crouch => "Crouch",
            Action::Fire => "Fire",
        }
    }

    /// Every action, in the order of the settings file and the settings screen.
    pub open spec fn all() -> Seq<Action> {
        seq![
            Action::Forward,
            Action::Back,
            Action::Left,
            Action::Right,
            Action::Jump,
            Action::Crouch,
            Action::Fire,
        ]
    }

    /// Every action, in the order of the settings file and the settings screen.
    pub fn list() -> (r: Vec<Action>)
        ensures
            r@ == Action::all(),
    {
        let r = vec![
            Action::Forward,
            Action::Back,
            Action::Left,
            Action::Right,
            Action::Jump,
            Action::Crouch,
            Action::Fire,
        ];
        proof {
            assert(r@ =~= Action::all());
        }
        r
    }
}

// ---- keys and buttons ----

#[derive(Clone, Copy, Debug, PartialEq, Eq, Structural)]
pub enum MouseButton {
    Left,
    Right,
    Middle,
    Back,
    Forward,
    Other(u16),
}

/// The name that a key's code has, for a text in the ini file: `KeyCode`'s serde form is its Debug
/// name as a JSON string.
pub uninterp spec fn key_named(text: Seq<char>) -> Option<Seq<char>>;

/// Whether a text is a run of ASCII letters and digits, as the names of keys are.
pub open spec fn key_like(name: Seq<char>) -> bool {
    &&& name.len() > 0
    &&& forall|i: int|
        0 <= i < name.len() ==> ('a' <= #[trigger] name[i] <= 'z' || 'A' <= name[i] <= 'Z' || '0'
            <= name[i] <= '9')
}

/// `serde_json::from_str` at `bevy_input`'s `KeyCode`, on the text in quotes, and the Debug name of
/// the key that comes out. A key that comes out is one of the named ones: its name is made of ASCII
/// letters and digits and reads back as itself.
#[verifier::external_body]
fn key_from_name(text: &str) -> (r: Option<String>)
    ensures
        opt(r) == key_named(text@),
        r matches Some(name) ==> key_like(name@) && key_named(name@) == Some(name@),
{
    let quoted = format!("\"{text}\"");
    let key = serde_json::from_str::<bevy_input::keyboard::KeyCode>(&quoted).ok()?;
    Some(format!("{key:?}"))
}

/// A physical key, by the name of its code, or a mouse button.
#[derive(Debug, PartialEq)]
pub enum Binding {
    Key(String),
    Mouse(MouseButton),
}

#[verifier::ext_equal]
pub enum BindingView {
    Key(Seq<char>),
    Mouse(MouseButton),
}

impl View for Binding {
    type V = BindingView;

    open spec fn view(&self) -> BindingView {
        match self {
            Binding::Key(k) => BindingView::Key(k@),
            Binding::Mouse(b) => BindingView::Mouse(*b),
        }
    }
}

/// The keys and buttons that are down.
pub struct Held {
    pub keys: Vec<String>,
    pub mouse: Vec<MouseButton>,
}

impl Held {
    pub open spec fn has_key(&self, name: Seq<char>) -> bool {
        strings(self.keys@).contains(name)
    }

    /// Whether the key of that name is down.
    pub fn key(&self, name: &str) -> (r: bool)
        ensures
            r == self.has_key(name@),
    {
        let mut i: usize = 0;
        let ghost all = strings(self.keys@);
        while i < self.keys.len()
            invariant
                i <= self.keys.len(),
                all == strings(self.keys@),
                forall|j: int| 0 <= j < i ==> all[j] != name@,
            decreases self.keys.len() - i,
        {
            proof {
                assert(all[i as int] == self.keys@[i as int]@);
            }
            if eq(self.keys[i].as_str(), name) {
                return true;
            }
            i = i + 1;
        }
        false
    }

    /// Whether that mouse button is down.
    pub fn button(&self, b: MouseButton) -> (r: bool)
        ensures
            r == self.mouse@.contains(b),
    {
        let mut i: usize = 0;
        while i < self.mouse.len()
            invariant
                i <= self.mouse.len(),
                forall|j: int| 0 <= j < i ==> self.mouse@[j] != b,
            decreases self.mouse.len() - i,
        {
            if self.mouse[i] == b {
                return true;
            }
            i = i + 1;
        }
        false
    }
}

/// True while either Alt key is held. Enter handlers check it so that Alt+Enter (the desktop
/// fullscreen toggle) does not also submit whatever form has the keyboard.
pub fn alt_held(held: &Held) -> (r: bool)
    ensures
        r == (held.has_key("AltLeft"@) || held.has_key("AltRight"@)),
{
    held.key("AltLeft") || held.key("AltRight")
}

/// The short name of a key: without `Key` or `Digit` in front, and with the long names cut down.
pub open spec fn key_label(name: Seq<char>) -> Seq<char> {
    let s = if starts(name, "Key"@) {
        name.skip("Key"@.len() as int)
    } else if starts(name, "Digit"@) {
        name.skip("Digit"@.len() as int)
    } else {
        name
    };
    if s == "ControlLeft"@ {
        "L Ctrl"@
    } else if s == "ControlRight"@ {
        "R Ctrl"@
    } else if s == "ShiftLeft"@ {
        "L Shift"@
    } else if s == "ShiftRight"@ {
        "R Shift"@
    } else if s == "AltLeft"@ {
        "L Alt"@
    } else if s == "AltRight"@ {
        "R Alt"@
    } else if s == "ArrowUp"@ {
        "Up"@
    } else if s == "ArrowDown"@ {
        "Down"@
    } else if s == "ArrowLeft"@ {
        "Left"@
    } else if s == "ArrowRight"@ {
        "Right"@
    } else {
        s
    }
}

impl BindingView {
    /// Short human-readable name.
    pub open spec fn label(self) -> Seq<char> {
        match self {
            BindingView::Key(name) => key_label(name),
            BindingView::Mouse(b) => match b {
                MouseButton::Left => "Mouse 1"@,
                MouseButton::Right => "Mouse 2"@,
                MouseButton::Middle => "Mouse 3"@,
                MouseButton::Back => "Mouse 4"@,
                MouseButton::Forward => "Mouse 5"@,
                MouseButton::Other(n) => "Mouse "@ + decimal((n + 1) as nat),
            },
        }
    }

    /// `key:KeyW` / `mouse:left` / `mouse:other:7` in the ini file.
    pub open spec fn ini(self) -> Seq<char> {
        match self {
            BindingView::Key(name) => "key:"@ + name,
            BindingView::Mouse(b) => match b {
                MouseButton::Left => "mouse:left"@,
                MouseButton::Right => "mouse:right"@,
                MouseButton::Middle => "mouse:middle"@,
                MouseButton::Back => "mouse:back"@,
                MouseButton::Forward => "mouse:forward"@,
                MouseButton::Other(n) => "mouse:other:"@ + decimal(n as nat),
            },
        }
    }

    /// Whether the ini file can hold it: a key has to be one whose name reads back.
    pub open spec fn readable(self) -> bool {
        match self {
            BindingView::Key(name) => key_like(name) && key_named(name) == Some(name),
            BindingView::Mouse(_) => true,
        }
    }
}

/// The mouse button that a text names.
pub open spec fn mouse_of(m: Seq<char>) -> Option<MouseButton> {
    if m == "left"@ {
        Some(MouseButton::Left)
    } else if m == "right"@ {
        Some(MouseButton::Right)
    } else if m == "middle"@ {
        Some(MouseButton::Middle)
    } else if m == "back"@ {
        Some(MouseButton::Back)
    } else if m == "forward"@ {
        Some(MouseButton::Forward)
    } else if starts(m, "other:"@) {
        match unsigned_of(m.skip("other:"@.len() as int), u16::MAX as nat) {
            Some(n) => Some(MouseButton::Other(n as u16)),
            None => None,
        }
    } else {
        None
    }
}

/// The binding that a text in the ini file gives.
pub open spec fn binding_of(s: Seq<char>) -> Option<BindingView> {
    if starts(s, "key:"@) {
        match key_named(s.skip("key:"@.len() as int)) {
            Some(name) => Some(BindingView::Key(name)),
            None => None,
        }
    } else if starts(s, "mouse:"@) {
        match mouse_of(s.skip("mouse:"@.len() as int)) {
            Some(b) => Some(BindingView::Mouse(b)),
            None => None,
        }
    } else {
        None
    }
}

impl Binding {
    /// A copy of the binding.
    pub fn copy(&self) -> (r: Binding)
        ensures
            r@ == self@,
    {
        match self {
            Binding::Key(k) => Binding::Key(k.clone()),
            Binding::Mouse(b) => Binding::Mouse(*b),
        }
    }

    pub fn pressed(&self, held: &Held) -> (r: bool)
        ensures
            r == match self@ {
                BindingView::Key(name) => held.has_key(name),
                BindingView::Mouse(b) => held.mouse@.contains(b),
            },
    {
        match self {
            Binding::Key(k) => held.key(k.as_str()),
            Binding::Mouse(b) => held.button(*b),
        }
    }

    /// Short human-readable name.
    pub fn label(&self) -> (r: String)
        ensures
            r@ == self@.label(),
    {
        match self {
            Binding::Key(name) => {
                let s = match strip_prefix(name.as_str(), "Key") {
                    Some(rest) => rest,
                    None => match strip_prefix(name.as_str(), "Digit") {
                        Some(rest) => rest,
                        None => owned(name.as_str()),
                    },
                };
                let k = s.as_str();
                if eq(k, "ControlLeft") {
                    owned("L Ctrl")
                } else if eq(k, "ControlRight") {
                    owned("R Ctrl")
                } else if eq(k, "ShiftLeft") {
                    owned("L Shift")
                } else if eq(k, "ShiftRight") {
                    owned("R Shift")
                } else if eq(k, "AltLeft") {
                    owned("L Alt")
                } else if eq(k, "AltRight") {
                    owned("R Alt")
                } else if eq(k, "ArrowUp") {
                    owned("Up")
                } else if eq(k, "ArrowDown") {
                    owned("Down")
                } else if eq(k, "ArrowLeft") {
                    owned("Left")
                } else if eq(k, "ArrowRight") {
                    owned("Right")
                } else {
                    s
                }
            },
            Binding::Mouse(b) => match b {
                MouseButton::Left => owned("Mouse 1"),
                MouseButton::Right => owned("Mouse 2"),
                MouseButton::Middle => owned("Mouse 3"),
                MouseButton::Back => owned("Mouse 4"),
                MouseButton::Forward => owned("Mouse 5"),
                MouseButton::Other(n) => {
                    let d = show(*n as u64 + 1);
                    cat("Mouse ", d.as_str())
                },
            },
        }
    }

    /// The binding as it stands in the ini file.
    pub fn to_ini(&self) -> (r: String)
        ensures
            r@ == self@.ini(),
    {
        match self {
            Binding::Key(name) => cat("key:", name.as_str()),
            Binding::Mouse(b) => match b {
                MouseButton::Left => owned("mouse:left"),
                MouseButton::Right => owned("mouse:right"),
                MouseButton::Middle => owned("mouse:middle"),
                MouseButton::Back => owned("mouse:back"),
                MouseButton::Forward => owned("mouse:forward"),
                MouseButton::Other(n) => {
                    let d = show(*n as u64);
                    cat("mouse:other:", d.as_str())
                },
            },
        }
    }

    /// Reads a binding of the ini file.
    pub fn from_ini(s: &str) -> (r: Option<Binding>)
        ensures
            match r {
                Some(b) => binding_of(s@) == Some(b@) && b@.readable(),
                None => binding_of(s@) is None,
            },
    {
        if let Some(k) = strip_prefix(s, "key:") {
            return match key_from_name(k.as_str()) {
                Some(name) => Some(Binding::Key(name)),
                None => None,
            };
        }
        match strip_prefix(s, "mouse:") {
            Some(m) => Self::mouse_from_ini(m.as_str()),
            None => None,
        }
    }

    fn mouse_from_ini(m: &str) -> (r: Option<Binding>)
        ensures
            match r {
                Some(b) => b is Mouse && mouse_of(m@) == Some(b->Mouse_0),
                None => mouse_of(m@) is None,
            },
    {
        if eq(m, "left") {
            Some(Binding::Mouse(MouseButton::Left))
        } else if eq(m, "right") {
            Some(Binding::Mouse(MouseButton::Right))
        } else if eq(m, "middle") {
            Some(Binding::Mouse(MouseButton::Middle))
        } else if eq(m, "back") {
            Some(Binding::Mouse(MouseButton::Back))
        } else if eq(m, "forward") {
            Some(Binding::Mouse(MouseButton::Forward))
        } else {
            match strip_prefix(m, "other:") {
                Some(n) => match parse_unsigned(n.as_str(), u16::MAX as u64) {
                    Some(n) => Some(Binding::Mouse(MouseButton::Other(n as u16))),
                    None => None,
                },
                None => None,
            }
        }
    }
}

/// What each action is bound to.
#[derive(Debug, PartialEq)]
pub struct Bindings {
    pub forward: Binding,
    pub back: Binding,
    pub left: Binding,
    pub right: Binding,
    pub jump: Binding,
    pub crouch: Binding,
    pub fire: Binding,
}

#[verifier::ext_equal]
pub struct BindingsView {
    pub forward: BindingView,
    pub back: BindingView,
    pub left: BindingView,
    pub right: BindingView,
    pub jump: BindingView,
    pub crouch: BindingView,
    pub fire: BindingView,
}

impl View for Bindings {
    type V = BindingsView;

    open spec fn view(&self) -> BindingsView {
        BindingsView {
            forward: self.forward@,
            back: self.back@,
            left: self.left@,
            right: self.right@,
            jump: self.jump@,
            crouch: self.crouch@,
            fire: self.fire@,
        }
    }
}

impl BindingsView {
    pub open spec fn of(self, a: Action) -> BindingView {
        match a {
            Action::Forward => self.forward,
            Action::Back => self.back,
            Action::Left => self.left,
            Action::Right => self.right,
            Action::Jump => self.jump,
            Action::Crouch => self.crouch,
            Action::Fire => self.fire,
        }
    }

    pub open spec fn with(self, a: Action, b: BindingView) -> BindingsView {
        match a {
            Action::Forward => BindingsView { forward: b, ..self },
            Action::Back => BindingsView { back: b, ..self },
            Action::Left => BindingsView { left: b, ..self },
            Action::Right => BindingsView { right: b, ..self },
            Action::Jump => BindingsView { jump: b, ..self },
            Action::Crouch => BindingsView { crouch: b, ..self },
            Action::Fire => BindingsView { fire: b, ..self },
        }
    }

    /// The bindings of a fresh install. Crouch is Ctrl on desktop. In a browser Ctrl+W (crouch
    /// while running forward) closes the tab and a page cannot cancel it, so the web build starts
    /// on Shift; Ctrl stays bindable.
    pub open spec fn initial(web: bool) -> BindingsView {
        BindingsView {
            forward: BindingView::Key("KeyW"@),
            back: BindingView::Key("KeyS"@),
            left: BindingView::Key("KeyA"@),
            right: BindingView::Key("KeyD"@),
            jump: BindingView::Key("Space"@),
            crouch: BindingView::Key(
                if web {
                    "ShiftLeft"@
                } else {
                    "ControlLeft"@
                },
            ),
            fire: BindingView::Mouse(MouseButton::Left),
        }
    }
}

impl Bindings {
    /// The bindings of a fresh install.
    pub fn new(web: bool) -> (r: Bindings)
        ensures
            r@ == BindingsView::initial(web),
    {
        Bindings {
            forward: Binding::Key(owned("KeyW")),
            back: Binding::Key(owned("KeyS")),
            left: Binding::Key(owned("KeyA")),
            right: Binding::Key(owned("KeyD")),
            jump: Binding::Key(owned("Space")),
            crouch: Binding::Key(
                owned(
                    if web {
                        "ShiftLeft"
                    } else {
                        "ControlLeft"
                    },
                ),
            ),
            fire: Binding::Mouse(MouseButton::Left),
        }
    }

    pub fn get(&self, a: Action) -> (r: &Binding)
        ensures
            r@ == self@.of(a),
    {
        match a {
            Action::Forward => &self.forward,
            Action::Back => &self.back,
            Action::Left => &self.left,
            Action::Right => &self.right,
            Action::Jump => &self.jump,
            Action::Crouch => &self.crouch,
            Action::Fire => &self.fire,
        }
    }

    pub fn set(&mut self, a: Action, b: Binding)
        ensures
            final(self)@ == old(self)@.with(a, b@),
    {
        match a {
            Action::Forward => {
                self.forward = b;
            },
            Action::Back => {
                self.back = b;
            },
            Action::Left => {
                self.left = b;
            },
            Action::Right => {
                self.right = b;
            },
            Action::Jump => {
                self.jump = b;
            },
            Action::Crouch => {
                self.crouch = b;
            },
            Action::Fire => {
                self.fire = b;
            },
        }
    }

    pub fn pressed(&self, a: Action, held: &Held) -> (r: bool)
        ensures
            r == match self@.of(a) {
                BindingView::Key(name) => held.has_key(name),
                BindingView::Mouse(b) => held.mouse@.contains(b),
            },
    {
        self.get(a).pressed(held)
    }
}

/// A rebound action reads back as the new binding, and no other action changes.
pub proof fn law_rebinding_touches_one_action(b: BindingsView, a: Action, new: BindingView)
    ensures
        b.with(a, new).of(a) == new,
        forall|o: Action| o != a ==> #[trigger] b.with(a, new).of(o) == b.of(o),
{
}

// ---- what the simulation allows ----

/// The Fruit Ninja rules of the simulation: what its options may be, and what they start as.
pub struct FruitRules {
    /// Names of the difficulty presets in the ini file.
    pub difficulties: Vec<String>,
    pub soldiers_min: u8,
    pub soldiers_max: u8,
    pub speed_min: u32,
    pub speed_max: u32,
    pub distance_min: u32,
    pub distance_max: u32,
    pub difficulty: usize,
    pub soldiers: u8,
    pub speed: u32,
    pub distance: u32,
}

/// `n` in tens, rounded, halves up.
pub open spec fn tens(n: nat) -> nat {
    (n + 5) / 10
}

impl FruitRules {
    pub open spec fn names(&self) -> Seq<Seq<char>> {
        strings(self.difficulties@)
    }

    pub open spec fn wf(&self) -> bool {
        &&& self.difficulty < self.difficulties@.len()
        &&& self.soldiers_min <= self.soldiers <= self.soldiers_max
        &&& self.speed_min <= self.speed_max <= 1_000_000
        &&& self.distance_min <= self.distance_max <= 1_000_000
        &&& self.speed % 10 == 0
        &&& self.distance % 10 == 0
        &&& 10 * tens(self.speed_min as nat) <= self.speed <= 10 * tens(self.speed_max as nat)
        &&& 10 * tens(self.distance_min as nat) <= self.distance <= 10 * tens(
            self.distance_max as nat,
        )
        // The names stand on a line of their own and are told apart.
        &&& forall|i: int| 0 <= i < self.names().len() ==> one_line(#[trigger] self.names()[i])
        &&& forall|i: int, j: int|
            0 <= i < j < self.names().len() ==> #[trigger] self.names()[i]
                != #[trigger] self.names()[j]
    }

    /// Whether the rules make sense.
    pub fn valid(&self) -> (r: bool)
        ensures
            r == self.wf(),
    {
        let ghost all = self.names();
        let mut i: usize = 0;
        while i < self.difficulties.len()
            invariant
                i <= self.difficulties@.len(),
                all == self.names(),
                forall|a: int| 0 <= a < i ==> one_line(#[trigger] all[a]),
                forall|a: int, b: int|
                    0 <= a < b < i ==> #[trigger] all[a] != #[trigger] all[b],
            decreases self.difficulties.len() - i,
        {
            assert(all[i as int] == self.difficulties@[i as int]@);
            if !is_one_line(self.difficulties[i].as_str()) {
                return false;
            }
            let mut j: usize = 0;
            while j < i
                invariant
                    j <= i < self.difficulties@.len(),
                    all == self.names(),
                    all[i as int] == self.difficulties@[i as int]@,
                    forall|a: int| 0 <= a < j ==> #[trigger] all[a] != all[i as int],
                decreases i - j,
            {
                assert(all[j as int] == self.difficulties@[j as int]@);
                if eq(self.difficulties[j].as_str(), self.difficulties[i].as_str()) {
                    return false;
                }
                j = j + 1;
            }
            i = i + 1;
        }
        self.difficulty < self.difficulties.len() && self.soldiers_min <= self.soldiers
            && self.soldiers <= self.soldiers_max && self.speed_min <= self.speed_max
            && self.speed_max <= 1_000_000 && self.distance_min <= self.distance_max
            && self.distance_max <= 1_000_000 && self.speed % 10 == 0 && self.distance % 10 == 0
            && 10 * ((self.speed_min + 5) / 10) <= self.speed && self.speed <= 10 * ((
        self.speed_max + 5) / 10) && 10 * ((self.distance_min + 5) / 10) <= self.distance
            && self.distance <= 10 * ((self.distance_max + 5) / 10)
    }
}

/// Whether a text is a word on a line: not empty, no white space at its ends, no line end.
pub open spec fn one_line(n: Seq<char>) -> bool {
    &&& n.len() > 0
    &&& !white_space(n[0])
    &&& !white_space(n.last())
    &&& forall|j: int| 0 <= j < n.len() ==> n[j] != '\n'
}

fn is_one_line(s: &str) -> (r: bool)
    ensures
        r == one_line(s@),
{
    let v = chars(s);
    if v.len() == 0 || v[0].is_whitespace() || v[v.len() - 1].is_whitespace() {
        return false;
    }
    let mut i: usize = 0;
    while i < v.len()
        invariant
            i <= v@.len(),
            v@ == s@,
            forall|j: int| 0 <= j < i ==> v@[j] != '\n',
        decreases v.len() - i,
    {
        if v[i] == '\n' {
            return false;
        }
        i = i + 1;
    }
    true
}

/// The first index of a text in a list.
pub open spec fn index_of(names: Seq<Seq<char>>, s: Seq<char>) -> Option<int>
    decreases names.len(),
{
    if names.len() == 0 {
        None
    } else {
        match index_of(names.drop_last(), s) {
            Some(i) => Some(i),
            None => if names.last() == s {
                Some(names.len() - 1)
            } else {
                None
            },
        }
    }
}

pub proof fn lemma_index_of(names: Seq<Seq<char>>, i: int)
    requires
        0 <= i < names.len(),
        forall|a: int, b: int| 0 <= a < b < names.len() ==> #[trigger] names[a] != #[trigger] names[b],
    ensures
        index_of(names, names[i]) == Some(i),
    decreases names.len(),
{
    let d = names.drop_last();
    if i < names.len() - 1 {
        assert(d[i] == names[i]);
        assert forall|a: int, b: int| 0 <= a < b < d.len() implies #[trigger] d[a] != #[trigger] d[b] by {
            assert(names[a] != names[b]);
        }
        lemma_index_of(d, i);
    } else {
        lemma_index_of_absent(d, names[i]);
    }
}

proof fn lemma_index_of_absent(names: Seq<Seq<char>>, s: Seq<char>)
    requires
        forall|a: int| 0 <= a < names.len() ==> #[trigger] names[a] != s,
    ensures
        index_of(names, s) is None,
    decreases names.len(),
{
    if names.len() > 0 {
        assert(names[names.len() - 1] != s);
        lemma_index_of_absent(names.drop_last(), s);
    }
}

/// The first index of a text in a list.
pub fn find_name(names: &Vec<String>, s: &str) -> (r: Option<usize>)
    ensures
        match r {
            Some(i) => index_of(strings(names@), s@) == Some(i as int) && i < names@.len(),
            None => index_of(strings(names@), s@) is None,
        },
{
    let ghost all = strings(names@);
    let mut found: Option<usize> = None;
    let mut i: usize = 0;
    proof {
        assert(all.take(0) =~= Seq::<Seq<char>>::empty());
    }
    while i < names.len()
        invariant
            i <= names.len(),
            all == strings(names@),
            match found {
                Some(k) => index_of(all.take(i as int), s@) == Some(k as int) && k < i,
                None => index_of(all.take(i as int), s@) is None,
            },
        decreases names.len() - i,
    {
        proof {
            assert(all.take(i as int + 1).drop_last() =~= all.take(i as int));
            assert(all.take(i as int + 1).last() == names@[i as int]@);
        }
        if found.is_none() && eq(names[i].as_str(), s) {
            found = Some(i);
        }
        i = i + 1;
    }
    proof {
        assert(all.take(all.len() as int) =~= all);
    }
    found
}

/// Rocket launchers to choose from.
#[derive(Clone, Copy, Debug, PartialEq, Eq, Structural)]
pub enum Weapon {
    Stock,
    Original,
}

/// The Fruit Ninja options as the simulation wants them.
#[derive(Clone, Copy, Debug, PartialEq, Eq, Structural)]
pub struct FruitSettings {
    pub difficulty: usize,
    pub rounds: bool,
    pub soldiers: u8,
    pub speed: u32,
    pub wall_distance: u32,
    pub reset: bool,
}

/// Which mouse axis a sensitivity control edits.
#[derive(Clone, Copy, Debug, PartialEq, Eq, Structural)]
pub enum Axis {
    X,
    Y,
}

/// A value edited with a slider + value box in the menus.
#[derive(Clone, Copy, Debug, PartialEq, Eq, Structural)]
pub enum Slider {
    Sens(Axis),
    /// Master volume, in percent.
    Volume,
    /// Frames of input delay (manual mode).
    InputDelay,
    /// Fruit Ninja endless play: soldiers in the air at once.
    Soldiers,
    /// Fruit Ninja endless play: the soldiers' sideways speed, units per second.
    Speed,
    /// Fruit Ninja endless play: units from the player to the wooden wall.
    WallDistance,
}

#[derive(Debug, PartialEq)]
pub struct Settings {
    /// TF2-style sensitivity in hundredths (250 → 0.055° per count).
    pub sensitivity_x: u32,
    pub sensitivity_y: u32,
    /// When false (the default) the two axes are locked together and edited as one value.
    pub separate_sensitivity: bool,
    pub invert_y: bool,
    /// Master volume, in percent.
    pub volume: u32,
    /// Web: take the page fullscreen on the click that starts play. Off by default; in Chromium it
    /// arms the keyboard lock, which lets Ctrl be bound without Ctrl+W closing the tab.
    /// Desktop: start in borderless fullscreen; F11 / Alt+Enter toggle it and update this.
    pub fullscreen: bool,
    /// Let the game pick the input delay from the connection. Off: `input_delay` is used as is.
    pub adaptive_delay: bool,
    /// Frames between pressing a key and the simulation acting on it, when not adaptive. More
    /// delay hides latency and jitter from the opponent's view at the cost of one's own
    /// responsiveness.
    pub input_delay: u8,
    /// Preferred rocket launcher. Sent with every input; a change made mid-life applies at the next
    /// spawn.
    pub weapon: Weapon,
    /// Fruit Ninja options: rounds of twenty soldiers on a difficulty preset, or endless play with
    /// its own soldiers at a time, sideways speed and wall distance.
    pub fruit_difficulty: usize,
    pub fruit_rounds: bool,
    pub fruit_soldiers: u8,
    pub fruit_speed: u32,
    pub fruit_distance: u32,
    pub bindings: Bindings,
}

#[verifier::ext_equal]
pub struct SettingsView {
    pub sensitivity_x: int,
    pub sensitivity_y: int,
    pub separate_sensitivity: bool,
    pub invert_y: bool,
    pub volume: int,
    pub fullscreen: bool,
    pub adaptive_delay: bool,
    pub input_delay: int,
    pub weapon: Weapon,
    pub fruit_difficulty: int,
    pub fruit_rounds: bool,
    pub fruit_soldiers: int,
    pub fruit_speed: int,
    pub fruit_distance: int,
    pub bindings: BindingsView,
}

impl View for Settings {
    type V = SettingsView;

    open spec fn view(&self) -> SettingsView {
        SettingsView {
            sensitivity_x: self.sensitivity_x as int,
            sensitivity_y: self.sensitivity_y as int,
            separate_sensitivity: self.separate_sensitivity,
            invert_y: self.invert_y,
            volume: self.volume as int,
            fullscreen: self.fullscreen,
            adaptive_delay: self.adaptive_delay,
            input_delay: self.input_delay as int,
            weapon: self.weapon,
            fruit_difficulty: self.fruit_difficulty as int,
            fruit_rounds: self.fruit_rounds,
            fruit_soldiers: self.fruit_soldiers as int,
            fruit_speed: self.fruit_speed as int,
            fruit_distance: self.fruit_distance as int,
            bindings: self.bindings@,
        }
    }
}

impl SettingsView {
    /// Every value in its range, and the axes equal while they are locked.
    pub open spec fn valid(self, rules: &FruitRules) -> bool {
        &&& SENS_MIN <= self.sensitivity_x <= SENS_MAX
        &&& SENS_MIN <= self.sensitivity_y <= SENS_MAX
        &&& !self.separate_sensitivity ==> self.sensitivity_x == self.sensitivity_y
        &&& 0 <= self.volume <= 100
        &&& 0 <= self.input_delay <= INPUT_DELAY_MAX
        &&& 0 <= self.fruit_difficulty < rules.difficulties@.len()
        &&& rules.soldiers_min <= self.fruit_soldiers <= rules.soldiers_max
        &&& 10 * tens(rules.speed_min as nat) <= self.fruit_speed <= 10 * tens(
            rules.speed_max as nat,
        )
        &&& self.fruit_speed % 10 == 0
        &&& 10 * tens(rules.distance_min as nat) <= self.fruit_distance <= 10 * tens(
            rules.distance_max as nat,
        )
        &&& self.fruit_distance % 10 == 0
    }

    /// The settings of a fresh install.
    pub open spec fn initial(rules: &FruitRules, web: bool) -> SettingsView {
        SettingsView {
            sensitivity_x: 250,
            sensitivity_y: 250,
            separate_sensitivity: false,
            invert_y: false,
            volume: VOLUME_DEFAULT as int,
            fullscreen: false,
            adaptive_delay: true,
            input_delay: INPUT_DELAY_DEFAULT as int,
            weapon: Weapon::Stock,
            fruit_difficulty: rules.difficulty as int,
            fruit_rounds: false,
            fruit_soldiers: rules.soldiers as int,
            fruit_speed: rules.speed as int,
            fruit_distance: rules.distance as int,
            bindings: BindingsView::initial(web),
        }
    }

    pub open spec fn sensitivity(self, axis: Axis) -> int {
        match axis {
            Axis::X => self.sensitivity_x,
            Axis::Y => self.sensitivity_y,
        }
    }

    /// One sensitivity set: both while the axes are locked together.
    pub open spec fn with_sensitivity(self, axis: Axis, v: int) -> SettingsView {
        if !self.separate_sensitivity {
            SettingsView { sensitivity_x: v, sensitivity_y: v, ..self }
        } else {
            match axis {
                Axis::X => SettingsView { sensitivity_x: v, ..self },
                Axis::Y => SettingsView { sensitivity_y: v, ..self },
            }
        }
    }

    /// The axes unlocked or relocked; relocking copies X into Y.
    pub open spec fn with_separate(self, separate: bool) -> SettingsView {
        SettingsView {
            separate_sensitivity: separate,
            sensitivity_y: if separate {
                self.sensitivity_y
            } else {
                self.sensitivity_x
            },
            ..self
        }
    }

    /// The value behind a slider set.
    pub open spec fn with_value(self, slider: Slider, v: int) -> SettingsView {
        match slider {
            Slider::Sens(axis) => self.with_sensitivity(axis, v),
            Slider::Volume => SettingsView { volume: v, ..self },
            Slider::InputDelay => SettingsView { input_delay: v, ..self },
            Slider::Soldiers => SettingsView { fruit_soldiers: v, ..self },
            Slider::Speed => SettingsView { fruit_speed: v, ..self },
            Slider::WallDistance => SettingsView { fruit_distance: v, ..self },
        }
    }

    /// The value behind a slider.
    pub open spec fn value(self, slider: Slider) -> int {
        match slider {
            Slider::Sens(axis) => self.sensitivity(axis),
            Slider::Volume => self.volume,
            Slider::InputDelay => self.input_delay,
            Slider::Soldiers => self.fruit_soldiers,
            Slider::Speed => self.fruit_speed,
            Slider::WallDistance => self.fruit_distance,
        }
    }
}

/// While the axes are locked they stay equal, whichever of them is edited; relocking makes them
/// equal.
pub proof fn law_locked_axes_move_together(s: SettingsView, axis: Axis, v: int)
    ensures
        !s.separate_sensitivity ==> s.with_sensitivity(axis, v).sensitivity_x == v
            && s.with_sensitivity(axis, v).sensitivity_y == v,
        s.with_separate(false).sensitivity_y == s.with_separate(false).sensitivity_x,
        s.with_separate(false).sensitivity_x == s.sensitivity_x,
        s.separate_sensitivity ==> s.with_sensitivity(axis, v).sensitivity(axis) == v,
        s.separate_sensitivity && axis == Axis::X ==> s.with_sensitivity(axis, v).sensitivity_y
            == s.sensitivity_y,
        s.separate_sensitivity && axis == Axis::Y ==> s.with_sensitivity(axis, v).sensitivity_x
            == s.sensitivity_x,
{
}

impl Slider {
    /// Least and greatest value, in the slider's own unit: hundredths of sensitivity, percent,
    /// frames, soldiers, units per second, units.
    pub open spec fn bounds(self, rules: &FruitRules) -> (int, int) {
        match self {
            Slider::Sens(_) => (SENS_MIN as int, SENS_MAX as int),
            Slider::Volume => (0, 100),
            Slider::InputDelay => (0, INPUT_DELAY_MAX as int),
            Slider::Soldiers => (rules.soldiers_min as int, rules.soldiers_max as int),
            Slider::Speed => (rules.speed_min as int, rules.speed_max as int),
            Slider::WallDistance => (rules.distance_min as int, rules.distance_max as int),
        }
    }

    /// Decimal places that the slider's value keeps: two for sensitivity and volume, none for
    /// counts, and tens for the Fruit Ninja distances.
    pub open spec fn places(self) -> int {
        match self {
            Slider::Sens(_) | Slider::Volume => 2,
            Slider::InputDelay | Slider::Soldiers => 0,
            Slider::Speed | Slider::WallDistance => -1,
        }
    }

    /// The value that a number comes to on this slider: rounded to the slider's step and brought
    /// into its range.
    pub open spec fn stepped(self, v: Number, rules: &FruitRules) -> Option<int> {
        let (lo, hi) = self.bounds(rules);
        if self.places() == -1 {
            match v.settled(-1, tens(lo as nat) as int, tens(hi as nat) as int) {
                Some(t) => Some(10 * t),
                None => None,
            }
        } else {
            v.settled(self.places(), lo, hi)
        }
    }

    pub fn range(self, rules: &FruitRules) -> (r: (u32, u32))
        requires
            rules.wf(),
        ensures
            (r.0 as int, r.1 as int) == self.bounds(rules),
            r.0 <= r.1,
    {
        match self {
            Slider::Sens(_) => (SENS_MIN, SENS_MAX),
            Slider::Volume => (0, 100),
            Slider::InputDelay => (0, INPUT_DELAY_MAX as u32),
            Slider::Soldiers => (rules.soldiers_min as u32, rules.soldiers_max as u32),
            Slider::Speed => (rules.speed_min, rules.speed_max),
            Slider::WallDistance => (rules.distance_min, rules.distance_max),
        }
    }

    pub fn value(self, s: &Settings) -> (r: u32)
        ensures
            r == s@.value(self),
    {
        match self {
            Slider::Sens(axis) => s.sensitivity(axis),
            Slider::Volume => s.volume,
            Slider::InputDelay => s.input_delay as u32,
            Slider::Soldiers => s.fruit_soldiers as u32,
            Slider::Speed => s.fruit_speed,
            Slider::WallDistance => s.fruit_distance,
        }
    }

    /// Sets the value, rounded to the slider's step within its range. What is not a number changes
    /// nothing.
    pub fn set(self, s: &mut Settings, v: &Number, rules: &FruitRules)
        requires
            rules.wf(),
            v.wf(),
        ensures
            final(s)@ == match self.stepped(*v, rules) {
                Some(n) => old(s)@.with_value(self, n),
                None => old(s)@,
            },
    {
        let (lo, hi) = self.range(rules);
        match self {
            Slider::Sens(axis) => {
                s.set_sensitivity(axis, v);
            },
            Slider::Volume => {
                s.set_volume(v);
            },
            Slider::InputDelay => {
                s.set_input_delay(v);
            },
            Slider::Soldiers => {
                if let Some(n) = v.settle(0, lo as i64, hi as i64) {
                    s.fruit_soldiers = n as u8;
                }
            },
            Slider::Speed => {
                if let Some(n) = v.settle(-1, (lo as i64 + 5) / 10, (hi as i64 + 5) / 10) {
                    s.fruit_speed = 10 * n as u32;
                }
            },
            Slider::WallDistance => {
                if let Some(n) = v.settle(-1, (lo as i64 + 5) / 10, (hi as i64 + 5) / 10) {
                    s.fruit_distance = 10 * n as u32;
                }
            },
        }
    }

    /// Position of the value along the slider, as a numerator and a denominator.
    pub fn fraction(self, s: &Settings, rules: &FruitRules) -> (r: (u32, u32))
        requires
            rules.wf(),
        ensures
            ({
                let (lo, hi) = self.bounds(rules);
                &&& r.1 == hi - lo
                &&& r.0 == clamped(s@.value(self) - lo, 0, hi - lo)
            }),
    {
        let (lo, hi) = self.range(rules);
        let v = self.value(s);
        if v < lo {
            (0, hi - lo)
        } else if v > hi {
            (hi - lo, hi - lo)
        } else {
            (v - lo, hi - lo)
        }
    }

    pub open spec fn shown(self, s: SettingsView) -> Seq<char> {
        match self {
            Slider::Sens(axis) => two_decimals(s.sensitivity(axis) as nat),
            Slider::Volume => decimal(s.volume as nat) + "%"@,
            Slider::InputDelay => decimal(s.input_delay as nat) + " ("@ + decimal(
                ticks_in_ms(s.input_delay as nat),
            ) + " ms)"@,
            Slider::Soldiers => decimal(s.fruit_soldiers as nat),
            Slider::Speed => decimal(s.fruit_speed as nat) + " u/s"@,
            Slider::WallDistance => decimal(s.fruit_distance as nat) + " u"@,
        }
    }

    pub open spec fn edited(self, s: SettingsView) -> Seq<char> {
        match self {
            Slider::Sens(axis) => two_decimals(s.sensitivity(axis) as nat),
            Slider::Volume => decimal(s.volume as nat),
            Slider::InputDelay => decimal(s.input_delay as nat),
            Slider::Soldiers => decimal(s.fruit_soldiers as nat),
            Slider::Speed => decimal(s.fruit_speed as nat),
            Slider::WallDistance => decimal(s.fruit_distance as nat),
        }
    }

    /// Text shown in the value box.
    pub fn display(self, s: &Settings) -> (r: String)
        ensures
            r@ == self.shown(s@),
    {
        let v = self.value(s) as u64;
        match self {
            Slider::Sens(_) => show_hundredths(v),
            Slider::Volume => {
                let n = show(v);
                cat(n.as_str(), "%")
            },
            Slider::InputDelay => {
                let n = show(v);
                let ms = show(frames_to_ms(s.input_delay) as u64);
                let mut out = cat3(n.as_str(), " (", ms.as_str());
                out.append(" ms)");
                out
            },
            Slider::Soldiers => show(v),
            Slider::Speed => {
                let n = show(v);
                cat(n.as_str(), " u/s")
            },
            Slider::WallDistance => {
                let n = show(v);
                cat(n.as_str(), " u")
            },
        }
    }

    /// Initial contents of the value box when it is opened for typing.
    pub fn edit_text(self, s: &Settings) -> (r: String)
        ensures
            r@ == self.edited(s@),
    {
        let v = self.value(s) as u64;
        match self {
            Slider::Sens(_) => show_hundredths(v),
            _ => show(v),
        }
    }
}

/// Whole milliseconds a number of simulation ticks lasts, at 67 ticks a second.
pub open spec fn ticks_in_ms(frames: nat) -> nat {
    (2000 * frames + 67) / 134
}

/// Whole milliseconds a number of simulation ticks lasts.
pub fn frames_to_ms(frames: u8) -> (r: u32)
    ensures
        r == ticks_in_ms(frames as nat),
{
    (2000 * frames as u32 + 67) / 134
}

impl Settings {
    /// The settings of a fresh install.
    pub fn new(rules: &FruitRules, web: bool) -> (r: Settings)
        requires
            rules.wf(),
        ensures
            r@ == SettingsView::initial(rules, web),
            r@.valid(rules),
    {
        Settings {
            sensitivity_x: 250,
            sensitivity_y: 250,
            separate_sensitivity: false,
            invert_y: false,
            volume: VOLUME_DEFAULT,
            fullscreen: false,
            adaptive_delay: true,
            input_delay: INPUT_DELAY_DEFAULT,
            weapon: Weapon::Stock,
            fruit_difficulty: rules.difficulty,
            fruit_rounds: false,
            fruit_soldiers: rules.soldiers,
            fruit_speed: rules.speed,
            fruit_distance: rules.distance,
            bindings: Bindings::new(web),
        }
    }

    /// Hundred-thousandths of a degree that a mouse count turns the view.
    pub fn yaw_per_count(&self) -> (r: u64)
        ensures
            r == MILLIDEGREES_PER_COUNT * self.sensitivity_x,
    {
        MILLIDEGREES_PER_COUNT as u64 * self.sensitivity_x as u64
    }

    /// Hundred-thousandths of a degree that a mouse count tilts the view, negative when inverted.
    pub fn pitch_per_count(&self) -> (r: i64)
        ensures
            r == if self.invert_y {
                -(MILLIDEGREES_PER_COUNT * self.sensitivity_y)
            } else {
                MILLIDEGREES_PER_COUNT * self.sensitivity_y
            },
    {
        let v = MILLIDEGREES_PER_COUNT as i64 * self.sensitivity_y as i64;
        if self.invert_y {
            -v
        } else {
            v
        }
    }

    pub fn sensitivity(&self, axis: Axis) -> (r: u32)
        ensures
            r == self@.sensitivity(axis),
    {
        match axis {
            Axis::X => self.sensitivity_x,
            Axis::Y => self.sensitivity_y,
        }
    }

    /// Sets a sensitivity, clamped to the slider range and rounded to two decimals. While the
    /// axes are locked together, either axis sets both.
    pub fn set_sensitivity(&mut self, axis: Axis, value: &Number)
        requires
            value.wf(),
        ensures
            final(self)@ == match value.settled(2, SENS_MIN as int, SENS_MAX as int) {
                Some(v) => old(self)@.with_sensitivity(axis, v),
                None => old(self)@,
            },
    {
        if let Some(v) = value.settle(2, SENS_MIN as i64, SENS_MAX as i64) {
            let v = v as u32;
            if !self.separate_sensitivity {
                self.sensitivity_x = v;
                self.sensitivity_y = v;
                return;
            }
            match axis {
                Axis::X => {
                    self.sensitivity_x = v;
                },
                Axis::Y => {
                    self.sensitivity_y = v;
                },
            }
        }
    }

    /// Sets the master volume (1 is full), clamped to 0..1 and rounded to whole percents.
    pub fn set_volume(&mut self, value: &Number)
        requires
            value.wf(),
        ensures
            final(self)@ == match value.settled(2, 0, 100) {
                Some(v) => (SettingsView { volume: v, ..old(self)@ }),
                None => old(self)@,
            },
    {
        if let Some(v) = value.settle(2, 0, 100) {
            self.volume = v as u32;
        }
    }

    /// Sets the manual input delay, rounded to whole frames within `0..=INPUT_DELAY_MAX`.
    pub fn set_input_delay(&mut self, value: &Number)
        requires
            value.wf(),
        ensures
            final(self)@ == match value.settled(0, 0, INPUT_DELAY_MAX as int) {
                Some(v) => (SettingsView { input_delay: v, ..old(self)@ }),
                None => old(self)@,
            },
    {
        if let Some(v) = value.settle(0, 0, INPUT_DELAY_MAX as i64) {
            self.input_delay = v as u8;
        }
    }

    /// The Fruit Ninja options as the simulation wants them (`reset` while the countdown runs).
    pub fn fruit_settings(&self, reset: bool) -> (r: FruitSettings)
        ensures
            r == (FruitSettings {
                difficulty: self.fruit_difficulty,
                rounds: self.fruit_rounds,
                soldiers: self.fruit_soldiers,
                speed: self.fruit_speed,
                wall_distance: self.fruit_distance,
                reset,
            }),
    {
        FruitSettings {
            difficulty: self.fruit_difficulty,
            rounds: self.fruit_rounds,
            soldiers: self.fruit_soldiers,
            speed: self.fruit_speed,
            wall_distance: self.fruit_distance,
            reset,
        }
    }

    /// Unlocks or relocks the axes; relocking copies X into Y.
    pub fn set_separate_sensitivity(&mut self, separate: bool)
        ensures
            final(self)@ == old(self)@.with_separate(separate),
    {
        self.separate_sensitivity = separate;
        if !separate {
            self.sensitivity_y = self.sensitivity_x;
        }
    }
}

// ---- typing into a value box ----

/// A typed value without the unit behind it.
pub open spec fn without_unit(text: Seq<char>) -> Seq<char> {
    trimmed(
        without_trailing_either(
            without_trailing_text(without_trailing(trimmed(text), '%'), "u/s"@),
            'u',
            'U',
        ),
    )
}

impl Slider {
    /// Powers of ten by which a typed value counts less: the volume is typed as a percentage.
    pub open spec fn typed_shift(self) -> int {
        match self {
            Slider::Volume => 2,
            _ => 0,
        }
    }

    /// Whether a typed text is a value for the slider.
    pub open spec fn accepts(self, text: Seq<char>) -> bool {
        finite_text(without_unit(text))
    }

    /// The value that a typed text comes to on the slider.
    pub open spec fn typed(self, text: Seq<char>, rules: &FruitRules) -> Option<int> {
        let (lo, hi) = self.bounds(rules);
        let places = self.places() - self.typed_shift();
        if !self.accepts(text) {
            None
        } else if self.places() == -1 {
            match settled_text(
                without_unit(text),
                places,
                tens(lo as nat) as int,
                tens(hi as nat) as int,
            ) {
                Some(t) => Some(10 * t),
                None => None,
            }
        } else {
            settled_text(without_unit(text), places, lo, hi)
        }
    }

    /// Parses typed text back into a value (volume is typed as a percentage).
    pub fn parse(self, text: &str) -> (r: Option<Number>)
        ensures
            r is Some <==> self.accepts(text@),
            r matches Some(n) ==> n.wf() && (forall|places: int, lo: int, hi: int|
                #[trigger] n.settled(places, lo, hi) == settled_text(
                    without_unit(text@),
                    places - self.typed_shift(),
                    lo,
                    hi,
                )) && forall|rules: &FruitRules|
                #[trigger] self.stepped(n, rules) == self.typed(text@, rules),
    {
        let t = trim(text);
        let t = trim_end_char(t.as_str(), '%');
        let t = trim_end_text(t.as_str(), "u/s");
        let t = trim_end_either(t.as_str(), 'u', 'U');
        let t = trim(t.as_str());
        let shift: u8 = match self {
            Slider::Volume => 2,
            _ => 0,
        };
        read_finite(t.as_str(), shift)
    }
}

proof fn lemma_without_unit_digits(s: Seq<char>)
    requires
        s.len() > 0,
        is_digit(s[0]),
        is_digit(s.last()),
    ensures
        without_unit(s) == s,
{
    reveal_strlit("u/s");
    assert(trimmed(s) == s);
    assert(without_trailing(s, '%') == s);
    if stands_at(s, "u/s"@, s.len() - 3) {
        assert(s.subrange(s.len() - 3, s.len() as int)[2] == s.last());
        assert("u/s"@[2] == 's');
    }
    assert(without_trailing_text(s, "u/s"@) == s);
    assert(without_trailing_either(s, 'u', 'U') == s);
}

/// Typing what a value box opens with sets the value that is there.
pub proof fn law_edit_text_types_back(slider: Slider, s: SettingsView, rules: &FruitRules)
    requires
        rules.wf(),
        s.valid(rules),
    ensures
        slider.accepts(slider.edited(s)),
        slider.typed(slider.edited(s), rules) == Some(s.value(slider)),
{
    let text = slider.edited(s);
    let v = s.value(slider) as nat;
    let (lo, hi) = slider.bounds(rules);
    assert(v <= 10_000_000);
    match slider {
        Slider::Sens(_) => {
            lemma_decimal(v / 100);
            lemma_decimal(v % 100);
            lemma_decimal_len(v % 100);
            lemma_zero_padded(decimal(v % 100), 2);
            assert(text[0] == decimal(v / 100)[0]);
            assert(is_digit(decimal(v / 100)[0]));
            let tail = zero_padded(decimal(v % 100), 2);
            assert(text.last() == tail[1]);
            assert(is_digit(tail[1]));
            lemma_without_unit_digits(text);
            lemma_settled_hundredths(v, lo, hi);
            lemma_finite_hundredths(v);
        },
        _ => {
            lemma_decimal(v);
            assert(is_digit(text[0]));
            assert(is_digit(text[text.len() - 1]));
            lemma_without_unit_digits(text);
            lemma_finite_whole(v);
            lemma_shifted_round_tens(v);
            let places = slider.places() - slider.typed_shift();
            if slider.places() == -1 {
                let a = tens(lo as nat) as int;
                let b = tens(hi as nat) as int;
                lemma_settled_whole(v, places, a, b);
                assert((v + 5) / 10 == v / 10);
            } else {
                lemma_settled_whole(v, places, lo, hi);
            }
        },
    }
}

// ---- the ini file ----

/// The entries of the file.
#[derive(Clone, Copy, Debug, PartialEq, Eq, Structural)]
pub enum IniKey {
    SensitivityX,
    SensitivityY,
    SeparateSensitivity,
    InvertY,
    RocketLauncher,
    Volume,
    Fullscreen,
    AdaptiveDelay,
    InputDelay,
    Difficulty,
    Mode,
    Soldiers,
    Speed,
    WallDistance,
    Bind(Action),
}

impl IniKey {
    /// The entry's name in the file.
    pub open spec fn name(self) -> Seq<char> {
        match self {
            IniKey::SensitivityX => "sensitivity_x"@,
            IniKey::SensitivityY => "sensitivity_y"@,
            IniKey::SeparateSensitivity => "separate_sensitivity"@,
            IniKey::InvertY => "invert_y"@,
            IniKey::RocketLauncher => "rocket_launcher"@,
            IniKey::Volume => "volume"@,
            IniKey::Fullscreen => "fullscreen"@,
            IniKey::AdaptiveDelay => "adaptive_delay"@,
            IniKey::InputDelay => "input_delay"@,
            IniKey::Difficulty => "difficulty"@,
            IniKey::Mode => "mode"@,
            IniKey::Soldiers => "soldiers"@,
            IniKey::Speed => "speed"@,
            IniKey::WallDistance => "wall_distance"@,
            IniKey::Bind(Action::Forward) => "forward"@,
            IniKey::Bind(Action::Back) => "back"@,
            IniKey::Bind(Action::Left) => "left"@,
            IniKey::Bind(Action::Right) => "right"@,
            IniKey::Bind(Action::Jump) => "jump"@,
            IniKey::Bind(Action::Crouch) => "crouch"@,
            IniKey::Bind(Action::Fire) => "fire"@,
        }
    }

    /// The entry's name in the file.
    pub fn text(self) -> (r: &'static str)
        ensures
            r@ == self.name(),
    {
        match self {
            IniKey::SensitivityX => "sensitivity_x",
            IniKey::SensitivityY => "sensitivity_y",
            IniKey::SeparateSensitivity => "separate_sensitivity",
            IniKey::InvertY => "invert_y",
            IniKey::RocketLauncher => "rocket_launcher",
            IniKey::Volume => "volume",
            IniKey::Fullscreen => "fullscreen",
            IniKey::AdaptiveDelay => "adaptive_delay",
            IniKey::InputDelay => "input_delay",
            IniKey::Difficulty => "difficulty",
            IniKey::Mode => "mode",
            IniKey::Soldiers => "soldiers",
            IniKey::Speed => "speed",
            IniKey::WallDistance => "wall_distance",
            IniKey::Bind(a) => match a {
                Action::Forward => "forward",
                Action::Back => "back",
                Action::Left => "left",
                Action::Right => "right",
                Action::Jump => "jump",
                Action::Crouch => "crouch",
                Action::Fire => "fire",
            },
        }
    }

    /// Every entry, in the order of the file.
    pub open spec fn all() -> Seq<IniKey> {
        seq![
            IniKey::SensitivityX,
            IniKey::SensitivityY,
            IniKey::SeparateSensitivity,
            IniKey::InvertY,
            IniKey::RocketLauncher,
            IniKey::Volume,
            IniKey::Fullscreen,
            IniKey::AdaptiveDelay,
            IniKey::InputDelay,
            IniKey::Difficulty,
            IniKey::Mode,
            IniKey::Soldiers,
            IniKey::Speed,
            IniKey::WallDistance,
            IniKey::Bind(Action::Forward),
            IniKey::Bind(Action::Back),
            IniKey::Bind(Action::Left),
            IniKey::Bind(Action::Right),
            IniKey::Bind(Action::Jump),
            IniKey::Bind(Action::Crouch),
            IniKey::Bind(Action::Fire),
        ]
    }
}

/// The entry that a name stands for.
pub open spec fn key_of(k: Seq<char>) -> Option<IniKey> {
    if exists|key: IniKey| key.name() == k {
        Some(choose|key: IniKey| key.name() == k)
    } else {
        None
    }
}

proof fn lemma_names_differ(a: IniKey, b: IniKey)
    requires
        a.name() == b.name(),
    ensures
        a == b,
{
    reveal_strlit("sensitivity_x");
    reveal_strlit("sensitivity_y");
    reveal_strlit("separate_sensitivity");
    reveal_strlit("invert_y");
    reveal_strlit("rocket_launcher");
    reveal_strlit("volume");
    reveal_strlit("fullscreen");
    reveal_strlit("adaptive_delay");
    reveal_strlit("input_delay");
    reveal_strlit("difficulty");
    reveal_strlit("mode");
    reveal_strlit("soldiers");
    reveal_strlit("speed");
    reveal_strlit("wall_distance");
    reveal_strlit("forward");
    reveal_strlit("back");
    reveal_strlit("left");
    reveal_strlit("right");
    reveal_strlit("jump");
    reveal_strlit("crouch");
    reveal_strlit("fire");
    assert("sensitivity_x"@.len() == 13 && "sensitivity_x"@[0] == 's');
    assert("sensitivity_y"@.len() == 13 && "sensitivity_y"@[0] == 's');
    assert("separate_sensitivity"@.len() == 20 && "separate_sensitivity"@[0] == 's');
    assert("invert_y"@.len() == 8 && "invert_y"@[0] == 'i');
    assert("rocket_launcher"@.len() == 15 && "rocket_launcher"@[0] == 'r');
    assert("volume"@.len() == 6 && "volume"@[0] == 'v');
    assert("fullscreen"@.len() == 10 && "fullscreen"@[0] == 'f');
    assert("adaptive_delay"@.len() == 14 && "adaptive_delay"@[0] == 'a');
    assert("input_delay"@.len() == 11 && "input_delay"@[0] == 'i');
    assert("difficulty"@.len() == 10 && "difficulty"@[0] == 'd');
    assert("mode"@.len() == 4 && "mode"@[0] == 'm');
    assert("soldiers"@.len() == 8 && "soldiers"@[0] == 's');
    assert("speed"@.len() == 5 && "speed"@[0] == 's');
    assert("wall_distance"@.len() == 13 && "wall_distance"@[0] == 'w');
    assert("forward"@.len() == 7 && "forward"@[0] == 'f');
    assert("back"@.len() == 4 && "back"@[0] == 'b');
    assert("left"@.len() == 4 && "left"@[0] == 'l');
    assert("right"@.len() == 5 && "right"@[0] == 'r');
    assert("jump"@.len() == 4 && "jump"@[0] == 'j');
    assert("crouch"@.len() == 6 && "crouch"@[0] == 'c');
    assert("fire"@.len() == 4 && "fire"@[0] == 'f');
    assert("sensitivity_x"@[12] == 'x' && "sensitivity_y"@[12] == 'y');
}

/// Each entry is found by its name.
pub proof fn lemma_key_of(key: IniKey)
    ensures
        key_of(key.name()) == Some(key),
{
    let k = choose|k: IniKey| k.name() == key.name();
    assert(k.name() == key.name());
    lemma_names_differ(k, key);
}

/// The entry that a name stands for.
fn find_key(k: &str) -> (r: Option<IniKey>)
    ensures
        r == key_of(k@),
{
    let keys = all_keys();
    let mut i: usize = 0;
    while i < keys.len()
        invariant
            i <= keys.len(),
            keys@ == IniKey::all(),
            forall|j: int| 0 <= j < i ==> (#[trigger] keys@[j]).name() != k@,
        decreases keys.len() - i,
    {
        if eq(keys[i].text(), k) {
            proof {
                lemma_key_of(keys@[i as int]);
            }
            return Some(keys[i]);
        }
        i = i + 1;
    }
    proof {
        assert forall|key: IniKey| key.name() != k@ by {
            lemma_all_keys(key);
            let j = choose|j: int| 0 <= j < IniKey::all().len() && IniKey::all()[j] == key;
            assert(keys@[j].name() != k@);
        }
    }
    None
}

proof fn lemma_all_keys(key: IniKey)
    ensures
        exists|j: int| 0 <= j < IniKey::all().len() && IniKey::all()[j] == key,
{
    let all = IniKey::all();
    assert(all.len() == 21);
    match key {
        IniKey::SensitivityX => assert(all[0] == key),
        IniKey::SensitivityY => assert(all[1] == key),
        IniKey::SeparateSensitivity => assert(all[2] == key),
        IniKey::InvertY => assert(all[3] == key),
        IniKey::RocketLauncher => assert(all[4] == key),
        IniKey::Volume => assert(all[5] == key),
        IniKey::Fullscreen => assert(all[6] == key),
        IniKey::AdaptiveDelay => assert(all[7] == key),
        IniKey::InputDelay => assert(all[8] == key),
        IniKey::Difficulty => assert(all[9] == key),
        IniKey::Mode => assert(all[10] == key),
        IniKey::Soldiers => assert(all[11] == key),
        IniKey::Speed => assert(all[12] == key),
        IniKey::WallDistance => assert(all[13] == key),
        IniKey::Bind(Action::Forward) => assert(all[14] == key),
        IniKey::Bind(Action::Back) => assert(all[15] == key),
        IniKey::Bind(Action::Left) => assert(all[16] == key),
        IniKey::Bind(Action::Right) => assert(all[17] == key),
        IniKey::Bind(Action::Jump) => assert(all[18] == key),
        IniKey::Bind(Action::Crouch) => assert(all[19] == key),
        IniKey::Bind(Action::Fire) => assert(all[20] == key),
    }
}

fn all_keys() -> (r: Vec<IniKey>)
    ensures
        r@ == IniKey::all(),
{
    let r = vec![
        IniKey::SensitivityX,
        IniKey::SensitivityY,
        IniKey::SeparateSensitivity,
        IniKey::InvertY,
        IniKey::RocketLauncher,
        IniKey::Volume,
        IniKey::Fullscreen,
        IniKey::AdaptiveDelay,
        IniKey::InputDelay,
        IniKey::Difficulty,
        IniKey::Mode,
        IniKey::Soldiers,
        IniKey::Speed,
        IniKey::WallDistance,
        IniKey::Bind(Action::Forward),
        IniKey::Bind(Action::Back),
        IniKey::Bind(Action::Left),
        IniKey::Bind(Action::Right),
        IniKey::Bind(Action::Jump),
        IniKey::Bind(Action::Crouch),
        IniKey::Bind(Action::Fire),
    ];
    proof {
        assert(r@ =~= IniKey::all());
    }
    r
}

/// Whether a text says yes.
pub open spec fn says_yes(v: Seq<char>) -> bool {
    v == "true"@ || v == "1"@ || v == "yes"@
}

/// Whether a text says no.
pub open spec fn says_no(v: Seq<char>) -> bool {
    v == "false"@ || v == "0"@ || v == "no"@
}

/// What a flag is after a text was read for it: one that says neither yes nor no keeps it.
pub open spec fn flag_after(v: Seq<char>, before: bool) -> bool {
    says_yes(v) || (before && !says_no(v))
}

fn read_flag(v: &str, before: bool) -> (r: bool)
    ensures
        r == flag_after(v@, before),
{
    if eq(v, "true") || eq(v, "1") || eq(v, "yes") {
        true
    } else {
        before && !(eq(v, "false") || eq(v, "0") || eq(v, "no"))
    }
}

/// Whether rounds are played after a text was read for the mode: one that names no mode keeps it.
pub open spec fn rounds_after(v: Seq<char>, before: bool) -> bool {
    same_ignoring_case(v, "rounds"@) || (before && !same_ignoring_case(v, "endless"@))
}

fn read_mode(v: &str, before: bool) -> (r: bool)
    ensures
        r == rounds_after(v@, before),
{
    eq_ignore_ascii_case(v, "rounds") || (before && !eq_ignore_ascii_case(v, "endless"))
}

/// The value in the place of the old one, where there is a value.
pub open spec fn taken(v: Option<int>, before: int) -> int {
    match v {
        Some(v) => v,
        None => before,
    }
}

impl SettingsView {
    /// The settings after one entry of the file. The axes are taken as separate values while the
    /// file is read. A malformed value keeps the setting; a launcher that is not the original is the
    /// stock one.
    pub open spec fn with_entry(
        self,
        key: IniKey,
        v: Seq<char>,
        rules: &FruitRules,
    ) -> SettingsView {
        match key {
            IniKey::SensitivityX => SettingsView {
                sensitivity_x: taken(
                    settled_text(v, 2, SENS_MIN as int, SENS_MAX as int),
                    self.sensitivity_x,
                ),
                ..self
            },
            IniKey::SensitivityY => SettingsView {
                sensitivity_y: taken(
                    settled_text(v, 2, SENS_MIN as int, SENS_MAX as int),
                    self.sensitivity_y,
                ),
                ..self
            },
            IniKey::SeparateSensitivity => SettingsView {
                separate_sensitivity: flag_after(v, self.separate_sensitivity),
                ..self
            },
            IniKey::InvertY => SettingsView { invert_y: flag_after(v, self.invert_y), ..self },
            IniKey::RocketLauncher => SettingsView {
                weapon: if same_ignoring_case(v, "original"@) {
                    Weapon::Original
                } else {
                    Weapon::Stock
                },
                ..self
            },
            IniKey::Volume => SettingsView {
                volume: taken(settled_text(v, 2, 0, 100), self.volume),
                ..self
            },
            IniKey::Fullscreen => SettingsView {
                fullscreen: flag_after(v, self.fullscreen),
                ..self
            },
            IniKey::AdaptiveDelay => SettingsView {
                adaptive_delay: flag_after(v, self.adaptive_delay),
                ..self
            },
            IniKey::InputDelay => SettingsView {
                input_delay: taken(
                    settled_text(v, 0, 0, INPUT_DELAY_MAX as int),
                    self.input_delay,
                ),
                ..self
            },
            IniKey::Difficulty => SettingsView {
                fruit_difficulty: taken(index_of(rules.names(), v), self.fruit_difficulty),
                ..self
            },
            IniKey::Mode => SettingsView {
                fruit_rounds: rounds_after(v, self.fruit_rounds),
                ..self
            },
            IniKey::Soldiers => SettingsView {
                fruit_soldiers: taken(
                    settled_text(v, 0, rules.soldiers_min as int, rules.soldiers_max as int),
                    self.fruit_soldiers,
                ),
                ..self
            },
            IniKey::Speed => SettingsView {
                fruit_speed: match settled_text(
                    v,
                    -1,
                    tens(rules.speed_min as nat) as int,
                    tens(rules.speed_max as nat) as int,
                ) {
                    Some(t) => 10 * t,
                    None => self.fruit_speed,
                },
                ..self
            },
            IniKey::WallDistance => SettingsView {
                fruit_distance: match settled_text(
                    v,
                    -1,
                    tens(rules.distance_min as nat) as int,
                    tens(rules.distance_max as nat) as int,
                ) {
                    Some(t) => 10 * t,
                    None => self.fruit_distance,
                },
                ..self
            },
            IniKey::Bind(a) => match binding_of(v) {
                Some(b) => SettingsView { bindings: self.bindings.with(a, b), ..self },
                None => self,
            },
        }
    }

    /// The settings after the lines of the file, first to last. Lines that are no entry are
    /// skipped.
    pub open spec fn with_lines(self, lines: Seq<Seq<char>>, rules: &FruitRules) -> SettingsView
        decreases lines.len(),
    {
        if lines.len() == 0 {
            self
        } else {
            let before = self.with_lines(lines.drop_last(), rules);
            match entry_of(lines.last()) {
                Some((key, v)) => before.with_entry(key, v, rules),
                None => before,
            }
        }
    }
}

/// The entry on a line. Empty lines, comments and section headers hold none.
pub open spec fn entry_of(line: Seq<char>) -> Option<(IniKey, Seq<char>)> {
    let t = trimmed(line);
    let p = position(t, '=');
    if t.len() == 0 || t[0] == ';' || t[0] == '#' || t[0] == '[' || p >= t.len() {
        None
    } else {
        match key_of(trimmed(t.take(p))) {
            Some(key) => Some((key, trimmed(t.skip(p + 1)))),
            None => None,
        }
    }
}

/// What a settings file says.
pub open spec fn ini_settings(text: Seq<char>, rules: &FruitRules, web: bool) -> SettingsView {
    let s = SettingsView::initial(rules, web).with_lines(pieces(text, '\n'), rules);
    s.with_separate(s.separate_sensitivity)
}

/// `name = value`.
pub open spec fn entry_line(key: IniKey, v: Seq<char>) -> Seq<char> {
    key.name() + " = "@ + v
}

/// The word for a flag.
pub open spec fn flag(b: bool) -> Seq<char> {
    if b {
        "true"@
    } else {
        "false"@
    }
}

impl SettingsView {
    /// The value of an entry, as it is written.
    pub open spec fn entry(self, key: IniKey, rules: &FruitRules) -> Seq<char> {
        match key {
            IniKey::SensitivityX => two_decimals(self.sensitivity_x as nat),
            IniKey::SensitivityY => two_decimals(self.sensitivity_y as nat),
            IniKey::SeparateSensitivity => flag(self.separate_sensitivity),
            IniKey::InvertY => flag(self.invert_y),
            IniKey::RocketLauncher => match self.weapon {
                Weapon::Stock => "stock"@,
                Weapon::Original => "original"@,
            },
            IniKey::Volume => two_decimals(self.volume as nat),
            IniKey::Fullscreen => flag(self.fullscreen),
            IniKey::AdaptiveDelay => flag(self.adaptive_delay),
            IniKey::InputDelay => decimal(self.input_delay as nat),
            IniKey::Difficulty => rules.names()[self.fruit_difficulty],
            IniKey::Mode => if self.fruit_rounds {
                "rounds"@
            } else {
                "endless"@
            },
            IniKey::Soldiers => decimal(self.fruit_soldiers as nat),
            IniKey::Speed => decimal(self.fruit_speed as nat),
            IniKey::WallDistance => decimal(self.fruit_distance as nat),
            IniKey::Bind(a) => self.bindings.of(a).ini(),
        }
    }
}

/// What stands in the file above an entry: the section headers, and a blank line above all but the
/// first.
pub open spec fn header_above(key: IniKey) -> Seq<Seq<char>> {
    match key {
        IniKey::SensitivityX => seq!["; endif.tf settings"@, "[mouse]"@],
        IniKey::RocketLauncher => seq![""@, "[loadout]"@],
        IniKey::Volume => seq![""@, "[audio]"@],
        IniKey::Fullscreen => seq![""@, "[video]"@],
        IniKey::AdaptiveDelay => seq![""@, "[network]"@],
        IniKey::Difficulty => seq![""@, "[fruit ninja]"@],
        IniKey::Bind(Action::Forward) => seq![""@, "[keys]"@],
        _ => Seq::empty(),
    }
}

/// The lines of the file, up to the entry at index `n`.
pub open spec fn ini_lines(s: SettingsView, rules: &FruitRules, n: nat) -> Seq<Seq<char>>
    decreases n,
{
    if n == 0 {
        Seq::empty()
    } else {
        let key = IniKey::all()[n - 1];
        (ini_lines(s, rules, (n - 1) as nat) + header_above(key)).push(
            entry_line(key, s.entry(key, rules)),
        )
    }
}

/// Lines in a row, each with a line end.
pub open spec fn lines_text(lines: Seq<Seq<char>>) -> Seq<char>
    decreases lines.len(),
{
    if lines.len() == 0 {
        Seq::empty()
    } else {
        lines_text(lines.drop_last()) + lines.last() + "\n"@
    }
}

/// The settings as a file.
pub open spec fn ini_text(s: SettingsView, rules: &FruitRules) -> Seq<char> {
    lines_text(ini_lines(s, rules, 21))
}

// ---- reading and writing the file ----

impl Settings {
    /// Takes in one entry of the file.
    fn take_entry(&mut self, key: IniKey, v: &str, rules: &FruitRules)
        requires
            rules.wf(),
        ensures
            final(self)@ == old(self)@.with_entry(key, v@, rules),
    {
        match key {
            IniKey::SensitivityX => {
                if let Some(x) = settle_text(v, 2, SENS_MIN as i64, SENS_MAX as i64) {
                    self.sensitivity_x = x as u32;
                }
            },
            IniKey::SensitivityY => {
                if let Some(y) = settle_text(v, 2, SENS_MIN as i64, SENS_MAX as i64) {
                    self.sensitivity_y = y as u32;
                }
            },
            IniKey::SeparateSensitivity => {
                self.separate_sensitivity = read_flag(v, self.separate_sensitivity);
            },
            IniKey::InvertY => {
                self.invert_y = read_flag(v, self.invert_y);
            },
            IniKey::RocketLauncher => {
                self.weapon = if eq_ignore_ascii_case(v, "original") {
                    Weapon::Original
                } else {
                    Weapon::Stock
                };
            },
            IniKey::Volume => {
                if let Some(x) = settle_text(v, 2, 0, 100) {
                    self.volume = x as u32;
                }
            },
            IniKey::Fullscreen => {
                self.fullscreen = read_flag(v, self.fullscreen);
            },
            IniKey::AdaptiveDelay => {
                self.adaptive_delay = read_flag(v, self.adaptive_delay);
            },
            IniKey::InputDelay => {
                if let Some(x) = settle_text(v, 0, 0, INPUT_DELAY_MAX as i64) {
                    self.input_delay = x as u8;
                }
            },
            IniKey::Difficulty => {
                if let Some(d) = find_name(&rules.difficulties, v) {
                    self.fruit_difficulty = d;
                }
            },
            IniKey::Mode => {
                self.fruit_rounds = read_mode(v, self.fruit_rounds);
            },
            IniKey::Soldiers => {
                if let Some(x) = settle_text(
                    v,
                    0,
                    rules.soldiers_min as i64,
                    rules.soldiers_max as i64,
                ) {
                    self.fruit_soldiers = x as u8;
                }
            },
            IniKey::Speed => {
                let lo = (rules.speed_min as i64 + 5) / 10;
                let hi = (rules.speed_max as i64 + 5) / 10;
                if let Some(x) = settle_text(v, -1, lo, hi) {
                    self.fruit_speed = 10 * x as u32;
                }
            },
            IniKey::WallDistance => {
                let lo = (rules.distance_min as i64 + 5) / 10;
                let hi = (rules.distance_max as i64 + 5) / 10;
                if let Some(x) = settle_text(v, -1, lo, hi) {
                    self.fruit_distance = 10 * x as u32;
                }
            },
            IniKey::Bind(a) => {
                if let Some(b) = Binding::from_ini(v) {
                    self.bindings.set(a, b);
                }
            },
        }
    }

    /// Lenient parser: unknown or malformed lines keep the default for that setting. A file
    /// without the lock entry has its axes locked, on the X value.
    pub fn from_ini(text: &str, rules: &FruitRules, web: bool) -> (r: Settings)
        requires
            rules.wf(),
        ensures
            r@ == ini_settings(text@, rules, web),
            r@.valid(rules),
    {
        let lines = split(text, '\n');
        let ghost all = strings(lines@);
        let mut s = Settings::new(rules, web);
        let ghost start = s@;
        let mut i: usize = 0;
        proof {
            assert(all.take(0) =~= Seq::<Seq<char>>::empty());
        }
        while i < lines.len()
            invariant
                i <= lines.len(),
                rules.wf(),
                all == strings(lines@),
                s@ == start.with_lines(all.take(i as int), rules),
                s@.in_range(rules),
            decreases lines.len() - i,
        {
            proof {
                assert(all.take(i as int + 1).drop_last() =~= all.take(i as int));
                assert(all.take(i as int + 1).last() == lines@[i as int]@);
            }
            if let Some((key, v)) = read_entry(lines[i].as_str()) {
                proof {
                    lemma_entry_in_range(s@, key, v@, rules);
                }
                s.take_entry(key, v.as_str(), rules);
            }
            i = i + 1;
        }
        proof {
            assert(all.take(all.len() as int) =~= all);
        }
        let separate = s.separate_sensitivity;
        s.set_separate_sensitivity(separate);
        s
    }

    /// The value of an entry, as it is written.
    fn entry_text(&self, key: IniKey, rules: &FruitRules) -> (r: String)
        requires
            self.fruit_difficulty < rules.difficulties@.len(),
        ensures
            r@ == self@.entry(key, rules),
    {
        match key {
            IniKey::SensitivityX => show_hundredths(self.sensitivity_x as u64),
            IniKey::SensitivityY => show_hundredths(self.sensitivity_y as u64),
            IniKey::SeparateSensitivity => show_flag(self.separate_sensitivity),
            IniKey::InvertY => show_flag(self.invert_y),
            IniKey::RocketLauncher => match self.weapon {
                Weapon::Stock => owned("stock"),
                Weapon::Original => owned("original"),
            },
            IniKey::Volume => show_hundredths(self.volume as u64),
            IniKey::Fullscreen => show_flag(self.fullscreen),
            IniKey::AdaptiveDelay => show_flag(self.adaptive_delay),
            IniKey::InputDelay => show(self.input_delay as u64),
            IniKey::Difficulty => {
                proof {
                    assert(rules.names()[self.fruit_difficulty as int]
                        == rules.difficulties@[self.fruit_difficulty as int]@);
                }
                rules.difficulties[self.fruit_difficulty].clone()
            },
            IniKey::Mode => if self.fruit_rounds {
                owned("rounds")
            } else {
                owned("endless")
            },
            IniKey::Soldiers => show(self.fruit_soldiers as u64),
            IniKey::Speed => show(self.fruit_speed as u64),
            IniKey::WallDistance => show(self.fruit_distance as u64),
            IniKey::Bind(a) => self.bindings.get(a).to_ini(),
        }
    }

    /// The settings as a file.
    pub fn to_ini(&self, rules: &FruitRules) -> (r: String)
        requires
            self.fruit_difficulty < rules.difficulties@.len(),
        ensures
            r@ == ini_text(self@, rules),
    {
        let keys = all_keys();
        let mut out = String::new();
        let mut i: usize = 0;
        while i < keys.len()
            invariant
                i <= keys.len(),
                keys@ == IniKey::all(),
                keys.len() == 21,
                self.fruit_difficulty < rules.difficulties@.len(),
                out@ == lines_text(ini_lines(self@, rules, i as nat)),
            decreases keys.len() - i,
        {
            let key = keys[i];
            let ghost before = ini_lines(self@, rules, i as nat);
            push_header(&mut out, key, Ghost(before));
            let value = self.entry_text(key, rules);
            let line = cat3(key.text(), " = ", value.as_str());
            let ghost lines = before + header_above(key);
            push_line(&mut out, line.as_str(), Ghost(lines));
            i = i + 1;
        }
        out
    }
}

/// One more line behind the others.
pub(crate) fn push_line(out: &mut String, line: &str, Ghost(lines): Ghost<Seq<Seq<char>>>)
    requires
        old(out)@ == lines_text(lines),
    ensures
        final(out)@ == lines_text(lines.push(line@)),
{
    out.append(line);
    out.append("\n");
    proof {
        assert(lines.push(line@).drop_last() =~= lines);
    }
}

/// The lines above an entry.
fn push_header(out: &mut String, key: IniKey, Ghost(lines): Ghost<Seq<Seq<char>>>)
    requires
        old(out)@ == lines_text(lines),
    ensures
        final(out)@ == lines_text(lines + header_above(key)),
{
    let header: (&str, &str) = match key {
        IniKey::SensitivityX => ("; endif.tf settings", "[mouse]"),
        IniKey::RocketLauncher => ("", "[loadout]"),
        IniKey::Volume => ("", "[audio]"),
        IniKey::Fullscreen => ("", "[video]"),
        IniKey::AdaptiveDelay => ("", "[network]"),
        IniKey::Difficulty => ("", "[fruit ninja]"),
        IniKey::Bind(Action::Forward) => ("", "[keys]"),
        _ => {
            proof {
                assert(lines + header_above(key) =~= lines);
            }
            return ;
        },
    };
    push_line(out, header.0, Ghost(lines));
    push_line(out, header.1, Ghost(lines.push(header.0@)));
    proof {
        assert(lines.push(header.0@).push(header.1@) =~= lines + header_above(key));
    }
}

fn show_flag(b: bool) -> (r: String)
    ensures
        r@ == flag(b),
{
    if b {
        owned("true")
    } else {
        owned("false")
    }
}

/// The entry on a line.
fn read_entry(line: &str) -> (r: Option<(IniKey, String)>)
    ensures
        match r {
            Some((key, v)) => entry_of(line@) == Some((key, v@)),
            None => entry_of(line@) is None,
        },
{
    let t = trim(line);
    let v = chars(t.as_str());
    if v.len() == 0 || v[0] == ';' || v[0] == '#' || v[0] == '[' {
        return None;
    }
    match split_once(t.as_str(), '=') {
        Some((k, v)) => {
            let k = trim(k.as_str());
            let v = trim(v.as_str());
            match find_key(k.as_str()) {
                Some(key) => Some((key, v)),
                None => None,
            }
        },
        None => None,
    }
}

impl SettingsView {
    /// Every value in its range.
    pub open spec fn in_range(self, rules: &FruitRules) -> bool {
        (SettingsView { separate_sensitivity: true, ..self }).valid(rules)
    }
}

/// An entry leaves every value in its range, whatever it says.
proof fn lemma_entry_in_range(s: SettingsView, key: IniKey, v: Seq<char>, rules: &FruitRules)
    requires
        rules.wf(),
        s.in_range(rules),
    ensures
        s.with_entry(key, v, rules).in_range(rules),
{
    lemma_index_of_range(rules.names(), v);
    assert(rules.names().len() == rules.difficulties@.len());
    lemma_settled_range(v, 2, SENS_MIN as int, SENS_MAX as int);
    lemma_settled_range(v, 2, 0, 100);
    lemma_settled_range(v, 0, 0, INPUT_DELAY_MAX as int);
    lemma_settled_range(v, 0, rules.soldiers_min as int, rules.soldiers_max as int);
    lemma_settled_range(
        v,
        -1,
        tens(rules.speed_min as nat) as int,
        tens(rules.speed_max as nat) as int,
    );
    lemma_settled_range(
        v,
        -1,
        tens(rules.distance_min as nat) as int,
        tens(rules.distance_max as nat) as int,
    );
}

pub proof fn lemma_index_of_range(names: Seq<Seq<char>>, s: Seq<char>)
    ensures
        index_of(names, s) matches Some(i) ==> 0 <= i < names.len(),
    decreases names.len(),
{
    if names.len() > 0 {
        lemma_index_of_range(names.drop_last(), s);
    }
}

// ---- what is written reads back ----

/// A character of an entry's name: a letter or an underscore.
spec fn name_char(c: char) -> bool {
    'a' <= c <= 'z' || c == '_'
}

proof fn lemma_name_plain(key: IniKey)
    ensures
        4 <= key.name().len() <= 20,
        forall|j: int| 0 <= j < key.name().len() ==> name_char(#[trigger] key.name()[j]),
{
    reveal_strlit("sensitivity_x");
    reveal_strlit("sensitivity_y");
    reveal_strlit("separate_sensitivity");
    reveal_strlit("invert_y");
    reveal_strlit("rocket_launcher");
    reveal_strlit("volume");
    reveal_strlit("fullscreen");
    reveal_strlit("adaptive_delay");
    reveal_strlit("input_delay");
    reveal_strlit("difficulty");
    reveal_strlit("mode");
    reveal_strlit("soldiers");
    reveal_strlit("speed");
    reveal_strlit("wall_distance");
    reveal_strlit("forward");
    reveal_strlit("back");
    reveal_strlit("left");
    reveal_strlit("right");
    reveal_strlit("jump");
    reveal_strlit("crouch");
    reveal_strlit("fire");
    let n = key.name();
    assert("sensitivity_x"@.len() == 13);
    assert("sensitivity_y"@.len() == 13);
    assert("separate_sensitivity"@.len() == 20);
    assert("invert_y"@.len() == 8);
    assert("rocket_launcher"@.len() == 15);
    assert("volume"@.len() == 6);
    assert("fullscreen"@.len() == 10);
    assert("adaptive_delay"@.len() == 14);
    assert("input_delay"@.len() == 11);
    assert("difficulty"@.len() == 10);
    assert("mode"@.len() == 4);
    assert("soldiers"@.len() == 8);
    assert("speed"@.len() == 5);
    assert("wall_distance"@.len() == 13);
    assert("forward"@.len() == 7);
    assert("back"@.len() == 4);
    assert("left"@.len() == 4);
    assert("right"@.len() == 5);
    assert("jump"@.len() == 4);
    assert("crouch"@.len() == 6);
    assert("fire"@.len() == 4);
    assert forall|j: int| 0 <= j < n.len() implies name_char(#[trigger] n[j]) by {
        assert(j == 0 || j == 1 || j == 2 || j == 3 || j == 4 || j == 5 || j == 6 || j == 7 || j == 8
            || j == 9 || j == 10 || j == 11 || j == 12 || j == 13 || j == 14 || j == 15 || j == 16
            || j == 17 || j == 18 || j == 19);
    }
}

/// A line `name = value` holds that entry with that value.
proof fn lemma_entry_line(key: IniKey, v: Seq<char>)
    requires
        v.len() > 0,
        !white_space(v[0]),
        !white_space(v.last()),
    ensures
        entry_of(entry_line(key, v)) == Some((key, v)),
{
    let n = key.name();
    lemma_name_plain(key);
    reveal_strlit(" = ");
    let line = entry_line(key, v);
    let a = n.push(' ');
    let b = seq![' '] + v;
    assert(line =~= a + seq!['='] + b);
    assert(name_char(n[0]) && name_char(n[n.len() - 1]));
    assert(line[0] == n[0]);
    assert(line.last() == v.last());
    assert(trimmed(line) == line);
    assert forall|j: int| 0 <= j < a.len() implies a[j] != '=' by {
        if j < n.len() {
            assert(name_char(n[j]));
        }
    }
    lemma_position_after(a, '=', b);
    assert(line.take(a.len() as int) =~= a);
    assert(line.skip(a.len() as int + 1) =~= b);
    lemma_trim_trailing_space(n, ' ');
    lemma_trim_leading_space(v, ' ');
    lemma_key_of(key);
}

/// The lines above the entries hold none.
proof fn lemma_headers(key: IniKey)
    ensures
        forall|i: int|
            0 <= i < header_above(key).len() ==> entry_of(#[trigger] header_above(key)[i]) is None
                && no_newline(header_above(key)[i]),
{
    reveal_strlit("; endif.tf settings");
    reveal_strlit("[mouse]");
    reveal_strlit("[loadout]");
    reveal_strlit("[audio]");
    reveal_strlit("[video]");
    reveal_strlit("[network]");
    reveal_strlit("[fruit ninja]");
    reveal_strlit("[keys]");
    reveal_strlit("");
    lemma_header("; endif.tf settings"@);
    lemma_header("[mouse]"@);
    lemma_header("[loadout]"@);
    lemma_header("[audio]"@);
    lemma_header("[video]"@);
    lemma_header("[network]"@);
    lemma_header("[fruit ninja]"@);
    lemma_header("[keys]"@);
    lemma_header(""@);
    let h = header_above(key);
    assert forall|i: int| 0 <= i < h.len() implies entry_of(#[trigger] h[i]) is None && no_newline(
        h[i],
    ) by {
        assert(i == 0 || i == 1);
    }
}

pub open spec fn no_newline(s: Seq<char>) -> bool {
    forall|j: int| 0 <= j < s.len() ==> #[trigger] s[j] != '\n'
}

proof fn lemma_header(s: Seq<char>)
    requires
        s.len() > 0 ==> (s[0] == ';' || s[0] == '[') && !white_space(s.last()),
        s.len() <= 19,
        s.len() > 0 ==> s[0] != '\n',
        s.len() > 1 ==> s[1] != '\n',
        s.len() > 2 ==> s[2] != '\n',
        s.len() > 3 ==> s[3] != '\n',
        s.len() > 4 ==> s[4] != '\n',
        s.len() > 5 ==> s[5] != '\n',
        s.len() > 6 ==> s[6] != '\n',
        s.len() > 7 ==> s[7] != '\n',
        s.len() > 8 ==> s[8] != '\n',
        s.len() > 9 ==> s[9] != '\n',
        s.len() > 10 ==> s[10] != '\n',
        s.len() > 11 ==> s[11] != '\n',
        s.len() > 12 ==> s[12] != '\n',
        s.len() > 13 ==> s[13] != '\n',
        s.len() > 14 ==> s[14] != '\n',
        s.len() > 15 ==> s[15] != '\n',
        s.len() > 16 ==> s[16] != '\n',
        s.len() > 17 ==> s[17] != '\n',
        s.len() > 18 ==> s[18] != '\n',
    ensures
        entry_of(s) is None,
        no_newline(s),
{
    assert(trimmed(s) == s);
}

/// The pieces between the line ends of a text made of lines are those lines.
pub proof fn lemma_lines_pieces(lines: Seq<Seq<char>>, rest: Seq<char>)
    requires
        forall|i: int| 0 <= i < lines.len() ==> no_newline(#[trigger] lines[i]),
    ensures
        pieces(lines_text(lines) + rest, '\n') == lines + pieces(rest, '\n'),
    decreases lines.len(),
{
    if lines.len() == 0 {
        assert(lines_text(lines) + rest =~= rest);
        assert(lines + pieces(rest, '\n') =~= pieces(rest, '\n'));
    } else {
        reveal_strlit("\n");
        let l = lines.last();
        let front = lines.drop_last();
        let tail = l + seq!['\n'] + rest;
        assert("\n"@ =~= seq!['\n']);
        assert(lines_text(lines) + rest =~= lines_text(front) + tail);
        assert forall|i: int| 0 <= i < front.len() implies no_newline(#[trigger] front[i]) by {
            assert(no_newline(lines[i]));
        }
        lemma_lines_pieces(front, tail);
        assert(no_newline(lines[lines.len() - 1]));
        lemma_pieces_cons(l, '\n', rest);
        assert(front + (seq![l] + pieces(rest, '\n')) =~= lines + pieces(rest, '\n'));
    }
}

/// The settings after the first `n` entries of what `s` writes.
spec fn progress(base: SettingsView, s: SettingsView, rules: &FruitRules, n: nat) -> SettingsView
    decreases n,
{
    if n == 0 {
        base
    } else {
        let key = IniKey::all()[n - 1];
        progress(base, s, rules, (n - 1) as nat).with_entry(key, s.entry(key, rules), rules)
    }
}

impl SettingsView {
    /// Whether the file can hold the settings: every key that is bound has a name that reads back.
    pub open spec fn readable(self) -> bool {
        forall|a: Action| (#[trigger] self.bindings.of(a)).readable()
    }
}

/// A value as it is written is a word on a line: not empty, no white space at its ends, no line
/// end.
proof fn lemma_entry_word(s: SettingsView, key: IniKey, rules: &FruitRules)
    requires
        rules.wf(),
        s.valid(rules),
        s.readable(),
    ensures
        s.entry(key, rules).len() > 0,
        !white_space(s.entry(key, rules)[0]),
        !white_space(s.entry(key, rules).last()),
        no_newline(s.entry(key, rules)),
{
    let v = s.entry(key, rules);
    match key {
        IniKey::SensitivityX => lemma_word_hundredths(s.sensitivity_x as nat),
        IniKey::SensitivityY => lemma_word_hundredths(s.sensitivity_y as nat),
        IniKey::Volume => lemma_word_hundredths(s.volume as nat),
        IniKey::InputDelay => lemma_word_decimal(s.input_delay as nat),
        IniKey::Soldiers => lemma_word_decimal(s.fruit_soldiers as nat),
        IniKey::Speed => lemma_word_decimal(s.fruit_speed as nat),
        IniKey::WallDistance => lemma_word_decimal(s.fruit_distance as nat),
        IniKey::Difficulty => {
            let n = rules.names()[s.fruit_difficulty];
            assert(no_newline(n)) by {
                assert forall|j: int| 0 <= j < n.len() implies #[trigger] n[j] != '\n' by {}
            }
        },
        IniKey::Bind(a) => lemma_word_binding(s.bindings.of(a)),
        _ => {
            reveal_strlit("true");
            reveal_strlit("false");
            reveal_strlit("stock");
            reveal_strlit("original");
            reveal_strlit("rounds");
            reveal_strlit("endless");
            assert("true"@.len() == 4 && "false"@.len() == 5 && "stock"@.len() == 5);
            assert("original"@.len() == 8 && "rounds"@.len() == 6 && "endless"@.len() == 7);
            assert forall|j: int| 0 <= j < v.len() implies #[trigger] v[j] != '\n' by {
                assert(j == 0 || j == 1 || j == 2 || j == 3 || j == 4 || j == 5 || j == 6 || j == 7);
            }
        },
    }
}

proof fn lemma_word_decimal(n: nat)
    ensures
        decimal(n).len() > 0,
        is_digit(decimal(n)[0]),
        is_digit(decimal(n).last()),
        no_newline(decimal(n)),
{
    lemma_decimal(n);
    let d = decimal(n);
    assert(is_digit(d[0]));
    assert(is_digit(d[d.len() - 1]));
    assert forall|j: int| 0 <= j < d.len() implies #[trigger] d[j] != '\n' by {
        assert(is_digit(d[j]));
    }
}

proof fn lemma_word_hundredths(h: nat)
    ensures
        two_decimals(h).len() > 0,
        is_digit(two_decimals(h)[0]),
        is_digit(two_decimals(h).last()),
        no_newline(two_decimals(h)),
{
    let a = decimal(h / 100);
    let b = zero_padded(decimal(h % 100), 2);
    lemma_decimal(h / 100);
    lemma_decimal(h % 100);
    lemma_decimal_len(h % 100);
    lemma_zero_padded(decimal(h % 100), 2);
    let t = two_decimals(h);
    assert(is_digit(a[0]));
    assert(is_digit(b[1]));
    assert(t[0] == a[0]);
    assert(t.last() == b[1]);
    assert forall|j: int| 0 <= j < t.len() implies #[trigger] t[j] != '\n' by {
        if j < a.len() {
            assert(is_digit(a[j]));
        } else if j > a.len() {
            assert(is_digit(b[j - a.len() - 1]));
        }
    }
}

proof fn lemma_word_binding(b: BindingView)
    requires
        b.readable(),
    ensures
        b.ini().len() > 0,
        !white_space(b.ini()[0]),
        !white_space(b.ini().last()),
        no_newline(b.ini()),
{
    reveal_strlit("key:");
    reveal_strlit("mouse:left");
    reveal_strlit("mouse:right");
    reveal_strlit("mouse:middle");
    reveal_strlit("mouse:back");
    reveal_strlit("mouse:forward");
    reveal_strlit("mouse:other:");
    assert("key:"@.len() == 4 && "mouse:other:"@.len() == 12);
    assert("mouse:left"@.len() == 10 && "mouse:right"@.len() == 11 && "mouse:middle"@.len() == 12);
    assert("mouse:back"@.len() == 10 && "mouse:forward"@.len() == 13);
    let v = b.ini();
    match b {
        BindingView::Key(name) => {
            assert(v.last() == name.last());
            assert(name[name.len() - 1] == name.last());
            assert forall|j: int| 0 <= j < v.len() implies #[trigger] v[j] != '\n' by {
                if j >= 4 {
                    assert(v[j] == name[j - 4]);
                } else {
                    assert(v[j] == "key:"@[j]);
                    assert(j == 0 || j == 1 || j == 2 || j == 3);
                }
            }
        },
        BindingView::Mouse(MouseButton::Other(n)) => {
            let d = decimal(n as nat);
            lemma_word_decimal(n as nat);
            assert(v.last() == d.last());
            assert forall|j: int| 0 <= j < v.len() implies #[trigger] v[j] != '\n' by {
                if j >= 12 {
                    assert(v[j] == d[j - 12]);
                } else {
                    assert(v[j] == "mouse:other:"@[j]);
                    assert(j == 0 || j == 1 || j == 2 || j == 3 || j == 4 || j == 5 || j == 6 || j
                        == 7 || j == 8 || j == 9 || j == 10 || j == 11);
                }
            }
        },
        _ => {
            assert forall|j: int| 0 <= j < v.len() implies #[trigger] v[j] != '\n' by {
                assert(j == 0 || j == 1 || j == 2 || j == 3 || j == 4 || j == 5 || j == 6 || j == 7
                    || j == 8 || j == 9 || j == 10 || j == 11 || j == 12);
            }
        },
    }
}

/// A binding that the file can hold reads back from its text.
pub proof fn law_binding_reads_back(b: BindingView)
    requires
        b.readable(),
    ensures
        binding_of(b.ini()) == Some(b),
{
    reveal_strlit("key:");
    reveal_strlit("mouse:");
    reveal_strlit("mouse:left");
    reveal_strlit("mouse:right");
    reveal_strlit("mouse:middle");
    reveal_strlit("mouse:back");
    reveal_strlit("mouse:forward");
    reveal_strlit("mouse:other:");
    reveal_strlit("left");
    reveal_strlit("right");
    reveal_strlit("middle");
    reveal_strlit("back");
    reveal_strlit("forward");
    reveal_strlit("other:");
    let v = b.ini();
    match b {
        BindingView::Key(name) => {
            assert(v.subrange(0, 4) =~= "key:"@);
            assert(v.skip(4) =~= name);
        },
        BindingView::Mouse(m) => {
            assert(v[0] == 'm');
            assert("key:"@[0] == 'k');
            assert(starts(v, "key:"@) ==> v.subrange(0, 4)[0] == 'm');
            assert("mouse:"@.len() == 6);
            assert(v.subrange(0, 6) =~= "mouse:"@);
            let t = v.skip(6);
            assert("left"@.len() == 4 && "left"@[0] == 'l');
            assert("right"@.len() == 5 && "middle"@.len() == 6 && "forward"@.len() == 7);
            assert("back"@.len() == 4 && "back"@[0] == 'b');
            match m {
                MouseButton::Left => assert(t =~= "left"@),
                MouseButton::Right => assert(t =~= "right"@),
                MouseButton::Middle => assert(t =~= "middle"@),
                MouseButton::Back => assert(t =~= "back"@),
                MouseButton::Forward => assert(t =~= "forward"@),
                MouseButton::Other(n) => {
                    let d = decimal(n as nat);
                    assert("other:"@.len() == 6);
                    assert(t =~= "other:"@ + d);
                    lemma_decimal(n as nat);
                    assert(t[0] == 'o');
                    assert("right"@[0] == 'r' && "middle"@[0] == 'm' && "forward"@[0] == 'f');
                    assert(t.subrange(0, 6) =~= "other:"@);
                    assert(t.skip(6) =~= d);
                    lemma_unsigned_decimal(n as nat, u16::MAX as nat);
                },
            }
        },
    }
}

impl SettingsView {
    /// The settings with the one of an entry taken over from `s`.
    #[verifier::opaque]
    spec fn carried(self, s: SettingsView, key: IniKey) -> SettingsView {
        match key {
            IniKey::SensitivityX => SettingsView { sensitivity_x: s.sensitivity_x, ..self },
            IniKey::SensitivityY => SettingsView { sensitivity_y: s.sensitivity_y, ..self },
            IniKey::SeparateSensitivity => SettingsView {
                separate_sensitivity: s.separate_sensitivity,
                ..self
            },
            IniKey::InvertY => SettingsView { invert_y: s.invert_y, ..self },
            IniKey::RocketLauncher => SettingsView { weapon: s.weapon, ..self },
            IniKey::Volume => SettingsView { volume: s.volume, ..self },
            IniKey::Fullscreen => SettingsView { fullscreen: s.fullscreen, ..self },
            IniKey::AdaptiveDelay => SettingsView { adaptive_delay: s.adaptive_delay, ..self },
            IniKey::InputDelay => SettingsView { input_delay: s.input_delay, ..self },
            IniKey::Difficulty => SettingsView { fruit_difficulty: s.fruit_difficulty, ..self },
            IniKey::Mode => SettingsView { fruit_rounds: s.fruit_rounds, ..self },
            IniKey::Soldiers => SettingsView { fruit_soldiers: s.fruit_soldiers, ..self },
            IniKey::Speed => SettingsView { fruit_speed: s.fruit_speed, ..self },
            IniKey::WallDistance => SettingsView { fruit_distance: s.fruit_distance, ..self },
            IniKey::Bind(a) => SettingsView {
                bindings: self.bindings.with(a, s.bindings.of(a)),
                ..self
            },
        }
    }

    /// Whether the setting of an entry is the same as in `s`.
    #[verifier::opaque]
    spec fn agrees(self, s: SettingsView, key: IniKey) -> bool {
        match key {
            IniKey::SensitivityX => self.sensitivity_x == s.sensitivity_x,
            IniKey::SensitivityY => self.sensitivity_y == s.sensitivity_y,
            IniKey::SeparateSensitivity => self.separate_sensitivity == s.separate_sensitivity,
            IniKey::InvertY => self.invert_y == s.invert_y,
            IniKey::RocketLauncher => self.weapon == s.weapon,
            IniKey::Volume => self.volume == s.volume,
            IniKey::Fullscreen => self.fullscreen == s.fullscreen,
            IniKey::AdaptiveDelay => self.adaptive_delay == s.adaptive_delay,
            IniKey::InputDelay => self.input_delay == s.input_delay,
            IniKey::Difficulty => self.fruit_difficulty == s.fruit_difficulty,
            IniKey::Mode => self.fruit_rounds == s.fruit_rounds,
            IniKey::Soldiers => self.fruit_soldiers == s.fruit_soldiers,
            IniKey::Speed => self.fruit_speed == s.fruit_speed,
            IniKey::WallDistance => self.fruit_distance == s.fruit_distance,
            IniKey::Bind(a) => self.bindings.of(a) == s.bindings.of(a),
        }
    }
}

/// Reading back an entry that `s` wrote sets that setting to what it is in `s`.
proof fn lemma_entry_reads_back(
    base: SettingsView,
    s: SettingsView,
    key: IniKey,
    rules: &FruitRules,
)
    requires
        rules.wf(),
        s.valid(rules),
        s.readable(),
    ensures
        base.with_entry(key, s.entry(key, rules), rules) == base.carried(s, key),
{
    reveal(SettingsView::carried);
    match key {
        IniKey::SensitivityX => lemma_settled_hundredths(
            s.sensitivity_x as nat,
            SENS_MIN as int,
            SENS_MAX as int,
        ),
        IniKey::SensitivityY => lemma_settled_hundredths(
            s.sensitivity_y as nat,
            SENS_MIN as int,
            SENS_MAX as int,
        ),
        IniKey::Volume => lemma_settled_hundredths(s.volume as nat, 0, 100),
        IniKey::InputDelay => {
            lemma_shifted_round_tens(s.input_delay as nat);
            lemma_settled_whole(s.input_delay as nat, 0, 0, INPUT_DELAY_MAX as int);
        },
        IniKey::Soldiers => {
            lemma_shifted_round_tens(s.fruit_soldiers as nat);
            lemma_settled_whole(
                s.fruit_soldiers as nat,
                0,
                rules.soldiers_min as int,
                rules.soldiers_max as int,
            );
        },
        IniKey::Speed => {
            lemma_shifted_round_tens(s.fruit_speed as nat);
            lemma_settled_whole(
                s.fruit_speed as nat,
                -1,
                tens(rules.speed_min as nat) as int,
                tens(rules.speed_max as nat) as int,
            );
        },
        IniKey::WallDistance => {
            lemma_shifted_round_tens(s.fruit_distance as nat);
            lemma_settled_whole(
                s.fruit_distance as nat,
                -1,
                tens(rules.distance_min as nat) as int,
                tens(rules.distance_max as nat) as int,
            );
        },
        IniKey::Difficulty => lemma_index_of(rules.names(), s.fruit_difficulty),
        IniKey::Bind(a) => law_binding_reads_back(s.bindings.of(a)),
        IniKey::RocketLauncher => {
            reveal_strlit("stock");
            reveal_strlit("original");
            assert("stock"@.len() == 5 && "original"@.len() == 8);
            assert("stock"@.map_values(|c: char| ascii_lower(c)).len() == 5);
            assert("original"@.map_values(|c: char| ascii_lower(c)).len() == 8);
        },
        IniKey::Mode => {
            reveal_strlit("rounds");
            reveal_strlit("endless");
            assert("rounds"@.len() == 6 && "endless"@.len() == 7);
            assert("rounds"@.map_values(|c: char| ascii_lower(c)).len() == 6);
            assert("endless"@.map_values(|c: char| ascii_lower(c)).len() == 7);
        },
        _ => {
            reveal_strlit("true");
            reveal_strlit("false");
            reveal_strlit("1");
            reveal_strlit("yes");
            assert("true"@.len() == 4 && "false"@.len() == 5 && "1"@.len() == 1 && "yes"@.len()
                == 3);
        },
    }
}

/// The lines that `s` writes take `base` to `progress`.
proof fn lemma_lines_progress(base: SettingsView, s: SettingsView, rules: &FruitRules, n: nat)
    requires
        rules.wf(),
        s.valid(rules),
        s.readable(),
        n <= 21,
    ensures
        base.with_lines(ini_lines(s, rules, n), rules) == progress(base, s, rules, n),
        forall|i: int|
            0 <= i < ini_lines(s, rules, n).len() ==> no_newline(
                #[trigger] ini_lines(s, rules, n)[i],
            ),
    decreases n,
{
    if n > 0 {
        let m = (n - 1) as nat;
        lemma_lines_progress(base, s, rules, m);
        let key = IniKey::all()[n - 1];
        let before = ini_lines(s, rules, m);
        let header = header_above(key);
        let v = s.entry(key, rules);
        let line = entry_line(key, v);
        lemma_headers(key);
        lemma_entry_word(s, key, rules);
        lemma_entry_line(key, v);
        lemma_with_headers(base, before, header, rules);
        let all = ini_lines(s, rules, n);
        assert(all.drop_last() =~= before + header);
        assert(all.last() == line);
        assert forall|i: int| 0 <= i < all.len() implies no_newline(#[trigger] all[i]) by {
            if i < before.len() {
                assert(all[i] == before[i]);
            } else if i < before.len() + header.len() {
                assert(all[i] == header[i - before.len()]);
            } else {
                assert(all[i] == line);
                lemma_name_plain(key);
                reveal_strlit(" = ");
                let name = key.name();
                assert forall|j: int| 0 <= j < line.len() implies #[trigger] line[j] != '\n' by {
                    if j < name.len() {
                        assert(line[j] == name[j]);
                        assert(name_char(name[j]));
                    } else if j < name.len() + 3 {
                        let k = j - name.len();
                        assert(line[j] == " = "@[k]);
                        assert(k == 0 || k == 1 || k == 2);
                    } else {
                        assert(line[j] == v[j - name.len() - 3]);
                    }
                }
            }
        }
    }
}

proof fn lemma_with_headers(
    base: SettingsView,
    lines: Seq<Seq<char>>,
    header: Seq<Seq<char>>,
    rules: &FruitRules,
)
    requires
        forall|i: int| 0 <= i < header.len() ==> entry_of(#[trigger] header[i]) is None,
    ensures
        base.with_lines(lines + header, rules) == base.with_lines(lines, rules),
    decreases header.len(),
{
    if header.len() == 0 {
        assert(lines + header =~= lines);
    } else {
        let all = lines + header;
        assert(all.drop_last() =~= lines + header.drop_last());
        assert(all.last() == header[header.len() - 1]);
        lemma_with_headers(base, lines, header.drop_last(), rules);
    }
}

/// Saved settings load back as they were: reading the file that a set of valid settings wrote gives
/// those settings. Every bound key has to have a name of its own; a key that the platform could not
/// identify has none and falls back to its default binding.
pub proof fn law_settings_round_trip(s: SettingsView, rules: &FruitRules, web: bool)
    requires
        rules.wf(),
        s.valid(rules),
        s.readable(),
    ensures
        ini_settings(ini_text(s, rules), rules, web) == s,
{
    let base = SettingsView::initial(rules, web);
    let lines = ini_lines(s, rules, 21);
    lemma_lines_progress(base, s, rules, 21);
    let none = Seq::<char>::empty();
    lemma_lines_pieces(lines, none);
    assert(ini_text(s, rules) + none =~= ini_text(s, rules));
    assert(pieces(none, '\n') =~= seq![none]);
    let all = pieces(ini_text(s, rules), '\n');
    assert(all =~= lines.push(none));
    assert(all.drop_last() =~= lines);
    assert(entry_of(none) is None) by {
        assert(trimmed(none) == none);
    }
    lemma_progress_done(base, s, rules);
}

/// Taking over a setting makes it agree, and the others that agree still do.
proof fn lemma_agreement_stays(p: SettingsView, s: SettingsView, done: IniKey, key: IniKey)
    requires
        p.agrees(s, done) || done == key,
    ensures
        p.carried(s, key).agrees(s, done),
{
    reveal(SettingsView::carried);
    reveal(SettingsView::agrees);
}

/// Every entry that was read back agrees.
proof fn lemma_progress_agrees(
    base: SettingsView,
    s: SettingsView,
    rules: &FruitRules,
    n: nat,
    k: int,
)
    requires
        rules.wf(),
        s.valid(rules),
        s.readable(),
        0 <= k < n,
    ensures
        progress(base, s, rules, n).agrees(s, IniKey::all()[k]),
    decreases n,
{
    let before = progress(base, s, rules, (n - 1) as nat);
    let key = IniKey::all()[n - 1];
    lemma_entry_reads_back(before, s, key, rules);
    assert(progress(base, s, rules, n) == before.carried(s, key));
    if k < n - 1 {
        lemma_progress_agrees(base, s, rules, (n - 1) as nat, k);
    }
    lemma_agreement_stays(before, s, IniKey::all()[k], key);
}

/// Settings that agree in every entry are the same.
proof fn lemma_agreeing_equal(p: SettingsView, s: SettingsView)
    requires
        forall|key: IniKey| #[trigger] p.agrees(s, key),
    ensures
        p == s,
{
    reveal(SettingsView::agrees);
    assert(p.agrees(s, IniKey::SensitivityX) && p.agrees(s, IniKey::SensitivityY));
    assert(p.agrees(s, IniKey::SeparateSensitivity) && p.agrees(s, IniKey::InvertY));
    assert(p.agrees(s, IniKey::RocketLauncher) && p.agrees(s, IniKey::Volume));
    assert(p.agrees(s, IniKey::Fullscreen) && p.agrees(s, IniKey::AdaptiveDelay));
    assert(p.agrees(s, IniKey::InputDelay) && p.agrees(s, IniKey::Difficulty));
    assert(p.agrees(s, IniKey::Mode) && p.agrees(s, IniKey::Soldiers));
    assert(p.agrees(s, IniKey::Speed) && p.agrees(s, IniKey::WallDistance));
    assert forall|a: Action| p.bindings.of(a) == #[trigger] s.bindings.of(a) by {
        assert(p.agrees(s, IniKey::Bind(a)));
    }
    let (b, c) = (p.bindings, s.bindings);
    assert(b.of(Action::Forward) == c.of(Action::Forward));
    assert(b.of(Action::Back) == c.of(Action::Back));
    assert(b.of(Action::Left) == c.of(Action::Left));
    assert(b.of(Action::Right) == c.of(Action::Right));
    assert(b.of(Action::Jump) == c.of(Action::Jump));
    assert(b.of(Action::Crouch) == c.of(Action::Crouch));
    assert(b.of(Action::Fire) == c.of(Action::Fire));
}

proof fn lemma_progress_done(base: SettingsView, s: SettingsView, rules: &FruitRules)
    requires
        rules.wf(),
        s.valid(rules),
        s.readable(),
    ensures
        progress(base, s, rules, 21) == s,
{
    let p = progress(base, s, rules, 21);
    assert forall|key: IniKey| #[trigger] p.agrees(s, key) by {
        lemma_all_keys(key);
        let j = choose|j: int| 0 <= j < IniKey::all().len() && IniKey::all()[j] == key;
        lemma_progress_agrees(base, s, rules, 21, j);
    }
    lemma_agreeing_equal(p, s);
}

/// Each action is bound by the field of its name.
pub proof fn law_each_action_has_its_binding(b: BindingsView, new: BindingView)
    ensures
        b.of(Action::Forward) == b.forward,
        b.of(Action::Back) == b.back,
        b.of(Action::Left) == b.left,
        b.of(Action::Right) == b.right,
        b.of(Action::Jump) == b.jump,
        b.of(Action::Crouch) == b.crouch,
        b.of(Action::Fire) == b.fire,
        b.with(Action::Forward, new) == (BindingsView { forward: new, ..b }),
        b.with(Action::Back, new) == (BindingsView { back: new, ..b }),
        b.with(Action::Left, new) == (BindingsView { left: new, ..b }),
        b.with(Action::Right, new) == (BindingsView { right: new, ..b }),
        b.with(Action::Jump, new) == (BindingsView { jump: new, ..b }),
        b.with(Action::Crouch, new) == (BindingsView { crouch: new, ..b }),
        b.with(Action::Fire, new) == (BindingsView { fire: new, ..b }),
{
}

/// Every action is listed once.
pub proof fn law_every_action_is_listed(a: Action)
    ensures
        exists|i: int| 0 <= i < 7 && #[trigger] Action::all()[i] == a,
        Action::all().len() == 7,
        Action::all().no_duplicates(),
{
    assert(Action::all()[0] == Action::Forward);
    assert(Action::all()[1] == Action::Back);
    assert(Action::all()[2] == Action::Left);
    assert(Action::all()[3] == Action::Right);
    assert(Action::all()[4] == Action::Jump);
    assert(Action::all()[5] == Action::Crouch);
    assert(Action::all()[6] == Action::Fire);
}

/// A slider sets the value that it shows and no other; the two axes of the mouse go together only
/// while they are locked.
pub proof fn law_each_slider_has_its_value(s: SettingsView, v: int)
    ensures
        s.value(Slider::Sens(Axis::X)) == s.sensitivity_x,
        s.value(Slider::Sens(Axis::Y)) == s.sensitivity_y,
        s.value(Slider::Volume) == s.volume,
        s.value(Slider::InputDelay) == s.input_delay,
        s.value(Slider::Soldiers) == s.fruit_soldiers,
        s.value(Slider::Speed) == s.fruit_speed,
        s.value(Slider::WallDistance) == s.fruit_distance,
        s.with_value(Slider::Volume, v) == (SettingsView { volume: v, ..s }),
        s.with_value(Slider::InputDelay, v) == (SettingsView { input_delay: v, ..s }),
        s.with_value(Slider::Soldiers, v) == (SettingsView { fruit_soldiers: v, ..s }),
        s.with_value(Slider::Speed, v) == (SettingsView { fruit_speed: v, ..s }),
        s.with_value(Slider::WallDistance, v) == (SettingsView { fruit_distance: v, ..s }),
        s.separate_sensitivity ==> s.with_value(Slider::Sens(Axis::X), v) == (SettingsView {
            sensitivity_x: v,
            ..s
        }) && s.with_value(Slider::Sens(Axis::Y), v) == (SettingsView { sensitivity_y: v, ..s }),
        !s.separate_sensitivity ==> s.with_value(Slider::Sens(Axis::X), v) == (SettingsView {
            sensitivity_x: v,
            sensitivity_y: v,
            ..s
        }),
        s.with_value(Slider::Sens(Axis::Y), v).volume == s.volume,
{
}

/// A slider keeps its value in the range that it shows, and reads back what it took.
pub proof fn law_a_slider_stays_in_its_range(slider: Slider, v: Number, s: SettingsView, rules: &FruitRules)
    requires
        rules.wf(),
    ensures
        slider.stepped(v, rules) is None <==> v is NotANumber,
        slider.stepped(v, rules) matches Some(n) ==> s.with_value(slider, n).value(slider) == n && (
        slider.places() != -1 ==> slider.bounds(rules).0 <= n <= slider.bounds(rules).1) && (
        slider.places() == -1 ==> n % 10 == 0 && 2 * n >= 2 * slider.bounds(rules).0 - 10 && 2 * n
            <= 2 * slider.bounds(rules).1 + 10),
        slider matches Slider::Sens(_) ==> slider.bounds(rules) == (10int, 1000int),
        slider == Slider::Volume ==> slider.bounds(rules) == (0int, 100int),
        slider == Slider::InputDelay ==> slider.bounds(rules) == (0int, 8int),
        slider == Slider::Soldiers ==> slider.bounds(rules) == (
            rules.soldiers_min as int,
            rules.soldiers_max as int,
        ),
        slider == Slider::Speed ==> slider.bounds(rules) == (
            rules.speed_min as int,
            rules.speed_max as int,
        ),
        slider == Slider::WallDistance ==> slider.bounds(rules) == (
            rules.distance_min as int,
            rules.distance_max as int,
        ),
{
}

/// A number of frames in milliseconds, to the nearest one, at 67 frames a second.
pub proof fn law_how_long_frames_last(frames: nat)
    ensures
        -134 <= 2 * (1000 * frames * 2 - 134 * ticks_in_ms(frames)) <= 134,
        ticks_in_ms(0) == 0,
        ticks_in_ms(67) == 1000,
        ticks_in_ms(frames) <= ticks_in_ms(frames + 1),
{
}

/// A flag follows the words for yes and for no and keeps what it was on any other.
pub proof fn law_what_a_flag_says(v: Seq<char>, before: bool)
    ensures
        v == "true"@ || v == "1"@ || v == "yes"@ ==> flag_after(v, before),
        v == "false"@ || v == "0"@ || v == "no"@ ==> !flag_after(v, before),
        v != "true"@ && v != "1"@ && v != "yes"@ && v != "false"@ && v != "0"@ && v != "no"@
            ==> flag_after(v, before) == before,
{
    reveal_strlit("true");
    reveal_strlit("1");
    reveal_strlit("yes");
    reveal_strlit("false");
    reveal_strlit("0");
    reveal_strlit("no");
    assert("true"@[0] == 't');
    assert("1"@[0] == '1');
    assert("yes"@[0] == 'y');
    assert("false"@[0] == 'f');
    assert("0"@[0] == '0');
    assert("no"@[0] == 'n');
}

/// An entry of the file sets its own setting and leaves every other as it was.
pub proof fn law_an_entry_sets_its_own_setting(
    s: SettingsView,
    key: IniKey,
    v: Seq<char>,
    rules: &FruitRules,
)
    ensures
        ({
            let t = s.with_entry(key, v, rules);
            &&& key != IniKey::SensitivityX ==> t.sensitivity_x == s.sensitivity_x
            &&& key != IniKey::SensitivityY ==> t.sensitivity_y == s.sensitivity_y
            &&& key != IniKey::SeparateSensitivity ==> t.separate_sensitivity
                == s.separate_sensitivity
            &&& key != IniKey::InvertY ==> t.invert_y == s.invert_y
            &&& key != IniKey::RocketLauncher ==> t.weapon == s.weapon
            &&& key != IniKey::Volume ==> t.volume == s.volume
            &&& key != IniKey::Fullscreen ==> t.fullscreen == s.fullscreen
            &&& key != IniKey::AdaptiveDelay ==> t.adaptive_delay == s.adaptive_delay
            &&& key != IniKey::InputDelay ==> t.input_delay == s.input_delay
            &&& key != IniKey::Difficulty ==> t.fruit_difficulty == s.fruit_difficulty
            &&& key != IniKey::Mode ==> t.fruit_rounds == s.fruit_rounds
            &&& key != IniKey::Soldiers ==> t.fruit_soldiers == s.fruit_soldiers
            &&& key != IniKey::Speed ==> t.fruit_speed == s.fruit_speed
            &&& key != IniKey::WallDistance ==> t.fruit_distance == s.fruit_distance
            &&& !(key is Bind) ==> t.bindings == s.bindings
            &&& key matches IniKey::Bind(a) ==> (forall|o: Action|
                o != a ==> #[trigger] t.bindings.of(o) == s.bindings.of(o))
        }),
{
}

/// A binding's name in the settings: the bare key for letters and digits, the numbered button for
/// the mouse.
pub proof fn law_how_a_binding_is_called(c: char, n: u16)
    ensures
        BindingView::Mouse(MouseButton::Left).label() == "Mouse 1"@,
        BindingView::Mouse(MouseButton::Right).label() == "Mouse 2"@,
        BindingView::Mouse(MouseButton::Middle).label() == "Mouse 3"@,
        BindingView::Mouse(MouseButton::Back).label() == "Mouse 4"@,
        BindingView::Mouse(MouseButton::Forward).label() == "Mouse 5"@,
        BindingView::Mouse(MouseButton::Other(n)).label() == "Mouse "@ + decimal(
            (n + 1) as nat,
        ),
        BindingView::Key("Key"@ + seq![c]).label() == seq![c],
        BindingView::Key("Digit"@ + seq![c]).label() == seq![c],
{
    reveal_strlit("Key");
    reveal_strlit("Digit");
    reveal_strlit("ControlLeft");
    reveal_strlit("ControlRight");
    reveal_strlit("ShiftLeft");
    reveal_strlit("ShiftRight");
    reveal_strlit("AltLeft");
    reveal_strlit("AltRight");
    reveal_strlit("ArrowUp");
    reveal_strlit("ArrowDown");
    reveal_strlit("ArrowLeft");
    reveal_strlit("ArrowRight");
    let a = "Key"@ + seq![c];
    let b = "Digit"@ + seq![c];
    assert(a.subrange(0, 3) =~= "Key"@);
    assert(a.skip(3) =~= seq![c]);
    assert(b.subrange(0, 5) =~= "Digit"@);
    assert(b.skip(5) =~= seq![c]);
    assert(b.subrange(0, 3)[0] == 'D');
    assert("Key"@[0] == 'K');
    assert(!starts(b, "Key"@));
}

/// What a fresh start has: the sensitivity locked at two and a half, three quarters of the volume,
/// the delay picked by the game, the stock launcher, endless play, and the usual keys.
pub proof fn law_what_a_fresh_start_has(rules: &FruitRules, web: bool)
    ensures
        ({
            let s = SettingsView::initial(rules, web);
            &&& s.sensitivity_x == 250 && s.sensitivity_y == 250 && !s.separate_sensitivity
            &&& s.volume == 75 && s.input_delay == 2 && s.adaptive_delay
            &&& !s.invert_y && !s.fullscreen && s.weapon == Weapon::Stock && !s.fruit_rounds
            &&& s.fruit_difficulty == rules.difficulty && s.fruit_soldiers == rules.soldiers
            &&& s.fruit_speed == rules.speed && s.fruit_distance == rules.distance
            &&& s.bindings.forward == BindingView::Key("KeyW"@)
            &&& s.bindings.back == BindingView::Key("KeyS"@)
            &&& s.bindings.left == BindingView::Key("KeyA"@)
            &&& s.bindings.right == BindingView::Key("KeyD"@)
            &&& s.bindings.jump == BindingView::Key("Space"@)
            &&& s.bindings.fire == BindingView::Mouse(MouseButton::Left)
            &&& web ==> s.bindings.crouch == BindingView::Key("ShiftLeft"@)
            &&& !web ==> s.bindings.crouch == BindingView::Key("ControlLeft"@)
        }),
{
}

/// A line of the file is an entry unless it is blank, a comment, a heading, or has no equals sign;
/// the lines count in order.
pub proof fn law_which_lines_count(s: SettingsView, lines: Seq<Seq<char>>, line: Seq<char>, rules: &FruitRules)
    ensures
        ({
            let t = trimmed(line);
            &&& t.len() == 0 || t[0] == ';' || t[0] == '#' || t[0] == '[' ==> entry_of(line) is None
            &&& position(t, '=') >= t.len() ==> entry_of(line) is None
            &&& entry_of(line) matches Some((_, v)) ==> v == trimmed(
                t.skip(position(t, '=') + 1),
            )
        }),
        entry_of(line) is None ==> s.with_lines(lines.push(line), rules) == s.with_lines(
            lines,
            rules,
        ),
        entry_of(line) matches Some((key, v)) ==> s.with_lines(lines.push(line), rules)
            == s.with_lines(lines, rules).with_entry(key, v, rules),
        s.with_lines(Seq::empty(), rules) == s,
{
    assert(lines.push(line).drop_last() =~= lines);
}

/// The mode of play and the launcher are read by their names, in whatever case.
pub proof fn law_how_modes_are_read(v: Seq<char>, before: bool, s: SettingsView, rules: &FruitRules)
    ensures
        same_ignoring_case(v, "rounds"@) ==> rounds_after(v, before),
        !same_ignoring_case(v, "rounds"@) && same_ignoring_case(v, "endless"@) ==> !rounds_after(
            v,
            before,
        ),
        !same_ignoring_case(v, "rounds"@) && !same_ignoring_case(v, "endless"@) ==> rounds_after(
            v,
            before,
        ) == before,
        s.with_entry(IniKey::RocketLauncher, v, rules).weapon == Weapon::Original
            <==> same_ignoring_case(v, "original"@),
{
}

} // verus!
