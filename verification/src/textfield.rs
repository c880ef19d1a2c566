//! Single-line text fields for the account forms and the anonymous name box: click to focus, type,
//! Backspace, Tab / Shift+Tab to move between the fields on screen, Enter submits the form (Esc is
//! left to the menu, which goes back a screen). Password fields show `*`s, with an eye button that
//! reveals the text while it is held. Values live in the [`Form`] so they survive the screen being
//! rebuilt.

use vstd::prelude::*;
use vstd::string::*;

use crate::text::{chars, control, is_digit, opt, owned, string_of, white_space};

verus! {

/// Longest display name (anonymous or account).
pub const NAME_MAX: usize = 20;

#[derive(Clone, Copy, Debug, PartialEq, Eq, Structural)]
pub enum Field {
    /// Username or e-mail, on the login screen.
    Login,
    Email,
    Username,
    NewUsername,
    CurrentPassword,
    Password,
    /// Confirmation of `Password`.
    Password2,
    /// The 6 digit e-mail code.
    Code,
    /// The name used while not logged in.
    AnonName,
    /// Opponent filter above the profile's match history.
    HistorySearch,
}

impl Field {
    /// Place in the tab order.
    pub open spec fn order(self) -> int {
        match self {
            Field::Login => 0,
            Field::Email => 1,
            Field::Username => 2,
            Field::NewUsername => 3,
            Field::CurrentPassword => 4,
            Field::Password => 5,
            Field::Password2 => 6,
            Field::Code => 7,
            Field::AnonName => 8,
            Field::HistorySearch => 9,
        }
    }

    fn index(self) -> (r: usize)
        ensures
            r == self.order(),
            r < 10,
    {
        match self {
            Field::Login => 0,
            Field::Email => 1,
            Field::Username => 2,
            Field::NewUsername => 3,
            Field::CurrentPassword => 4,
            Field::Password => 5,
            Field::Password2 => 6,
            Field::Code => 7,
            Field::AnonName => 8,
            Field::HistorySearch => 9,
        }
    }

    /// Every field, in tab order.
    pub open spec fn all() -> Seq<Field> {
        seq![
            Field::Login,
            Field::Email,
            Field::Username,
            Field::NewUsername,
            Field::CurrentPassword,
            Field::Password,
            Field::Password2,
            Field::Code,
            Field::AnonName,
            Field::HistorySearch,
        ]
    }

    fn list() -> (r: Vec<Field>)
        ensures
            r@ == Field::all(),
    {
        let r = vec![
            Field::Login,
            Field::Email,
            Field::Username,
            Field::NewUsername,
            Field::CurrentPassword,
            Field::Password,
            Field::Password2,
            Field::Code,
            Field::AnonName,
            Field::HistorySearch,
        ];
        proof {
            assert(r@ =~= Field::all());
        }
        r
    }

    /// Whether the field hides what is typed.
    pub open spec fn secret(self) -> bool {
        self == Field::CurrentPassword || self == Field::Password || self == Field::Password2
    }

    pub fn masked(self) -> (r: bool)
        ensures
            r == self.secret(),
    {
        matches!(self, Field::CurrentPassword | Field::Password | Field::Password2)
    }

    /// Most characters the field holds.
    pub open spec fn room(self) -> nat {
        match self {
            Field::Code => 6,
            Field::AnonName => NAME_MAX as nat,
            Field::Username | Field::NewUsername | Field::HistorySearch => 20,
            Field::Login | Field::Email => 254,
            _ => 128,
        }
    }

    pub fn max_len(self) -> (r: usize)
        ensures
            r == self.room(),
    {
        match self {
            Field::Code => 6,
            Field::AnonName => NAME_MAX,
            Field::Username | Field::NewUsername | Field::HistorySearch => 20,
            Field::Login | Field::Email => 254,
            _ => 128,
        }
    }

    /// Characters the field accepts.
    pub open spec fn takes(self, c: char) -> bool {
        match self {
            Field::Code => is_digit(c),
            Field::Login | Field::Email => !white_space(c) && !control(c),
            Field::Username | Field::NewUsername => {
                ||| 'a' <= c <= 'z'
                ||| 'A' <= c <= 'Z'
                ||| is_digit(c)
                ||| c == '_'
                ||| c == '-'
                ||| c == '.'
            },
            _ => !control(c),
        }
    }

    /// Characters the field accepts.
    pub fn accepts(self, c: char) -> (r: bool)
        ensures
            r == self.takes(c),
    {
        match self {
            Field::Code => '0' <= c && c <= '9',
            Field::Login | Field::Email => !c.is_whitespace() && !c.is_control(),
            Field::Username | Field::NewUsername => ('a' <= c && c <= 'z') || ('A' <= c && c <= 'Z')
                || ('0' <= c && c <= '9') || c == '_' || c == '-' || c == '.',
            _ => !c.is_control(),
        }
    }
}

/// What the fields hold, and which of them has the keyboard.
pub struct Form {
    pub values: Vec<Option<String>>,
    pub focus: Option<Field>,
    pub submitted: bool,
    /// The password field whose eye button is held down.
    pub revealed: Option<Field>,
}

#[verifier::ext_equal]
pub struct FormView {
    pub values: Map<Field, Seq<char>>,
    pub focus: Option<Field>,
    pub submitted: bool,
    pub revealed: Option<Field>,
}

impl View for Form {
    type V = FormView;

    open spec fn view(&self) -> FormView {
        FormView {
            values: Map::new(
                |f: Field| opt(self.values@[f.order()]) is Some,
                |f: Field| opt(self.values@[f.order()])->0,
            ),
            focus: self.focus,
            submitted: self.submitted,
            revealed: self.revealed,
        }
    }
}

impl FormView {
    pub open spec fn value(self, f: Field) -> Seq<char> {
        if self.values.dom().contains(f) {
            self.values[f]
        } else {
            Seq::empty()
        }
    }

    pub open spec fn with(self, f: Field, v: Seq<char>) -> FormView {
        FormView { values: self.values.insert(f, v), ..self }
    }

    pub open spec fn without(self, f: Field) -> FormView {
        FormView { values: self.values.remove(f), ..self }
    }

    pub open spec fn without_secrets(self) -> FormView {
        self.without(Field::CurrentPassword).without(Field::Password).without(Field::Password2)
    }
}

/// `value` with the accepted characters of `text` behind it, as far as there is room.
pub open spec fn typed(field: Field, value: Seq<char>, text: Seq<char>) -> Seq<char>
    decreases text.len(),
{
    if text.len() == 0 {
        value
    } else {
        let before = typed(field, value, text.drop_last());
        if field.takes(text.last()) && before.len() < field.room() {
            before.push(text.last())
        } else {
            before
        }
    }
}

/// Whether a field can hold a text.
pub open spec fn fits(field: Field, value: Seq<char>) -> bool {
    &&& value.len() <= field.room()
    &&& forall|i: int| 0 <= i < value.len() ==> field.takes(#[trigger] value[i])
}

/// Typing never puts into a field what it does not accept, nor more than it has room for, and keeps
/// what was there.
pub proof fn law_typing_fits(field: Field, value: Seq<char>, text: Seq<char>)
    requires
        fits(field, value),
    ensures
        fits(field, typed(field, value, text)),
        value.is_prefix_of(typed(field, value, text)),
    decreases text.len(),
{
    if text.len() > 0 {
        law_typing_fits(field, value, text.drop_last());
    }
}

impl Form {
    pub open spec fn wf(&self) -> bool {
        self.values@.len() == 10
    }

    pub fn new() -> (r: Form)
        ensures
            r.wf(),
            r@ == (FormView {
                values: Map::empty(),
                focus: None,
                submitted: false,
                revealed: None,
            }),
    {
        let mut values: Vec<Option<String>> = Vec::new();
        while values.len() < 10
            invariant
                values.len() <= 10,
                forall|i: int| 0 <= i < values@.len() ==> values@[i] is None,
            decreases 10 - values.len(),
        {
            values.push(None);
        }
        let r = Form { values, focus: None, submitted: false, revealed: None };
        proof {
            assert(r@.values =~= Map::<Field, Seq<char>>::empty());
        }
        r
    }

    pub fn get(&self, f: Field) -> (r: &str)
        requires
            self.wf(),
        ensures
            r@ == self@.value(f),
    {
        match &self.values[f.index()] {
            Some(s) => s.as_str(),
            None => {
                proof {
                    reveal_strlit("");
                    assert(""@ =~= Seq::<char>::empty());
                }
                ""
            },
        }
    }

    pub fn set(&mut self, f: Field, value: String)
        requires
            old(self).wf(),
        ensures
            final(self).wf(),
            final(self)@ == old(self)@.with(f, value@),
    {
        let ghost before = self@;
        let i = f.index();
        self.values.set(i, Some(value));
        proof {
            assert forall|g: Field| g != f implies g.order() != f.order() by {}
            assert(self@.values =~= before.values.insert(f, value@));
        }
    }

    pub fn clear(&mut self, f: Field)
        requires
            old(self).wf(),
        ensures
            final(self).wf(),
            final(self)@ == old(self)@.without(f),
    {
        let ghost before = self@;
        let i = f.index();
        self.values.set(i, None);
        proof {
            assert forall|g: Field| g != f implies g.order() != f.order() by {}
            assert(self@.values =~= before.values.remove(f));
        }
    }

    /// Drops every password field (after logging in, when leaving a form).
    pub fn clear_secrets(&mut self)
        requires
            old(self).wf(),
        ensures
            final(self).wf(),
            final(self)@ == old(self)@.without_secrets(),
    {
        self.clear(Field::CurrentPassword);
        self.clear(Field::Password);
        self.clear(Field::Password2);
    }

    /// True once, after Enter was pressed in a field.
    pub fn take_submit(&mut self) -> (r: bool)
        requires
            old(self).wf(),
        ensures
            final(self).wf(),
            r == old(self)@.submitted,
            final(self)@ == (FormView { submitted: false, ..old(self)@ }),
    {
        let r = self.submitted;
        self.submitted = false;
        proof {
            assert(self@.values =~= old(self)@.values);
        }
        r
    }

    pub fn set_focus(&mut self, focus: Option<Field>)
        requires
            old(self).wf(),
        ensures
            final(self).wf(),
            final(self)@ == (FormView { focus, ..old(self)@ }),
    {
        self.focus = focus;
        proof {
            assert(self@.values =~= old(self)@.values);
        }
    }
}

/// No password is left after the secrets were dropped; every other field keeps its value.
pub proof fn law_secrets_are_gone(form: FormView, f: Field)
    ensures
        f.secret() ==> form.without_secrets().value(f) == Seq::<char>::empty(),
        !f.secret() ==> form.without_secrets().value(f) == form.value(f),
{
}

/// Appends typed or pasted text to a field, keeping only what the field accepts.
pub fn push(form: &mut Form, field: Field, text: &str)
    requires
        old(form).wf(),
    ensures
        final(form).wf(),
        final(form)@ == old(form)@.with(field, typed(field, old(form)@.value(field), text@)),
{
    let v = chars(text);
    let mut value = chars(form.get(field));
    let ghost start = value@;
    let mut i: usize = 0;
    proof {
        assert(v@.take(0) =~= Seq::<char>::empty());
    }
    while i < v.len()
        invariant
            i <= v.len(),
            value@ == typed(field, start, v@.take(i as int)),
        decreases v.len() - i,
    {
        proof {
            assert(v@.take(i as int + 1).drop_last() =~= v@.take(i as int));
            assert(v@.take(i as int + 1).last() == v@[i as int]);
        }
        if field.accepts(v[i]) && value.len() < field.max_len() {
            value.push(v[i]);
        }
        i = i + 1;
    }
    proof {
        assert(v@.take(v@.len() as int) =~= v@);
        assert(value@ =~= value@.subrange(0, value@.len() as int));
    }
    form.set(field, string_of(&value, 0, value.len()));
}

// ---- what a field shows ----

/// How a field's text is coloured.
#[derive(Clone, Copy, Debug, PartialEq, Eq, Structural)]
pub enum Tone {
    Placeholder,
    Text,
}

/// What a field shows: the placeholder while it is empty (focused or not), otherwise the value,
/// masked for passwords unless the eye is held, with a caret while focused.
pub open spec fn shown(
    value: Seq<char>,
    field: Field,
    focused: bool,
    placeholder: Seq<char>,
    revealed: bool,
) -> (Seq<char>, Tone) {
    if value.len() == 0 {
        (placeholder, Tone::Placeholder)
    } else {
        let body = if field.secret() && !revealed {
            Seq::new(value.len(), |i: int| '*')
        } else {
            value
        };
        (
            if focused {
                body.push('|')
            } else {
                body
            },
            Tone::Text,
        )
    }
}

/// What a field shows.
pub fn display(
    value: &str,
    field: Field,
    focused: bool,
    placeholder: &str,
    revealed: bool,
) -> (r: (String, Tone))
    ensures
        (r.0@, r.1) == shown(value@, field, focused, placeholder@, revealed),
{
    if value.is_empty() {
        return (owned(placeholder), Tone::Placeholder);
    }
    let mut out = String::new();
    if field.masked() && !revealed {
        let v = chars(value);
        let mut i: usize = 0;
        while i < v.len()
            invariant
                i <= v.len(),
                out@ == Seq::new(i as nat, |i: int| '*'),
            decreases v.len() - i,
        {
            out.push('*');
            i = i + 1;
            proof {
                assert(out@ =~= Seq::new(i as nat, |i: int| '*'));
            }
        }
    } else {
        out = owned(value);
    }
    if focused {
        out.push('|');
    }
    (out, Tone::Text)
}

/// A password on screen tells its length and nothing else, unless the eye is held.
pub proof fn law_passwords_stay_masked(
    a: Seq<char>,
    b: Seq<char>,
    field: Field,
    focused: bool,
    placeholder: Seq<char>,
)
    requires
        field.secret(),
        a.len() == b.len(),
    ensures
        shown(a, field, focused, placeholder, false) == shown(b, field, focused, placeholder, false),
{
}

// ---- keys ----

/// A key press, by what it means.
#[derive(Debug, PartialEq)]
pub enum TypedKey {
    Character(String),
    Space,
    Backspace,
    Tab,
    Enter,
    Escape,
    Other,
}

/// The fields on screen, in tab order.
pub open spec fn present(on_screen: Seq<Field>, n: int) -> Seq<Field>
    decreases n,
{
    if n <= 0 {
        Seq::empty()
    } else {
        let f = Field::all()[n - 1];
        if on_screen.contains(f) {
            present(on_screen, n - 1).push(f)
        } else {
            present(on_screen, n - 1)
        }
    }
}

/// The first index of a field in a list, or its length.
pub open spec fn place(fields: Seq<Field>, f: Field) -> int
    decreases fields.len(),
{
    if fields.len() == 0 || fields[0] == f {
        0
    } else {
        1 + place(fields.skip(1), f)
    }
}

/// The field that Tab moves to: the next one, around the end; with Shift the one before.
pub open spec fn tab_target(fields: Seq<Field>, focus: Field, shift: bool) -> Field {
    let i = place(fields, focus);
    let n = fields.len() as int;
    fields[if shift {
        (i + n - 1) % n
    } else {
        (i + 1) % n
    }]
}

/// The form after one key press in the field that had the focus. Enter submits, but not with Alt
/// held: Alt+Enter is the fullscreen toggle.
pub open spec fn after_key(
    form: FormView,
    focus: Field,
    fields: Seq<Field>,
    key: TypedKey,
    modifier: bool,
    alt: bool,
    shift: bool,
) -> FormView {
    match key {
        TypedKey::Character(c) => if modifier {
            form
        } else {
            form.with(focus, typed(focus, form.value(focus), c@))
        },
        TypedKey::Space => if modifier {
            form
        } else {
            form.with(focus, typed(focus, form.value(focus), " "@))
        },
        TypedKey::Backspace => if form.values.dom().contains(focus) && form.value(focus).len() > 0 {
            form.with(focus, form.value(focus).drop_last())
        } else {
            form
        },
        TypedKey::Tab => FormView { focus: Some(tab_target(fields, focus, shift)), ..form },
        TypedKey::Enter => if alt {
            form
        } else {
            FormView { submitted: true, ..form }
        },
        TypedKey::Escape => if focus == Field::AnonName {
            FormView { focus: None, ..form }
        } else {
            form
        },
        TypedKey::Other => form,
    }
}

/// The form after the first `n` key presses.
pub open spec fn after_keys(
    form: FormView,
    focus: Field,
    fields: Seq<Field>,
    keys: Seq<TypedKey>,
    modifier: bool,
    alt: bool,
    shift: bool,
) -> FormView
    decreases keys.len(),
{
    if keys.len() == 0 {
        form
    } else {
        after_key(
            after_keys(form, focus, fields, keys.drop_last(), modifier, alt, shift),
            focus,
            fields,
            keys.last(),
            modifier,
            alt,
            shift,
        )
    }
}

fn contains_field(fields: &Vec<Field>, f: Field) -> (r: bool)
    ensures
        r == fields@.contains(f),
{
    let mut i: usize = 0;
    while i < fields.len()
        invariant
            i <= fields.len(),
            forall|j: int| 0 <= j < i ==> fields@[j] != f,
        decreases fields.len() - i,
    {
        if fields[i] == f {
            return true;
        }
        i = i + 1;
    }
    false
}

fn in_tab_order(on_screen: &Vec<Field>) -> (r: Vec<Field>)
    ensures
        r@ == present(on_screen@, 10),
{
    let all = Field::list();
    let mut out: Vec<Field> = Vec::new();
    let mut i: usize = 0;
    while i < all.len()
        invariant
            i <= all.len(),
            all@ == Field::all(),
            all@.len() == 10,
            out@ == present(on_screen@, i as int),
        decreases all.len() - i,
    {
        if contains_field(on_screen, all[i]) {
            out.push(all[i]);
        }
        i = i + 1;
    }
    out
}

fn place_of(fields: &Vec<Field>, f: Field) -> (r: usize)
    requires
        fields@.contains(f),
    ensures
        r == place(fields@, f),
        r < fields@.len(),
        fields@[r as int] == f,
{
    let mut i: usize = 0;
    proof {
        assert(fields@.skip(0) =~= fields@);
    }
    while i < fields.len() && fields[i] != f
        invariant
            i <= fields.len(),
            fields@.contains(f),
            forall|j: int| 0 <= j < i ==> fields@[j] != f,
            place(fields@, f) == i + place(fields@.skip(i as int), f),
        decreases fields.len() - i,
    {
        proof {
            assert(fields@.skip(i as int)[0] == fields@[i as int]);
            assert(fields@.skip(i as int).skip(1) =~= fields@.skip(i as int + 1));
        }
        i = i + 1;
    }
    proof {
        let k = choose|k: int| 0 <= k < fields@.len() && fields@[k] == f;
        assert(fields@[k] == f);
        assert(fields@.skip(i as int)[0] == fields@[i as int]);
    }
    i
}

/// Takes in the key presses since the last frame. They go to the field that had the focus when the
/// frame began; a focus whose field left the screen is dropped. Esc in the anonymous name box lets
/// go of it (it lives on the title screen, where Esc has nothing else to do).
pub fn field_keys(
    form: &mut Form,
    on_screen: &Vec<Field>,
    keys: &Vec<TypedKey>,
    modifier: bool,
    alt: bool,
    shift: bool,
)
    requires
        old(form).wf(),
    ensures
        final(form).wf(),
        final(form)@ == match old(form)@.focus {
            None => old(form)@,
            Some(focus) => if present(on_screen@, 10).contains(focus) {
                after_keys(
                    old(form)@,
                    focus,
                    present(on_screen@, 10),
                    keys@,
                    modifier,
                    alt,
                    shift,
                )
            } else {
                (FormView { focus: None, ..old(form)@ })
            },
        },
{
    let focus = match form.focus {
        Some(f) => f,
        None => {
            return ;
        },
    };
    let fields = in_tab_order(on_screen);
    if !contains_field(&fields, focus) {
        form.set_focus(None);
        return ;
    }
    let mut i: usize = 0;
    let ghost start = form@;
    proof {
        assert(keys@.take(0) =~= Seq::<TypedKey>::empty());
    }
    while i < keys.len()
        invariant
            i <= keys.len(),
            form.wf(),
            fields@ == present(on_screen@, 10),
            fields@.contains(focus),
            form@ == after_keys(start, focus, fields@, keys@.take(i as int), modifier, alt, shift),
        decreases keys.len() - i,
    {
        proof {
            assert(keys@.take(i as int + 1).drop_last() =~= keys@.take(i as int));
            assert(keys@.take(i as int + 1).last() == keys@[i as int]);
        }
        press(form, focus, &fields, &keys[i], modifier, alt, shift);
        i = i + 1;
    }
    proof {
        assert(keys@.take(keys@.len() as int) =~= keys@);
    }
}

fn press(
    form: &mut Form,
    focus: Field,
    fields: &Vec<Field>,
    key: &TypedKey,
    modifier: bool,
    alt: bool,
    shift: bool,
)
    requires
        old(form).wf(),
        fields@.contains(focus),
    ensures
        final(form).wf(),
        final(form)@ == after_key(old(form)@, focus, fields@, *key, modifier, alt, shift),
{
    match key {
        TypedKey::Character(c) => {
            if !modifier {
                push(form, focus, c.as_str());
            }
        },
        TypedKey::Space => {
            if !modifier {
                push(form, focus, " ");
            }
        },
        TypedKey::Backspace => {
            let v = chars(form.get(focus));
            if v.len() > 0 {
                proof {
                    assert(v@.subrange(0, v@.len() - 1) =~= v@.drop_last());
                }
                form.set(focus, string_of(&v, 0, v.len() - 1));
            }
        },
        TypedKey::Tab => {
            let i = place_of(fields, focus);
            let n = fields.len();
            let next = if shift {
                if i == 0 {
                    n - 1
                } else {
                    i - 1
                }
            } else if i + 1 == n {
                0
            } else {
                i + 1
            };
            proof {
                let k = i as int;
                let m = n as int;
                if shift {
                    if k == 0 {
                        assert((m - 1) % m == m - 1) by (nonlinear_arith)
                            requires
                                m > 0,
                        ;
                    } else {
                        assert((k + m - 1) % m == k - 1) by (nonlinear_arith)
                            requires
                                1 <= k < m,
                        ;
                    }
                } else if k + 1 == m {
                    assert(m % m == 0) by (nonlinear_arith)
                        requires
                            m > 0,
                    ;
                } else {
                    assert((k + 1) % m == k + 1) by (nonlinear_arith)
                        requires
                            0 <= k + 1 < m,
                    ;
                }
            }
            form.set_focus(Some(fields[next]));
        },
        TypedKey::Enter => {
            if !alt {
                form.submitted = true;
            }
            proof {
                assert(form@.values =~= old(form)@.values);
            }
        },
        TypedKey::Escape => {
            if focus == Field::AnonName {
                form.set_focus(None);
            }
        },
        TypedKey::Other => {},
    }
}

/// Tab and Shift+Tab undo each other.
pub proof fn law_tab_and_back(fields: Seq<Field>, focus: Field)
    requires
        fields.contains(focus),
        fields.no_duplicates(),
    ensures
        tab_target(fields, tab_target(fields, focus, false), true) == focus,
        tab_target(fields, tab_target(fields, focus, true), false) == focus,
{
    lemma_place(fields, focus);
    let i = place(fields, focus);
    let n = fields.len() as int;
    let a = (i + 1) % n;
    let b = (i + n - 1) % n;
    assert(0 <= a < n && 0 <= b < n) by (nonlinear_arith)
        requires
            n > 0,
            a == (i + 1) % n,
            b == (i + n - 1) % n,
    ;
    lemma_place_of_index(fields, a);
    lemma_place_of_index(fields, b);
    assert((a + n - 1) % n == i) by (nonlinear_arith)
        requires
            0 <= i < n,
            a == (i + 1) % n,
    {
        if i + 1 < n {
            assert(a == i + 1);
            assert((n + i) % n == i);
        } else {
            assert(a == 0);
            assert((n - 1) % n == n - 1);
        }
    }
    assert((b + 1) % n == i) by (nonlinear_arith)
        requires
            0 <= i < n,
            b == (i + n - 1) % n,
    {
        if i == 0 {
            assert(b == n - 1);
            assert(n % n == 0);
        } else {
            assert((n + (i - 1)) % n == i - 1);
            assert(i % n == i);
        }
    }
}

proof fn lemma_place(fields: Seq<Field>, f: Field)
    requires
        fields.contains(f),
    ensures
        0 <= place(fields, f) < fields.len(),
        fields[place(fields, f)] == f,
    decreases fields.len(),
{
    if fields[0] != f {
        let k = choose|k: int| 0 <= k < fields.len() && fields[k] == f;
        assert(fields.skip(1)[k - 1] == f);
        lemma_place(fields.skip(1), f);
    }
}

proof fn lemma_place_of_index(fields: Seq<Field>, i: int)
    requires
        0 <= i < fields.len(),
        fields.no_duplicates(),
    ensures
        place(fields, fields[i]) == i,
{
    assert(fields.contains(fields[i]));
    lemma_place(fields, fields[i]);
}

impl Form {
    /// A field was clicked.
    pub fn click(&mut self, f: Field)
        requires
            old(self).wf(),
        ensures
            final(self).wf(),
            final(self)@ == (FormView { focus: Some(f), ..old(self)@ }),
    {
        self.set_focus(Some(f));
    }

    /// The eye of a password field: its text shows while the eye is held.
    pub fn eye(&mut self, f: Field, pressed: bool)
        requires
            old(self).wf(),
        ensures
            final(self).wf(),
            final(self)@ == (FormView {
                revealed: if pressed {
                    Some(f)
                } else if old(self)@.revealed == Some(f) {
                    None
                } else {
                    old(self)@.revealed
                },
                ..old(self)@
            }),
    {
        if pressed {
            self.revealed = Some(f);
        } else if let Some(g) = self.revealed {
            if g == f {
                self.revealed = None;
            }
        }
        proof {
            assert(self@.values =~= old(self)@.values);
        }
    }

    /// The screen was rebuilt: an eye that is no longer on it never reports its release.
    pub fn keep_eyes(&mut self, eyes: &Vec<Field>)
        requires
            old(self).wf(),
        ensures
            final(self).wf(),
            final(self)@ == (FormView {
                revealed: match old(self)@.revealed {
                    Some(f) if !eyes@.contains(f) => None,
                    r => r,
                },
                ..old(self)@
            }),
    {
        if let Some(f) = self.revealed {
            if !contains_field(eyes, f) {
                self.revealed = None;
            }
        }
        proof {
            assert(self@.values =~= old(self)@.values);
        }
    }
}

/// Only the passwords are secret. A code is six digits; a name is letters, digits and three signs,
/// twenty of them; an address has no white space; and no field takes a control character.
pub proof fn law_what_each_field_takes(f: Field, c: char)
    ensures
        f.secret() <==> f == Field::Password || f == Field::Password2 || f
            == Field::CurrentPassword,
        f == Field::Code ==> f.room() == 6 && (f.takes(c) <==> '0' <= c <= '9'),
        f == Field::Username || f == Field::NewUsername ==> f.room() == 20 && (f.takes(c) <==> (
        'a' <= c <= 'z') || ('A' <= c <= 'Z') || ('0' <= c <= '9') || c == '_' || c == '-' || c
            == '.'),
        f == Field::AnonName || f == Field::HistorySearch ==> f.room() == 20 && (f.takes(c) <==> !(
        (c as u32) <= 0x1f || 0x7f <= (c as u32) <= 0x9f)),
        f == Field::Login || f == Field::Email ==> f.room() == 254 && (f.takes(c)
            ==> !white_space(c) && c != ' '),
        f.secret() ==> f.room() == 128 && (f.takes(c) <==> !((c as u32) <= 0x1f || 0x7f <= (
        c as u32) <= 0x9f)),
        f.takes(c) ==> !((c as u32) <= 0x1f),
{
}

/// A character that fits is typed behind what is there; any other is dropped.
pub proof fn law_what_typing_adds(field: Field, value: Seq<char>, text: Seq<char>, c: char)
    ensures
        typed(field, value, Seq::empty()) == value,
        field.takes(c) && typed(field, value, text).len() < field.room() ==> typed(
            field,
            value,
            text.push(c),
        ) == typed(field, value, text).push(c),
        !field.takes(c) || typed(field, value, text).len() >= field.room() ==> typed(
            field,
            value,
            text.push(c),
        ) == typed(field, value, text),
{
    assert(text.push(c).drop_last() =~= text);
}

/// What a field shows: the placeholder while it is empty, else its text, a password as stars unless
/// its eye is held, and behind it the cursor where it has the focus.
pub proof fn law_what_a_field_shows(
    value: Seq<char>,
    field: Field,
    focused: bool,
    placeholder: Seq<char>,
    revealed: bool,
)
    ensures
        ({
            let (text, tone) = shown(value, field, focused, placeholder, revealed);
            let stars = (field == Field::Password || field == Field::Password2 || field
                == Field::CurrentPassword) && !revealed;
            &&& value.len() == 0 ==> text == placeholder && tone == Tone::Placeholder
            &&& value.len() > 0 ==> {
                &&& tone == Tone::Text
                &&& text.len() == value.len() + (if focused {
                    1int
                } else {
                    0
                })
                &&& focused ==> text.last() == '|'
                &&& !stars ==> text.take(value.len() as int) == value
                &&& stars ==> forall|i: int| 0 <= i < value.len() ==> #[trigger] text[i] == '*'
            }
        }),
{
    if value.len() > 0 {
        let (text, tone) = shown(value, field, focused, placeholder, revealed);
        if !(field.secret() && !revealed) {
            assert(text.take(value.len() as int) =~= value);
        }
    }
}

/// What each key does to the field in focus, and to nothing else: characters and the space bar are
/// typed unless a modifier is held, backspace takes the last character, Tab moves the focus, Enter
/// submits unless Alt is held, and Escape leaves the box of the anonymous name only.
pub proof fn law_what_each_key_does(
    form: FormView,
    focus: Field,
    fields: Seq<Field>,
    key: TypedKey,
    modifier: bool,
    alt: bool,
    shift: bool,
    other: Field,
)
    requires
        other != focus,
    ensures
        ({
            let after = after_key(form, focus, fields, key, modifier, alt, shift);
            &&& after.value(other) == form.value(other)
            &&& after.revealed == form.revealed
            &&& (key is Character || key is Space) && modifier ==> after == form
            &&& key matches TypedKey::Character(c) ==> (!modifier ==> after.value(focus) == typed(
                focus,
                form.value(focus),
                c@,
            ))
            &&& key is Space && !modifier ==> after.value(focus) == typed(
                focus,
                form.value(focus),
                seq![' '],
            )
            &&& key is Backspace && form.value(focus).len() > 0 ==> after.value(focus)
                == form.value(focus).drop_last()
            &&& key is Backspace && form.value(focus).len() == 0 ==> after == form
            &&& !(key is Character || key is Space || key is Backspace) ==> after.values
                == form.values
            &&& key is Tab ==> after.focus == Some(tab_target(fields, focus, shift))
            &&& key is Escape ==> after.focus == if focus == Field::AnonName {
                None
            } else {
                form.focus
            }
            &&& !(key is Tab || key is Escape) ==> after.focus == form.focus
            &&& after.submitted <==> form.submitted || key is Enter && !alt
            &&& key is Other ==> after == form
        }),
{
    reveal_strlit(" ");
    assert(" "@ =~= seq![' ']);
}

/// Tab goes to the next field and from the last one around to the first; with Shift the other way.
pub proof fn law_where_tab_goes(fields: Seq<Field>, i: int)
    requires
        fields.no_duplicates(),
        0 <= i < fields.len(),
    ensures
        i + 1 < fields.len() ==> tab_target(fields, fields[i], false) == fields[i + 1],
        i + 1 == fields.len() ==> tab_target(fields, fields[i], false) == fields[0],
        i > 0 ==> tab_target(fields, fields[i], true) == fields[i - 1],
        i == 0 ==> tab_target(fields, fields[i], true) == fields.last(),
{
    lemma_place_of_index(fields, i);
    let n = fields.len() as int;
    if i + 1 < n {
        vstd::arithmetic::div_mod::lemma_small_mod((i + 1) as nat, n as nat);
    } else {
        vstd::arithmetic::div_mod::lemma_mod_self_0(n);
    }
    if i > 0 {
        vstd::arithmetic::div_mod::lemma_mod_add_multiples_vanish(i - 1, n);
        vstd::arithmetic::div_mod::lemma_small_mod((i - 1) as nat, n as nat);
        assert(i + n - 1 == n + (i - 1));
    } else {
        vstd::arithmetic::div_mod::lemma_small_mod((n - 1) as nat, n as nat);
    }
}

/// Tab visits the fields that are on screen, and no others.
pub proof fn law_tab_visits_what_is_on_screen(on_screen: Seq<Field>, f: Field)
    ensures
        present(on_screen, 10).contains(f) <==> on_screen.contains(f),
{
    lemma_present(on_screen, 10, f);
    assert(Field::all()[f.order()] == f);
}

proof fn lemma_present(on_screen: Seq<Field>, n: int, f: Field)
    requires
        0 <= n <= 10,
    ensures
        present(on_screen, n).contains(f) <==> on_screen.contains(f) && exists|i: int|
            0 <= i < n && #[trigger] Field::all()[i] == f,
    decreases n,
{
    if n > 0 {
        lemma_present(on_screen, n - 1, f);
        let before = present(on_screen, n - 1);
        let all = present(on_screen, n);
        if before.contains(f) {
            let j = choose|j: int| 0 <= j < before.len() && before[j] == f;
            assert(all[j] == f);
        }
        if all.contains(f) {
            let j = choose|j: int| 0 <= j < all.len() && all[j] == f;
            if j < before.len() {
                assert(before[j] == f);
            } else {
                assert(Field::all()[n - 1] == f);
            }
        }
        if on_screen.contains(f) && Field::all()[n - 1] == f {
            assert(all[all.len() - 1] == f);
        }
    }
}

/// A value that is set is the one that is read, a cleared one is empty, and no other field changes.
pub proof fn law_fields_are_kept_apart(form: FormView, f: Field, v: Seq<char>, other: Field)
    requires
        other != f,
    ensures
        form.with(f, v).value(f) == v,
        form.with(f, v).value(other) == form.value(other),
        form.without(f).value(f).len() == 0,
        form.without(f).value(other) == form.value(other),
        form.with(f, v).focus == form.focus && form.without(f).focus == form.focus,
{
}

} // verus!
