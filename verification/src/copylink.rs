//! The invite link in the private-room lobby: click to copy it, or click-drag to select part of
//! it like ordinary text (Ctrl+C copies the selection, double click selects everything).
//! Positions are counted in thousandths of a pixel.

use vstd::prelude::*;
use vstd::string::*;

use crate::clock::{after, elapsed, later, since};
use crate::text::{chars, owned, strings, string_of, white_space};

verus! {

/// Two presses within this time are a double click.
pub const DOUBLE_CLICK: u64 = 350_000_000;

/// How long the hint says "copied!".
pub const COPIED_FOR: u64 = 1_500_000_000;

/// What is selected of the link, and how the mouse came to select it.
#[derive(Clone, Copy, Debug, PartialEq)]
pub struct LinkSelection {
    /// Glyph index where the drag started, if a selection exists.
    pub anchor: Option<usize>,
    pub focus: usize,
    pub dragging: bool,
    pub press_pos: (i32, i32),
    pub last_click: u64,
    /// When the "copied!" hint should revert.
    pub copied_until: u64,
}

/// How many positions lie before `x`.
pub open spec fn before(xs: Seq<i32>, x: i32) -> nat
    decreases xs.len(),
{
    if xs.len() == 0 {
        0
    } else {
        before(xs.drop_last(), x) + if x > xs.last() {
            1nat
        } else {
            0
        }
    }
}

/// Glyph index nearest to a cursor position; glyph boundaries are at the centres of the glyphs, so
/// this is 0..=glyph count.
pub fn glyph_index_at(centres: &Vec<i32>, x: i32) -> (r: usize)
    ensures
        r == before(centres@, x),
        r <= centres@.len(),
{
    let mut idx: usize = 0;
    let mut i: usize = 0;
    proof {
        assert(centres@.take(0) =~= Seq::<i32>::empty());
    }
    while i < centres.len()
        invariant
            i <= centres.len(),
            idx <= i,
            idx == before(centres@.take(i as int), x),
        decreases centres.len() - i,
    {
        proof {
            assert(centres@.take(i as int + 1).drop_last() =~= centres@.take(i as int));
        }
        if x > centres[i] {
            idx = idx + 1;
        }
        i = i + 1;
    }
    proof {
        assert(centres@.take(centres@.len() as int) =~= centres@);
    }
    idx
}

/// The first and the last glyph between two boundaries of a line of `n`; nothing where they are
/// the same or reach beyond the line.
pub fn glyph_span(n: usize, from: usize, to: usize) -> (r: Option<(usize, usize)>)
    ensures
        ({
            let a = if from < to {
                from
            } else {
                to
            };
            let b = if from < to {
                to
            } else {
                from
            };
            r == if a < b && b <= n {
                Some((a, (b - 1) as usize))
            } else {
                None::<(usize, usize)>
            }
        }),
{
    let (a, b) = if from < to {
        (from, to)
    } else {
        (to, from)
    };
    if a < b && b <= n {
        Some((a, b - 1))
    } else {
        None
    }
}

/// What the mouse and the keyboard do to the link in a frame.
pub struct LinkInput {
    pub just_pressed: bool,
    pub pressed: bool,
    pub just_released: bool,
    /// The mouse is over the box.
    pub hovered: bool,
    /// Ctrl+C or Cmd+C was pressed.
    pub copy_keys: bool,
    /// Where the mouse is.
    pub cursor: Option<(i32, i32)>,
    /// Where the mouse is along the text.
    pub local_x: Option<i32>,
    pub now: u64,
}

/// The link's characters that have a glyph: the i-th glyph is the i-th of them.
pub open spec fn visible(s: Seq<char>) -> Seq<char>
    decreases s.len(),
{
    if s.len() == 0 {
        s
    } else if white_space(s.last()) {
        visible(s.drop_last())
    } else {
        visible(s.drop_last()).push(s.last())
    }
}

pub open spec fn at_most(a: int, b: int) -> int {
    if a < b {
        a
    } else {
        b
    }
}

/// The characters between two boundaries.
pub open spec fn selected(link: Seq<char>, a: int, b: int) -> Seq<char> {
    let v = visible(link);
    let n = v.len() as int;
    let lo = at_most(at_most(a, b), n);
    let hi = at_most(if a < b {
        b
    } else {
        a
    }, n);
    v.subrange(lo, hi)
}

/// Whether the mouse is still where the button went down.
pub open spec fn still(from: (i32, i32), cursor: Option<(i32, i32)>) -> bool {
    match cursor {
        Some(c) => (c.0 - from.0) * (c.0 - from.0) + (c.1 - from.1) * (c.1 - from.1) < 16_000_000,
        None => true,
    }
}

impl LinkSelection {
    /// After a press of the left button.
    pub open spec fn clicked(self, i: LinkInput, centres: Seq<i32>) -> LinkSelection {
        if !i.just_pressed {
            self
        } else if !i.hovered {
            LinkSelection { anchor: None, dragging: false, ..self }
        } else {
            let idx = match i.local_x {
                Some(x) => before(centres, x) as usize,
                None => 0,
            };
            let timed = LinkSelection {
                last_click: i.now,
                press_pos: match i.cursor {
                    Some(c) => c,
                    None => (0i32, 0i32),
                },
                ..self
            };
            if elapsed(self.last_click, i.now) < DOUBLE_CLICK {
                LinkSelection {
                    anchor: Some(0),
                    focus: centres.len() as usize,
                    dragging: false,
                    ..timed
                }
            } else {
                LinkSelection { anchor: Some(idx), focus: idx, dragging: true, ..timed }
            }
        }
    }

    /// After the mouse moved with the button down.
    pub open spec fn stretched(self, i: LinkInput, centres: Seq<i32>) -> LinkSelection {
        if self.dragging && i.pressed && i.local_x is Some {
            LinkSelection { focus: before(centres, i.local_x->0) as usize, ..self }
        } else {
            self
        }
    }

    /// Whether letting go of the button was a plain click.
    pub open spec fn plain_click(self, i: LinkInput) -> bool {
        self.dragging && i.just_released && (still(self.press_pos, i.cursor) || self.anchor == Some(
            self.focus,
        ))
    }

    /// After the button was let go.
    pub open spec fn released(self, i: LinkInput) -> LinkSelection {
        if self.dragging && i.just_released {
            LinkSelection {
                dragging: false,
                anchor: if self.plain_click(i) {
                    None
                } else {
                    self.anchor
                },
                ..self
            }
        } else {
            self
        }
    }

    /// The selection after a frame.
    pub open spec fn next(self, i: LinkInput, centres: Seq<i32>) -> LinkSelection {
        self.clicked(i, centres).stretched(i, centres).released(i)
    }

    /// What a frame copies: the whole link on a plain click, the selected part on Ctrl+C.
    pub open spec fn copies(self, i: LinkInput, centres: Seq<i32>, link: Seq<char>) -> Seq<Seq<char>> {
        let held = self.clicked(i, centres).stretched(i, centres);
        let end = held.released(i);
        let click = if held.plain_click(i) {
            seq![link]
        } else {
            Seq::empty()
        };
        if i.copy_keys && end.anchor is Some && end.anchor->0 != end.focus && selected(
            link,
            end.anchor->0 as int,
            end.focus as int,
        ).len() > 0 {
            click.push(selected(link, end.anchor->0 as int, end.focus as int))
        } else {
            click
        }
    }
}

fn visible_chars(s: &str) -> (r: Vec<char>)
    ensures
        r@ == visible(s@),
{
    let v = chars(s);
    let mut out: Vec<char> = Vec::new();
    let mut i: usize = 0;
    proof {
        assert(v@.take(0) =~= Seq::<char>::empty());
        assert(out@ =~= Seq::<char>::empty());
    }
    while i < v.len()
        invariant
            i <= v.len(),
            out@ == visible(v@.take(i as int)),
        decreases v.len() - i,
    {
        proof {
            assert(v@.take(i as int + 1).drop_last() =~= v@.take(i as int));
        }
        let c = v[i];
        if !c.is_whitespace() {
            out.push(c);
        }
        i = i + 1;
    }
    proof {
        assert(v@.take(v@.len() as int) =~= v@);
    }
    out
}

fn part(link: &str, a: usize, b: usize) -> (r: String)
    ensures
        r@ == selected(link@, a as int, b as int),
{
    let v = visible_chars(link);
    let (lo, hi) = if a < b {
        (a, b)
    } else {
        (b, a)
    };
    let lo = if lo < v.len() {
        lo
    } else {
        v.len()
    };
    let hi = if hi < v.len() {
        hi
    } else {
        v.len()
    };
    string_of(&v, lo, hi)
}

fn unmoved(from: (i32, i32), cursor: Option<(i32, i32)>) -> (r: bool)
    ensures
        r == still(from, cursor),
{
    match cursor {
        Some(c) => {
            let dx: i128 = c.0 as i128 - from.0 as i128;
            let dy: i128 = c.1 as i128 - from.1 as i128;
            proof {
                assert(0 <= dx * dx <= 0x1_0000_0000_0000_0000) by (nonlinear_arith)
                    requires
                        -0x1_0000_0000 <= dx <= 0x1_0000_0000,
                ;
                assert(0 <= dy * dy <= 0x1_0000_0000_0000_0000) by (nonlinear_arith)
                    requires
                        -0x1_0000_0000 <= dy <= 0x1_0000_0000,
                ;
            }
            dx * dx + dy * dy < 16_000_000
        },
        None => true,
    }
}

impl LinkSelection {
    pub fn new() -> (r: LinkSelection)
        ensures
            r == (LinkSelection {
                anchor: None,
                focus: 0,
                dragging: false,
                press_pos: (0i32, 0i32),
                last_click: 0,
                copied_until: 0,
            }),
    {
        LinkSelection {
            anchor: None,
            focus: 0,
            dragging: false,
            press_pos: (0, 0),
            last_click: 0,
            copied_until: 0,
        }
    }

    /// No link is on screen: nothing is selected.
    pub fn gone(&mut self)
        ensures
            *final(self) == (LinkSelection { anchor: None, dragging: false, ..*old(self) }),
    {
        self.anchor = None;
        self.dragging = false;
    }

    /// Takes in the mouse and the keyboard; what comes back is to be copied to the clipboard.
    /// `centres` are the positions of the glyphs' centres along the text.
    pub fn link_input(&mut self, i: &LinkInput, centres: &Vec<i32>, link: &str) -> (r: Vec<String>)
        ensures
            *final(self) == old(self).next(*i, centres@),
            strings(r@) == old(self).copies(*i, centres@, link@),
    {
        let mut out: Vec<String> = Vec::new();
        if i.just_pressed {
            if i.hovered {
                let idx: usize = match i.local_x {
                    Some(x) => glyph_index_at(centres, x),
                    None => 0,
                };
                let double = since(self.last_click, i.now) < DOUBLE_CLICK;
                self.last_click = i.now;
                self.press_pos = match i.cursor {
                    Some(c) => c,
                    None => (0, 0),
                };
                if double {
                    self.anchor = Some(0);
                    self.focus = centres.len();
                    self.dragging = false;
                } else {
                    self.anchor = Some(idx);
                    self.focus = idx;
                    self.dragging = true;
                }
            } else {
                self.anchor = None;
                self.dragging = false;
            }
        }
        proof {
            assert(*self == old(self).clicked(*i, centres@));
        }
        if self.dragging && i.pressed {
            if let Some(x) = i.local_x {
                self.focus = glyph_index_at(centres, x);
            }
        }
        let ghost held = *self;
        proof {
            assert(held == old(self).clicked(*i, centres@).stretched(*i, centres@));
        }
        if self.dragging && i.just_released {
            self.dragging = false;
            let same = match self.anchor {
                Some(a) => a == self.focus,
                None => false,
            };
            if unmoved(self.press_pos, i.cursor) || same {
                self.anchor = None;
                out.push(owned(link));
            }
        }
        proof {
            assert(*self == held.released(*i));
            assert(strings(out@) =~= if held.plain_click(*i) {
                seq![link@]
            } else {
                Seq::empty()
            });
        }
        let ghost click = strings(out@);
        if i.copy_keys {
            if let Some(a) = self.anchor {
                if a != self.focus {
                    let text = part(link, a, self.focus);
                    if !text.as_str().is_empty() {
                        out.push(text);
                        proof {
                            assert(strings(out@) =~= click.push(text@));
                        }
                    }
                }
            }
        }
        out
    }

    /// A copy went through: the hint says so for a moment.
    pub fn copied(&mut self, now: u64)
        ensures
            *final(self) == (LinkSelection {
                copied_until: later(now, COPIED_FOR) as u64,
                ..*old(self)
            }),
    {
        self.copied_until = after(now, COPIED_FOR);
    }

    /// The line under the link, and whether it is lit.
    pub fn hint(&self, now: u64) -> (r: (&'static str, bool))
        ensures
            r.1 == (now < self.copied_until),
            r.0@ == if r.1 {
                "copied!"@
            } else {
                "click to copy, or drag to select"@
            },
    {
        if now < self.copied_until {
            ("copied!", true)
        } else {
            ("click to copy, or drag to select", false)
        }
    }
}

/// A click that lets go where it went down copies the whole link, and nothing stays selected.
pub proof fn law_plain_click_copies_the_link(
    s: LinkSelection,
    down: LinkInput,
    up: LinkInput,
    centres: Seq<i32>,
    link: Seq<char>,
)
    requires
        down.just_pressed && down.hovered && !down.just_released && down.pressed,
        elapsed(s.last_click, down.now) >= DOUBLE_CLICK,
        !up.just_pressed && up.just_released && !up.pressed && !up.copy_keys,
        up.cursor == down.cursor,
        down.cursor is Some,
    ensures
        s.next(down, centres).copies(up, centres, link) == seq![link],
        s.next(down, centres).next(up, centres).anchor is None,
{
    let held = s.next(down, centres);
    assert(held.dragging);
    assert(still(held.press_pos, up.cursor)) by {
        let c = down.cursor->0;
        assert((c.0 - c.0) * (c.0 - c.0) + (c.1 - c.1) * (c.1 - c.1) == 0) by (nonlinear_arith);
    }
}

/// A double click selects the whole link: copying then gives every character that is shown.
pub proof fn law_double_click_selects_all(s: LinkSelection, i: LinkInput, centres: Seq<i32>, link: Seq<char>)
    requires
        i.just_pressed && i.hovered && !i.just_released,
        elapsed(s.last_click, i.now) < DOUBLE_CLICK,
        centres.len() == visible(link).len(),
        0 < centres.len() <= usize::MAX,
    ensures
        ({
            let n = s.next(i, centres);
            &&& n.anchor == Some(0usize)
            &&& selected(link, n.anchor->0 as int, n.focus as int) == visible(link)
        }),
{
    let v = visible(link);
    assert(v.subrange(0, v.len() as int) =~= v);
}

/// A place in the text lies behind each glyph whose middle is left of it, and behind no other; one
/// further right never lies before fewer.
pub proof fn law_where_a_click_falls(centres: Seq<i32>, x: i32, y: i32)
    requires
        x <= y,
    ensures
        before(centres, x) <= before(centres, y) <= centres.len(),
        (forall|i: int| 0 <= i < centres.len() ==> x <= #[trigger] centres[i]) ==> before(centres, x)
            == 0,
        (forall|i: int| 0 <= i < centres.len() ==> x > #[trigger] centres[i]) ==> before(centres, x)
            == centres.len(),
    decreases centres.len(),
{
    if centres.len() > 0 {
        let d = centres.drop_last();
        law_where_a_click_falls(d, x, y);
        assert(forall|i: int| 0 <= i < d.len() ==> #[trigger] d[i] == centres[i]);
        assert(centres.last() == centres[centres.len() - 1]);
    }
}

/// What is selected lies between the two ends, whichever comes first.
pub proof fn law_a_selection_runs_both_ways(link: Seq<char>, a: int, b: int)
    requires
        0 <= a <= b,
    ensures
        selected(link, a, b) == selected(link, b, a),
        b <= visible(link).len() ==> selected(link, a, b) == visible(link).subrange(a, b),
        a == b ==> selected(link, a, b).len() == 0,
{
    let v = visible(link);
    let n = v.len() as int;
    let lo = at_most(a, n);
    let hi = at_most(b, n);
    assert(selected(link, a, b) =~= v.subrange(lo, hi));
    assert(selected(link, b, a) =~= v.subrange(lo, hi));
}

/// What is shown of a link is all of it but the white space.
pub proof fn law_white_space_is_not_shown(s: Seq<char>, c: char)
    ensures
        white_space(c) ==> visible(s.push(c)) == visible(s),
        !white_space(c) ==> visible(s.push(c)) == visible(s).push(c),
        visible(Seq::empty()).len() == 0,
{
    assert(s.push(c).drop_last() =~= s);
}

/// A click beside the box drops the selection; one on it starts a selection where it fell; a second
/// one within a third of a second or so selects everything; and dragging moves the end of the
/// selection and not its start.
pub proof fn law_what_a_press_does(s: LinkSelection, i: LinkInput, centres: Seq<i32>)
    requires
        centres.len() <= usize::MAX,
    ensures
        ({
            let t = s.clicked(i, centres);
            let d = s.stretched(i, centres);
            let r = s.released(i);
            &&& !i.just_pressed ==> t == s
            &&& i.just_pressed && !i.hovered ==> t.anchor is None && !t.dragging
            &&& i.just_pressed && i.hovered && (i.now < s.last_click || i.now - s.last_click
                < 350_000_000) ==> t.anchor == Some(0usize) && t.focus == centres.len()
                && !t.dragging
            &&& i.just_pressed && i.hovered && i.now >= s.last_click && i.now - s.last_click
                >= 350_000_000 ==> t.anchor == Some(t.focus) && t.dragging && (i.local_x is Some
                ==> t.focus == before(centres, i.local_x->0))
            &&& i.just_pressed && i.hovered ==> t.last_click == i.now
            &&& d.anchor == s.anchor && d.dragging == s.dragging
            &&& s.dragging && i.pressed && i.local_x is Some ==> d.focus == before(
                centres,
                i.local_x->0,
            )
            &&& !s.dragging ==> d == s && r == s
            &&& i.just_released ==> !r.dragging
            &&& r.focus == s.focus
            &&& s.dragging && i.just_released ==> (r.anchor is None <==> s.plain_click(i)
                || s.anchor is None)
            &&& t.copied_until == s.copied_until
        }),
{
    law_where_a_click_falls(
        centres,
        if i.local_x is Some {
            i.local_x->0
        } else {
            0
        },
        if i.local_x is Some {
            i.local_x->0
        } else {
            0
        },
    );
}

/// A mouse that stays within four units of where it was pressed has not been dragged.
pub proof fn law_when_the_mouse_is_still(from: (i32, i32), to: (i32, i32))
    ensures
        still(from, None),
        still(from, Some(from)),
        to.1 == from.1 && (to.0 >= from.0 + 4000 || to.0 <= from.0 - 4000) ==> !still(
            from,
            Some(to),
        ),
        still(from, Some(to)) <==> still(to, Some(from)),
{
    let dx = to.0 - from.0;
    let dy = to.1 - from.1;
    assert(dx * dx == (-dx) * (-dx)) by (nonlinear_arith);
    assert(dy * dy == (-dy) * (-dy)) by (nonlinear_arith);
    assert((from.0 - from.0) * (from.0 - from.0) == 0) by (nonlinear_arith);
    assert((from.1 - from.1) * (from.1 - from.1) == 0) by (nonlinear_arith);
    if dx >= 4000 || dx <= -4000 {
        assert(dx * dx >= 16_000_000) by (nonlinear_arith)
            requires
                dx >= 4000 || dx <= -4000,
        ;
    }
}

/// Nothing is copied but the link, on a plain click, and what is selected of it, on the copy keys.
pub proof fn law_what_is_copied(
    s: LinkSelection,
    i: LinkInput,
    centres: Seq<i32>,
    link: Seq<char>,
)
    ensures
        ({
            let held = s.clicked(i, centres).stretched(i, centres);
            let end = s.next(i, centres);
            let all = s.copies(i, centres, link);
            &&& all.len() <= 2
            &&& !i.copy_keys ==> all.len() <= 1
            &&& !i.copy_keys && all.len() == 1 ==> all[0] == link && i.just_released
            &&& !i.just_released && !i.copy_keys ==> all.len() == 0
            &&& i.copy_keys && end.anchor is None ==> (all.len() == 0 || all == seq![link])
            &&& i.copy_keys && end.anchor is Some && selected(
                link,
                end.anchor->0 as int,
                end.focus as int,
            ).len() > 0 && end.anchor->0 != end.focus ==> all.last() == selected(
                link,
                end.anchor->0 as int,
                end.focus as int,
            )
        }),
{
}

} // verus!
