//! JSON as the account server speaks it: the objects that are sent, and the members of an object
//! that are read from an answer.

use vstd::prelude::*;
use vstd::string::*;

use crate::text::{opt, show_signed, signed_decimal};

verus! {

/// A hexadecimal digit.
pub open spec fn hex(d: int) -> char {
    if d < 10 {
        (('0' as u32) + d) as char
    } else {
        (('a' as u32) + (d - 10)) as char
    }
}

/// A character inside a JSON string.
pub open spec fn escaped(c: char) -> Seq<char> {
    if c == '"' || c == '\\' {
        seq!['\\', c]
    } else if c == '\n' {
        seq!['\\', 'n']
    } else if c == '\r' {
        seq!['\\', 'r']
    } else if c == '\t' {
        seq!['\\', 't']
    } else if c as u32 == 0x8 {
        seq!['\\', 'b']
    } else if c as u32 == 0xc {
        seq!['\\', 'f']
    } else if (c as u32) < 0x20 {
        seq!['\\', 'u', '0', '0', hex((c as u32 / 16) as int), hex((c as u32 % 16) as int)]
    } else {
        seq![c]
    }
}

/// The characters of a text, escaped, in a row.
pub open spec fn escaped_text(s: Seq<char>) -> Seq<char>
    decreases s.len(),
{
    if s.len() == 0 {
        Seq::empty()
    } else {
        escaped_text(s.drop_last()) + escaped(s.last())
    }
}

/// A text as a JSON string.
pub open spec fn quoted(s: Seq<char>) -> Seq<char> {
    seq!['"'] + escaped_text(s) + seq!['"']
}

/// `serde_json::to_string` at `str`: the text between quotes, with quotes, backslashes and the
/// control characters below the space escaped, and every other character as it is.
#[verifier::external_body]
fn quote(s: &str) -> (r: String)
    ensures
        r@ == quoted(s@),
{
    serde_json::to_string(s).unwrap_or_default()
}

/// The string that a member of the JSON object in `body` holds: nothing where the bytes are no JSON
/// object, or the member is missing or no string.
pub uninterp spec fn json_text(body: Seq<u8>, key: Seq<char>) -> Option<Seq<char>>;

/// `serde_json::from_slice` at `Value`, then `Value::get` and `Value::as_str`.
#[verifier::external_body]
pub(crate) fn get_text(body: &Vec<u8>, key: &str) -> (r: Option<String>)
    ensures
        opt(r) == json_text(body@, key@),
{
    let value = serde_json::from_slice::<serde_json::Value>(body).ok()?;
    value.get(key)?.as_str().map(str::to_string)
}

/// The whole number from 0 that a member of the JSON object in `body` holds.
pub uninterp spec fn json_count(body: Seq<u8>, key: Seq<char>) -> Option<u64>;

/// `serde_json::from_slice` at `Value`, then `Value::get` and `Value::as_u64`.
#[verifier::external_body]
pub(crate) fn get_count(body: &Vec<u8>, key: &str) -> (r: Option<u64>)
    ensures
        r == json_count(body@, key@),
{
    let value = serde_json::from_slice::<serde_json::Value>(body).ok()?;
    value.get(key)?.as_u64()
}

/// The whole number that a member of the JSON object in `body` holds.
pub uninterp spec fn json_integer(body: Seq<u8>, key: Seq<char>) -> Option<i64>;

/// `serde_json::from_slice` at `Value`, then `Value::get` and `Value::as_i64`.
#[verifier::external_body]
pub(crate) fn get_integer(body: &Vec<u8>, key: &str) -> (r: Option<i64>)
    ensures
        r == json_integer(body@, key@),
{
    let value = serde_json::from_slice::<serde_json::Value>(body).ok()?;
    value.get(key)?.as_i64()
}

/// An object under construction: its members, without the braces.
pub struct Object {
    pub members: String,
}

/// One more member behind the others.
pub open spec fn with_member(members: Seq<char>, key: Seq<char>, value: Seq<char>) -> Seq<char> {
    let m = quoted(key) + ":"@ + value;
    if members.len() == 0 {
        m
    } else {
        members + ","@ + m
    }
}

/// The object with these members.
pub open spec fn braced(members: Seq<char>) -> Seq<char> {
    "{"@ + members + "}"@
}

impl Object {
    pub fn new() -> (r: Object)
        ensures
            r.members@ == Seq::<char>::empty(),
    {
        Object { members: String::new() }
    }

    fn push(&mut self, key: &str, value: &str)
        ensures
            final(self).members@ == with_member(old(self).members@, key@, value@),
    {
        let mut m = quote(key);
        m.append(":");
        m.append(value);
        if self.members.as_str().is_empty() {
            self.members = m;
        } else {
            self.members.append(",");
            self.members.append(m.as_str());
        }
    }

    /// A member that holds a string.
    pub fn text(&mut self, key: &str, value: &str)
        ensures
            final(self).members@ == with_member(old(self).members@, key@, quoted(value@)),
    {
        let v = quote(value);
        self.push(key, v.as_str());
    }

    /// A member that holds a number.
    pub fn number(&mut self, key: &str, value: i64)
        ensures
            final(self).members@ == with_member(
                old(self).members@,
                key@,
                signed_decimal(value as int),
            ),
    {
        let v = show_signed(value);
        self.push(key, v.as_str());
    }

    /// A member that holds a pair of numbers, as an array.
    pub fn pair(&mut self, key: &str, a: i32, b: i32)
        ensures
            final(self).members@ == with_member(old(self).members@, key@, pair_text(a, b)),
    {
        let x = show_signed(a as i64);
        let y = show_signed(b as i64);
        let mut v = String::new();
        v.append("[");
        v.append(x.as_str());
        v.append(",");
        v.append(y.as_str());
        v.append("]");
        proof {
            assert(v@ =~= pair_text(a, b));
        }
        self.push(key, v.as_str());
    }

    /// A member that holds a flag.
    pub fn flag(&mut self, key: &str, value: bool)
        ensures
            final(self).members@ == with_member(old(self).members@, key@, flag_text(value)),
    {
        self.push(
            key,
            if value {
                "true"
            } else {
                "false"
            },
        );
    }

    /// The object as text.
    pub fn finish(self) -> (r: String)
        ensures
            r@ == braced(self.members@),
    {
        let mut out = String::new();
        out.append("{");
        out.append(self.members.as_str());
        out.append("}");
        proof {
            assert(out@ =~= braced(self.members@));
        }
        out
    }
}

/// A pair of numbers as an array.
pub open spec fn pair_text(a: i32, b: i32) -> Seq<char> {
    "["@ + signed_decimal(a as int) + ","@ + signed_decimal(b as int) + "]"@
}

pub open spec fn flag_text(b: bool) -> Seq<char> {
    if b {
        "true"@
    } else {
        "false"@
    }
}

/// An object with one string.
pub open spec fn object1(k: Seq<char>, v: Seq<char>) -> Seq<char> {
    braced(with_member(Seq::empty(), k, quoted(v)))
}

/// An object with two strings.
pub open spec fn object2(k1: Seq<char>, v1: Seq<char>, k2: Seq<char>, v2: Seq<char>) -> Seq<char> {
    braced(with_member(with_member(Seq::empty(), k1, quoted(v1)), k2, quoted(v2)))
}

/// An object with three strings.
pub open spec fn object3(
    k1: Seq<char>,
    v1: Seq<char>,
    k2: Seq<char>,
    v2: Seq<char>,
    k3: Seq<char>,
    v3: Seq<char>,
) -> Seq<char> {
    braced(
        with_member(
            with_member(with_member(Seq::empty(), k1, quoted(v1)), k2, quoted(v2)),
            k3,
            quoted(v3),
        ),
    )
}

/// Inside quotes no quote, no line break and no other control character stands bare, and a character
/// that needs no escape stands for itself.
pub proof fn law_what_is_escaped(c: char)
    ensures
        forall|i: int| 0 <= i < escaped(c).len() ==> (#[trigger] escaped(c)[i]) as u32 >= 0x20,
        c == '"' ==> escaped(c) == seq!['\\', '"'],
        c == '\\' ==> escaped(c) == seq!['\\', '\\'],
        escaped(c).len() > 1 ==> escaped(c)[0] == '\\',
        c as u32 >= 0x20 && c != '"' && c != '\\' ==> escaped(c) == seq![c],
        (c as u32) < 0x20 ==> escaped(c).len() > 1,
{
    let u = c as u32;
    if u < 0x20 {
        assert(u / 16 < 2 && u % 16 < 16);
    }
}

/// No two characters are escaped alike.
pub proof fn law_escapes_are_told_apart(a: char, b: char)
    ensures
        escaped(a) == escaped(b) <==> a == b,
{
    let x = escaped(a);
    let y = escaped(b);
    if x == y && a != b {
        assert(x[0] == y[0] && x.len() == y.len());
        if x.len() == 2 {
            assert(x[1] == y[1]);
        }
        if x.len() == 6 {
            assert(x[4] == y[4] && x[5] == y[5]);
            lemma_hex(a as u32 / 16, b as u32 / 16);
            lemma_hex(a as u32 % 16, b as u32 % 16);
            assert((a as u32) == 16 * (a as u32 / 16) + a as u32 % 16);
        }
    }
}

proof fn lemma_hex(a: u32, b: u32)
    requires
        a < 16,
        b < 16,
        hex(a as int) == hex(b as int),
    ensures
        a == b,
{
}

/// A text is quoted character by character, between two quotes.
pub proof fn law_how_a_text_is_quoted(s: Seq<char>, c: char)
    ensures
        escaped_text(Seq::empty()).len() == 0,
        escaped_text(s.push(c)) == escaped_text(s) + escaped(c),
        quoted(s).len() >= 2 && quoted(s)[0] == '"' && quoted(s).last() == '"',
        quoted(s).subrange(1, quoted(s).len() - 1) == escaped_text(s),
{
    assert(s.push(c).drop_last() =~= s);
    assert(quoted(s).subrange(1, quoted(s).len() - 1) =~= escaped_text(s));
}

/// The first member of an object stands alone, each further one behind a comma; and a flag and a
/// pair are written as JSON has them.
pub proof fn law_how_an_object_is_written(members: Seq<char>, key: Seq<char>, value: Seq<char>, a: i32, b: i32)
    ensures
        with_member(Seq::empty(), key, value) == quoted(key) + ":"@ + value,
        members.len() > 0 ==> with_member(members, key, value) == members + ","@ + (quoted(key)
            + ":"@ + value),
        flag_text(true) == "true"@,
        flag_text(false) == "false"@,
        pair_text(a, b) == "["@ + signed_decimal(a as int) + ","@ + signed_decimal(b as int)
            + "]"@,
{
}

} // verus!
