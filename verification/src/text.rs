//! Text as sequences of characters: the handful of string operations the client is built on, each
//! stated over `Seq<char>`.

use vstd::prelude::*;
use vstd::string::*;
use vstd::utf8::{decode_utf8, encode_utf8, is_ascii_chars, valid_utf8};

verus! {

/// `String::push`: appends one character at the end.
pub assume_specification[ String::push ](s: &mut String, c: char)
    ensures
        final(s)@ == old(s)@.push(c),
;

/// The Unicode `White_Space` property, as its property list gives it.
pub open spec fn white_space(c: char) -> bool {
    let u = c as u32;
    ||| 0x9 <= u <= 0xd
    ||| u == 0x20
    ||| u == 0x85
    ||| u == 0xa0
    ||| u == 0x1680
    ||| 0x2000 <= u <= 0x200a
    ||| u == 0x2028
    ||| u == 0x2029
    ||| u == 0x202f
    ||| u == 0x205f
    ||| u == 0x3000
}

/// `char::is_whitespace`: whether the character has the `White_Space` property.
pub assume_specification[ char::is_whitespace ](c: char) -> (r: bool)
    ensures
        r == white_space(c),
;

/// The general category `Cc`: the C0 and C1 control codes and DEL.
pub open spec fn control(c: char) -> bool {
    (c as u32) <= 0x1f || 0x7f <= (c as u32) <= 0x9f
}

/// `char::is_control`: whether the character is a control code (general category `Cc`).
pub assume_specification[ char::is_control ](c: char) -> (r: bool)
    ensures
        r == control(c),
;

/// What bytes that are not UTF-8 read as, with the replacement character for what is broken.
pub uninterp spec fn mended_utf8(bytes: Seq<u8>) -> Seq<char>;

/// What bytes read as.
pub open spec fn lossy(bytes: Seq<u8>) -> Seq<char> {
    if valid_utf8(bytes) {
        decode_utf8(bytes)
    } else {
        mended_utf8(bytes)
    }
}

/// `String::from_utf8_lossy`: valid UTF-8 reads as what it encodes.
#[verifier::external_body]
pub(crate) fn from_utf8_lossy(bytes: &[u8]) -> (r: String)
    ensures
        r@ == if valid_utf8(bytes@) {
            decode_utf8(bytes@)
        } else {
            mended_utf8(bytes@)
        },
{
    String::from_utf8_lossy(bytes).into_owned()
}

/// Texts in a row take the bytes of the one and then of the other.
pub proof fn lemma_encode_cat(a: Seq<char>, b: Seq<char>)
    ensures
        encode_utf8(a + b) == encode_utf8(a) + encode_utf8(b),
    decreases a.len(),
{
    if a.len() == 0 {
        assert(a + b =~= b);
        assert(encode_utf8(a) + encode_utf8(b) =~= encode_utf8(b));
    } else {
        lemma_encode_cat(a.drop_first(), b);
        assert((a + b).drop_first() =~= a.drop_first() + b);
        assert(encode_utf8(a + b) =~= encode_utf8(a) + encode_utf8(b));
    }
}

/// A text beyond ASCII in upper case.
pub uninterp spec fn unicode_upper(s: Seq<char>) -> Seq<char>;

/// A text in upper case.
pub open spec fn uppercase(s: Seq<char>) -> Seq<char> {
    if is_ascii_chars(s) {
        s.map_values(|c: char| ascii_upper(c))
    } else {
        unicode_upper(s)
    }
}

/// `str::to_uppercase`: an ASCII text letter by letter.
#[verifier::external_body]
pub(crate) fn to_uppercase(s: &str) -> (r: String)
    ensures
        r@ == if is_ascii_chars(s@) {
            s@.map_values(|c: char| ascii_upper(c))
        } else {
            unicode_upper(s@)
        },
{
    s.to_uppercase()
}

/// A character beyond ASCII in lower case.
pub uninterp spec fn unicode_lower(c: char) -> Seq<char>;

/// A character in lower case, which can take several characters.
pub open spec fn lower_char(c: char) -> Seq<char> {
    if c as u32 <= 127 {
        seq![ascii_lower(c)]
    } else {
        unicode_lower(c)
    }
}

/// `char::to_lowercase`: an ASCII letter is its small letter, and any other ASCII character
/// itself.
#[verifier::external_body]
fn to_lower_char(c: char) -> (r: Vec<char>)
    ensures
        r@ == if c as u32 <= 127 {
            seq![ascii_lower(c)]
        } else {
            unicode_lower(c)
        },
{
    c.to_lowercase().collect()
}

/// A text in lower case, character by character.
pub open spec fn lowered(s: Seq<char>) -> Seq<char>
    decreases s.len(),
{
    if s.len() == 0 {
        Seq::empty()
    } else {
        lowered(s.drop_last()) + lower_char(s.last())
    }
}

/// A text in lower case, character by character.
pub fn lower(s: &str) -> (r: Vec<char>)
    ensures
        r@ == lowered(s@),
{
    let v = chars(s);
    let mut out: Vec<char> = Vec::new();
    let mut i: usize = 0;
    proof {
        assert(v@.take(0) =~= Seq::<char>::empty());
        assert(out@ =~= Seq::<char>::empty());
    }
    while i < v.len()
        invariant
            i <= v.len(),
            out@ == lowered(v@.take(i as int)),
        decreases v.len() - i,
    {
        proof {
            assert(v@.take(i as int + 1).drop_last() =~= v@.take(i as int));
        }
        let mut c = to_lower_char(v[i]);
        out.append(&mut c);
        i = i + 1;
    }
    proof {
        assert(v@.take(v@.len() as int) =~= v@);
    }
    out
}

/// The characters of a string.
pub fn chars(s: &str) -> (r: Vec<char>)
    ensures
        r@ == s@,
{
    let mut out: Vec<char> = Vec::new();
    for c in it: s.chars()
        invariant
            it.seq() == s@,
            out@ == s@.take(it.index() as int),
    {
        out.push(c);
        proof {
            assert(out@ =~= s@.take(it.index() as int + 1));
        }
    }
    proof {
        assert(s@.take(s@.len() as int) =~= s@);
    }
    out
}

/// The string made of `v[from..to]`.
pub fn string_of(v: &Vec<char>, from: usize, to: usize) -> (r: String)
    requires
        from <= to <= v.len(),
    ensures
        r@ == v@.subrange(from as int, to as int),
{
    let mut out = String::new();
    let mut i: usize = from;
    while i < to
        invariant
            from <= i <= to <= v.len(),
            out@ == v@.subrange(from as int, i as int),
        decreases to - i,
    {
        out.push(v[i]);
        proof {
            assert(out@ =~= v@.subrange(from as int, i as int + 1));
        }
        i = i + 1;
    }
    out
}

/// Whether two strings hold the same characters.
pub fn eq(a: &str, b: &str) -> (r: bool)
    ensures
        r == (a@ == b@),
{
    let x = chars(a);
    let y = chars(b);
    if x.len() != y.len() {
        return false;
    }
    let mut i: usize = 0;
    while i < x.len()
        invariant
            i <= x.len(),
            x.len() == y.len(),
            x@ == a@,
            y@ == b@,
            forall|j: int| 0 <= j < i ==> x@[j] == y@[j],
        decreases x.len() - i,
    {
        if x[i] != y[i] {
            proof {
                assert(a@[i as int] != b@[i as int]);
            }
            return false;
        }
        i = i + 1;
    }
    proof {
        assert(a@ =~= b@);
    }
    true
}

/// A copy of a string.
pub fn owned(s: &str) -> (r: String)
    ensures
        r@ == s@,
{
    s.to_owned()
}

/// The concatenation of two strings.
pub fn cat(a: &str, b: &str) -> (r: String)
    ensures
        r@ == a@ + b@,
{
    let mut out = a.to_owned();
    out.append(b);
    out
}

/// The concatenation of three strings.
pub fn cat3(a: &str, b: &str, c: &str) -> (r: String)
    ensures
        r@ == a@ + b@ + c@,
{
    let mut out = a.to_owned();
    out.append(b);
    out.append(c);
    out
}

/// The view of an optional string.
pub open spec fn opt(s: Option<String>) -> Option<Seq<char>> {
    match s {
        Some(s) => Some(s@),
        None => None,
    }
}

/// The views of a list of strings.
pub open spec fn strings(v: Seq<String>) -> Seq<Seq<char>> {
    v.map_values(|s: String| s@)
}

/// A copy of an optional string.
pub fn opt_clone(s: &Option<String>) -> (r: Option<String>)
    ensures
        opt(r) == opt(*s),
{
    match s {
        Some(s) => Some(s.as_str().to_owned()),
        None => None,
    }
}

// ---- trimming ----

pub open spec fn trim_start(s: Seq<char>) -> Seq<char>
    decreases s.len(),
{
    if s.len() > 0 && white_space(s[0]) {
        trim_start(s.skip(1))
    } else {
        s
    }
}

pub open spec fn trim_end(s: Seq<char>) -> Seq<char>
    decreases s.len(),
{
    if s.len() > 0 && white_space(s.last()) {
        trim_end(s.drop_last())
    } else {
        s
    }
}

/// What is left of `s` without the white space at either end.
pub open spec fn trimmed(s: Seq<char>) -> Seq<char> {
    trim_end(trim_start(s))
}

/// `s` without every `c` at its end.
pub open spec fn without_trailing(s: Seq<char>, c: char) -> Seq<char>
    decreases s.len(),
{
    if s.len() > 0 && s.last() == c {
        without_trailing(s.drop_last(), c)
    } else {
        s
    }
}

/// `s` without every `c` at its start.
pub open spec fn without_leading(s: Seq<char>, c: char) -> Seq<char>
    decreases s.len(),
{
    if s.len() > 0 && s[0] == c {
        without_leading(s.skip(1), c)
    } else {
        s
    }
}

/// A text that neither starts nor ends with white space is its own trimming.
pub proof fn lemma_trimmed_fixed(s: Seq<char>)
    requires
        s.len() > 0 ==> !white_space(s[0]) && !white_space(s.last()),
    ensures
        trimmed(s) == s,
{
}

/// Trimming drops white space in front of a text that starts without any.
pub proof fn lemma_trim_leading_space(s: Seq<char>, c: char)
    requires
        white_space(c),
        s.len() > 0 ==> !white_space(s[0]) && !white_space(s.last()),
    ensures
        trimmed(seq![c] + s) == s,
{
    let t = seq![c] + s;
    assert(t[0] == c);
    assert(t.skip(1) =~= s);
    assert(trim_start(t) == trim_start(s));
}

/// Trimming drops white space behind a text that ends without any.
pub proof fn lemma_trim_trailing_space(s: Seq<char>, c: char)
    requires
        white_space(c),
        s.len() > 0,
        !white_space(s[0]),
        !white_space(s.last()),
    ensures
        trimmed(s.push(c)) == s,
{
    let t = s.push(c);
    assert(t[0] == s[0]);
    assert(t.last() == c);
    assert(t.drop_last() =~= s);
    assert(trim_end(t) == trim_end(s));
}

proof fn lemma_trim_start_ends(s: Seq<char>)
    ensures
        trim_start(s).len() <= s.len(),
        trim_start(s).len() > 0 ==> !white_space(trim_start(s)[0]),
    decreases s.len(),
{
    if s.len() > 0 && white_space(s[0]) {
        lemma_trim_start_ends(s.skip(1));
    }
}

proof fn lemma_trim_end_ends(s: Seq<char>)
    ensures
        trim_end(s).len() <= s.len(),
        trim_end(s).len() > 0 ==> !white_space(trim_end(s).last()) && trim_end(s)[0] == s[0],
    decreases s.len(),
{
    if s.len() > 0 && white_space(s.last()) {
        lemma_trim_end_ends(s.drop_last());
    }
}

/// Trimming the start leaves the end of a text.
pub proof fn lemma_trim_start_suffix(s: Seq<char>)
    ensures
        trim_start(s).len() <= s.len(),
        trim_start(s) == s.skip(s.len() - trim_start(s).len()),
    decreases s.len(),
{
    if s.len() > 0 && white_space(s[0]) {
        lemma_trim_start_suffix(s.skip(1));
        let k = s.len() - trim_start(s).len();
        assert(s.skip(1).skip(k - 1) =~= s.skip(k));
    } else {
        assert(s.skip(0) =~= s);
    }
}

/// Trimming the end leaves the start of a text.
pub proof fn lemma_trim_end_prefix(s: Seq<char>)
    ensures
        trim_end(s).len() <= s.len(),
        trim_end(s) == s.take(trim_end(s).len() as int),
    decreases s.len(),
{
    if s.len() > 0 && white_space(s.last()) {
        lemma_trim_end_prefix(s.drop_last());
        let k = trim_end(s).len() as int;
        assert(s.drop_last().take(k) =~= s.take(k));
    } else {
        assert(s.take(s.len() as int) =~= s);
    }
}

/// Trimming leaves a part of a text that neither starts nor ends with white space.
pub proof fn lemma_trimmed_part(s: Seq<char>)
    ensures
        trimmed(s).len() <= s.len(),
        forall|i: int| 0 <= i < trimmed(s).len() ==> s.contains(#[trigger] trimmed(s)[i]),
        trimmed(s).len() > 0 ==> !white_space(trimmed(s)[0]) && !white_space(trimmed(s).last()),
{
    let t = trim_start(s);
    lemma_trim_start_suffix(s);
    lemma_trim_end_prefix(t);
    lemma_trim_start_ends(s);
    lemma_trim_end_ends(t);
    assert forall|i: int| 0 <= i < trimmed(s).len() implies s.contains(
        #[trigger] trimmed(s)[i],
    ) by {
        assert(trimmed(s)[i] == s[s.len() - t.len() + i]);
    }
}

proof fn lemma_trim_start_cat(a: Seq<char>, b: Seq<char>)
    requires
        b.len() > 0,
        !white_space(b[0]),
    ensures
        trim_start(a + b) == trim_start(a) + b,
    decreases a.len(),
{
    if a.len() == 0 {
        assert(a + b =~= b);
        assert(trim_start(a) + b =~= b);
    } else {
        assert((a + b)[0] == a[0]);
        if white_space(a[0]) {
            assert((a + b).skip(1) =~= a.skip(1) + b);
            lemma_trim_start_cat(a.skip(1), b);
        }
    }
}

proof fn lemma_trim_end_cat(a: Seq<char>, b: Seq<char>)
    requires
        a.len() > 0,
        !white_space(a.last()),
    ensures
        trim_end(a + b) == a + trim_end(b),
    decreases b.len(),
{
    if b.len() == 0 {
        assert(a + b =~= a);
        assert(a + trim_end(b) =~= a);
    } else {
        assert((a + b).last() == b.last());
        if white_space(b.last()) {
            assert((a + b).drop_last() =~= a + b.drop_last());
            lemma_trim_end_cat(a, b.drop_last());
        }
    }
}

/// Trimming reaches no further than a part that neither starts nor ends with white space.
pub proof fn lemma_trim_around(before: Seq<char>, part: Seq<char>, after: Seq<char>)
    requires
        part.len() > 0,
        !white_space(part[0]),
        !white_space(part.last()),
    ensures
        trimmed(before + part + after) == trim_start(before) + part + trim_end(after),
{
    assert(before + part + after =~= before + (part + after));
    lemma_trim_start_cat(before, part + after);
    assert(trim_start(before) + (part + after) =~= trim_start(before) + part + after);
    lemma_trim_end_cat(trim_start(before) + part, after);
}

/// `str::trim`.
pub fn trim(s: &str) -> (r: String)
    ensures
        r@ == trimmed(s@),
{
    let v = chars(s);
    let mut i: usize = 0;
    proof {
        assert(v@.skip(0) =~= v@);
    }
    while i < v.len() && v[i].is_whitespace()
        invariant
            i <= v.len(),
            trim_start(v@) == trim_start(v@.skip(i as int)),
        decreases v.len() - i,
    {
        proof {
            assert(v@.skip(i as int)[0] == v@[i as int]);
            assert(v@.skip(i as int).skip(1) =~= v@.skip(i as int + 1));
        }
        i = i + 1;
    }
    let mut j: usize = v.len();
    proof {
        if i < v.len() {
            assert(v@.skip(i as int)[0] == v@[i as int]);
        }
        assert(v@.skip(i as int) =~= v@.subrange(i as int, j as int));
    }
    while i < j && v[j - 1].is_whitespace()
        invariant
            i <= j <= v.len(),
            trim_end(trim_start(v@)) == trim_end(v@.subrange(i as int, j as int)),
        decreases j,
    {
        proof {
            let t = v@.subrange(i as int, j as int);
            assert(t.last() == v@[j as int - 1]);
            assert(t.drop_last() =~= v@.subrange(i as int, j as int - 1));
        }
        j = j - 1;
    }
    proof {
        let t = v@.subrange(i as int, j as int);
        if i < j {
            assert(t.last() == v@[j as int - 1]);
        }
    }
    string_of(&v, i, j)
}

/// `str::trim_end_matches` with one character.
pub fn trim_end_char(s: &str, c: char) -> (r: String)
    ensures
        r@ == without_trailing(s@, c),
{
    let v = chars(s);
    let mut j: usize = v.len();
    proof {
        assert(v@.take(j as int) =~= v@);
    }
    while 0 < j && v[j - 1] == c
        invariant
            j <= v.len(),
            without_trailing(v@, c) == without_trailing(v@.take(j as int), c),
        decreases j,
    {
        proof {
            assert(v@.take(j as int).last() == v@[j as int - 1]);
            assert(v@.take(j as int).drop_last() =~= v@.take(j as int - 1));
        }
        j = j - 1;
    }
    proof {
        if 0 < j {
            assert(v@.take(j as int).last() == v@[j as int - 1]);
        }
        assert(v@.take(j as int) =~= v@.subrange(0, j as int));
    }
    string_of(&v, 0, j)
}

/// `str::trim_start_matches` with one character.
pub fn trim_start_char(s: &str, c: char) -> (r: String)
    ensures
        r@ == without_leading(s@, c),
{
    let v = chars(s);
    let mut i: usize = 0;
    proof {
        assert(v@.skip(0) =~= v@);
    }
    while i < v.len() && v[i] == c
        invariant
            i <= v.len(),
            without_leading(v@, c) == without_leading(v@.skip(i as int), c),
        decreases v.len() - i,
    {
        proof {
            assert(v@.skip(i as int)[0] == v@[i as int]);
            assert(v@.skip(i as int).skip(1) =~= v@.skip(i as int + 1));
        }
        i = i + 1;
    }
    proof {
        if i < v.len() {
            assert(v@.skip(i as int)[0] == v@[i as int]);
        }
        assert(v@.skip(i as int) =~= v@.subrange(i as int, v@.len() as int));
    }
    string_of(&v, i, v.len())
}

/// `s` without every `a` and `b` at its end.
pub open spec fn without_trailing_either(s: Seq<char>, a: char, b: char) -> Seq<char>
    decreases s.len(),
{
    if s.len() > 0 && (s.last() == a || s.last() == b) {
        without_trailing_either(s.drop_last(), a, b)
    } else {
        s
    }
}

/// `str::trim_end_matches` with two characters.
pub fn trim_end_either(s: &str, a: char, b: char) -> (r: String)
    ensures
        r@ == without_trailing_either(s@, a, b),
{
    let v = chars(s);
    let mut j: usize = v.len();
    proof {
        assert(v@.take(j as int) =~= v@);
    }
    while 0 < j && (v[j - 1] == a || v[j - 1] == b)
        invariant
            j <= v.len(),
            without_trailing_either(v@, a, b) == without_trailing_either(v@.take(j as int), a, b),
        decreases j,
    {
        proof {
            assert(v@.take(j as int).last() == v@[j as int - 1]);
            assert(v@.take(j as int).drop_last() =~= v@.take(j as int - 1));
        }
        j = j - 1;
    }
    proof {
        if 0 < j {
            assert(v@.take(j as int).last() == v@[j as int - 1]);
        }
        assert(v@.take(j as int) =~= v@.subrange(0, j as int));
    }
    string_of(&v, 0, j)
}

/// `s` without every `p` at its end.
pub open spec fn without_trailing_text(s: Seq<char>, p: Seq<char>) -> Seq<char>
    decreases s.len(),
{
    if p.len() > 0 && stands_at(s, p, s.len() - p.len()) {
        without_trailing_text(s.take(s.len() - p.len()), p)
    } else {
        s
    }
}

/// `str::trim_end_matches` with a string.
pub fn trim_end_text(s: &str, p: &str) -> (r: String)
    ensures
        r@ == without_trailing_text(s@, p@),
{
    let mut v = chars(s);
    let q = chars(p);
    while q.len() > 0 && q.len() <= v.len() && stands(&v, &q, v.len() - q.len())
        invariant
            q@ == p@,
            without_trailing_text(v@, q@) == without_trailing_text(s@, p@),
        decreases v.len(),
    {
        let keep: usize = v.len() - q.len();
        proof {
            assert(v@.take(keep as int) =~= v@.subrange(0, keep as int));
        }
        v.truncate(keep);
    }
    proof {
        assert(v@ =~= v@.subrange(0, v@.len() as int));
    }
    string_of(&v, 0, v.len())
}

// ---- searching and splitting ----

/// Whether `p` stands in `s` at index `i`.
pub open spec fn stands_at(s: Seq<char>, p: Seq<char>, i: int) -> bool {
    0 <= i && i + p.len() <= s.len() && s.subrange(i, i + p.len()) == p
}

/// The first index at or after `i` at which `p` stands in `s`.
pub open spec fn found_from(s: Seq<char>, p: Seq<char>, i: int) -> Option<int>
    decreases s.len() + 1 - i,
{
    if i + p.len() > s.len() {
        None
    } else if stands_at(s, p, i) {
        Some(i)
    } else {
        found_from(s, p, i + 1)
    }
}

/// The first index at which `p` stands in `s`.
pub open spec fn found(s: Seq<char>, p: Seq<char>) -> Option<int> {
    found_from(s, p, 0)
}

/// Whether `s` starts with `p`.
pub open spec fn starts(s: Seq<char>, p: Seq<char>) -> bool {
    stands_at(s, p, 0)
}

/// `found_from` gives an index where the pattern stands, the least one, or says there is none.
pub proof fn lemma_found_from(s: Seq<char>, p: Seq<char>, i: int)
    requires
        0 <= i,
    ensures
        match found_from(s, p, i) {
            Some(k) => i <= k && stands_at(s, p, k) && forall|j: int|
                i <= j < k ==> !#[trigger] stands_at(s, p, j),
            None => forall|j: int| i <= j ==> !#[trigger] stands_at(s, p, j),
        },
    decreases s.len() + 1 - i,
{
    if i + p.len() > s.len() {
    } else if stands_at(s, p, i) {
    } else {
        lemma_found_from(s, p, i + 1);
    }
}

/// Whether `p` stands in `v` at index `i`.
fn stands(v: &Vec<char>, p: &Vec<char>, i: usize) -> (r: bool)
    requires
        i <= v.len(),
    ensures
        r == stands_at(v@, p@, i as int),
{
    if p.len() > v.len() - i {
        return false;
    }
    let mut k: usize = 0;
    while k < p.len()
        invariant
            k <= p.len(),
            i + p.len() <= v.len(),
            forall|j: int| 0 <= j < k ==> v@[i + j] == p@[j],
        decreases p.len() - k,
    {
        if v[i + k] != p[k] {
            proof {
                assert(v@.subrange(i as int, i + p.len())[k as int] != p@[k as int]);
            }
            return false;
        }
        k = k + 1;
    }
    proof {
        assert(v@.subrange(i as int, i + p.len()) =~= p@);
    }
    true
}

/// The first index at or after `from` at which `p` stands in `v`.
fn find_in(v: &Vec<char>, p: &Vec<char>, from: usize) -> (r: Option<usize>)
    requires
        from <= v.len(),
    ensures
        match r {
            Some(i) => found_from(v@, p@, from as int) == Some(i as int) && i + p.len() <= v.len(),
            None => found_from(v@, p@, from as int) is None,
        },
{
    let mut i: usize = from;
    while p.len() <= v.len() - i
        invariant
            from <= i <= v.len(),
            found_from(v@, p@, from as int) == found_from(v@, p@, i as int),
        decreases v.len() - i,
    {
        if stands(v, p, i) {
            return Some(i);
        }
        if i == v.len() {
            proof {
                assert(found_from(v@, p@, i + 1) is None);
            }
            return None;
        }
        i = i + 1;
    }
    None
}

/// `str::find` with a string, counted in characters.
pub fn find(s: &str, p: &str) -> (r: Option<usize>)
    ensures
        match r {
            Some(i) => found(s@, p@) == Some(i as int) && i + p@.len() <= s@.len() <= usize::MAX,
            None => found(s@, p@) is None,
        },
{
    let v = chars(s);
    let q = chars(p);
    find_in(&v, &q, 0)
}

/// `str::contains` with a string.
pub fn contains(s: &str, p: &str) -> (r: bool)
    ensures
        r == found(s@, p@) is Some,
{
    find(s, p).is_some()
}

/// `str::starts_with` with a string.
pub fn starts_with(s: &str, p: &str) -> (r: bool)
    ensures
        r == starts(s@, p@),
{
    let v = chars(s);
    let q = chars(p);
    stands(&v, &q, 0)
}

/// `str::ends_with` with a string.
pub fn ends_with(s: &str, p: &str) -> (r: bool)
    ensures
        r == stands_at(s@, p@, s@.len() - p@.len()),
{
    let v = chars(s);
    let q = chars(p);
    if q.len() > v.len() {
        return false;
    }
    stands(&v, &q, v.len() - q.len())
}

/// `str::strip_prefix`.
pub fn strip_prefix(s: &str, p: &str) -> (r: Option<String>)
    ensures
        r is Some <==> starts(s@, p@),
        r matches Some(rest) ==> rest@ == s@.skip(p@.len() as int),
{
    let v = chars(s);
    let q = chars(p);
    if stands(&v, &q, 0) {
        proof {
            assert(v@.skip(q@.len() as int) =~= v@.subrange(q@.len() as int, v@.len() as int));
        }
        Some(string_of(&v, q.len(), v.len()))
    } else {
        None
    }
}

/// What follows the first `n` characters.
pub fn skip(s: &str, n: usize) -> (r: String)
    requires
        n <= s@.len(),
    ensures
        r@ == s@.skip(n as int),
{
    let v = chars(s);
    proof {
        assert(v@.skip(n as int) =~= v@.subrange(n as int, v@.len() as int));
    }
    string_of(&v, n, v.len())
}

/// The first index of `c` in `s`, or the length of `s`.
pub open spec fn position(s: Seq<char>, c: char) -> int
    decreases s.len(),
{
    if s.len() == 0 || s[0] == c {
        0
    } else {
        1 + position(s.skip(1), c)
    }
}

/// `position` points at the first `c`, or behind the end.
pub proof fn lemma_position(s: Seq<char>, c: char)
    ensures
        0 <= position(s, c) <= s.len(),
        position(s, c) < s.len() ==> s[position(s, c)] == c,
        forall|j: int| 0 <= j < position(s, c) ==> s[j] != c,
    decreases s.len(),
{
    if s.len() == 0 || s[0] == c {
    } else {
        let t = s.skip(1);
        lemma_position(t, c);
        assert forall|j: int| 0 <= j < position(s, c) implies s[j] != c by {
            if j > 0 {
                assert(t[j - 1] == s[j]);
            }
        }
        if position(s, c) < s.len() {
            assert(t[position(t, c)] == s[position(s, c)]);
        }
    }
}

/// Text without `c`, then `c`: the position is the length of that text.
pub proof fn lemma_position_after(a: Seq<char>, c: char, b: Seq<char>)
    requires
        forall|j: int| 0 <= j < a.len() ==> a[j] != c,
    ensures
        position(a + seq![c] + b, c) == a.len(),
{
    let s = a + seq![c] + b;
    lemma_position(s, c);
    let k = position(s, c);
    assert(s[a.len() as int] == c);
    if k < a.len() {
        assert(s[k] == a[k]);
    }
}

/// The position of a character that does not occur.
pub proof fn lemma_position_absent(s: Seq<char>, c: char)
    requires
        forall|j: int| 0 <= j < s.len() ==> s[j] != c,
    ensures
        position(s, c) == s.len(),
{
    lemma_position(s, c);
}

/// The first index of `c` in `v`, or the length of `v`.
fn position_in(v: &Vec<char>, c: char, from: usize) -> (r: usize)
    requires
        from <= v.len(),
    ensures
        from <= r <= v.len(),
        r - from == position(v@.skip(from as int), c),
{
    let mut i: usize = from;
    while i < v.len() && v[i] != c
        invariant
            from <= i <= v.len(),
            position(v@.skip(from as int), c) == (i - from) + position(v@.skip(i as int), c),
        decreases v.len() - i,
    {
        proof {
            assert(v@.skip(i as int)[0] == v@[i as int]);
            assert(v@.skip(i as int).skip(1) =~= v@.skip(i as int + 1));
        }
        i = i + 1;
    }
    proof {
        if i < v.len() {
            assert(v@.skip(i as int)[0] == v@[i as int]);
        }
    }
    i
}

/// The pieces of `s` between the separators `c`, first to last; at least one.
pub open spec fn pieces(s: Seq<char>, c: char) -> Seq<Seq<char>>
    decreases s.len(),
{
    let i = position(s, c);
    if 0 <= i < s.len() {
        seq![s.take(i)] + pieces(s.skip(i + 1), c)
    } else {
        seq![s]
    }
}

/// The pieces of a text that opens with a piece free of the separator.
pub proof fn lemma_pieces_cons(a: Seq<char>, c: char, b: Seq<char>)
    requires
        forall|j: int| 0 <= j < a.len() ==> a[j] != c,
    ensures
        pieces(a + seq![c] + b, c) == seq![a] + pieces(b, c),
{
    let s = a + seq![c] + b;
    lemma_position_after(a, c, b);
    lemma_position(s, c);
    assert(s.take(a.len() as int) =~= a);
    assert(s.skip(a.len() as int + 1) =~= b);
}

/// `str::split` with one character.
pub fn split(s: &str, c: char) -> (r: Vec<String>)
    ensures
        strings(r@) == pieces(s@, c),
{
    let v = chars(s);
    let mut out: Vec<String> = Vec::new();
    let mut from: usize = 0;
    proof {
        assert(v@.skip(0) =~= v@);
        assert(strings(out@) + pieces(v@, c) =~= pieces(v@, c));
    }
    loop
        invariant_except_break
            from <= v.len(),
            pieces(v@, c) == strings(out@) + pieces(v@.skip(from as int), c),
        ensures
            strings(out@) == pieces(v@, c),
        decreases v.len() - from,
    {
        let i = position_in(&v, c, from);
        let ghost rest = v@.skip(from as int);
        proof {
            lemma_position(rest, c);
            assert(rest.take(i - from) =~= v@.subrange(from as int, i as int));
        }
        let ghost before = strings(out@);
        out.push(string_of(&v, from, i));
        proof {
            assert(strings(out@) =~= before + seq![rest.take(i - from)]);
        }
        if i == v.len() {
            proof {
                assert(rest.take(i - from) =~= rest);
                assert(strings(out@) =~= before + pieces(rest, c));
            }
            break;
        }
        proof {
            assert(rest.skip(i - from + 1) =~= v@.skip(i as int + 1));
            assert(strings(out@) + pieces(v@.skip(i as int + 1), c) =~= before + pieces(rest, c));
        }
        from = i + 1;
    }
    out
}

/// `str::split_once` with one character: what stands before the first `c` and what follows it.
pub fn split_once(s: &str, c: char) -> (r: Option<(String, String)>)
    ensures
        match r {
            Some((a, b)) => position(s@, c) < s@.len() && a@ == s@.take(position(s@, c)) && b@
                == s@.skip(position(s@, c) + 1),
            None => position(s@, c) == s@.len(),
        },
{
    let v = chars(s);
    let i = position_in(&v, c, 0);
    proof {
        assert(v@.skip(0) =~= v@);
        lemma_position(v@, c);
    }
    if i == v.len() {
        None
    } else {
        proof {
            assert(v@.take(i as int) =~= v@.subrange(0, i as int));
            assert(v@.skip(i as int + 1) =~= v@.subrange(i as int + 1, v@.len() as int));
        }
        Some((string_of(&v, 0, i), string_of(&v, i + 1, v.len())))
    }
}

/// `s` with the first `p` replaced by `t`.
pub open spec fn replaced_first(s: Seq<char>, p: Seq<char>, t: Seq<char>) -> Seq<char> {
    match found(s, p) {
        Some(i) => s.take(i) + t + s.skip(i + p.len()),
        None => s,
    }
}

/// `str::replacen` with a count of one.
pub fn replace_first(s: &str, p: &str, t: &str) -> (r: String)
    ensures
        r@ == replaced_first(s@, p@, t@),
{
    let v = chars(s);
    let q = chars(p);
    match find_in(&v, &q, 0) {
        Some(i) => {
            let mut out = string_of(&v, 0, i);
            out.append(t);
            let tail = string_of(&v, i + q.len(), v.len());
            out.append(tail.as_str());
            proof {
                assert(v@.take(i as int) =~= v@.subrange(0, i as int));
                assert(v@.skip(i + q.len()) =~= v@.subrange(i + q.len(), v@.len() as int));
            }
            out
        },
        None => s.to_owned(),
    }
}

/// `s` from index `i` on, with every `p` replaced by `t`, left to right.
pub open spec fn replaced_from(s: Seq<char>, p: Seq<char>, t: Seq<char>, i: int) -> Seq<char>
    decreases s.len() - i,
{
    match found_from(s, p, i) {
        Some(k) => if i <= k && 0 < p.len() && k + p.len() <= s.len() {
            s.subrange(i, k) + t + replaced_from(s, p, t, k + p.len())
        } else {
            s.skip(i)
        },
        None => s.skip(i),
    }
}

/// `s` with every `p` replaced by `t`.
pub open spec fn replaced(s: Seq<char>, p: Seq<char>, t: Seq<char>) -> Seq<char> {
    replaced_from(s, p, t, 0)
}

/// `str::replace` with a pattern that is not empty.
pub fn replace(s: &str, p: &str, t: &str) -> (r: String)
    requires
        p@.len() > 0,
    ensures
        r@ == replaced(s@, p@, t@),
{
    let v = chars(s);
    let q = chars(p);
    let mut out = String::new();
    let mut from: usize = 0;
    proof {
        assert(out@ + replaced(v@, q@, t@) =~= replaced(v@, q@, t@));
    }
    loop
        invariant_except_break
            from <= v.len(),
            q.len() > 0,
            replaced(v@, q@, t@) == out@ + replaced_from(v@, q@, t@, from as int),
        ensures
            out@ == replaced(v@, q@, t@),
        decreases v.len() - from,
    {
        proof {
            lemma_found_from(v@, q@, from as int);
        }
        match find_in(&v, &q, from) {
            Some(k) => {
                let ghost before = out@;
                let part = string_of(&v, from, k);
                out.append(part.as_str());
                out.append(t);
                from = k + q.len();
                proof {
                    assert(out@ + replaced_from(v@, q@, t@, from as int) =~= before + (part@ + t@
                        + replaced_from(v@, q@, t@, from as int)));
                }
            },
            None => {
                let part = string_of(&v, from, v.len());
                proof {
                    assert(part@ =~= v@.skip(from as int));
                }
                out.append(part.as_str());
                break;
            },
        }
    }
    out
}

// ---- numbers and letter case ----

/// The decimal digit of a number below ten.
pub open spec fn digit(d: int) -> char {
    (('0' as u32) + d) as char
}

/// A number in decimal, without leading zeros.
pub open spec fn decimal(n: nat) -> Seq<char>
    decreases n,
{
    if n < 10 {
        seq![digit(n as int)]
    } else {
        decimal(n / 10).push(digit((n % 10) as int))
    }
}

/// An integer in decimal, with a minus sign where it is negative.
pub open spec fn signed_decimal(n: int) -> Seq<char> {
    if n < 0 {
        seq!['-'] + decimal((-n) as nat)
    } else {
        decimal(n as nat)
    }
}

/// `s` filled up with zeros in front to at least `width` characters.
pub open spec fn zero_padded(s: Seq<char>, width: nat) -> Seq<char> {
    if s.len() >= width {
        s
    } else {
        Seq::new((width - s.len()) as nat, |i: int| '0') + s
    }
}

/// Whether a character is a decimal digit.
pub open spec fn is_digit(c: char) -> bool {
    '0' <= c <= '9'
}

/// The value of a decimal digit.
pub open spec fn digit_value(c: char) -> int {
    c as int - '0' as int
}

/// The number that a run of decimal digits writes.
pub open spec fn number(s: Seq<char>) -> nat
    decreases s.len(),
{
    if s.len() == 0 {
        0
    } else {
        (10 * number(s.drop_last()) + digit_value(s.last())) as nat
    }
}

/// Whether every character is a decimal digit.
pub open spec fn all_digits(s: Seq<char>) -> bool {
    forall|i: int| 0 <= i < s.len() ==> is_digit(#[trigger] s[i])
}

/// The decimal of a number is a run of digits that writes the number back.
pub proof fn lemma_decimal(n: nat)
    ensures
        decimal(n).len() >= 1,
        all_digits(decimal(n)),
        number(decimal(n)) == n,
        decimal(n)[0] == '0' ==> n == 0,
    decreases n,
{
    if n < 10 {
        let s = seq![digit(n as int)];
        assert(s.drop_last() =~= Seq::<char>::empty());
        assert(number(s.drop_last()) == 0);
    } else {
        lemma_decimal(n / 10);
        let s = decimal(n);
        assert(s.drop_last() =~= decimal(n / 10));
        assert(s.last() == digit((n % 10) as int));
        assert(s[0] == decimal(n / 10)[0]);
    }
}

/// How many digits a number has.
pub proof fn lemma_decimal_len(n: nat)
    ensures
        n < 10 ==> decimal(n).len() == 1,
        10 <= n < 100 ==> decimal(n).len() == 2,
        100 <= n < 1000 ==> decimal(n).len() == 3,
{
    reveal_with_fuel(decimal, 4);
}

/// Zeros in front do not change the number written.
pub proof fn lemma_zero_padded(s: Seq<char>, width: nat)
    requires
        all_digits(s),
    ensures
        all_digits(zero_padded(s, width)),
        number(zero_padded(s, width)) == number(s),
        s.len() <= width ==> zero_padded(s, width).len() == width,
{
    if s.len() < width {
        let z = Seq::new((width - s.len()) as nat, |i: int| '0');
        lemma_number_zeros(z, s);
    }
}

proof fn lemma_number_zeros(z: Seq<char>, s: Seq<char>)
    requires
        forall|i: int| 0 <= i < z.len() ==> z[i] == '0',
    ensures
        number(z + s) == number(s),
    decreases z.len() + s.len(),
{
    let t = z + s;
    if s.len() > 0 {
        assert(t.drop_last() =~= z + s.drop_last());
        assert(t.last() == s.last());
        lemma_number_zeros(z, s.drop_last());
    } else if z.len() > 0 {
        assert(t =~= z);
        assert(z.drop_last() + s =~= z.drop_last());
        lemma_number_zeros(z.drop_last(), s);
        assert(number(z) == 0);
    } else {
        assert(t =~= s);
    }
}

/// The value of a run of digits that is split in two.
pub proof fn lemma_number_concat(a: Seq<char>, b: Seq<char>)
    requires
        all_digits(b),
    ensures
        number(a + b) == number(a) * pow10(b.len()) + number(b),
    decreases b.len(),
{
    if b.len() == 0 {
        assert(a + b =~= a);
        assert(pow10(0) == 1);
    } else {
        let t = a + b;
        assert(t.drop_last() =~= a + b.drop_last());
        assert(t.last() == b.last());
        assert(is_digit(b[b.len() - 1]));
        lemma_number_concat(a, b.drop_last());
        let p = pow10((b.len() - 1) as nat);
        assert(pow10(b.len()) == 10 * p);
        assert(10 * (number(a) * p) == number(a) * (10 * p)) by (nonlinear_arith);
        assert(10 * (number(a) * p + number(b.drop_last())) == 10 * (number(a) * p) + 10 * number(
            b.drop_last(),
        )) by (nonlinear_arith);
    }
}

/// Powers of ten.
pub open spec fn pow10(n: nat) -> nat
    decreases n,
{
    if n == 0 {
        1
    } else {
        10 * pow10((n - 1) as nat)
    }
}

/// `{}` of an unsigned number.
pub fn show(n: u64) -> (r: String)
    ensures
        r@ == decimal(n as nat),
    decreases n,
{
    let c = digit_char((n % 10) as u8);
    if n < 10 {
        let mut out = String::new();
        out.push(c);
        proof {
            assert(out@ =~= decimal(n as nat));
        }
        out
    } else {
        let mut out = show(n / 10);
        out.push(c);
        out
    }
}

/// The character of a digit.
pub fn digit_char(d: u8) -> (r: char)
    requires
        d < 10,
    ensures
        r == digit(d as int),
{
    (48 + d) as char
}

/// `{}` of a signed number.
pub fn show_signed(n: i64) -> (r: String)
    ensures
        r@ == signed_decimal(n as int),
{
    if n < 0 {
        let m: u64 = if n == i64::MIN {
            0x8000_0000_0000_0000
        } else {
            (-n) as u64
        };
        let s = show(m);
        let mut out = String::new();
        out.push('-');
        out.append(s.as_str());
        proof {
            assert(out@ =~= seq!['-'] + s@);
        }
        out
    } else {
        show(n as u64)
    }
}

/// A number with its sign in front, a plus included.
pub open spec fn with_sign(n: int) -> Seq<char> {
    if n < 0 {
        signed_decimal(n)
    } else {
        "+"@ + decimal(n as nat)
    }
}

/// A number with its sign in front, a plus included.
pub fn show_with_sign(n: i64) -> (r: String)
    ensures
        r@ == with_sign(n as int),
{
    if n < 0 {
        show_signed(n)
    } else {
        let s = show(n as u64);
        cat("+", s.as_str())
    }
}

/// A text, empty where there is none.
pub open spec fn or_empty(s: Option<Seq<char>>) -> Seq<char> {
    match s {
        Some(s) => s,
        None => Seq::empty(),
    }
}

/// `{:0width}` of an unsigned number.
pub fn show_padded(n: u64, width: usize) -> (r: String)
    ensures
        r@ == zero_padded(decimal(n as nat), width as nat),
{
    let s = show(n);
    let v = chars(s.as_str());
    if v.len() >= width {
        return s;
    }
    let mut out = String::new();
    let mut i: usize = 0;
    let fill: usize = width - v.len();
    while i < fill
        invariant
            i <= fill,
            out@ == Seq::new(i as nat, |i: int| '0'),
        decreases fill - i,
    {
        out.push('0');
        i = i + 1;
        proof {
            assert(out@ =~= Seq::new(i as nat, |i: int| '0'));
        }
    }
    out.append(s.as_str());
    out
}

/// A letter of the ASCII alphabet in upper case; any other character as it is.
pub open spec fn ascii_upper(c: char) -> char {
    if 'a' <= c <= 'z' {
        ((c as u32) - 32) as char
    } else {
        c
    }
}

/// A letter of the ASCII alphabet in lower case; any other character as it is.
pub open spec fn ascii_lower(c: char) -> char {
    if 'A' <= c <= 'Z' {
        ((c as u32) + 32) as char
    } else {
        c
    }
}

/// `char::to_ascii_uppercase`.
pub fn to_ascii_upper(c: char) -> (r: char)
    ensures
        r == ascii_upper(c),
{
    if 'a' <= c && c <= 'z' {
        (c as u8 - 32) as char
    } else {
        c
    }
}

/// `char::to_ascii_lowercase`.
pub fn to_ascii_lower(c: char) -> (r: char)
    ensures
        r == ascii_lower(c),
{
    if 'A' <= c && c <= 'Z' {
        (c as u8 + 32) as char
    } else {
        c
    }
}

/// Equality up to the case of ASCII letters.
pub open spec fn same_ignoring_case(a: Seq<char>, b: Seq<char>) -> bool {
    a.map_values(|c: char| ascii_lower(c)) == b.map_values(|c: char| ascii_lower(c))
}

/// `str::eq_ignore_ascii_case`.
pub fn eq_ignore_ascii_case(a: &str, b: &str) -> (r: bool)
    ensures
        r == same_ignoring_case(a@, b@),
{
    let x = chars(a);
    let y = chars(b);
    let ghost la = a@.map_values(|c: char| ascii_lower(c));
    let ghost lb = b@.map_values(|c: char| ascii_lower(c));
    if x.len() != y.len() {
        proof {
            assert(la.len() != lb.len());
        }
        return false;
    }
    let mut i: usize = 0;
    while i < x.len()
        invariant
            i <= x.len(),
            x.len() == y.len(),
            x@ == a@,
            y@ == b@,
            la == a@.map_values(|c: char| ascii_lower(c)),
            lb == b@.map_values(|c: char| ascii_lower(c)),
            forall|j: int| 0 <= j < i ==> la[j] == lb[j],
        decreases x.len() - i,
    {
        if to_ascii_lower(x[i]) != to_ascii_lower(y[i]) {
            proof {
                assert(la[i as int] != lb[i as int]);
            }
            return false;
        }
        i = i + 1;
    }
    proof {
        assert(la =~= lb);
    }
    true
}

/// The texts in a row, with `sep` between neighbours.
pub open spec fn joined(parts: Seq<Seq<char>>, sep: Seq<char>) -> Seq<char>
    decreases parts.len(),
{
    if parts.len() == 0 {
        Seq::empty()
    } else if parts.len() == 1 {
        parts[0]
    } else {
        joined(parts.drop_last(), sep) + sep + parts.last()
    }
}

/// `join` of a list of strings.
pub fn join(parts: &Vec<String>, sep: &str) -> (r: String)
    ensures
        r@ == joined(strings(parts@), sep@),
{
    let mut out = String::new();
    let mut i: usize = 0;
    let ghost all = strings(parts@);
    while i < parts.len()
        invariant
            i <= parts.len(),
            all == strings(parts@),
            out@ == joined(all.take(i as int), sep@),
        decreases parts.len() - i,
    {
        let ghost next = all.take(i as int + 1);
        proof {
            assert(next.drop_last() =~= all.take(i as int));
            assert(next.last() == parts@[i as int]@);
        }
        let ghost before = out@;
        if i > 0 {
            out.append(sep);
        }
        out.append(parts[i].as_str());
        proof {
            if i == 0 {
                assert(before =~= Seq::<char>::empty());
                assert(out@ =~= parts@[0]@);
            }
        }
        i = i + 1;
    }
    proof {
        assert(all.take(all.len() as int) =~= all);
    }
    out
}

/// A text is found where it first stands.
pub proof fn law_the_first_place_is_found(s: Seq<char>, p: Seq<char>)
    ensures
        match found(s, p) {
            Some(i) => {
                &&& 0 <= i && i + p.len() <= s.len() && s.subrange(i, i + p.len()) == p
                &&& forall|j: int| 0 <= j < i ==> !stands_at(s, p, j)
            },
            None => forall|j: int| 0 <= j <= s.len() ==> !stands_at(s, p, j),
        },
{
    lemma_first_found(s, p, 0);
}

proof fn lemma_first_found(s: Seq<char>, p: Seq<char>, i: int)
    requires
        0 <= i <= s.len() + 1,
    ensures
        match found_from(s, p, i) {
            Some(k) => {
                &&& i <= k && k + p.len() <= s.len() && s.subrange(k, k + p.len()) == p
                &&& forall|j: int| i <= j < k ==> !stands_at(s, p, j)
            },
            None => forall|j: int| i <= j ==> !stands_at(s, p, j),
        },
    decreases s.len() + 1 - i,
{
    if i + p.len() <= s.len() && !stands_at(s, p, i) {
        lemma_first_found(s, p, i + 1);
    }
}

/// The place of a character is the first one that it stands at, or the end where it stands nowhere.
pub proof fn law_the_first_place_of_a_character(s: Seq<char>, c: char)
    ensures
        0 <= position(s, c) <= s.len(),
        position(s, c) < s.len() ==> s[position(s, c)] == c,
        forall|i: int| 0 <= i < position(s, c) ==> s[i] != c,
    decreases s.len(),
{
    if s.len() > 0 && s[0] != c {
        let t = s.skip(1);
        law_the_first_place_of_a_character(t, c);
        assert forall|i: int| 0 <= i < position(s, c) implies s[i] != c by {
            if i > 0 {
                assert(t[i - 1] == s[i]);
            }
        }
    }
}

/// Splitting loses nothing: no piece holds the separator, and the pieces joined with it are the text
/// again.
pub proof fn law_pieces_join_again(s: Seq<char>, c: char)
    ensures
        pieces(s, c).len() > 0,
        forall|i: int, j: int|
            0 <= i < pieces(s, c).len() && 0 <= j < pieces(s, c)[i].len() ==> #[trigger] pieces(
                s,
                c,
            )[i][j] != c,
        strung(pieces(s, c), c) == s,
    decreases s.len(),
{
    law_the_first_place_of_a_character(s, c);
    let i = position(s, c);
    let all = pieces(s, c);
    if i < s.len() {
        let rest = s.skip(i + 1);
        law_pieces_join_again(rest, c);
        let more = pieces(rest, c);
        assert forall|a: int, b: int|
            0 <= a < all.len() && 0 <= b < all[a].len() implies #[trigger] all[a][b] != c by {
            if a > 0 {
                assert(all[a] == more[a - 1]);
                assert(more[a - 1][b] != c);
            } else {
                assert(all[0] == s.take(i));
            }
        }
        assert(all.skip(1) =~= more);
        assert(all[0] == s.take(i));
        assert(s.take(i).push(c) + rest =~= s);
    }
}

/// Pieces with a character between each two of them.
pub open spec fn strung(parts: Seq<Seq<char>>, c: char) -> Seq<char>
    decreases parts.len(),
{
    if parts.len() == 0 {
        Seq::empty()
    } else if parts.len() == 1 {
        parts[0]
    } else {
        parts[0].push(c) + strung(parts.skip(1), c)
    }
}

/// Trimming takes white space off both ends and nothing else.
pub proof fn law_what_trimming_takes(s: Seq<char>)
    ensures
        trimmed(s).len() > 0 ==> !white_space(trimmed(s)[0]) && !white_space(trimmed(s).last()),
        s.len() > 0 && !white_space(s[0]) && !white_space(s.last()) ==> trimmed(s) == s,
        trimmed(trimmed(s)) == trimmed(s),
        white_space(' ') && white_space('\t') && white_space('\n') && !white_space('a')
            && !white_space('_') && !white_space('0'),
{
    lemma_trimmed_part(s);
    lemma_trimmed_fixed(trimmed(s));
    if s.len() > 0 && !white_space(s[0]) && !white_space(s.last()) {
        lemma_trimmed_fixed(s);
    }
}

/// A number is written in digits, without a zero in front, and reads back as the number it was.
pub proof fn law_numbers_read_back(n: nat, m: nat)
    ensures
        all_digits(decimal(n)),
        decimal(n).len() > 0,
        number(decimal(n)) == n,
        decimal(n) == decimal(m) ==> n == m,
        n > 0 ==> decimal(n)[0] != '0',
    decreases n,
{
    lemma_decimal(n);
    lemma_decimal(m);
    if n >= 10 {
        law_numbers_read_back(n / 10, 0);
    }
}

/// A negative number has a minus in front of its size; with a sign, a positive one has a plus.
pub proof fn law_signs(n: nat)
    ensures
        signed_decimal(n as int) == decimal(n),
        n > 0 ==> signed_decimal(-(n as int)) == seq!['-'] + decimal(n),
        with_sign(n as int) == "+"@ + decimal(n),
        n > 0 ==> with_sign(-(n as int)) == seq!['-'] + decimal(n),
        decimal(n).len() >= 2 ==> zero_padded(decimal(n), 2) == decimal(n),
        n < 10 ==> zero_padded(decimal(n), 2) == seq!['0'] + decimal(n),
{
    if n < 10 {
        assert(Seq::new(1, |i: int| '0') =~= seq!['0']);
    }
}

/// Capitals and small letters are each other's; everything else is its own.
pub proof fn law_letters_have_two_cases(c: char)
    ensures
        'a' <= c <= 'z' ==> 'A' <= ascii_upper(c) <= 'Z' && ascii_lower(ascii_upper(c)) == c,
        'A' <= c <= 'Z' ==> 'a' <= ascii_lower(c) <= 'z' && ascii_upper(ascii_lower(c)) == c,
        !('a' <= c <= 'z') ==> ascii_upper(c) == c,
        !('A' <= c <= 'Z') ==> ascii_lower(c) == c,
{
}

/// Trailing and leading characters go as often as they stand there, and nothing else goes.
pub proof fn law_what_stripping_takes(s: Seq<char>, c: char)
    ensures
        without_trailing(s.push(c), c) == without_trailing(s, c),
        s.len() > 0 && s.last() != c ==> without_trailing(s, c) == s,
        without_leading(seq![c] + s, c) == without_leading(s, c),
        s.len() > 0 && s[0] != c ==> without_leading(s, c) == s,
{
    assert(s.push(c).drop_last() =~= s);
    assert((seq![c] + s).skip(1) =~= s);
}

/// The first place is replaced and what is around it stays; without one nothing changes.
pub proof fn law_what_replacing_changes(s: Seq<char>, p: Seq<char>, t: Seq<char>)
    ensures
        found(s, p) is None ==> replaced_first(s, p, t) == s,
        found(s, p) matches Some(i) ==> replaced_first(s, p, t) == s.take(i) + t + s.skip(
            i + p.len(),
        ),
        found(s, p) is None ==> replaced(s, p, t) == s,
{
    assert(s.skip(0) =~= s);
}

/// Padding adds zeros in front, as many as are missing.
pub proof fn law_how_numbers_are_padded(s: Seq<char>, width: nat)
    ensures
        s.len() >= width ==> zero_padded(s, width) == s,
        s.len() < width ==> zero_padded(s, width).len() == width && zero_padded(s, width).skip(
            width - s.len(),
        ) == s && forall|i: int|
            0 <= i < width - s.len() ==> #[trigger] zero_padded(s, width)[i] == '0',
{
    if s.len() < width {
        assert(zero_padded(s, width).skip(width - s.len()) =~= s);
    }
}

/// Texts joined: the separator stands between each two of them, and nowhere else.
pub proof fn law_how_texts_are_joined(parts: Seq<Seq<char>>, last: Seq<char>, sep: Seq<char>)
    ensures
        joined(Seq::empty(), sep).len() == 0,
        parts.len() == 0 ==> joined(parts.push(last), sep) == last,
        parts.len() > 0 ==> joined(parts.push(last), sep) == joined(parts, sep) + sep + last,
{
    assert(parts.push(last).drop_last() =~= parts);
}

/// Case does not count once a text is lowered: a letter and its capital are lowered alike, letter by
/// letter.
pub proof fn law_lowering_ignores_case(s: Seq<char>, c: char)
    requires
        c as u32 <= 127,
    ensures
        lowered(s.push(c)) == lowered(s).push(ascii_lower(c)),
        lowered(s.push(ascii_upper(c))) == lowered(s.push(ascii_lower(c))),
        lowered(Seq::empty()).len() == 0,
{
    let u = ascii_upper(c);
    let l = ascii_lower(c);
    assert(s.push(c).drop_last() =~= s);
    assert(s.push(u).drop_last() =~= s);
    assert(s.push(l).drop_last() =~= s);
    assert(lowered(s) + seq![l] =~= lowered(s).push(l));
    assert(ascii_lower(u) == l && ascii_lower(l) == l);
}

} // verus!
