//! Decimal numbers as they are typed or stand in a file: an optional sign, digits with an optional
//! point, an optional power of ten, or one of the words for infinity and "not a number". A number
//! is kept exactly, as its digits and a power of ten, and rounded once, where a setting takes it.

use vstd::prelude::*;

use vstd::string::*;

use crate::text::{all_digits, ascii_lower, chars, decimal, digit_value, eq_ignore_ascii_case,
    is_digit, lemma_decimal, lemma_decimal_len, lemma_number_concat, lemma_position_absent,
    lemma_position_after, lemma_zero_padded, number, position, pow10, same_ignoring_case, show,
    show_padded, string_of, zero_padded};

verus! {

/// Powers of ten written in a number are cut off here.
pub const EXPONENT_MAX: i128 = 1_000_000_000;

/// The least magnitude that a single-precision number no longer holds: halfway between the largest
/// finite one and the next power of two.
pub const SINGLE_OVERFLOW: u128 = 340_282_356_779_733_661_637_539_395_458_142_568_448;

/// `± digits × 10^exponent`.
pub struct Decimal {
    pub negative: bool,
    /// Decimal digits, most significant first.
    pub digits: Vec<char>,
    pub exponent: i128,
}

/// What a text reads as.
pub enum Number {
    Finite(Decimal),
    Infinite { negative: bool },
    NotANumber,
}

/// `n × 10^x`, rounded to a whole number, halves up.
pub open spec fn shifted_round(n: nat, x: int) -> nat {
    if x >= 0 {
        n * pow10(x as nat)
    } else {
        (n + pow10((-x) as nat) / 2) / pow10((-x) as nat)
    }
}

/// `n × 10^x`, rounded down to a whole number.
pub open spec fn shifted_floor(n: nat, x: int) -> nat {
    if x >= 0 {
        n * pow10(x as nat)
    } else {
        n / pow10((-x) as nat)
    }
}

/// `v` brought into `lo..=hi`.
pub open spec fn clamped(v: int, lo: int, hi: int) -> int {
    if v < lo {
        lo
    } else if v > hi {
        hi
    } else {
        v
    }
}

impl Decimal {
    pub open spec fn wf(&self) -> bool {
        &&& all_digits(self.digits@)
        &&& self.exponent <= 2 * EXPONENT_MAX
        &&& self.exponent >= -2 * EXPONENT_MAX - self.digits@.len()
    }

    /// The number counted in units of `10^-places` and rounded to whole ones, halves away from
    /// zero.
    pub open spec fn rounded(&self, places: int) -> int {
        let m = shifted_round(number(self.digits@), self.exponent + places) as int;
        if self.negative {
            -m
        } else {
            m
        }
    }

    /// Whether the magnitude is too large for a single-precision number.
    pub open spec fn overflowing(&self) -> bool {
        shifted_floor(number(self.digits@), self.exponent as int) >= SINGLE_OVERFLOW
    }
}

impl Number {
    pub open spec fn wf(&self) -> bool {
        match *self {
            Number::Finite(d) => d.wf(),
            _ => true,
        }
    }

    /// The number in units of `10^-places`, rounded and brought into `lo..=hi`.
    pub open spec fn settled(&self, places: int, lo: int, hi: int) -> Option<int> {
        match *self {
            Number::Finite(d) => Some(clamped(d.rounded(places), lo, hi)),
            Number::Infinite { negative } => Some(
                if negative {
                    lo
                } else {
                    hi
                },
            ),
            Number::NotANumber => None,
        }
    }

    /// Whether a single-precision number holds it.
    pub open spec fn finite(&self) -> bool {
        match *self {
            Number::Finite(d) => !d.overflowing(),
            _ => false,
        }
    }
}

// ---- the grammar ----

/// The sign in front of a number: whether it is a minus, and how many characters it takes.
pub open spec fn sign(s: Seq<char>) -> (bool, int) {
    if s.len() > 0 && s[0] == '-' {
        (true, 1)
    } else if s.len() > 0 && s[0] == '+' {
        (false, 1)
    } else {
        (false, 0)
    }
}

/// The first index of an `e` or `E`, or the length.
pub open spec fn exponent_at(s: Seq<char>) -> int {
    let a = position(s, 'e');
    let b = position(s, 'E');
    if a < b {
        a
    } else {
        b
    }
}

/// The power of ten that `s` writes (an optional sign and digits), cut off at `EXPONENT_MAX`.
pub open spec fn exponent_of(s: Seq<char>) -> Option<int> {
    let (negative, n) = sign(s);
    let digits = s.skip(n);
    if digits.len() > 0 && all_digits(digits) {
        let m = if number(digits) > EXPONENT_MAX {
            EXPONENT_MAX as int
        } else {
            number(digits) as int
        };
        Some(
            if negative {
                -m
            } else {
                m
            },
        )
    } else {
        None
    }
}

/// The digits of a number with an optional point, and how many of them follow the point.
pub open spec fn mantissa_of(s: Seq<char>) -> Option<(Seq<char>, int)> {
    let p = position(s, '.');
    let whole = s.take(p);
    let fraction = if p < s.len() {
        s.skip(p + 1)
    } else {
        Seq::empty()
    };
    if all_digits(whole) && all_digits(fraction) && whole.len() + fraction.len() > 0 {
        Some((whole + fraction, fraction.len() as int))
    } else {
        None
    }
}

/// What a text without a sign reads as: the digits and the power of ten.
pub open spec fn magnitude_of(s: Seq<char>) -> Option<(Seq<char>, int)> {
    let e = exponent_at(s);
    let exponent = if e < s.len() {
        exponent_of(s.skip(e + 1))
    } else {
        Some(0)
    };
    match (mantissa_of(s.take(e)), exponent) {
        (Some((digits, after)), Some(x)) => Some((digits, x - after)),
        _ => None,
    }
}

/// What a text reads as.
pub open spec fn reads_as(s: Seq<char>, r: Option<Number>) -> bool {
    let (negative, n) = sign(s);
    let body = s.skip(n);
    if same_ignoring_case(body, "nan"@) {
        r == Some(Number::NotANumber)
    } else if same_ignoring_case(body, "inf"@) || same_ignoring_case(body, "infinity"@) {
        r == Some(Number::Infinite { negative })
    } else {
        match magnitude_of(body) {
            Some((digits, x)) => r matches Some(Number::Finite(d)) && d.negative == negative
                && d.digits@ == digits && d.exponent == x,
            None => r is None,
        }
    }
}

// ---- reading ----

/// The sign in front of a number.
fn read_sign(v: &Vec<char>, from: usize) -> (r: (bool, usize))
    requires
        from <= v.len(),
    ensures
        r.1 as int - from as int == sign(v@.skip(from as int)).1,
        r.0 == sign(v@.skip(from as int)).0,
        from <= r.1 <= v.len(),
{
    proof {
        if from < v.len() {
            assert(v@.skip(from as int)[0] == v@[from as int]);
        }
    }
    if from < v.len() && v[from] == '-' {
        (true, from + 1)
    } else if from < v.len() && v[from] == '+' {
        (false, from + 1)
    } else {
        (false, from)
    }
}

/// Whether `v[from..to]` holds digits only.
fn digits_between(v: &Vec<char>, from: usize, to: usize) -> (r: bool)
    requires
        from <= to <= v.len(),
    ensures
        r == all_digits(v@.subrange(from as int, to as int)),
{
    let mut i: usize = from;
    let ghost t = v@.subrange(from as int, to as int);
    while i < to
        invariant
            from <= i <= to <= v.len(),
            t == v@.subrange(from as int, to as int),
            forall|j: int| 0 <= j < i - from ==> is_digit(#[trigger] t[j]),
        decreases to - i,
    {
        let c = v[i];
        proof {
            assert(t[i - from] == c);
        }
        if !('0' <= c && c <= '9') {
            return false;
        }
        i = i + 1;
    }
    true
}

/// The number that a run of digits writes, at most `cap`.
fn number_capped(v: &Vec<char>, from: usize, to: usize, cap: u128) -> (r: u128)
    requires
        from <= to <= v.len(),
        all_digits(v@.subrange(from as int, to as int)),
        cap >= 10,
    ensures
        r == (if number(v@.subrange(from as int, to as int)) < cap {
            number(v@.subrange(from as int, to as int)) as int
        } else {
            cap as int
        }),
{
    let mut acc: u128 = 0;
    let mut i: usize = from;
    let ghost t = v@.subrange(from as int, to as int);
    proof {
        assert(t.take(0) =~= Seq::<char>::empty());
        assert(number(t.take(0)) == 0);
    }
    while i < to
        invariant
            from <= i <= to <= v.len(),
            cap >= 10,
            t == v@.subrange(from as int, to as int),
            all_digits(t),
            acc == (if number(t.take(i - from)) < cap {
                number(t.take(i - from)) as int
            } else {
                cap as int
            }),
        decreases to - i,
    {
        let c = v[i];
        let ghost k = i - from;
        proof {
            assert(t[k] == c);
            assert(is_digit(t[k]));
            assert(t.take(k + 1).drop_last() =~= t.take(k));
            assert(t.take(k + 1).last() == c);
        }
        let d: u128 = c as u128 - 48;
        acc = grow(acc, d, cap);
        i = i + 1;
    }
    proof {
        assert(t.take(t.len() as int) =~= t);
    }
    acc
}

/// `10 × acc + d`, at most `cap`.
fn grow(acc: u128, d: u128, cap: u128) -> (r: u128)
    requires
        d < 10,
        acc <= cap,
        cap >= 10,
    ensures
        r == (if 10 * acc + d < cap {
            10 * acc + d
        } else {
            cap as int
        }),
{
    if acc > (cap - d) / 10 {
        cap
    } else {
        10 * acc + d
    }
}

/// The first index of `c` in `v[from..to]`, or `to`.
fn position_between(v: &Vec<char>, c: char, from: usize, to: usize) -> (r: usize)
    requires
        from <= to <= v.len(),
    ensures
        from <= r <= to,
        r - from == position(v@.subrange(from as int, to as int), c),
{
    let ghost t = v@.subrange(from as int, to as int);
    let mut i: usize = from;
    proof {
        assert(t.skip(0) =~= t);
    }
    while i < to && v[i] != c
        invariant
            from <= i <= to <= v.len(),
            t == v@.subrange(from as int, to as int),
            position(t, c) == (i - from) + position(t.skip(i - from), c),
        decreases to - i,
    {
        proof {
            let k = i - from;
            assert(t.skip(k)[0] == t[k]);
            assert(t.skip(k).skip(1) =~= t.skip(k + 1));
        }
        i = i + 1;
    }
    proof {
        if i < to {
            assert(t.skip(i - from)[0] == v@[i as int]);
        }
    }
    i
}

/// The power of ten written in `v[from..]`.
fn read_exponent(v: &Vec<char>, from: usize) -> (r: Option<i128>)
    requires
        from <= v.len(),
    ensures
        match r {
            Some(x) => exponent_of(v@.skip(from as int)) == Some(x as int) && -EXPONENT_MAX <= x
                <= EXPONENT_MAX,
            None => exponent_of(v@.skip(from as int)) is None,
        },
{
    let (negative, start) = read_sign(v, from);
    proof {
        assert(v@.skip(from as int).skip(start - from) =~= v@.subrange(
            start as int,
            v@.len() as int,
        ));
    }
    if start == v.len() || !digits_between(v, start, v.len()) {
        return None;
    }
    let m = number_capped(v, start, v.len(), EXPONENT_MAX as u128) as i128;
    if negative {
        Some(-m)
    } else {
        Some(m)
    }
}

/// The text's digits and power of ten, where it is a number without a sign.
fn read_magnitude(v: &Vec<char>, from: usize) -> (r: Option<(Vec<char>, i128)>)
    requires
        from <= v.len(),
    ensures
        match r {
            Some((digits, x)) => magnitude_of(v@.skip(from as int)) == Some((digits@, x as int))
                && all_digits(digits@) && -EXPONENT_MAX - digits@.len() <= x <= EXPONENT_MAX,
            None => magnitude_of(v@.skip(from as int)) is None,
        },
{
    let n = v.len();
    let ghost body = v@.skip(from as int);
    proof {
        assert(body =~= v@.subrange(from as int, n as int));
    }
    let a = position_between(v, 'e', from, n);
    let b = position_between(v, 'E', from, n);
    let e = if a < b {
        a
    } else {
        b
    };
    let p = position_between(v, '.', from, e);
    let ghost mant = body.take(e - from);
    proof {
        assert(mant =~= v@.subrange(from as int, e as int));
        assert(mant.take(p - from) =~= v@.subrange(from as int, p as int));
    }
    let tail = if p < e {
        p + 1
    } else {
        e
    };
    let ghost fraction = if p < e {
        mant.skip(p - from + 1)
    } else {
        Seq::empty()
    };
    proof {
        assert(fraction =~= v@.subrange(tail as int, e as int));
    }
    if !digits_between(v, from, p) || !digits_between(v, tail, e) || (p == from && tail == e) {
        return None;
    }
    let exponent: i128 = if e < n {
        proof {
            assert(body.skip(e - from + 1) =~= v@.skip(e as int + 1));
        }
        match read_exponent(v, e + 1) {
            Some(x) => x,
            None => {
                return None;
            },
        }
    } else {
        0
    };
    let mut digits = slice(v, from, p);
    let mut after = slice(v, tail, e);
    let count = after.len();
    let ghost whole = digits@;
    digits.append(&mut after);
    proof {
        assert(digits@ =~= whole + fraction);
        assert forall|i: int| 0 <= i < digits@.len() implies is_digit(#[trigger] digits@[i]) by {
            if i < whole.len() {
                assert(is_digit(whole[i]));
            } else {
                assert(is_digit(fraction[i - whole.len()]));
            }
        }
    }
    Some((digits, exponent - count as i128))
}

/// The characters `v[from..to]`.
fn slice(v: &Vec<char>, from: usize, to: usize) -> (r: Vec<char>)
    requires
        from <= to <= v.len(),
    ensures
        r@ == v@.subrange(from as int, to as int),
{
    let mut out: Vec<char> = Vec::new();
    let mut i: usize = from;
    while i < to
        invariant
            from <= i <= to <= v.len(),
            out@ == v@.subrange(from as int, i as int),
        decreases to - i,
    {
        out.push(v[i]);
        proof {
            assert(out@ =~= v@.subrange(from as int, i as int + 1));
        }
        i = i + 1;
    }
    out
}

/// Reads a number.
pub fn read(s: &str) -> (r: Option<Number>)
    ensures
        reads_as(s@, r),
        r matches Some(n) ==> n.wf(),
{
    let v = chars(s);
    let (negative, start) = read_sign(&v, 0);
    proof {
        assert(v@.skip(0) =~= v@);
        assert(v@.skip(start as int) =~= v@.subrange(start as int, v@.len() as int));
    }
    let body = string_of(&v, start, v.len());
    if eq_ignore_ascii_case(body.as_str(), "nan") {
        return Some(Number::NotANumber);
    }
    if eq_ignore_ascii_case(body.as_str(), "inf") || eq_ignore_ascii_case(
        body.as_str(),
        "infinity",
    ) {
        return Some(Number::Infinite { negative });
    }
    match read_magnitude(&v, start) {
        Some((digits, exponent)) => Some(Number::Finite(Decimal { negative, digits, exponent })),
        None => None,
    }
}

// ---- rounding ----

proof fn lemma_pow10_positive(n: nat)
    ensures
        pow10(n) >= 1,
        n > 0 ==> pow10(n) == 10 * pow10((n - 1) as nat),
    decreases n,
{
    if n > 0 {
        lemma_pow10_positive((n - 1) as nat);
    }
}

proof fn lemma_pow10_monotone(a: nat, b: nat)
    requires
        a <= b,
    ensures
        pow10(a) <= pow10(b),
    decreases b,
{
    lemma_pow10_positive(b);
    if a < b {
        lemma_pow10_monotone(a, (b - 1) as nat);
    }
}

proof fn lemma_number_bound(s: Seq<char>)
    requires
        all_digits(s),
    ensures
        number(s) < pow10(s.len()),
    decreases s.len(),
{
    if s.len() > 0 {
        assert(is_digit(s[s.len() - 1]));
        lemma_number_bound(s.drop_last());
        lemma_pow10_positive(s.len());
    }
}

proof fn lemma_number_first(s: Seq<char>)
    requires
        all_digits(s),
        s.len() > 0,
    ensures
        number(s) == digit_value(s[0]) * pow10((s.len() - 1) as nat) + number(s.skip(1)),
{
    assert(is_digit(s[0]));
    let h = s.take(1);
    assert(h + s.skip(1) =~= s);
    assert(h.drop_last() =~= Seq::<char>::empty());
    assert(number(h.drop_last()) == 0);
    assert(number(h) == digit_value(s[0]));
    lemma_number_concat(h, s.skip(1));
}

/// Dropping the last `k` digits rounds down, and the first of them says which way to round.
proof fn lemma_shift_down(d: Seq<char>, k: nat)
    requires
        all_digits(d),
        k > 0,
    ensures
        k > d.len() ==> shifted_floor(number(d), -(k as int)) == 0 && shifted_round(
            number(d),
            -(k as int),
        ) == 0,
        k <= d.len() ==> {
            let keep = d.len() - k;
            &&& shifted_floor(number(d), -(k as int)) == number(d.take(keep))
            &&& shifted_round(number(d), -(k as int)) == number(d.take(keep)) + (if digit_value(
                d[keep],
            ) >= 5 {
                1int
            } else {
                0
            })
        },
{
    let n = number(d);
    let p = pow10(k);
    let q = pow10((k - 1) as nat);
    lemma_pow10_positive(k);
    lemma_pow10_positive((k - 1) as nat);
    lemma_number_bound(d);
    if k > d.len() {
        lemma_pow10_monotone(d.len(), (k - 1) as nat);
        assert(n / p == 0) by (nonlinear_arith)
            requires
                0 <= n < p,
        ;
        assert((n + p / 2) / p == 0) by (nonlinear_arith)
            requires
                p == 10 * q,
                0 <= n < q,
                q >= 1,
        ;
    } else {
        let keep = d.len() - k;
        let a = number(d.take(keep));
        let t = d.skip(keep);
        let b = number(t);
        assert(d.take(keep) + t =~= d);
        lemma_number_concat(d.take(keep), t);
        lemma_number_bound(t);
        lemma_number_first(t);
        assert(is_digit(t[0]));
        assert(all_digits(t.skip(1)));
        lemma_number_bound(t.skip(1));
        let v = digit_value(t[0]);
        let c = number(t.skip(1));
        assert(n == a * p + b);
        assert(b == v * q + c);
        assert(n / p == a) by (nonlinear_arith)
            requires
                n == a * p + b,
                0 <= b < p,
        ;
        if v >= 5 {
            assert(b >= 5 * q) by (nonlinear_arith)
                requires
                    b == v * q + c,
                    v >= 5,
                    q >= 1,
                    c >= 0,
            ;
            assert((n + p / 2) / p == a + 1) by (nonlinear_arith)
                requires
                    n == a * p + b,
                    p == 10 * q,
                    5 * q <= b < p,
                    q >= 1,
            ;
        } else {
            assert(b < 5 * q) by (nonlinear_arith)
                requires
                    b == v * q + c,
                    v <= 4,
                    q >= 1,
                    0 <= c < q,
            ;
            assert((n + p / 2) / p == a) by (nonlinear_arith)
                requires
                    n == a * p + b,
                    p == 10 * q,
                    0 <= b < 5 * q,
                    q >= 1,
            ;
        }
    }
}

/// The digits times `10^x`: the whole part (at most `SINGLE_OVERFLOW`) and whether the rest rounds
/// up.
fn shift(digits: &Vec<char>, x: i128) -> (r: (u128, bool))
    requires
        all_digits(digits@),
        x > i128::MIN,
    ensures
        r.0 == (if shifted_floor(number(digits@), x as int) < SINGLE_OVERFLOW {
            shifted_floor(number(digits@), x as int) as int
        } else {
            SINGLE_OVERFLOW as int
        }),
        shifted_round(number(digits@), x as int) == shifted_floor(number(digits@), x as int) + (
        if r.1 {
            1int
        } else {
            0
        }),
{
    let len = digits.len();
    let ghost n = number(digits@);
    if x < 0 {
        let k: u128 = (-x) as u128;
        proof {
            lemma_shift_down(digits@, k as nat);
        }
        if k > len as u128 {
            return (0, false);
        }
        let keep: usize = len - k as usize;
        proof {
            assert(digits@.take(keep as int) =~= digits@.subrange(0, keep as int));
            assert(is_digit(digits@[keep as int]));
        }
        let whole = number_capped(digits, 0, keep, SINGLE_OVERFLOW);
        return (whole, digits[keep] >= '5');
    }
    proof {
        assert(digits@ =~= digits@.subrange(0, len as int));
        assert(pow10(0) == 1);
        assert(n * pow10(0) == n) by (nonlinear_arith)
            requires
                pow10(0) == 1,
        ;
    }
    let mut acc = number_capped(digits, 0, len, SINGLE_OVERFLOW);
    let mut j: i128 = 0;
    while j < x && acc != 0 && acc != SINGLE_OVERFLOW
        invariant
            0 <= j <= x,
            n == number(digits@),
            acc == (if n * pow10(j as nat) < SINGLE_OVERFLOW {
                (n * pow10(j as nat)) as int
            } else {
                SINGLE_OVERFLOW as int
            }),
        decreases x - j,
    {
        proof {
            let p = pow10(j as nat);
            assert(pow10((j + 1) as nat) == 10 * p);
            assert(n * (10 * p) == 10 * (n * p)) by (nonlinear_arith);
        }
        acc = grow(acc, 0, SINGLE_OVERFLOW);
        j = j + 1;
    }
    proof {
        let p = pow10(j as nat);
        let w = pow10(x as nat);
        lemma_pow10_positive(j as nat);
        lemma_pow10_monotone(j as nat, x as nat);
        if acc == 0 {
            assert(n == 0) by (nonlinear_arith)
                requires
                    n * p == 0,
                    p >= 1,
                    n >= 0,
            ;
        }
        assert(n * p <= n * w) by (nonlinear_arith)
            requires
                p <= w,
                n >= 0,
        ;
        if n == 0 {
            assert(n * w == 0) by (nonlinear_arith)
                requires
                    n == 0,
            ;
        }
    }
    (acc, false)
}

impl Decimal {
    /// Whether the magnitude is too large for a single-precision number.
    pub fn overflows(&self) -> (r: bool)
        requires
            self.wf(),
        ensures
            r == self.overflowing(),
    {
        let len: usize = self.digits.len();
        proof {
            assert(len == self.digits@.len());
        }
        shift(&self.digits, self.exponent).0 == SINGLE_OVERFLOW
    }

    /// The number in units of `10^-places`, rounded and brought into `lo..=hi`.
    pub fn settle(&self, places: i8, lo: i64, hi: i64) -> (r: i64)
        requires
            self.wf(),
            lo <= hi,
        ensures
            r == clamped(self.rounded(places as int), lo as int, hi as int),
    {
        let len: usize = self.digits.len();
        proof {
            assert(len == self.digits@.len());
        }
        let (whole, up) = shift(&self.digits, self.exponent + places as i128);
        let limit: u128 = 0x8000_0000_0000_0000;
        let m: i128 = if whole >= limit {
            limit as i128
        } else if up {
            whole as i128 + 1
        } else {
            whole as i128
        };
        let v: i128 = if self.negative {
            -m
        } else {
            m
        };
        if v < lo as i128 {
            lo
        } else if v > hi as i128 {
            hi
        } else {
            v as i64
        }
    }
}

impl Number {
    /// The number in units of `10^-places`, rounded and brought into `lo..=hi`; nothing where it is
    /// not a number.
    pub fn settle(&self, places: i8, lo: i64, hi: i64) -> (r: Option<i64>)
        requires
            self.wf(),
            lo <= hi,
        ensures
            match r {
                Some(v) => self.settled(places as int, lo as int, hi as int) == Some(v as int),
                None => self.settled(places as int, lo as int, hi as int) is None,
            },
    {
        match self {
            Number::Finite(d) => Some(d.settle(places, lo, hi)),
            Number::Infinite { negative } => Some(
                if *negative {
                    lo
                } else {
                    hi
                },
            ),
            Number::NotANumber => None,
        }
    }
}

// ---- text to settled value ----

/// What a text comes to in units of `10^-places`, rounded and brought into `lo..=hi`; nothing where
/// it is not a number.
#[verifier::opaque]
pub open spec fn settled_text(s: Seq<char>, places: int, lo: int, hi: int) -> Option<int> {
    let (negative, n) = sign(s);
    let body = s.skip(n);
    if same_ignoring_case(body, "nan"@) {
        None
    } else if same_ignoring_case(body, "inf"@) || same_ignoring_case(body, "infinity"@) {
        Some(
            if negative {
                lo
            } else {
                hi
            },
        )
    } else {
        match magnitude_of(body) {
            Some((digits, x)) => {
                let m = shifted_round(number(digits), x + places) as int;
                Some(
                    clamped(
                        if negative {
                            -m
                        } else {
                            m
                        },
                        lo,
                        hi,
                    ),
                )
            },
            None => None,
        }
    }
}

/// What a text settles to lies in the range.
pub proof fn lemma_settled_range(s: Seq<char>, places: int, lo: int, hi: int)
    requires
        lo <= hi,
    ensures
        settled_text(s, places, lo, hi) matches Some(v) ==> lo <= v <= hi,
{
    reveal(settled_text);
}

/// Whether a text reads as a number that a single-precision one holds.
#[verifier::opaque]
pub open spec fn finite_text(s: Seq<char>) -> bool {
    let body = s.skip(sign(s).1);
    if same_ignoring_case(body, "nan"@) || same_ignoring_case(body, "inf"@) || same_ignoring_case(
        body,
        "infinity"@,
    ) {
        false
    } else {
        match magnitude_of(body) {
            Some((digits, x)) => shifted_floor(number(digits), x) < SINGLE_OVERFLOW,
            None => false,
        }
    }
}

/// Reads a number and settles it.
pub fn settle_text(s: &str, places: i8, lo: i64, hi: i64) -> (r: Option<i64>)
    requires
        lo <= hi,
    ensures
        match r {
            Some(v) => settled_text(s@, places as int, lo as int, hi as int) == Some(v as int) && lo
                <= v <= hi,
            None => settled_text(s@, places as int, lo as int, hi as int) is None,
        },
{
    proof {
        reveal(settled_text);
    }
    match read(s) {
        Some(n) => n.settle(places, lo, hi),
        None => None,
    }
}

/// Reads a number that a single-precision one holds, `shift` powers of ten below what is written.
pub fn read_finite(s: &str, shift: u8) -> (r: Option<Number>)
    ensures
        r is Some <==> finite_text(s@),
        r matches Some(n) ==> n.wf() && forall|places: int, lo: int, hi: int|
            #[trigger] n.settled(places, lo, hi) == settled_text(s@, places - shift, lo, hi),
{
    proof {
        reveal(settled_text);
        reveal(finite_text);
    }
    match read(s) {
        Some(Number::Finite(d)) => {
            if d.overflows() {
                return None;
            }
            let len: usize = d.digits.len();
            proof {
                assert(len == d.digits@.len());
            }
            let Decimal { negative, digits, exponent } = d;
            Some(Number::Finite(Decimal { negative, digits, exponent: exponent - shift as i128 }))
        },
        _ => None,
    }
}

/// `h` hundredths, written with two decimals.
pub open spec fn two_decimals(h: nat) -> Seq<char> {
    decimal(h / 100) + seq!['.'] + zero_padded(decimal(h % 100), 2)
}

/// `{:.2}` of a number of hundredths.
pub fn show_hundredths(h: u64) -> (r: String)
    ensures
        r@ == two_decimals(h as nat),
{
    let mut out = show(h / 100);
    let ghost whole = out@;
    out.push('.');
    let rest = show_padded(h % 100, 2);
    out.append(rest.as_str());
    proof {
        assert(out@ =~= whole + seq!['.'] + rest@);
    }
    out
}

proof fn lemma_digits_then(a: Seq<char>, rest: Seq<char>)
    requires
        all_digits(a),
        a.len() > 0,
        forall|i: int| 0 <= i < rest.len() ==> is_digit(#[trigger] rest[i]) || rest[i] == '.',
    ensures
        sign(a + rest) == (false, 0int),
        !same_ignoring_case(a + rest, "nan"@),
        !same_ignoring_case(a + rest, "inf"@),
        !same_ignoring_case(a + rest, "infinity"@),
        exponent_at(a + rest) == a.len() + rest.len(),
{
    let s = a + rest;
    assert(is_digit(a[0]));
    assert(s[0] == a[0]);
    reveal_strlit("nan");
    reveal_strlit("inf");
    reveal_strlit("infinity");
    let low = s.map_values(|c: char| ascii_lower(c));
    assert(low[0] == s[0]);
    assert("nan"@.map_values(|c: char| ascii_lower(c))[0] == 'n');
    assert("inf"@.map_values(|c: char| ascii_lower(c))[0] == 'i');
    assert("infinity"@.map_values(|c: char| ascii_lower(c))[0] == 'i');
    assert forall|i: int| 0 <= i < s.len() implies s[i] != 'e' && s[i] != 'E' by {
        if i < a.len() {
            assert(is_digit(a[i]));
        } else {
            assert(s[i] == rest[i - a.len()]);
        }
    }
    lemma_position_absent(s, 'e');
    lemma_position_absent(s, 'E');
}

/// A plain run of digits reads as the number it writes.
pub proof fn lemma_settled_whole(n: nat, places: int, lo: int, hi: int)
    ensures
        settled_text(decimal(n), places, lo, hi) == Some(
            clamped(shifted_round(n, places) as int, lo, hi),
        ),
{
    reveal(settled_text);
    reveal(finite_text);
    let d = decimal(n);
    lemma_decimal(n);
    let none = Seq::<char>::empty();
    assert(d + none =~= d);
    lemma_digits_then(d, none);
    assert(d.skip(0) =~= d);
    assert(d.take(d.len() as int) =~= d);
    assert forall|i: int| 0 <= i < d.len() implies d[i] != '.' by {
        assert(is_digit(d[i]));
    }
    lemma_position_absent(d, '.');
    assert(mantissa_of(d) == Some((d + none, 0int)));
    assert(magnitude_of(d) == Some((d, 0int)));
}

/// Hundredths written with two decimals read back as those hundredths.
pub proof fn lemma_settled_hundredths(h: nat, lo: int, hi: int)
    ensures
        settled_text(two_decimals(h), 2, lo, hi) == Some(clamped(h as int, lo, hi)),
{
    reveal(settled_text);
    reveal(finite_text);
    let a = decimal(h / 100);
    let b = zero_padded(decimal(h % 100), 2);
    lemma_decimal(h / 100);
    lemma_decimal(h % 100);
    lemma_decimal_len(h % 100);
    lemma_zero_padded(decimal(h % 100), 2);
    let s = two_decimals(h);
    let rest = seq!['.'] + b;
    assert(a + rest =~= s);
    lemma_digits_then(a, rest);
    assert(s.skip(0) =~= s);
    assert(s.take(s.len() as int) =~= s);
    assert forall|i: int| 0 <= i < a.len() implies a[i] != '.' by {
        assert(is_digit(a[i]));
    }
    lemma_position_after(a, '.', b);
    assert(s.take(a.len() as int) =~= a);
    assert(s.skip(a.len() as int + 1) =~= b);
    assert(mantissa_of(s) == Some((a + b, 2int)));
    assert(magnitude_of(s) == Some((a + b, -2int)));
    lemma_number_concat(a, b);
    assert(pow10(2) == 100) by {
        reveal_with_fuel(pow10, 3);
    }
    assert(number(a + b) == h);
    assert(pow10(0) == 1);
    assert(shifted_round(h, 0) == h) by {
        assert(h * pow10(0) == h) by (nonlinear_arith)
            requires
                pow10(0) == 1,
        ;
    }
}

/// Whole numbers of a usual size are finite.
pub proof fn lemma_finite_whole(n: nat)
    requires
        n < SINGLE_OVERFLOW,
    ensures
        finite_text(decimal(n)),
{
    reveal(settled_text);
    reveal(finite_text);
    let d = decimal(n);
    lemma_decimal(n);
    let none = Seq::<char>::empty();
    assert(d + none =~= d);
    lemma_digits_then(d, none);
    assert(d.skip(0) =~= d);
    assert(d.take(d.len() as int) =~= d);
    assert forall|i: int| 0 <= i < d.len() implies d[i] != '.' by {
        assert(is_digit(d[i]));
    }
    lemma_position_absent(d, '.');
    assert(magnitude_of(d) == Some((d, 0int)));
    assert(pow10(0) == 1);
    assert(n * pow10(0) == n) by (nonlinear_arith)
        requires
            pow10(0) == 1,
    ;
}

/// So are hundredths of a usual size.
pub proof fn lemma_finite_hundredths(h: nat)
    requires
        h < SINGLE_OVERFLOW,
    ensures
        finite_text(two_decimals(h)),
{
    reveal(settled_text);
    reveal(finite_text);
    let a = decimal(h / 100);
    let b = zero_padded(decimal(h % 100), 2);
    lemma_decimal(h / 100);
    lemma_decimal(h % 100);
    lemma_decimal_len(h % 100);
    lemma_zero_padded(decimal(h % 100), 2);
    let s = two_decimals(h);
    let rest = seq!['.'] + b;
    assert(a + rest =~= s);
    lemma_digits_then(a, rest);
    assert(s.skip(0) =~= s);
    assert(s.take(s.len() as int) =~= s);
    assert forall|i: int| 0 <= i < a.len() implies a[i] != '.' by {
        assert(is_digit(a[i]));
    }
    lemma_position_after(a, '.', b);
    assert(s.take(a.len() as int) =~= a);
    assert(s.skip(a.len() as int + 1) =~= b);
    assert(magnitude_of(s) == Some((a + b, -2int)));
    lemma_number_concat(a, b);
    assert(pow10(2) == 100) by {
        reveal_with_fuel(pow10, 3);
    }
    assert(b.len() == 2);
    assert(number(a) * pow10(b.len()) == (h / 100) * 100);
    assert(number(b) == h % 100);
    assert(number(a + b) == h);
}

/// Rounding to tens: the nearest multiple, halves up.
pub proof fn lemma_shifted_round_tens(n: nat)
    ensures
        shifted_round(n, -1) == (n + 5) / 10,
        shifted_round(n, 0) == n,
{
    assert(pow10(1) == 10) by {
        reveal_with_fuel(pow10, 2);
    }
    assert(pow10(0) == 1);
    assert(n * pow10(0) == n) by (nonlinear_arith)
        requires
            pow10(0) == 1,
    ;
}

/// The whole part of what a text reads as, where a number from 0 to `max` is wanted; what is below
/// 0 or not a number counts as 0.
#[verifier::opaque]
pub open spec fn whole_text(s: Seq<char>, max: nat) -> Option<nat> {
    let (negative, n) = sign(s);
    let body = s.skip(n);
    if same_ignoring_case(body, "nan"@) {
        Some(0)
    } else if same_ignoring_case(body, "inf"@) || same_ignoring_case(body, "infinity"@) {
        Some(
            if negative {
                0
            } else {
                max
            },
        )
    } else {
        match magnitude_of(body) {
            Some((digits, x)) => {
                let m = shifted_floor(number(digits), x);
                Some(
                    if negative {
                        0
                    } else if m > max {
                        max
                    } else {
                        m
                    },
                )
            },
            None => None,
        }
    }
}

/// Reads a number and takes its whole part.
pub fn read_whole(s: &str) -> (r: Option<u64>)
    ensures
        match r {
            Some(v) => whole_text(s@, u64::MAX as nat) == Some(v as nat),
            None => whole_text(s@, u64::MAX as nat) is None,
        },
{
    proof {
        reveal(whole_text);
    }
    match read(s) {
        Some(Number::Finite(d)) => {
            if d.negative {
                return Some(0);
            }
            let len: usize = d.digits.len();
            proof {
                assert(len == d.digits@.len());
            }
            let (whole, _up) = shift(&d.digits, d.exponent);
            if whole > u64::MAX as u128 {
                Some(u64::MAX)
            } else {
                Some(whole as u64)
            }
        },
        Some(Number::Infinite { negative }) => if negative {
            Some(0)
        } else {
            Some(u64::MAX)
        },
        Some(Number::NotANumber) => Some(0),
        None => None,
    }
}

/// The number `n × 10^exponent`.
pub fn scaled(n: u64, exponent: i8) -> (r: Number)
    ensures
        r.wf(),
        forall|places: int, lo: int, hi: int| #[trigger]
            r.settled(places, lo, hi) == Some(
                clamped(shifted_round(n as nat, exponent + places) as int, lo, hi),
            ),
{
    proof {
        lemma_decimal(n as nat);
    }
    let s = show(n);
    let digits = chars(s.as_str());
    Number::Finite(Decimal { negative: false, digits, exponent: exponent as i128 })
}

// ---- whole numbers ----

/// What a text reads as where a whole number from 0 to `max` is wanted: an optional plus sign and
/// digits.
pub open spec fn unsigned_of(s: Seq<char>, max: nat) -> Option<nat> {
    let body = if s.len() > 1 && s[0] == '+' {
        s.skip(1)
    } else {
        s
    };
    if body.len() > 0 && all_digits(body) && number(body) <= max {
        Some(number(body))
    } else {
        None
    }
}

/// `str::parse` at an unsigned type whose largest value is `max`.
pub fn parse_unsigned(s: &str, max: u64) -> (r: Option<u64>)
    requires
        max >= 9,
    ensures
        match r {
            Some(n) => unsigned_of(s@, max as nat) == Some(n as nat) && n <= max,
            None => unsigned_of(s@, max as nat) is None,
        },
{
    let v = chars(s);
    let start: usize = if v.len() > 1 && v[0] == '+' {
        1
    } else {
        0
    };
    proof {
        assert(v@.skip(1) =~= v@.subrange(1, v@.len() as int));
        assert(v@ =~= v@.subrange(0, v@.len() as int));
    }
    if start == v.len() || !digits_between(&v, start, v.len()) {
        return None;
    }
    let n = number_capped(&v, start, v.len(), max as u128 + 1);
    if n <= max as u128 {
        Some(n as u64)
    } else {
        None
    }
}

/// A whole number in decimal reads back.
pub proof fn lemma_unsigned_decimal(n: nat, max: nat)
    requires
        n <= max,
    ensures
        unsigned_of(decimal(n), max) == Some(n),
{
    lemma_decimal(n);
    assert(is_digit(decimal(n)[0]));
}

/// A clamped value is the nearest one in its range.
pub proof fn law_clamping(v: int, lo: int, hi: int)
    requires
        lo <= hi,
    ensures
        lo <= clamped(v, lo, hi) <= hi,
        lo <= v <= hi ==> clamped(v, lo, hi) == v,
        v <= lo ==> clamped(v, lo, hi) == lo,
        v >= hi ==> clamped(v, lo, hi) == hi,
{
}

/// Hundredths are written with the whole part, a point and two digits.
pub proof fn law_how_hundredths_are_written(whole: nat, rest: nat)
    requires
        rest < 100,
    ensures
        two_decimals(100 * whole + rest) == decimal(whole) + seq!['.'] + zero_padded(
            decimal(rest),
            2,
        ),
{
    assert((100 * whole + rest) / 100 == whole);
    assert((100 * whole + rest) % 100 == rest);
}

/// A sign in front is read as one, and is not part of the number.
pub proof fn law_how_a_sign_reads(s: Seq<char>)
    ensures
        sign(seq!['-'] + s) == (true, 1int),
        sign(seq!['+'] + s) == (false, 1int),
        s.len() > 0 && s[0] != '-' && s[0] != '+' ==> sign(s) == (false, 0int),
{
}

/// Infinity settles at the end of the range on its side, and what is no number settles nowhere.
pub proof fn law_where_odd_numbers_settle(places: int, lo: int, hi: int)
    ensures
        (Number::Infinite { negative: false }).settled(places, lo, hi) == Some(hi),
        (Number::Infinite { negative: true }).settled(places, lo, hi) == Some(lo),
        Number::NotANumber.settled(places, lo, hi) is None,
        !Number::NotANumber.finite(),
        !(Number::Infinite { negative: true }).finite(),
{
}

/// A whole number in digits reads as itself up to the largest that is allowed, with or without a
/// plus.
pub proof fn law_how_a_whole_number_reads(n: nat, max: nat)
    ensures
        n <= max ==> unsigned_of(decimal(n), max) == Some(n) && unsigned_of(
            seq!['+'] + decimal(n),
            max,
        ) == Some(n),
        n > max ==> unsigned_of(decimal(n), max) is None,
        unsigned_of(Seq::empty(), max) is None,
{
    crate::text::lemma_decimal(n);
    let d = decimal(n);
    let p = seq!['+'] + d;
    assert(p.skip(1) =~= d);
    assert(d.len() > 0 && crate::text::is_digit(d[0]));
}

/// Moving the point to the right multiplies by ten; moving it to the left divides, to the nearest
/// whole number or down.
pub proof fn law_moving_the_point(n: nat, x: nat)
    ensures
        shifted_round(n, x as int) == n * pow10(x),
        shifted_floor(n, x as int) == n * pow10(x),
        x > 0 ==> -(pow10(x) as int) <= 2 * (n - pow10(x) * shifted_round(n, -(x as int)))
            <= pow10(x),
        x > 0 ==> pow10(x) * shifted_floor(n, -(x as int)) <= n < pow10(x) * (shifted_floor(
            n,
            -(x as int),
        ) + 1),
{
    if x > 0 {
        lemma_pow10_positive(x);
        let d = pow10(x) as int;
        let a = n + d / 2;
        vstd::arithmetic::div_mod::lemma_fundamental_div_mod(a, d);
        vstd::arithmetic::div_mod::lemma_fundamental_div_mod(n as int, d);
        let q = a / d;
        let f = n as int / d;
        assert(d * (f + 1) == d * f + d) by (nonlinear_arith);
        assert(d % 2 == 0) by {
            assert(pow10(x) == 10 * pow10((x - 1) as nat));
        }
    }
}

} // verus!
