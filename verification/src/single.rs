//! Rounding: division to the nearest whole number, and single-precision arithmetic in whole numbers.
//! A single-precision number keeps 24 binary digits; every operation is rounded to the nearest one
//! that does, a tie to the even one.

use vstd::prelude::*;

verus! {

/// `n / d` to the nearest whole number, a half to the even one.
pub open spec fn nearest(n: int, d: int) -> int {
    let q = n / d;
    let r = n % d;
    if 2 * r > d || (2 * r == d && q % 2 == 1) {
        q + 1
    } else {
        q
    }
}

/// `n / d` to the nearest whole number, a half to the even one.
pub fn round_div(n: u128, d: u128) -> (r: u128)
    requires
        0 < d <= 0x1000_0000_0000_0000_0000_0000_0000_0000,
        n < 0x1000_0000_0000_0000_0000_0000_0000_0000,
    ensures
        r == nearest(n as int, d as int),
        r <= n / d + 1,
        r <= n + 1,
{
    let q: u128 = n / d;
    let rest: u128 = n % d;
    proof {
        assert(q <= n) by (nonlinear_arith)
            requires
                q == n / d,
                d > 0,
        ;
    }
    if 2 * rest > d || (2 * rest == d && q % 2 == 1) {
        q + 1
    } else {
        q
    }
}

/// How many numbers 24 binary digits can write.
pub const MANTISSA: u128 = 16_777_216;

/// The distance between the single-precision numbers around `n`, where that is a whole number.
pub open spec fn spacing(n: nat) -> nat
    decreases n,
{
    if n < MANTISSA {
        1
    } else {
        2 * spacing(n / 2)
    }
}

/// The single-precision number nearest to `n / d`, where the spacing there is a whole number: `n` is
/// 0 or `n / d` at least half of `MANTISSA`.
pub open spec fn single(n: nat, d: nat) -> nat {
    let u = spacing(n / d);
    (nearest(n as int, (d * u) as int) * u) as nat
}

proof fn lemma_spacing(n: nat)
    ensures
        1 <= spacing(n) <= n + 1,
        n >= MANTISSA ==> spacing(n) * MANTISSA <= 2 * n,
    decreases n,
{
    if n >= MANTISSA {
        lemma_spacing(n / 2);
    }
}

/// Nothing is rounded at zero.
pub proof fn lemma_single_zero()
    ensures
        single(0, 1) == 0,
{
    let u = spacing(0);
    assert(u == 1);
    assert(1 * u == 1);
    assert(nearest(0, 1) == 0);
    assert(0 * u == 0);
}

/// The single-precision number nearest to `n / d`.
pub fn to_single(n: u128, d: u128) -> (r: u128)
    requires
        0 < d <= 0x1_0000_0000,
        n < 0x100_0000_0000_0000_0000_0000_0000_0000,
    ensures
        r == single(n as nat, d as nat),
        r <= 2 * (n / d) + 1,
{
    let q: u128 = n / d;
    let mut m: u128 = q;
    let mut u: u128 = 1;
    proof {
        assert(q <= n) by (nonlinear_arith)
            requires
                q == n / d,
                d > 0,
        ;
    }
    while m >= MANTISSA
        invariant
            u * spacing(m as nat) == spacing(q as nat),
            1 <= u,
            u * m <= q,
            q < 0x100_0000_0000_0000_0000_0000_0000_0000,
        decreases m,
    {
        let ghost (m0, u0) = (m as int, u as int);
        m = m / 2;
        proof {
            let s = spacing(m as nat) as int;
            assert(u0 * (2 * s) == (2 * u0) * s) by (nonlinear_arith);
            assert((2 * u0) * m <= u0 * m0 && u0 <= u0 * m0) by (nonlinear_arith)
                requires
                    2 * m <= m0,
                    1 <= u0,
                    1 <= m0,
            ;
        }
        u = 2 * u;
    }
    proof {
        lemma_spacing(q as nat);
        assert(spacing(m as nat) == 1);
        assert(u * 1 == u);
        if u > 1 {
            assert(u <= q);
            assert(d * u <= n) by (nonlinear_arith)
                requires
                    q == n / d,
                    0 < d,
                    0 <= u <= q,
            ;
        } else {
            assert(d * u == d) by (nonlinear_arith)
                requires
                    u == 1,
            ;
        }
        assert(d * u >= 1) by (nonlinear_arith)
            requires
                d >= 1,
                u >= 1,
        ;
    }
    let k = round_div(n, d * u);
    proof {
        lemma_single_bound(n as int, d as int, u as int, k as int);
    }
    k * u
}

proof fn lemma_single_bound(n: int, d: int, u: int, k: int)
    requires
        0 <= n,
        0 < d,
        1 <= u,
        u <= n / d + 1,
        k == nearest(n, d * u),
    ensures
        0 <= k * u <= 2 * (n / d) + 1,
{
    let w = d * u;
    assert(w > 0) by (nonlinear_arith)
        requires
            w == d * u,
            d > 0,
            u >= 1,
    ;
    let q = n / w;
    assert(0 <= q && q * w <= n) by (nonlinear_arith)
        requires
            q == n / w,
            w > 0,
            n >= 0,
    ;
    let v = q * u;
    assert(v * d <= n) by (nonlinear_arith)
        requires
            q * w <= n,
            v == q * u,
            w == d * u,
    ;
    assert(v <= n / d) by (nonlinear_arith)
        requires
            v * d <= n,
            d > 0,
    ;
    assert(0 <= k * u <= v + u) by (nonlinear_arith)
        requires
            q <= k <= q + 1,
            0 <= q,
            u >= 1,
            v == q * u,
    ;
}

/// The nearest whole number is off by half at most, and the even one where two are as near.
pub proof fn law_nearest_is_nearest(n: int, d: int)
    requires
        d > 0,
    ensures
        -d <= 2 * (n - d * nearest(n, d)) <= d,
        2 * (n - d * nearest(n, d)) == d || 2 * (n - d * nearest(n, d)) == -d ==> nearest(n, d) % 2
            == 0,
        n % d == 0 ==> d * nearest(n, d) == n,
{
    vstd::arithmetic::div_mod::lemma_fundamental_div_mod(n, d);
    let q = n / d;
    assert(d * (q + 1) == d * q + d) by (nonlinear_arith);
}

} // verus!
