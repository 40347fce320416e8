//! Decimal fractions as a double-precision number prints them.
//!
//! A double keeps 53 significant bits. Where a value does not fit, the nearest that does stands for
//! it, and of two that are equally near the even one. Printing with a fixed number of decimals
//! rounds in the same way.
use vstd::prelude::*;

verus! {

/// One more than the largest whole number below which a double keeps every whole number.
pub const MANTISSAS: u128 = 0x20_0000_0000_0000;

/// The whole number nearest to `n / d`; of two that are equally near, the even one.
pub open spec fn nearest(n: nat, d: nat) -> nat {
    let q = n / d;
    let r = n % d;
    if 2 * r > d || (2 * r == d && q % 2 == 1) {
        q + 1
    } else {
        q
    }
}

/// The distance between the doubles around `n / d`, where that is at least one.
pub open spec fn spacing(n: nat, d: nat) -> nat
    decreases
            if n >= MANTISSAS * d {
                n - MANTISSAS * d + 1
            } else {
                0
            },
    when d > 0
{
    if n < MANTISSAS * d {
        1
    } else {
        2 * spacing(n, 2 * d)
    }
}

/// The double nearest to `n / d`, where that is zero, or has at least 53 bits, or is whole.
pub open spec fn double(n: nat, d: nat) -> nat {
    nearest(n, d * spacing(n, d)) * spacing(n, d)
}

/// The most that is computed with here.
pub const LIMIT: u128 = 0x4_0000_0000_0000_0000_0000_0000_0000;

pub fn to_nearest(n: u128, d: u128) -> (q: u128)
    requires
        0 < d <= LIMIT,
    ensures
        q == nearest(n as nat, d as nat),
        q <= n / d + 1,
{
    let q: u128 = n / d;
    let r: u128 = n % d;
    proof {
        assert(q <= n) by (nonlinear_arith)
            requires
                q == n / d,
                d > 0,
        ;
        if n == u128::MAX && d == 1 {
            assert(r == 0);
        }
        if d > 1 {
            assert(q < n || n == 0) by (nonlinear_arith)
                requires
                    q == n / d,
                    d > 1,
            ;
        }
    }
    if 2 * r > d || (2 * r == d && q % 2 == 1) {
        q + 1
    } else {
        q
    }
}

pub fn to_double(n: u128, d: u128) -> (v: u128)
    requires
        n <= LIMIT,
        0 < d <= 0x1_0000_0000,
    ensures
        v == double(n as nat, d as nat),
        v <= 2 * n + 1,
        n >= d ==> v > 0,
{
    let mut u: u128 = 1;
    let mut step: u128 = d;
    while n >= MANTISSAS * step
        invariant
            n <= LIMIT,
            0 < d <= 0x1_0000_0000,
            0 < u,
            step == d * u,
            step <= LIMIT,
            MANTISSAS * step <= 2 * LIMIT,
            u <= n || u == 1,
            u == 1 || MANTISSAS * step <= 2 * n,
            spacing(n as nat, d as nat) == u * spacing(n as nat, step as nat),
        decreases LIMIT * 2 - step,
    {
        proof {
            assert(u * (2 * spacing(n as nat, (2 * step) as nat)) == (2 * u) * spacing(
                n as nat,
                (2 * step) as nat,
            )) by (nonlinear_arith);
            assert(2 * (d * u) == d * (2 * u)) by (nonlinear_arith);
            assert(u <= step) by (nonlinear_arith)
                requires
                    step == d * u,
                    d >= 1,
            ;
        }
        u = u * 2;
        step = step * 2;
    }
    let q: u128 = to_nearest(n, step);
    proof {
        assert(u * 1 == u);
        if n >= d {
            assert(d * 1 == d);
            assert(n / step >= 1) by (nonlinear_arith)
                requires
                    n >= step,
                    step > 0,
            ;
            assert(q * u > 0) by (nonlinear_arith)
                requires
                    q >= 1,
                    u >= 1,
            ;
        }
        assert(q * u <= n + u) by (nonlinear_arith)
            requires
                q <= n / step + 1,
                step == d * u,
                d >= 1,
                u >= 1,
                n >= 0,
        {
            assert(n / step * step <= n);
            assert(n / step * u <= n / step * step);
        }
    }
    q * u
}

/// Two to the power of `k`.
pub open spec fn two(k: nat) -> nat
    decreases k,
{
    if k == 0 {
        1
    } else {
        2 * two((k - 1) as nat)
    }
}

/// The double nearest to `n / d`, as a fraction: where the quotient has fewer than 53 bits it is
/// doubled until it has them.
pub open spec fn rounded(n: nat, d: nat) -> (nat, nat)
    decreases
            if 2 * n < MANTISSAS * d {
                MANTISSAS * d - n
            } else {
                0
            },
    when d > 0
{
    if n == 0 || 2 * n >= MANTISSAS * d {
        (double(n, d), 1)
    } else {
        let (a, b) = rounded(2 * n, d);
        (a, 2 * b)
    }
}

proof fn lemma_nearest_twice(n: nat, d: nat)
    requires
        d > 0,
    ensures
        nearest(2 * n, 2 * d) == nearest(n, d),
{
    let q = n / d;
    let r = n % d;
    vstd::arithmetic::div_mod::lemma_fundamental_div_mod(n as int, d as int);
    assert(2 * n == q * (2 * d) + 2 * r) by (nonlinear_arith)
        requires
            n == d * q + r,
    ;
    vstd::arithmetic::div_mod::lemma_fundamental_div_mod_converse(
        (2 * n) as int,
        (2 * d) as int,
        q as int,
        (2 * r) as int,
    );
}

proof fn lemma_spacing_twice(n: nat, d: nat)
    requires
        d > 0,
    ensures
        spacing(2 * n, 2 * d) == spacing(n, d),
    decreases
            if n >= MANTISSAS * d {
                n - MANTISSAS * d + 1
            } else {
                0
            },
{
    if n >= MANTISSAS * d {
        lemma_spacing_twice(n, 2 * d);
    }
}

proof fn lemma_spacing_positive(n: nat, d: nat)
    requires
        d > 0,
    ensures
        spacing(n, d) > 0,
    decreases
            if n >= MANTISSAS * d {
                n - MANTISSAS * d + 1
            } else {
                0
            },
{
    if n >= MANTISSAS * d {
        lemma_spacing_positive(n, 2 * d);
    }
}

/// Doubling a number of 53 bits or more doubles its double.
proof fn lemma_double_twice(n: nat, d: nat)
    requires
        d > 0,
        2 * n >= MANTISSAS * d,
    ensures
        double(2 * n, d) == 2 * double(n, d),
{
    let u = spacing(n, d);
    lemma_spacing_twice(n, d);
    lemma_spacing_positive(n, d);
    assert(spacing(2 * n, d) == 2 * u);
    assert(d * (2 * u) == 2 * (d * u)) by (nonlinear_arith);
    assert(d * u > 0) by (nonlinear_arith)
        requires
            d > 0,
            u > 0,
    ;
    lemma_nearest_twice(n, d * u);
    let m = nearest(n, d * u);
    assert(m * (2 * u) == 2 * (m * u)) by (nonlinear_arith);
}

/// A quotient and its double have the same double, up to the factor.
proof fn lemma_rounded_twice(n: nat, d: nat)
    requires
        d > 0,
    ensures
        rounded(n, d).1 > 0,
        rounded(2 * n, d).1 > 0,
        rounded(2 * n, d).0 * rounded(n, d).1 == 2 * rounded(n, d).0 * rounded(2 * n, d).1,
    decreases
            if 2 * n < MANTISSAS * d {
                MANTISSAS * d - n
            } else {
                0
            },
{
    if n == 0 {
        assert(spacing(0, d) == 1);
        assert(d * 1 == d);
        assert(nearest(0, d) == 0) by {
            vstd::arithmetic::div_mod::lemma_fundamental_div_mod_converse(0, d as int, 0, 0);
        }
    } else if 2 * n >= MANTISSAS * d {
        lemma_double_twice(n, d);
    } else {
        lemma_rounded_twice(2 * n, d);
        let (a, b) = rounded(2 * n, d);
        assert(a * (2 * b) == 2 * a * b) by (nonlinear_arith);
    }
}

/// The same with any power of two.
pub proof fn lemma_rounded_scaled(n: nat, d: nat, k: nat)
    requires
        d > 0,
    ensures
        rounded(n, d).1 > 0,
        rounded(n * two(k), d).1 > 0,
        rounded(n * two(k), d).0 * rounded(n, d).1 == two(k) * rounded(n, d).0 * rounded(
            n * two(k),
            d,
        ).1,
    decreases k,
{
    if k == 0 {
        lemma_rounded_twice(n, d);
        assert(n * two(0) == n) by (nonlinear_arith)
            requires
                two(0) == 1,
        ;
        let (a, b) = rounded(n, d);
        assert(two(0) * a * b == a * b) by (nonlinear_arith)
            requires
                two(0) == 1,
        ;
    } else {
        let below = n * two((k - 1) as nat);
        lemma_rounded_scaled(n, d, (k - 1) as nat);
        lemma_rounded_twice(below, d);
        assert(n * two(k) == 2 * below) by (nonlinear_arith)
            requires
                two(k) == 2 * two((k - 1) as nat),
                below == n * two((k - 1) as nat),
        ;
        let (a, b) = rounded(n, d);
        let (c, e) = rounded(below, d);
        let (f, g) = rounded(2 * below, d);
        let t = two((k - 1) as nat);
        assert(f * b == 2 * t * a * g) by (nonlinear_arith)
            requires
                c * b == t * a * e,
                f * e == 2 * c * g,
                e > 0,
        {
            assert((f * b) * e == (2 * t * a * g) * e);
        }
    }
}

/// Equal fractions have the same whole part.
pub proof fn lemma_same_floor(a: nat, b: nat, c: nat, d: nat)
    requires
        b > 0,
        d > 0,
        a * d == c * b,
    ensures
        a / b == c / d,
{
    let q = a / b;
    vstd::arithmetic::div_mod::lemma_fundamental_div_mod(a as int, b as int);
    let r = a % b;
    assert(q * d <= c < q * d + d) by (nonlinear_arith)
        requires
            a == b * q + r,
            0 <= r < b,
            a * d == c * b,
            d > 0,
    {
        assert(b * (q * d) <= b * c);
        assert(b * c < b * (q * d + d));
    }
    assert(c == d * q + (c - q * d)) by (nonlinear_arith);
    vstd::arithmetic::div_mod::lemma_fundamental_div_mod_converse(
        c as int,
        d as int,
        q as int,
        c - q * d,
    );
}

proof fn lemma_two_adds(a: nat, b: nat)
    ensures
        two(a + b) == two(a) * two(b),
        two(a) > 0,
    decreases a,
{
    if a == 0 {
        assert(1 * two(b) == two(b));
    } else {
        lemma_two_adds((a - 1) as nat, b);
        assert((a + b - 1) as nat == (a - 1) as nat + b);
        assert(2 * (two((a - 1) as nat) * two(b)) == (2 * two((a - 1) as nat)) * two(b))
            by (nonlinear_arith);
    }
}

pub proof fn lemma_power_positive(k: nat)
    ensures
        two(k) > 0,
{
    lemma_two_adds(k, 0);
}

/// What has to be doubled is not zero.
pub proof fn lemma_not_whole(n: nat, d: nat, k: nat)
    requires
        d > 0,
        k > 0,
        rounded(n, d).1 == two(k),
    ensures
        n > 0,
        two(k) > 0,
{
    lemma_two_adds(k, 0);
    if n == 0 {
        assert(two(k) == 2 * two((k - 1) as nat));
    }
}

/// A power of two that is not large is not a high one.
proof fn lemma_low_power(k: nat)
    requires
        two(k) < 0x1_0000_0000_0000_0000_0000_0000_0000_0000_0000_0000_0000,
    ensures
        k < 240,
{
    if k >= 240 {
        let t = two((k - 240) as nat);
        lemma_two_adds(240, (k - 240) as nat);
        lemma_two_adds((k - 240) as nat, 0);
        lemma_two_adds(120, 120);
        lemma_two_adds(60, 60);
        lemma_two_adds(30, 30);
        lemma_two_adds(15, 15);
        assert(two(15) == 0x8000) by {
            reveal_with_fuel(two, 16);
        }
        assert(two(30) == 0x4000_0000) by (nonlinear_arith)
            requires
                two(30) == two(15) * two(15),
                two(15) == 0x8000,
        ;
        assert(two(60) == 0x1000_0000_0000_0000) by (nonlinear_arith)
            requires
                two(60) == two(30) * two(30),
                two(30) == 0x4000_0000,
        ;
        assert(two(120) == 0x1000_0000_0000_0000 * 0x1000_0000_0000_0000) by (nonlinear_arith)
            requires
                two(120) == two(60) * two(60),
                two(60) == 0x1000_0000_0000_0000,
        ;
        assert(two(240) >= 0x1_0000_0000_0000_0000_0000_0000_0000_0000_0000_0000_0000)
            by (nonlinear_arith)
            requires
                two(240) == two(120) * two(120),
                two(120) == 0x1000_0000_0000_0000 * 0x1000_0000_0000_0000,
        ;
        assert(two(240) * t >= two(240)) by (nonlinear_arith)
            requires
                t >= 1,
                two(240) >= 0,
        ;
    }
}

/// The whole part and the remainder of `(q * d + r) / (d * u)`.
proof fn lemma_divided_further(q: nat, r: nat, d: nat, u: nat)
    requires
        r < d,
        u > 0,
    ensures
        (q * d + r) / (d * u) == q / u,
        (q * d + r) % (d * u) == (q % u) * d + r,
{
    let a = q / u;
    let b = q % u;
    vstd::arithmetic::div_mod::lemma_fundamental_div_mod(q as int, u as int);
    assert(q * d + r == a * (d * u) + (b * d + r)) by (nonlinear_arith)
        requires
            q == u * a + b,
    ;
    assert(b * d + r < d * u) by (nonlinear_arith)
        requires
            b <= u - 1,
            r < d,
            u > 0,
    ;
    assert(b * d >= 0) by (nonlinear_arith)
        requires
            b >= 0,
            d >= 0,
    ;
    assert(d * u > 0) by (nonlinear_arith)
        requires
            d > 0,
            u > 0,
    ;
    vstd::arithmetic::div_mod::lemma_fundamental_div_mod_converse(
        (q * d + r) as int,
        (d * u) as int,
        a as int,
        (b * d + r) as int,
    );
}

/// A quotient with at least 53 bits, as a double.
fn round_large(q: u128, r: u128, d: u128) -> (v: u128)
    requires
        r < d,
        d <= 0x800_0000_0000_0000_0000_0000_0000_0000,
        q <= 0x1_0000_0000_0000_0000_0000,
        q >= MANTISSAS ==> d <= 0x400_0000_0000_0000_0000_0000,
    ensures
        v == double((q * d + r) as nat, d as nat),
        v <= q + 1 || v <= 2 * q,
        q < MANTISSAS ==> q <= v <= q + 1,
{
    let ghost n: nat = (q * d + r) as nat;
    proof {
        assert(q * d >= 0) by (nonlinear_arith);
    }
    let mut u: u128 = 1;
    while q >= MANTISSAS * u
        invariant
            r < d,
            q <= 0x1_0000_0000_0000_0000_0000,
            n == q * d + r,
            u >= 1,
            u == 1 || MANTISSAS * u <= 2 * q,
            u == 1 || q >= MANTISSAS,
            spacing(n, d as nat) == u * spacing(n, (d * u) as nat),
        decreases 2 * q - MANTISSAS * u,
    {
        proof {
            assert(n >= MANTISSAS * (d * u)) by (nonlinear_arith)
                requires
                    n == q * d + r,
                    q >= MANTISSAS * u,
                    r >= 0,
                    d >= 0,
            {
                assert(q * d >= (MANTISSAS * u) * d);
                assert((MANTISSAS * u) * d == MANTISSAS * (d * u));
            }
            assert(d * u > 0) by (nonlinear_arith)
                requires
                    d > 0,
                    u >= 1,
            ;
            assert(2 * (d * u) == d * (2 * u)) by (nonlinear_arith);
            assert(u * (2 * spacing(n, (d * (2 * u)) as nat)) == (2 * u) * spacing(
                n,
                (d * (2 * u)) as nat,
            )) by (nonlinear_arith);
        }
        u = u * 2;
    }
    proof {
        assert(n < MANTISSAS * (d * u)) by (nonlinear_arith)
            requires
                n == q * d + r,
                q + 1 <= MANTISSAS * u,
                r < d,
        {
            assert((q + 1) * d <= (MANTISSAS * u) * d);
            assert((MANTISSAS * u) * d == MANTISSAS * (d * u));
            assert((q + 1) * d == q * d + d);
        }
        assert(d * u > 0) by (nonlinear_arith)
            requires
                d > 0,
                u >= 1,
        ;
        assert(spacing(n, (d * u) as nat) == 1);
        assert(u * 1 == u);
        lemma_divided_further(q as nat, r as nat, d as nat, u as nat);
        if u == 1 {
            assert(d * u == d);
            assert((q % u) * d == 0);
        } else {
            assert((q % u) * d <= (u - 1) * d) by (nonlinear_arith)
                requires
                    q % u <= u - 1,
                    d >= 0,
            ;
            assert(d * u <= 0x400_0000_0000_0000_0000_0000 * 0x1000_0000) by (nonlinear_arith)
                requires
                    d <= 0x400_0000_0000_0000_0000_0000,
                    u <= 0x1000_0000,
                    d >= 0,
            ;
            assert((u - 1) * d <= d * u) by (nonlinear_arith)
                requires
                    d >= 0,
            ;
        }
        assert((q % u) * d >= 0) by (nonlinear_arith)
            requires
                q % u >= 0,
                d >= 0,
        ;
    }
    let whole: u128 = q / u;
    let rest: u128 = (q % u) * d + r;
    let up: bool = 2 * rest > d * u || (2 * rest == d * u && whole % 2 == 1);
    let m: u128 = if up {
        whole + 1
    } else {
        whole
    };
    proof {
        assert(m == nearest(n, (d * u) as nat));
        assert(m * u <= q + u) by (nonlinear_arith)
            requires
                m <= q / u + 1,
                u >= 1,
        {
            assert((q / u) * u <= q);
            assert(m * u <= (q / u + 1) * u);
        }
    }
    m * u
}

/// The double nearest to `q + r / d`: its numerator, and the power of two that is its denominator.
pub fn round_quotient(q: u128, r: u128, d: u128) -> (v: (u128, u32))
    requires
        r < d,
        d <= 0x800_0000_0000_0000_0000_0000_0000_0000,
        q <= 0x1_0000_0000_0000_0000_0000,
        q >= MANTISSAS ==> d <= 0x400_0000_0000_0000_0000_0000,
    ensures
        rounded((q * d + r) as nat, d as nat) == (v.0 as nat, two(v.1 as nat)),
        v.1 > 0 ==> 0x10_0000_0000_0000 <= v.0 <= MANTISSAS,
        v.1 > 0 ==> two(v.1 as nat) * (q * d + r) < MANTISSAS * d,
        v.0 <= 2 * q || v.0 <= MANTISSAS,
{
    let ghost first: nat = (q * d + r) as nat;
    proof {
        assert(q * d >= 0) by (nonlinear_arith);
    }
    if q == 0 && r == 0 {
        proof {
            assert(first == 0) by {
                assert(0 * d == 0);
            }
            assert(spacing(0, d as nat) == 1);
            assert(d * 1 == d);
            assert(nearest(0, d as nat) == 0) by {
                vstd::arithmetic::div_mod::lemma_fundamental_div_mod_converse(0, d as int, 0, 0);
            }
        }
        return (0, 0);
    }
    proof {
        assert(first > 0) by (nonlinear_arith)
            requires
                first == q * d + r,
                q > 0 || r > 0,
                d > 0,
                q >= 0,
                r >= 0,
        ;
    }
    let mut w: u128 = q;
    let mut rest: u128 = r;
    let mut k: u32 = 0;
    let ghost mut n: nat = first;
    proof {
        assert(1 * first == first);
        assert(1 * rounded(first, d as nat).1 == rounded(first, d as nat).1);
    }
    while w < 0x10_0000_0000_0000
        invariant
            first > 0,
            rest < d,
            d <= 0x800_0000_0000_0000_0000_0000_0000_0000,
            n == w * d + rest,
            n == two(k as nat) * first,
            n > 0,
            k > 0 ==> n < MANTISSAS * d,
            k > 0 ==> w < MANTISSAS,
            k == 0 ==> w == q && rest == r,
            k < 240,
            rounded(first, d as nat).0 == rounded(n, d as nat).0,
            rounded(first, d as nat).1 == two(k as nat) * rounded(n, d as nat).1,
        decreases MANTISSAS * d - n,
    {
        let ghost before = n;
        proof {
            assert(2 * n < MANTISSAS * d) by (nonlinear_arith)
                requires
                    n == w * d + rest,
                    w + 1 <= 0x10_0000_0000_0000,
                    rest < d,
            {
                assert((w + 1) * d <= 0x10_0000_0000_0000 * d);
                assert((w + 1) * d == w * d + d);
            }
            n = 2 * n;
            let t = two(k as nat);
            assert(two((k + 1) as nat) == 2 * t);
            assert(n == (2 * t) * first) by (nonlinear_arith)
                requires
                    n == 2 * (t * first),
            ;
            let e = rounded(n, d as nat).1;
            assert(t * (2 * e) == (2 * t) * e) by (nonlinear_arith);
            assert((2 * w) * d + 2 * rest == n) by (nonlinear_arith)
                requires
                    n == 2 * (w * d + rest),
            ;
            assert((2 * w + 1) * d + (2 * rest - d) == n) by (nonlinear_arith)
                requires
                    n == 2 * (w * d + rest),
            ;
            assert(two((k + 1) as nat)
                < 0x1_0000_0000_0000_0000_0000_0000_0000_0000_0000_0000_0000) by {
                assert(2 * t <= n) by (nonlinear_arith)
                    requires
                        n == (2 * t) * first,
                        first >= 1,
                        t >= 0,
                ;
            }
            lemma_low_power((k + 1) as nat);
        }
        if 2 * rest >= d {
            w = 2 * w + 1;
            rest = 2 * rest - d;
        } else {
            w = 2 * w;
            rest = 2 * rest;
        }
        k = k + 1;
    }
    let m: u128 = round_large(w, rest, d);
    proof {
        assert(2 * n >= MANTISSAS * d) by (nonlinear_arith)
            requires
                n == w * d + rest,
                w >= 0x10_0000_0000_0000,
                rest >= 0,
                d >= 0,
        {
            assert(w * d >= 0x10_0000_0000_0000 * d);
        }
        assert(two(k as nat) * 1 == two(k as nat));
    }
    (m, k)
}

/// As much of a number as fits 64 bits.
pub open spec fn saturated(n: nat) -> nat {
    if n < u64::MAX {
        n
    } else {
        u64::MAX as nat
    }
}

/// The whole part of `p * two(k) / two(j)`, as far as it fits.
pub fn whole_part(p: u128, k: u32, j: u32) -> (v: u64)
    requires
        p <= 0x1_0000_0000_0000_0000_0000,
    ensures
        v == saturated(p as nat * two(k as nat) / two(j as nat)),
{
    proof {
        lemma_two_adds(k as nat, 0);
        lemma_two_adds(j as nat, 0);
    }
    let mut v: u128 = p;
    let mut i: u32 = 0;
    if k >= j {
        let t: u32 = k - j;
        proof {
            lemma_two_adds(t as nat, j as nat);
            lemma_two_adds(t as nat, 0);
            let (a, b) = (p as nat * two(k as nat), p as nat * two(t as nat));
            assert(a * 1 == b * two(j as nat)) by (nonlinear_arith)
                requires
                    a == p as nat * two(k as nat),
                    b == p as nat * two(t as nat),
                    two(k as nat) == two(t as nat) * two(j as nat),
            ;
            lemma_same_floor(a, two(j as nat), b, 1);
            assert(p * two(0) == p) by (nonlinear_arith)
                requires
                    two(0) == 1,
            ;
        }
        while i < t
            invariant
                i <= t,
                v == p * two(i as nat),
                v <= 0x1_0000_0000_0000_0000_0000,
                p as nat * two(k as nat) / two(j as nat) == p as nat * two(t as nat),
            decreases t - i,
        {
            if v >= u64::MAX as u128 {
                proof {
                    lemma_two_adds((t - i) as nat, i as nat);
                    assert(p * two(t as nat) >= v) by (nonlinear_arith)
                        requires
                            v == p * two(i as nat),
                            two(t as nat) == two((t - i) as nat) * two(i as nat),
                            two((t - i) as nat) >= 1,
                            v >= 0,
                    {
                        assert(p * two(t as nat) == two((t - i) as nat) * v);
                    }
                }
                return u64::MAX;
            }
            proof {
                assert(p * (2 * two(i as nat)) == 2 * (p * two(i as nat))) by (nonlinear_arith);
            }
            v = v * 2;
            i = i + 1;
        }
    } else {
        let t: u32 = j - k;
        proof {
            lemma_two_adds(t as nat, k as nat);
            lemma_two_adds(t as nat, 0);
            let (a, b) = (p as nat * two(k as nat), p as nat);
            assert(a * two(t as nat) == b * two(j as nat)) by (nonlinear_arith)
                requires
                    a == p as nat * two(k as nat),
                    b == p,
                    two(j as nat) == two(t as nat) * two(k as nat),
            ;
            lemma_same_floor(a, two(j as nat), b, two(t as nat));
            assert(p as nat / 1 == p);
        }
        while i < t
            invariant
                i <= t,
                p <= 0x1_0000_0000_0000_0000_0000,
                v == p as nat / two(i as nat),
                p as nat * two(k as nat) / two(j as nat) == p as nat / two(t as nat),
            decreases t - i,
        {
            proof {
                lemma_two_adds(i as nat, 0);
                vstd::arithmetic::div_mod::lemma_div_denominator(
                    p as int,
                    two(i as nat) as int,
                    2,
                );
                assert(two(i as nat) * 2 == two((i + 1) as nat));
            }
            v = v / 2;
            i = i + 1;
        }
    }
    if v < u64::MAX as u128 {
        v as u64
    } else {
        u64::MAX
    }
}

/// A power of two that fits.
pub fn power(k: u32) -> (v: u128)
    requires
        two(k as nat) < 0x8000_0000_0000_0000_0000_0000_0000_0000,
    ensures
        v == two(k as nat),
        v > 0,
{
    let mut v: u128 = 1;
    let mut i: u32 = 0;
    while i < k
        invariant
            i <= k,
            v == two(i as nat),
            v > 0,
            two(k as nat) < 0x8000_0000_0000_0000_0000_0000_0000_0000,
        decreases k - i,
    {
        proof {
            lemma_two_adds((k - i - 1) as nat, (i + 1) as nat);
            assert(two(k as nat) >= two((i + 1) as nat)) by (nonlinear_arith)
                requires
                    two(k as nat) == two((k - i - 1) as nat) * two((i + 1) as nat),
                    two((k - i - 1) as nat) >= 1,
                    two((i + 1) as nat) >= 0,
            ;
        }
        v = v * 2;
        i = i + 1;
    }
    v
}

/// A duration as a double, in seconds: the whole seconds and the nanoseconds are made doubles, and
/// so is their sum.
pub open spec fn seconds(secs: nat, nanos: nat) -> (nat, nat) {
    let f = rounded(nanos, 1_000_000_000);
    rounded(double(secs, 1) * f.1 + f.0, f.1)
}

pub fn to_seconds(secs: u64, nanos: u32) -> (v: (u128, u32))
    requires
        nanos < 1_000_000_000,
    ensures
        seconds(secs as nat, nanos as nat) == (v.0 as nat, two(v.1 as nat)),
        v.0 <= 4 * secs + 0x40_0000_0000_0002,
        two(v.1 as nat) <= 0x10_0000_0000_0000_0000_0000,
{
    let s: u128 = to_double(secs as u128, 1);
    proof {
        assert(0 * 1_000_000_000 == 0);
    }
    let (a, j) = round_quotient(0, nanos as u128, 1_000_000_000);
    proof {
        lemma_two_adds(j as nat, 0);
        if j > 0 {
            let (t, n) = (two(j as nat), nanos as nat);
            assert(n > 0) by {
                if n == 0 {
                    assert(rounded(0, 1_000_000_000).1 == 1);
                    assert(two(j as nat) == 2 * two((j - 1) as nat));
                }
            }
            assert(t <= MANTISSAS * 1_000_000_000) by (nonlinear_arith)
                requires
                    t * (0 * 1_000_000_000 + n) < MANTISSAS * 1_000_000_000,
                    n >= 1,
                    t >= 0,
            ;
        }
    }
    let b: u128 = power(j);
    let q: u128 = s + a / b;
    let r: u128 = a % b;
    proof {
        assert(a / b <= a) by (nonlinear_arith)
            requires
                b >= 1,
                a >= 0,
        ;
        assert(q * b + r == s * b + a) by (nonlinear_arith)
            requires
                q == s + a / b,
                r == a % b,
                b > 0,
        ;
        assert(r < b);
    }
    let v: (u128, u32) = round_quotient(q, r, b);
    proof {
        if v.1 > 0 {
            let (t, n) = (two(v.1 as nat), (q * b + r) as nat);
            if j > 0 {
                assert(n >= 0x10_0000_0000_0000) by (nonlinear_arith)
                    requires
                        n == s * b + a,
                        a >= 0x10_0000_0000_0000,
                        s >= 0,
                        b >= 0,
                ;
                assert(t <= 0x10_0000_0000_0000_0000_0000) by (nonlinear_arith)
                    requires
                        t * n < MANTISSAS * b,
                        n >= 0x10_0000_0000_0000,
                        b <= MANTISSAS * 1_000_000_000,
                        t >= 0,
                ;
            } else {
                assert(n > 0) by {
                    if n == 0 {
                        assert(rounded(0, b as nat).1 == 1);
                        assert(t == 2 * two((v.1 - 1) as nat));
                    }
                }
                assert(t <= MANTISSAS) by (nonlinear_arith)
                    requires
                        t * n < MANTISSAS * b,
                        n >= 1,
                        b == 1,
                        t >= 0,
                ;
            }
        }
    }
    v
}

} // verus!
