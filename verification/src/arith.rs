//! Exact integer arithmetic for the planner: nearest-integer division,
//! wide products, and nearest square roots of a ratio.

use vstd::arithmetic::div_mod;
use vstd::arithmetic::mul;
use vstd::prelude::*;

verus! {

/// The larger of two integers.
pub open spec fn larger(a: int, b: int) -> int {
    if a >= b {
        a
    } else {
        b
    }
}

/// The smaller of two integers.
pub open spec fn smaller(a: int, b: int) -> int {
    if a <= b {
        a
    } else {
        b
    }
}

/// The integer nearest to `n / d`; a half rounds up.
pub open spec fn rounded(n: int, d: int) -> int
    recommends
        d > 0,
{
    (2 * n + d) / (2 * d)
}

/// The integer nearest to `n / d`; a half rounds away from zero.
pub open spec fn rounded_away(n: int, d: int) -> int
    recommends
        d > 0,
{
    if n >= 0 {
        rounded(n, d)
    } else {
        -rounded(-n, d)
    }
}

/// The integer nearest to `n / d`; a half rounds to the even neighbour.
pub open spec fn rounded_even(n: int, d: int) -> int
    recommends
        n >= 0,
        d > 0,
{
    let q = n / d;
    let r = n % d;
    if 2 * r < d || (2 * r == d && q % 2 == 0) {
        q
    } else {
        q + 1
    }
}

/// A rate `n / d`, rounded down. Something spread over no time at all is a
/// rate without bound, which stops at the largest one there is; nothing
/// spread over no time is no rate.
pub open spec fn rate_floor(n: int, d: int) -> int {
    if d == 0 {
        if n == 0 {
            0
        } else {
            i64::MAX as int
        }
    } else {
        smaller(n / d, i64::MAX as int)
    }
}

/// A rate `n / d`, rounded to the nearest integer, with the ends treated as
/// in [`rate_floor`].
pub open spec fn rate_rounded(n: int, d: int) -> int {
    if d == 0 {
        if n == 0 {
            0
        } else {
            i64::MAX as int
        }
    } else {
        smaller(rounded(n, d), i64::MAX as int)
    }
}

/// `r` is the integer nearest to the square root of `n / d`. No integer is a
/// half away from two of them with equal claim: a half rounds up.
pub open spec fn is_nearest_root(r: int, n: int, d: int) -> bool {
    &&& r >= 0
    &&& r > 0 ==> (2 * r - 1) * (2 * r - 1) * d <= 4 * n
    &&& 4 * n < (2 * r + 1) * (2 * r + 1) * d
}

/// The integer nearest to the square root of `n / d`.
pub open spec fn nearest_root(n: int, d: int) -> int {
    choose|r: int| is_nearest_root(r, n, d)
}

/// What the quotient and the remainder say of the nearest integer.
pub proof fn lemma_rounded_parts(n: int, d: int, q: int, r: int)
    requires
        d > 0,
        0 <= r < d,
        n == q * d + r,
    ensures
        rounded(n, d) == if 2 * r >= d {
            q + 1
        } else {
            q
        },
{
    if 2 * r >= d {
        assert(2 * n + d == (q + 1) * (2 * d) + (2 * r - d)) by (nonlinear_arith)
            requires
                n == q * d + r,
        ;
        div_mod::lemma_fundamental_div_mod_converse(2 * n + d, 2 * d, q + 1, 2 * r - d);
    } else {
        assert(2 * n + d == q * (2 * d) + (2 * r + d)) by (nonlinear_arith)
            requires
                n == q * d + r,
        ;
        div_mod::lemma_fundamental_div_mod_converse(2 * n + d, 2 * d, q, 2 * r + d);
    }
}

/// The nearest integer is within half of the quotient.
pub proof fn lemma_rounded_bounds(n: int, d: int)
    requires
        d > 0,
    ensures
        2 * n - d < rounded(n, d) * (2 * d) <= 2 * n + d,
{
    let m = 2 * n + d;
    div_mod::lemma_fundamental_div_mod(m, 2 * d);
    mul::lemma_mul_is_commutative(2 * d, m / (2 * d));
}

/// A larger numerator gives no smaller a nearest integer.
pub proof fn lemma_rounded_monotone(a: int, b: int, d: int)
    requires
        d > 0,
        a <= b,
    ensures
        rounded(a, d) <= rounded(b, d),
{
    div_mod::lemma_div_is_ordered(2 * a + d, 2 * b + d, 2 * d);
}

/// A larger denominator gives no larger a nearest integer.
pub proof fn lemma_rounded_antitone(n: int, a: int, b: int)
    requires
        n >= 0,
        0 < a <= b,
    ensures
        rounded(n, b) <= rounded(n, a),
{
    lemma_rounded_monotone(0, n, a);
    lemma_rounded_parts(0, a, 0, 0);
    lemma_rounded_bounds(n, b);
    let q = rounded(n, b);
    if q >= 1 {
        assert(q * (2 * a) <= 2 * n + a) by (nonlinear_arith)
            requires
                q >= 1,
                0 < a <= b,
                q * (2 * b) <= 2 * n + b,
        ;
        lemma_product_within(q, 2 * a, 2 * n + a);
    }
}

/// Two roots nearest to the same ratio are one.
pub proof fn lemma_nearest_root_unique(a: int, b: int, n: int, d: int)
    requires
        d > 0,
        is_nearest_root(a, n, d),
        is_nearest_root(b, n, d),
    ensures
        a == b,
{
    if a < b {
        lemma_root_gap(a, b, d);
    }
    if b < a {
        lemma_root_gap(b, a, d);
    }
}

proof fn lemma_root_gap(a: int, b: int, d: int)
    requires
        d > 0,
        0 <= a < b,
    ensures
        (2 * a + 1) * (2 * a + 1) * d <= (2 * b - 1) * (2 * b - 1) * d,
{
    assert((2 * a + 1) * (2 * a + 1) <= (2 * b - 1) * (2 * b - 1)) by (nonlinear_arith)
        requires
            0 <= a < b,
    ;
    mul::lemma_mul_inequality((2 * a + 1) * (2 * a + 1), (2 * b - 1) * (2 * b - 1), d);
}

/// The nearest root is the one that was found.
pub proof fn lemma_nearest_root_is(r: int, n: int, d: int)
    requires
        d > 0,
        is_nearest_root(r, n, d),
    ensures
        nearest_root(n, d) == r,
{
    lemma_nearest_root_unique(nearest_root(n, d), r, n, d);
}

/// There is a nearest root, below any that is already too large.
proof fn lemma_root_below(r: int, n: int, d: int)
    requires
        d > 0,
        n >= 0,
        r >= 0,
        4 * n < (2 * r + 1) * (2 * r + 1) * d,
    ensures
        exists|s: int| s <= r && is_nearest_root(s, n, d),
    decreases r,
{
    if r == 0 || (2 * r - 1) * (2 * r - 1) * d <= 4 * n {
        assert(r <= r && is_nearest_root(r, n, d));
    } else {
        assert(2 * (r - 1) + 1 == 2 * r - 1);
        lemma_root_below(r - 1, n, d);
    }
}

/// The nearest root is what its name says, and stays at or below any integer
/// whose upper half-way point is already past the ratio.
pub proof fn lemma_nearest_root(n: int, d: int, bound: int)
    requires
        d > 0,
        n >= 0,
        bound >= 0,
        4 * n < (2 * bound + 1) * (2 * bound + 1) * d,
    ensures
        is_nearest_root(nearest_root(n, d), n, d),
        0 <= nearest_root(n, d) <= bound,
{
    lemma_root_below(bound, n, d);
    let s = choose|s: int| s <= bound && is_nearest_root(s, n, d);
    lemma_nearest_root_is(s, n, d);
}

/// A larger ratio has no smaller a root.
pub proof fn lemma_nearest_root_monotone(a: int, b: int, d: int)
    requires
        d > 0,
        a <= b,
        is_nearest_root(nearest_root(a, d), a, d),
        is_nearest_root(nearest_root(b, d), b, d),
    ensures
        nearest_root(a, d) <= nearest_root(b, d),
{
    if nearest_root(a, d) > nearest_root(b, d) {
        lemma_root_gap(nearest_root(b, d), nearest_root(a, d), d);
    }
}

/// Whether `a` copies of `b` stay within `n` is a question about the quotient.
pub proof fn lemma_product_within(a: int, b: int, n: int)
    requires
        b > 0,
    ensures
        (a * b <= n) == (a <= n / b),
{
    div_mod::lemma_fundamental_div_mod(n, b);
    let q = n / b;
    mul::lemma_mul_is_commutative(b, q);
    if a <= q {
        mul::lemma_mul_inequality(a, q, b);
    } else {
        mul::lemma_mul_inequality(q + 1, a, b);
        assert((q + 1) * b == q * b + b) by (nonlinear_arith);
    }
}

/// `n / d` to the nearest integer, a half rounding up.
pub fn div_round(n: u128, d: u128) -> (r: u128)
    requires
        d > 0,
        n < u128::MAX,
    ensures
        r == rounded(n as int, d as int),
{
    let q: u128 = n / d;
    let rem: u128 = n % d;
    proof {
        div_mod::lemma_fundamental_div_mod(n as int, d as int);
        mul::lemma_mul_is_commutative(d as int, q as int);
        lemma_rounded_parts(n as int, d as int, q as int, rem as int);
        if d == 1 {
            assert(rem == 0);
        } else {
            mul::lemma_mul_inequality(2, d as int, q as int);
        }
    }
    if rem >= d - rem {
        q + 1
    } else {
        q
    }
}

/// Quotient and remainder of a product that need not fit in a machine word,
/// by doubling: each bit of `a` doubles what is there and may add `t` to it.
pub fn mul_div(a: u64, t: u128, m: u128) -> (r: (u64, u128))
    requires
        t <= m,
        0 < m,
    ensures
        a as int * t as int == r.0 as int * m as int + r.1 as int,
        r.1 < m,
    decreases a,
{
    if a == 0 {
        assert(0 * t as int == 0 && 0 * m as int == 0);
        return (0, 0);
    }
    let (q, rem) = mul_div(a / 2, t, m);
    let odd: bool = a % 2 == 1;
    let carry1: u64 = if rem >= m - rem {
        1
    } else {
        0
    };
    let doubled: u128 = if rem >= m - rem {
        rem - (m - rem)
    } else {
        rem + rem
    };
    let carry2: u64 = if odd && doubled >= m - t {
        1
    } else {
        0
    };
    let rest: u128 = if !odd {
        doubled
    } else if doubled >= m - t {
        doubled - (m - t)
    } else {
        doubled + t
    };
    let ghost bit: int = if odd {
        1
    } else {
        0
    };
    let ghost total = 2 * q + carry1 + carry2;
    proof {
        lemma_doubling_step(
            a as int,
            (a / 2) as int,
            bit,
            t as int,
            m as int,
            q as int,
            rem as int,
            carry1 as int,
            carry2 as int,
            rest as int,
        );
        assert(a as int * t as int <= a as int * m as int) by (nonlinear_arith)
            requires
                t <= m,
        ;
        if total > a as int {
            mul::lemma_mul_inequality(a as int + 1, total, m as int);
            assert((a as int + 1) * m as int == a as int * m as int + m as int) by (nonlinear_arith);
        }
    }
    (2 * q + carry1 + carry2, rest)
}

proof fn lemma_doubling_step(
    a: int,
    half: int,
    bit: int,
    t: int,
    m: int,
    q: int,
    rem: int,
    carry1: int,
    carry2: int,
    rest: int,
)
    requires
        a == 2 * half + bit,
        bit == 0 || bit == 1,
        half * t == q * m + rem,
        carry1 == 0 || carry1 == 1,
        carry2 == 0 || carry2 == 1,
        rest == 2 * rem - (if carry1 == 1 {
            m
        } else {
            0
        }) + (if bit == 1 {
            t
        } else {
            0
        }) - (if carry2 == 1 {
            m
        } else {
            0
        }),
    ensures
        a * t == (2 * q + carry1 + carry2) * m + rest,
{
    assert(a * t == 2 * (half * t) + bit * t) by (nonlinear_arith)
        requires
            a == 2 * half + bit,
    ;
    assert((2 * q + carry1 + carry2) * m == 2 * (q * m) + carry1 * m + carry2 * m)
        by (nonlinear_arith);
    assert(bit * t == if bit == 1 {
        t
    } else {
        0
    });
    assert(carry1 * m == if carry1 == 1 {
        m
    } else {
        0
    });
    assert(carry2 * m == if carry2 == 1 {
        m
    } else {
        0
    });
}

/// `a * t / m` to the nearest integer, a half rounding up.
pub fn mul_div_round(a: u64, t: u128, m: u128) -> (r: u64)
    requires
        t <= m,
        0 < m,
    ensures
        r as int == rounded(a as int * t as int, m as int),
{
    let (q, rem) = mul_div(a, t, m);
    proof {
        lemma_rounded_parts(a as int * t as int, m as int, q as int, rem as int);
        if q >= a && rem > 0 {
            assert(a as int * t as int <= a as int * m as int) by (nonlinear_arith)
                requires
                    t <= m,
            ;
            mul::lemma_mul_inequality(a as int, q as int, m as int);
        }
    }
    if rem >= m - rem {
        q + 1
    } else {
        q
    }
}

/// The integer nearest to the square root of `n / d`, found by halving an
/// interval that starts at `0..=hi`.
pub fn root_round(n: u64, d: u64, hi: u32) -> (r: u32)
    requires
        d > 0,
        d <= 0x7fff_ffff,
        n <= 0x3fff_ffff_ffff_ffff,
        hi <= 0x7fff_ffff,
        4 * n < (2 * hi + 1) * (2 * hi + 1) * d,
    ensures
        r as int == nearest_root(n as int, d as int),
        is_nearest_root(r as int, n as int, d as int),
        r <= hi,
{
    let mut lo: u32 = 0;
    let mut top: u32 = hi;
    while lo < top
        invariant
            lo <= top <= hi <= 0x7fff_ffff,
            0 < d <= 0x7fff_ffff,
            n <= 0x3fff_ffff_ffff_ffff,
            lo > 0 ==> (2 * lo - 1) * (2 * lo - 1) * d <= 4 * n,
            4 * n < (2 * top + 1) * (2 * top + 1) * d,
        decreases top - lo,
    {
        let mid: u32 = lo + (top - lo) / 2;
        let side: u128 = 2 * (mid as u128) + 1;
        proof {
            lemma_square_fits(side as int, d as int);
        }
        if 4 * (n as u128) < side * side * (d as u128) {
            top = mid;
        } else {
            lo = mid + 1;
        }
    }
    proof {
        lemma_nearest_root_is(lo as int, n as int, d as int);
    }
    lo
}

proof fn lemma_square_fits(s: int, d: int)
    requires
        0 <= s <= 0xffff_ffff,
        0 <= d <= 0x7fff_ffff,
    ensures
        0 <= s * s <= 0xffff_ffff * 0xffff_ffff,
        0 <= s * s * d <= 0xffff_ffff * 0xffff_ffff * 0x7fff_ffff,
{
    assert(0 <= s * s <= 0xffff_ffff * 0xffff_ffff) by (nonlinear_arith)
        requires
            0 <= s <= 0xffff_ffff,
    ;
    let q = s * s;
    assert(0 <= q * d <= 0xffff_ffff * 0xffff_ffff * 0x7fff_ffff) by (nonlinear_arith)
        requires
            0 <= q <= 0xffff_ffff * 0xffff_ffff,
            0 <= d <= 0x7fff_ffff,
    ;
}

} // verus!
