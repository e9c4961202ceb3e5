//! Numbers as text: decimals, and sizes in megabytes.

use crate::arith;
use vstd::arithmetic::power2;
use vstd::prelude::*;

verus! {

/// The character of one decimal digit.
pub open spec fn digit_char(d: int) -> char {
    (48 + d) as char
}

/// A natural number in decimal, without leading zeros.
pub open spec fn digits(n: int) -> Seq<char>
    decreases n,
{
    if n < 10 {
        seq![digit_char(n)]
    } else {
        digits(n / 10).push(digit_char(n % 10))
    }
}

/// An integer in decimal, with a sign where it is negative.
pub open spec fn decimal(i: int) -> Seq<char> {
    if i < 0 {
        seq!['-'] + digits(-i)
    } else {
        digits(i)
    }
}

fn digit_text(d: u128) -> (r: &'static str)
    requires
        d < 10,
    ensures
        r@ == seq![digit_char(d as int)],
{
    proof {
        reveal_strlit("0");
        reveal_strlit("1");
        reveal_strlit("2");
        reveal_strlit("3");
        reveal_strlit("4");
        reveal_strlit("5");
        reveal_strlit("6");
        reveal_strlit("7");
        reveal_strlit("8");
        reveal_strlit("9");
    }
    match d {
        0 => "0",
        1 => "1",
        2 => "2",
        3 => "3",
        4 => "4",
        5 => "5",
        6 => "6",
        7 => "7",
        8 => "8",
        _ => "9",
    }
}

/// Append a natural number in decimal.
pub fn push_number(s: &mut String, n: u128)
    ensures
        final(s)@ == old(s)@ + digits(n as int),
    decreases n,
{
    if n >= 10 {
        push_number(s, n / 10);
    }
    s.append(digit_text(n % 10));
}

/// Append an integer in decimal.
pub fn push_decimal(s: &mut String, i: i64)
    ensures
        final(s)@ == old(s)@ + decimal(i as int),
{
    if i < 0 {
        proof {
            reveal_strlit("-");
        }
        s.append("-");
        push_number(s, (-(i as i128)) as u128);
        assert(s@ =~= old(s)@ + decimal(i as int));
    } else {
        push_number(s, i as u128);
    }
}

// ---- sizes ----

/// The unit in the last place of `n` as a double: the least power of two, from
/// `unit` up, of which `n` holds less than 2^53.
pub open spec fn integer_unit(n: int, unit: int) -> int
    decreases n - unit,
{
    if unit <= 0 || n < 0x20_0000_0000_0000 * unit {
        unit
    } else {
        integer_unit(n, 2 * unit)
    }
}

/// The double nearest to a natural number, which is again a natural number.
pub open spec fn nearest_double(n: int) -> int {
    let unit = integer_unit(n, 1);
    arith::rounded_even(n, unit) * unit
}

/// How many binary places `n / d` has as a double: the least count, from
/// `places` up, that leaves at least 2^52 above the point's last place.
pub open spec fn binary_places(n: int, d: int, places: nat) -> nat
    decreases 0x20_0000_0000_0000 * d - n * power2::pow2(places),
    when n > 0
{
    if n * power2::pow2(places) >= 0x10_0000_0000_0000 * d {
        places
    } else {
        proof {
            power2::lemma_pow2_unfold((places + 1) as nat);
            power2::lemma_pow2_pos(places);
            assert(n * power2::pow2((places + 1) as nat) == 2 * (n * power2::pow2(places)))
                by (nonlinear_arith)
                requires
                    power2::pow2((places + 1) as nat) == 2 * power2::pow2(places),
            ;
            assert(n * power2::pow2(places) > 0) by (nonlinear_arith)
                requires
                    n > 0,
                    power2::pow2(places) > 0,
            ;
        }
        binary_places(n, d, places + 1)
    }
}

/// Tenths of a megabyte in a byte count: the count and its quotient by a
/// million are doubles, and the exact value of that quotient is brought to one
/// decimal, a tie going to the even digit.
pub open spec fn megabyte_tenths(bytes: int) -> int {
    let n = nearest_double(bytes);
    if n == 0 {
        0
    } else {
        let places = binary_places(n, 1_000_000, 0);
        let mantissa = arith::rounded_even(n * power2::pow2(places), 1_000_000);
        arith::rounded_even(10 * mantissa, power2::pow2(places) as int)
    }
}

/// A byte count in megabytes with one decimal.
pub open spec fn mb_text(bytes: int) -> Seq<char> {
    let tenths = megabyte_tenths(bytes);
    digits(tenths / 10) + "."@ + digits(tenths % 10) + " MB"@
}

/// `n / d` to the nearest integer, a half rounding to the even neighbour.
pub fn div_even(n: u128, d: u128) -> (r: u128)
    requires
        0 < d,
        n < u128::MAX,
    ensures
        r == arith::rounded_even(n as int, d as int),
        r <= n,
{
    let q: u128 = n / d;
    let rem: u128 = n % d;
    proof {
        vstd::arithmetic::div_mod::lemma_fundamental_div_mod(n as int, d as int);
        assert(q + rem <= n) by (nonlinear_arith)
            requires
                n == d * q + rem,
                d >= 1,
                q >= 0,
        ;
    }
    if rem < d - rem || (rem == d - rem && q % 2 == 0) {
        q
    } else {
        q + 1
    }
}

fn to_double(n: u64) -> (r: u128)
    ensures
        r == nearest_double(n as int),
        r <= 0x2_0000_0000_0000_0000,
        (r == 0) == (n == 0),
{
    let mut unit: u128 = 1;
    while n as u128 >= 0x20_0000_0000_0000 * unit
        invariant
            1 <= unit <= 4096,
            integer_unit(n as int, unit as int) == integer_unit(n as int, 1),
            unit > 1 ==> n >= 0x10_0000_0000_0000 * unit,
        decreases 8192 - unit,
    {
        unit = 2 * unit;
    }
    let m: u128 = div_even(n as u128, unit);
    proof {
        let q = n as int / unit as int;
        vstd::arithmetic::div_mod::lemma_fundamental_div_mod(n as int, unit as int);
        assert(q < 0x20_0000_0000_0000) by (nonlinear_arith)
            requires
                n == unit * q + n as int % unit as int,
                0 <= n as int % unit as int,
                n < 0x20_0000_0000_0000 * unit,
                unit > 0,
        ;
        assert(unit > 1 ==> q >= 0x10_0000_0000_0000) by (nonlinear_arith)
            requires
                n == unit * q + n as int % unit as int,
                (n as int % unit as int) < (unit as int),
                unit > 1 ==> n >= 0x10_0000_0000_0000 * unit,
                unit > 0,
        ;
        assert(m * unit <= 0x20_0000_0000_0000 * 4096) by (nonlinear_arith)
            requires
                m <= 0x20_0000_0000_0000,
                unit <= 4096,
        ;
        assert(m > 0 ==> m * unit > 0) by (nonlinear_arith)
            requires
                unit > 0,
        ;
        assert(m == 0 ==> m * unit == 0);
    }
    m * unit
}

fn tenths_of_megabytes(bytes: u64) -> (r: u128)
    ensures
        r == megabyte_tenths(bytes as int),
{
    let n: u128 = to_double(bytes);
    if n == 0 {
        return 0;
    }
    let mut x: u128 = n;
    let mut scale: u128 = 1;
    let ghost mut places: nat = 0;
    proof {
        power2::lemma2_to64();
        assert(n * power2::pow2(0) == n);
    }
    while x < 0x10_0000_0000_0000 * 1_000_000
        invariant
            n > 0,
            x < 0x20_0000_0000_0000 * 1_000_000,
            1 <= scale <= x,
            scale == power2::pow2(places),
            x == n * power2::pow2(places),
            binary_places(n as int, 1_000_000, places) == binary_places(n as int, 1_000_000, 0),
        decreases 0x20_0000_0000_0000 * 1_000_000 - x,
    {
        proof {
            power2::lemma_pow2_unfold((places + 1) as nat);
            assert(n * power2::pow2((places + 1) as nat) == 2 * (n * power2::pow2(places)))
                by (nonlinear_arith)
                requires
                    power2::pow2((places + 1) as nat) == 2 * power2::pow2(places),
            ;
            places = places + 1;
        }
        x = 2 * x;
        scale = 2 * scale;
    }
    let mantissa: u128 = div_even(x, 1_000_000);
    div_even(10 * mantissa, scale)
}

/// A byte count in megabytes with one decimal.
pub fn mb(bytes: u64) -> (r: String)
    ensures
        r@ == mb_text(bytes as int),
{
    let tenths: u128 = tenths_of_megabytes(bytes);
    let mut s = String::new();
    push_number(&mut s, tenths / 10);
    s.append(".");
    push_number(&mut s, tenths % 10);
    s.append(" MB");
    assert(s@ =~= mb_text(bytes as int));
    s
}

// ---- laws ----

/// The number that a row of decimal digits stands for.
pub open spec fn value_of(s: Seq<char>) -> int
    decreases s.len(),
{
    if s.len() == 0 {
        0
    } else {
        10 * value_of(s.drop_last()) + (s.last() as int - '0' as int)
    }
}

/// Digits stand for their number: reading them back gives it, they are digits,
/// and none is put in front that adds nothing.
pub proof fn law_digits_read_back(n: int)
    requires
        n >= 0,
    ensures
        value_of(digits(n)) == n,
        digits(n).len() > 0,
        forall|i: int| 0 <= i < digits(n).len() ==> '0' <= #[trigger] digits(n)[i] <= '9',
        digits(n).len() > 1 ==> digits(n)[0] != '0',
    decreases n,
{
    reveal_with_fuel(value_of, 2);
    let s = digits(n);
    if n < 10 {
        assert(s.drop_last() =~= Seq::<char>::empty());
        assert(s.last() == digit_char(n));
    } else {
        law_digits_read_back(n / 10);
        let before = digits(n / 10);
        assert(s.drop_last() =~= before);
        assert(s.last() == digit_char(n % 10));
        assert(s[0] == before[0]);
        if before.len() == 1 && before[0] == '0' {
            assert(before.drop_last() =~= Seq::<char>::empty());
            assert(before.last() == '0');
            assert(value_of(before) == 0);
        }
        assert forall|i: int| 0 <= i < s.len() implies '0' <= #[trigger] s[i] <= '9' by {
            if i < before.len() {
                assert(s[i] == before[i]);
            }
        }
    }
}

/// An integer is written as its digits, behind a minus where it is negative.
pub proof fn law_decimals_read_back(i: int)
    ensures
        i >= 0 ==> value_of(decimal(i)) == i && decimal(i).len() > 0 && decimal(i)[0] != '-',
        i < 0 ==> {
            &&& decimal(i).len() > 1
            &&& decimal(i)[0] == '-'
            &&& value_of(decimal(i).subrange(1, decimal(i).len() as int)) == -i
        },
        i >= 0 ==> decimal(i) == digits(i),
        i < 0 ==> decimal(i) == seq!['-'] + digits(-i),
{
    if i >= 0 {
        law_digits_read_back(i);
    } else {
        law_digits_read_back(-i);
        assert(decimal(i).subrange(1, decimal(i).len() as int) =~= digits(-i));
    }
}

/// A size is shown in megabytes to the nearest tenth: what stands before and
/// behind the point is the whole part and the tenth of a number of tenths that
/// is at most half a tenth off. (Sizes past 2^53 bytes are first brought to a
/// double, and may be further off.)
pub proof fn law_sizes_are_to_the_nearest_tenth(bytes: int) -> (tenths: int)
    requires
        0 <= bytes < 0x20_0000_0000_0000,
    ensures
        tenths >= 0,
        mb_text(bytes) == digits(tenths / 10) + "."@ + digits(tenths % 10) + " MB"@,
        -50_000 <= 100_000 * tenths - bytes <= 50_000,
{
    let t = megabyte_tenths(bytes);
    lemma_even_bounds(bytes, 1);
    assert(nearest_double(bytes) == bytes);
    if bytes > 0 {
        let places = binary_places(bytes, 1_000_000, 0);
        let p = power2::pow2(places) as int;
        power2::lemma_pow2_pos(places);
        lemma_enough_places(bytes, 1_000_000, 0);
        let m = arith::rounded_even(bytes * p, 1_000_000);
        assert(bytes * p >= 0) by (nonlinear_arith)
            requires
                bytes > 0,
                p > 0,
        ;
        lemma_even_bounds(bytes * p, 1_000_000);
        lemma_even_bounds(10 * m, p);
        assert(p > 500_000) by (nonlinear_arith)
            requires
                bytes * p >= 0x10_0000_0000_0000 * 1_000_000,
                0 < bytes < 0x20_0000_0000_0000,
                p > 0,
        ;
        // In units of 1 / (2p): t within 1/2 of 10m/p, m within 1/2 of bytes * p / 10^6.
        let off = 200_000 * t - 2 * bytes;
        assert(off * p == 200_000 * (t * p) - 2 * (bytes * p)) by (nonlinear_arith)
            requires
                off == 200_000 * t - 2 * bytes,
        ;
        assert(-100_000 * p - 1_000_000 <= off * p <= 100_000 * p + 1_000_000);
        assert(off < 100_002) by (nonlinear_arith)
            requires
                off * p <= 100_000 * p + 1_000_000,
                p > 500_000,
        ;
        assert(off > -100_002) by (nonlinear_arith)
            requires
                off * p >= -100_000 * p - 1_000_000,
                p > 500_000,
        ;
    }
    t
}

/// A nearest integer is at most half off.
pub proof fn lemma_even_bounds(n: int, d: int)
    requires
        n >= 0,
        d > 0,
    ensures
        arith::rounded_even(n, d) >= 0,
        2 * n - d <= 2 * (arith::rounded_even(n, d) * d) <= 2 * n + d,
        d == 1 ==> arith::rounded_even(n, d) == n,
{
    let q = n / d;
    vstd::arithmetic::div_mod::lemma_fundamental_div_mod(n, d);
    vstd::arithmetic::div_mod::lemma_div_pos_is_pos(n, d);
    assert((q + 1) * d == d * q + d && q * d == d * q) by (nonlinear_arith);
}

proof fn lemma_enough_places(n: int, d: int, places: nat)
    requires
        n > 0,
        d > 0,
    ensures
        n * power2::pow2(binary_places(n, d, places)) >= 0x10_0000_0000_0000 * d,
    decreases 0x20_0000_0000_0000 * d - n * power2::pow2(places),
{
    if n * power2::pow2(places) < 0x10_0000_0000_0000 * d {
        power2::lemma_pow2_unfold((places + 1) as nat);
        power2::lemma_pow2_pos(places);
        assert(n * power2::pow2((places + 1) as nat) == 2 * (n * power2::pow2(places)))
            by (nonlinear_arith)
            requires
                power2::pow2((places + 1) as nat) == 2 * power2::pow2(places),
        ;
        assert(n * power2::pow2(places) > 0) by (nonlinear_arith)
            requires
                n > 0,
                power2::pow2(places) > 0,
        ;
        lemma_enough_places(n, d, places + 1);
    }
}

} // verus!
