//! What double precision floating point makes of exact numbers.
//!
//! A binary64 number has 53 significant bits. Sums, differences and quotients of such numbers are
//! rounded to the nearest one, to the even one of two equally near ones. Here they are integers in
//! a unit small enough that none of the numbers at hand needs a fraction of it.

use vstd::arithmetic::power::*;
use vstd::arithmetic::power2::*;
use vstd::prelude::*;

verus! {

/// The integer nearest to `a / b`, the even one of two equally near ones.
pub open spec fn half_even(a: nat, b: nat) -> nat {
    let q = a / b;
    let twice = 2 * (a % b);
    if twice < b || (twice == b && q % 2 == 0) {
        q
    } else {
        q + 1
    }
}

/// Times that `num` is doubled until `num / den` has a binary64 significand's integer part.
pub open spec fn scale_up(num: nat, den: nat) -> nat
    decreases 0x20_0000_0000_0000 * den - num,
{
    if num == 0 || num >= 0x10_0000_0000_0000 * den {
        0
    } else {
        1 + scale_up(2 * num, den)
    }
}

/// Times that `den` is doubled until `num / den` is below the significand's limit.
pub open spec fn scale_down(num: nat, den: nat) -> nat
    decreases num - den,
{
    if den == 0 || num < 0x20_0000_0000_0000 * den {
        0
    } else {
        1 + scale_down(num, 2 * den)
    }
}

/// The significand of the binary64 number nearest to `num / den`, whose value is
/// `significand * pow2(scale_down(num, den)) / pow2(scale_up(num, den))`.
pub open spec fn significand(num: nat, den: nat) -> nat {
    half_even(num * pow2(scale_up(num, den)), den * pow2(scale_down(num, den)))
}

/// The binary64 number nearest to `num / den`, among those that are whole.
pub open spec fn nearest_whole(num: nat, den: nat) -> nat {
    let unit = pow2(scale_down(num, den));
    half_even(num, den * unit) * unit
}

pub open spec fn magnitude(num: int) -> nat {
    if num < 0 {
        (-num) as nat
    } else {
        num as nat
    }
}

/// `size` with the sign of `x`.
pub open spec fn with_sign(x: int, size: nat) -> int {
    if x < 0 {
        -(size as int)
    } else {
        size as int
    }
}

/// The binary64 number nearest to an integer: what is left of an exact sum or difference.
pub open spec fn rounded(x: int) -> int {
    with_sign(x, nearest_whole(magnitude(x), 1))
}

/// The binary64 number nearest to `x * num / den`, among those that are whole.
pub open spec fn rounded_ratio(x: int, num: nat, den: nat) -> int {
    with_sign(x, nearest_whole(magnitude(x) * num, den))
}

pub(crate) fn half_even_u128(a: u128, b: u128) -> (r: u128)
    requires
        b > 0,
        a < u128::MAX,
    ensures
        r == half_even(a as nat, b as nat),
{
    let q: u128 = a / b;
    let rest: u128 = a % b;
    if rest < b - rest || (rest == b - rest && q % 2 == 0) {
        q
    } else {
        assert(q < a + 1) by (nonlinear_arith)
            requires
                q == a / b,
                b > 0,
        ;
        q + 1
    }
}

/// The binary64 number nearest to `num / den`: its significand, `pow2` of `scale_down` and `pow2`
/// of `scale_up`.
pub(crate) fn nearest(num: u128, den: u64) -> (r: (u128, u128, u128))
    requires
        den > 0,
        num <= 0x1_0000_0000_0000_0000,
    ensures
        r.0 == significand(num as nat, den as nat),
        r.1 == pow2(scale_down(num as nat, den as nat)),
        r.2 == pow2(scale_up(num as nat, den as nat)),
        r.0 <= 0x20_0000_0000_0000,
        0 < r.1 <= 0x1_0000,
        0 < r.2 <= 0x20_0000_0000_0000_0000_0000_0000_0000,
{
    let mut a: u128 = num;
    let mut b: u128 = den as u128;
    let mut up: u128 = 1;
    let mut down: u128 = 1;
    let ghost mut k: nat = 0;
    let ghost mut l: nat = 0;
    proof {
        lemma_pow2(0);
        lemma_pow0(2);
    }
    while a != 0 && a < 0x10_0000_0000_0000 * b
        invariant
            0 < den,
            b == den,
            up == pow2(k),
            a == num * up,
            up <= a || k == 0,
            0 < up,
            a < 0x20_0000_0000_0000 * b || k == 0,
            scale_up(num as nat, den as nat) == k + scale_up(a as nat, den as nat),
        decreases 0x20_0000_0000_0000 * b - a,
    {
        proof {
            lemma_pow2_unfold(k + 1);
            assert(up <= a) by (nonlinear_arith)
                requires
                    a == num * up,
                    a != 0,
                    0 < up,
                    0 <= num,
            ;
            k = k + 1;
            assert(2 * a == num * (2 * up)) by (nonlinear_arith)
                requires
                    a == num * up,
            ;
        }
        a = 2 * a;
        up = 2 * up;
    }
    assert(k == 0 ==> up == 1) by {
        lemma_pow2(0);
        lemma_pow0(2);
    }
    assert(up <= 0x20_0000_0000_0000_0000_0000_0000_0000);
    while a >= 0x20_0000_0000_0000 * b
        invariant
            0 < down,
            down == pow2(l),
            b == den * down,
            down <= b,
            b <= 0x1_0000 || l == 0,
            a <= 0x1_0000_0000_0000_0000 || a < 0x20_0000_0000_0000 * b,
            b < 0x1_0000_0000_0000_0000,
            scale_down(num as nat, den as nat) == l + scale_down(a as nat, b as nat),
        decreases a - b,
    {
        proof {
            lemma_pow2_unfold(l + 1);
            l = l + 1;
            assert(2 * b == den * (2 * down)) by (nonlinear_arith)
                requires
                    b == den * down,
            ;
        }
        b = 2 * b;
        down = 2 * down;
    }
    assert(l == 0 ==> down == 1) by {
        lemma_pow2(0);
        lemma_pow0(2);
    }
    assert(a / b < 0x20_0000_0000_0000) by (nonlinear_arith)
        requires
            a < 0x20_0000_0000_0000 * b,
            b > 0,
    ;
    (half_even_u128(a, b), down, up)
}

/// The binary64 number nearest to `(q * den + r) / den`, among those that are whole.
fn round_mixed(q: u128, r: u128, den: u128) -> (n: u128)
    requires
        r < den <= 0x20_0000_0000_0000,
        q < 0x1000_0000_0000_0000_0000_0000_0000_0000,
    ensures
        n == nearest_whole((q * den + r) as nat, den as nat),
        n <= 0x2000_0000_0000_0000_0000_0000_0000_0000,
{
    let mut unit: u128 = 1;
    let ghost mut k: nat = 0;
    let ghost num: nat = (q * den + r) as nat;
    proof {
        lemma_pow2(0);
        lemma_pow0(2);
    }
    while q / 0x20_0000_0000_0000 >= unit
        invariant
            q < 0x1000_0000_0000_0000_0000_0000_0000_0000,
            r < den,
            num == q * den + r,
            0 < unit <= 0x100_0000_0000_0000_0000,
            unit == pow2(k),
            scale_down(num, den as nat) == k + scale_down(num, den as nat * unit as nat),
        decreases 0x200_0000_0000_0000_0000 - unit,
    {
        proof {
            lemma_pow2_unfold(k + 1);
            k = k + 1;
            assert(num >= 0x20_0000_0000_0000 * (den as nat * unit as nat)) by (nonlinear_arith)
                requires
                    num == q * den + r,
                    r >= 0,
                    q >= 0x20_0000_0000_0000 * unit,
                    den >= 0,
            ;
            assert(den as nat * (2 * unit) as nat == 2 * (den as nat * unit as nat))
                by (nonlinear_arith);
            assert(den as nat * unit as nat > 0) by (nonlinear_arith)
                requires
                    den > 0,
                    unit > 0,
            ;
        }
        unit = 2 * unit;
    }
    let h: u128 = q / unit;
    let l: u128 = q % unit;
    proof {
        assert(num < 0x20_0000_0000_0000 * (den as nat * unit as nat)) by (nonlinear_arith)
            requires
                num == q * den + r,
                r < den,
                q + 1 <= 0x20_0000_0000_0000 * unit,
                den >= 0,
        ;
        assert(den as nat * unit as nat > 0) by (nonlinear_arith)
            requires
                den > 0,
                unit > 0,
        ;
        vstd::arithmetic::div_mod::lemma_fundamental_div_mod(q as int, unit as int);
        assert(num == (den * unit) * h + (l * den + r) && 0 <= l * den + r < den * unit)
            by (nonlinear_arith)
            requires
                num == q * den + r,
                q == unit * h + l,
                0 <= l < unit,
                0 <= r < den,
        ;
        vstd::arithmetic::div_mod::lemma_fundamental_div_mod_converse(
            num as int,
            (den * unit) as int,
            h as int,
            (l * den + r) as int,
        );
        assert(den * unit <= 0x20_0000_0000_0000 * 0x100_0000_0000_0000_0000) by (nonlinear_arith)
            requires
                0 <= den <= 0x20_0000_0000_0000,
                0 <= unit <= 0x100_0000_0000_0000_0000,
        ;
        assert(h < 0x20_0000_0000_0000) by (nonlinear_arith)
            requires
                q == unit * h + l,
                0 <= l,
                q < 0x20_0000_0000_0000 * unit,
                unit > 0,
        ;
        assert((h + 1) * unit <= 0x20_0000_0000_0000 * 0x100_0000_0000_0000_0000)
            by (nonlinear_arith)
            requires
                0 <= h < 0x20_0000_0000_0000,
                0 <= unit <= 0x100_0000_0000_0000_0000,
        ;
        assert(h * unit <= (h + 1) * unit) by (nonlinear_arith)
            requires
                0 <= unit,
        ;
        assert(0 <= l * den) by (nonlinear_arith)
            requires
                0 <= l,
                0 <= den,
        ;
    }
    let whole: u128 = den * unit;
    let rest: u128 = l * den + r;
    if rest < whole - rest || (rest == whole - rest && h % 2 == 0) {
        h * unit
    } else {
        (h + 1) * unit
    }
}

pub(crate) fn magnitude_i128(x: i128) -> (r: u128)
    ensures
        r == magnitude(x as int),
{
    if x >= 0 {
        x as u128
    } else if x == i128::MIN {
        0x8000_0000_0000_0000_0000_0000_0000_0000
    } else {
        (-x) as u128
    }
}

/// The binary64 number nearest to an integer.
pub fn round(x: i128) -> (r: i128)
    requires
        -0x1000_0000_0000_0000_0000_0000_0000_0000 < x
            < 0x1000_0000_0000_0000_0000_0000_0000_0000,
    ensures
        r == rounded(x as int),
{
    let size: u128 = round_mixed(magnitude_i128(x), 0, 1);
    if x < 0 {
        -(size as i128)
    } else {
        size as i128
    }
}

/// The binary64 number nearest to `x * num / den`, among those that are whole.
pub fn round_ratio(x: i128, num: u64, den: u64) -> (r: i128)
    requires
        -0x400_0000_0000_0000_0000_0000_0000_0000 < x < 0x400_0000_0000_0000_0000_0000_0000_0000,
        0 < num <= den <= 0x20_0000_0000_0000,
    ensures
        r == rounded_ratio(x as int, num as nat, den as nat),
{
    let size: u128 = magnitude_i128(x);
    let n: u128 = num as u128;
    let d: u128 = den as u128;
    let q: u128 = size / d;
    let r: u128 = size % d;
    proof {
        vstd::arithmetic::div_mod::lemma_fundamental_div_mod(size as int, d as int);
        assert(r * n <= 0x20_0000_0000_0000 * 0x20_0000_0000_0000) by (nonlinear_arith)
            requires
                0 <= r < d <= 0x20_0000_0000_0000,
                0 < n <= d,
        ;
        assert(q * n <= size) by (nonlinear_arith)
            requires
                size == d * q + r,
                0 <= r,
                0 <= q,
                0 < n <= d,
        ;
        assert(0 <= q * n && 0 <= r * n) by (nonlinear_arith)
            requires
                0 <= q,
                0 <= r,
                0 < n,
        ;
    }
    let rn: u128 = r * n;
    proof {
        vstd::arithmetic::div_mod::lemma_fundamental_div_mod(rn as int, d as int);
        assert((q * n + rn / d) * d + rn % d == size * n) by (nonlinear_arith)
            requires
                size == d * q + r,
                rn == r * n,
                rn == d * (rn as int / d as int) + rn as int % d as int,
        ;
    }
    let all: u128 = round_mixed(q * n + rn / d, rn % d, d);
    if x < 0 {
        -(all as i128)
    } else {
        all as i128
    }
}

/// Rounding is off by half a unit at most, and where it is off by that, the result is even.
pub proof fn law_half_even_is_nearest(a: nat, b: nat)
    requires
        b > 0,
    ensures
        -(b as int) <= 2 * (half_even(a, b) * b - a) <= b,
        2 * (half_even(a, b) * b - a) == b || 2 * (half_even(a, b) * b - a) == -(b as int)
            ==> half_even(a, b) % 2 == 0,
{
    vstd::arithmetic::div_mod::lemma_fundamental_div_mod(a as int, b as int);
    let q = (a / b) as int;
    assert((q + 1) * b == q * b + b) by (nonlinear_arith);
    assert(q * b == b * q) by (nonlinear_arith);
}

/// Rounding takes a number to its opposite where it takes the opposite number.
pub proof fn law_rounding_is_odd(x: int)
    ensures
        rounded(-x) == -rounded(x),
{
    law_small_integers_stay(0);
}

/// An integer of 53 bits or fewer is a binary64 number.
pub proof fn law_small_integers_stay(x: int)
    requires
        -0x20_0000_0000_0000 < x < 0x20_0000_0000_0000,
    ensures
        rounded(x) == x,
{
    lemma_pow2(0);
    lemma_pow0(2);
    let n = magnitude(x);
    assert(scale_down(n, 1) == 0);
    assert(half_even(n, 1) == n);
    assert(n * 1 == n);
}

proof fn lemma_scale_down(num: nat, den: nat, e: nat)
    requires
        den > 0,
        num < 0x20_0000_0000_0000 * (den * pow2(e)),
    ensures
        scale_down(num, den) <= e,
    decreases e,
{
    if num >= 0x20_0000_0000_0000 * den {
        if e == 0 {
            lemma_pow2(0);
            lemma_pow0(2);
            assert(den * 1 == den);
        } else {
            lemma_pow2_unfold(e);
            assert(den * (2 * pow2((e - 1) as nat)) == (2 * den) * pow2((e - 1) as nat))
                by (nonlinear_arith);
            lemma_scale_down(num, 2 * den, (e - 1) as nat);
        }
    }
}

/// A rounded integer of `53 + e` bits is off by half of the `e`-th power of two at most.
pub proof fn law_rounding_error(x: int, e: nat)
    requires
        -0x20_0000_0000_0000 * pow2(e) < x < 0x20_0000_0000_0000 * pow2(e),
    ensures
        -(pow2(e) as int) <= 2 * (rounded(x) - x) <= pow2(e),
{
    let n = magnitude(x);
    let k = scale_down(n, 1);
    assert(1 * pow2(e) == pow2(e));
    lemma_scale_down(n, 1, e);
    lemma_pow2_pos(k);
    law_half_even_is_nearest(n, 1 * pow2(k));
    if k < e {
        lemma_pow2_strictly_increases(k, e);
    }
}

pub(crate) proof fn lemma_whole_keeps_limits(num: nat, den: nat, m: nat, e: nat)
    requires
        den > 0,
        m < 0x20_0000_0000_0000,
        num <= den * (m * pow2(e)),
    ensures
        nearest_whole(num, den) <= m * pow2(e),
{
    let k = scale_down(num, den);
    let unit = pow2(k);
    lemma_pow2_pos(e);
    assert(den * (m * pow2(e)) < 0x20_0000_0000_0000 * (den * pow2(e))) by (nonlinear_arith)
        requires
            m < 0x20_0000_0000_0000,
            pow2(e) > 0,
            den > 0,
    ;
    lemma_scale_down(num, den, e);
    lemma_pow2_pos(k);
    lemma_pow2_adds(k, (e - k) as nat);
    let c = m * pow2((e - k) as nat);
    let whole = den * unit;
    assert(m * (unit * pow2((e - k) as nat)) == c * unit) by (nonlinear_arith)
        requires
            c == m * pow2((e - k) as nat),
    ;
    assert(den * (c * unit) == c * whole && whole > 0) by (nonlinear_arith)
        requires
            whole == den * unit,
            den > 0,
            unit > 0,
    ;
    let q = num / whole;
    vstd::arithmetic::div_mod::lemma_fundamental_div_mod(num as int, whole as int);
    assert(q <= c) by (nonlinear_arith)
        requires
            num == whole * q + num as int % whole as int,
            num as int % whole as int >= 0,
            num <= c * whole,
            whole > 0,
    ;
    assert(q == c ==> num as int % whole as int == 0) by (nonlinear_arith)
        requires
            num == whole * q + num as int % whole as int,
            num as int % whole as int >= 0,
            num <= c * whole,
    ;
    assert(half_even(num, whole) <= c);
    assert(half_even(num, whole) * unit <= c * unit) by (nonlinear_arith)
        requires
            half_even(num, whole) <= c,
            unit > 0,
    ;
}

/// Rounding does not take an integer past a binary64 number: one with a significand of 53 bits and
/// a power of two.
pub proof fn law_rounding_keeps_limits(x: int, m: nat, e: nat)
    requires
        m < 0x20_0000_0000_0000,
        -(m * pow2(e)) <= x <= m * pow2(e),
    ensures
        -(m * pow2(e)) <= rounded(x) <= m * pow2(e),
{
    lemma_whole_keeps_limits(magnitude(x), 1, m, e);
}

/// A binary64 number stays what it is: an integer of 53 bits or fewer, times a power of two.
pub proof fn law_binary64_numbers_stay(m: int, e: nat)
    requires
        -0x20_0000_0000_0000 < m < 0x20_0000_0000_0000,
    ensures
        rounded(m * pow2(e)) == m * pow2(e),
{
    let x = m * pow2(e);
    let size = magnitude(m);
    lemma_pow2_pos(e);
    assert(magnitude(x) == size * pow2(e)) by (nonlinear_arith)
        requires
            x == m * pow2(e),
            pow2(e) > 0,
            size == magnitude(m),
    ;
    assert(size * pow2(e) < 0x20_0000_0000_0000 * (1 * pow2(e))) by (nonlinear_arith)
        requires
            size < 0x20_0000_0000_0000,
            pow2(e) > 0,
    ;
    let n = size * pow2(e);
    let k = scale_down(n, 1);
    lemma_scale_down(n, 1, e);
    lemma_pow2_adds(k, (e - k) as nat);
    lemma_pow2_pos(k);
    let c = size * pow2((e - k) as nat);
    assert(size * (pow2(k) * pow2((e - k) as nat)) == c * pow2(k)) by (nonlinear_arith)
        requires
            c == size * pow2((e - k) as nat),
    ;
    vstd::arithmetic::div_mod::lemma_fundamental_div_mod_converse(
        n as int,
        pow2(k) as int,
        c as int,
        0,
    );
    assert(half_even(n, 1 * pow2(k)) == c);
}

proof fn lemma_scaled_down(num: nat, den: nat)
    requires
        den > 0,
    ensures
        num < 0x20_0000_0000_0000 * (den * pow2(scale_down(num, den))),
        scale_down(num, den) > 0 ==> num >= 0x10_0000_0000_0000 * (den * pow2(
            scale_down(num, den),
        )),
    decreases num - den,
{
    lemma_pow2(0);
    lemma_pow0(2);
    assert(den * 1 == den);
    if num >= 0x20_0000_0000_0000 * den {
        let k = scale_down(num, 2 * den);
        lemma_scaled_down(num, 2 * den);
        lemma_pow2_unfold(k + 1);
        assert((2 * den) * pow2(k) == den * (2 * pow2(k))) by (nonlinear_arith);
        assert(scale_down(num, den) == k + 1);
        if k == 0 {
            assert((2 * den) * 1 == 2 * den);
        }
    }
}

proof fn lemma_scaled_up(num: nat, den: nat)
    requires
        den > 0,
        num > 0,
    ensures
        num * pow2(scale_up(num, den)) >= 0x10_0000_0000_0000 * den,
        scale_up(num, den) > 0 ==> num * pow2(scale_up(num, den)) < 0x20_0000_0000_0000 * den,
    decreases 0x20_0000_0000_0000 * den - num,
{
    lemma_pow2(0);
    lemma_pow0(2);
    assert(num * 1 == num);
    if num < 0x10_0000_0000_0000 * den {
        let k = scale_up(2 * num, den);
        lemma_scaled_up(2 * num, den);
        lemma_pow2_unfold(k + 1);
        assert((2 * num) * pow2(k) == num * (2 * pow2(k))) by (nonlinear_arith);
        assert(scale_up(num, den) == k + 1);
        if k == 0 {
            assert((2 * num) * 1 == 2 * num);
        }
    }
}

/// The parts of the binary64 number nearest to `num / den`: a significand of 53 bits, scaled either
/// up or down, that is off by half of its last place at most.
pub proof fn law_significand_is_nearest(num: nat, den: nat)
    requires
        den > 0,
        num > 0,
    ensures
        ({
            let s = significand(num, den);
            let down = pow2(scale_down(num, den));
            let up = pow2(scale_up(num, den));
            &&& 0x10_0000_0000_0000 <= s <= 0x20_0000_0000_0000
            &&& down == 1 || up == 1
            &&& down > 0 && up > 0
            &&& num * up >= 0x10_0000_0000_0000 * (den * down)
            &&& -(den * down) <= 2 * (s * (den * down) - num * up) <= den * down
        }),
{
    let up = pow2(scale_up(num, den));
    let down = pow2(scale_down(num, den));
    let d = den * down;
    lemma_scaled_up(num, den);
    lemma_scaled_down(num, den);
    lemma_pow2(0);
    lemma_pow0(2);
    lemma_pow2_pos(scale_up(num, den));
    lemma_pow2_pos(scale_down(num, den));
    assert(d > 0) by (nonlinear_arith)
        requires
            d == den * down,
            den > 0,
            down > 0,
    ;
    assert(den * 1 == den && num * 1 == num);
    let n = num * up;
    assert(0x10_0000_0000_0000 * d <= n < 0x20_0000_0000_0000 * d);
    law_half_even_is_nearest(n, d);
    let s = half_even(n, d);
    assert(0x10_0000_0000_0000 <= s <= 0x20_0000_0000_0000) by (nonlinear_arith)
        requires
            0x10_0000_0000_0000 * d <= n < 0x20_0000_0000_0000 * d,
            -(d as int) <= 2 * (s * d - n) <= d,
            d > 0,
    ;
}

/// A whole binary64 number is off from the quotient that it stands for by half a unit, or by half
/// of its last place.
pub proof fn law_whole_is_near(num: nat, den: nat)
    requires
        den > 0,
    ensures
        0x20_0000_0000_0000 * (nearest_whole(num, den) * den - num) <= num + 0x10_0000_0000_0000
            * den,
        0x20_0000_0000_0000 * (num - nearest_whole(num, den) * den) <= num + 0x10_0000_0000_0000
            * den,
{
    let k = scale_down(num, den);
    let unit = pow2(k);
    let d = den * unit;
    lemma_scaled_down(num, den);
    lemma_pow2(0);
    lemma_pow0(2);
    lemma_pow2_pos(k);
    assert(d > 0) by (nonlinear_arith)
        requires
            d == den * unit,
            den > 0,
            unit > 0,
    ;
    law_half_even_is_nearest(num, d);
    let h = half_even(num, d);
    assert(h * unit * den == h * d) by (nonlinear_arith)
        requires
            d == den * unit,
    ;
    assert(den * 1 == den);
}

/// `y` is an integer of 53 bits, `m`, times a power of two.
pub open spec fn is_binary64(y: int, m: int, e: nat) -> bool {
    -0x20_0000_0000_0000 <= m <= 0x20_0000_0000_0000 && y == m * pow2(e)
}

/// A rounded integer is a binary64 number: it has a significand of 53 bits.
pub proof fn law_rounded_is_binary64(x: int)
    ensures
        exists|m: int, e: nat| is_binary64(rounded(x), m, e),
{
    let n = magnitude(x);
    let k = scale_down(n, 1);
    let unit = pow2(k);
    lemma_scaled_down(n, 1);
    lemma_pow2_pos(k);
    law_half_even_is_nearest(n, 1 * unit);
    let h = half_even(n, 1 * unit);
    assert(h <= 0x20_0000_0000_0000) by (nonlinear_arith)
        requires
            n < 0x20_0000_0000_0000 * (1 * unit),
            2 * (h * (1 * unit) - n) <= 1 * unit,
            unit > 0,
    ;
    let m = with_sign(x, h);
    assert((-(h as int)) * unit == -(h * unit)) by (nonlinear_arith);
    assert(is_binary64(rounded(x), m, k));
}

/// No binary64 number, an integer of 53 bits times a power of two, is nearer to an integer than the
/// one that it is rounded to.
pub proof fn law_rounded_is_nearest(x: int, m: int, e: nat)
    requires
        -0x20_0000_0000_0000 <= m <= 0x20_0000_0000_0000,
    ensures
        magnitude(rounded(x) - x) <= magnitude(m * pow2(e) - x),
{
    if x < 0 {
        law_rounding_is_odd(x);
        lemma_rounded_is_nearest(-x, -m, e);
        assert((-m) * pow2(e) == -(m * pow2(e))) by (nonlinear_arith);
    } else {
        lemma_rounded_is_nearest(x, m, e);
    }
}

proof fn lemma_rounded_is_nearest(x: int, m: int, e: nat)
    requires
        x >= 0,
        -0x20_0000_0000_0000 <= m <= 0x20_0000_0000_0000,
    ensures
        magnitude(rounded(x) - x) <= magnitude(m * pow2(e) - x),
{
    let n = x as nat;
    let k = scale_down(n, 1);
    let unit = pow2(k);
    let y = m * pow2(e);
    lemma_scaled_down(n, 1);
    lemma_pow2(0);
    lemma_pow0(2);
    lemma_pow2_pos(k);
    lemma_pow2_pos(e);
    assert(1 * unit == unit);
    law_half_even_is_nearest(n, unit);
    let h = half_even(n, unit);
    assert(rounded(x) == h * unit);
    if k == 0 {
        law_small_integers_stay(x);
    } else {
        let base = 0x10_0000_0000_0000 * unit;
        if y <= base {
            lemma_nearest_multiple(n, unit, 0x10_0000_0000_0000);
        } else {
            // Above the base only multiples of the unit have 53 bits.
            assert(e >= k) by {
                if e < k {
                    lemma_pow2_unfold(k);
                    if e < k - 1 {
                        lemma_pow2_strictly_increases(e, (k - 1) as nat);
                    }
                    assert(m * pow2(e) <= 0x20_0000_0000_0000 * pow2((k - 1) as nat))
                        by (nonlinear_arith)
                        requires
                            m <= 0x20_0000_0000_0000,
                            0 < pow2(e) <= pow2((k - 1) as nat),
                    ;
                    assert(false);
                }
            }
            lemma_pow2_adds(k, (e - k) as nat);
            let c = m * pow2((e - k) as nat);
            assert(m * (unit * pow2((e - k) as nat)) == c * unit) by (nonlinear_arith)
                requires
                    c == m * pow2((e - k) as nat),
            ;
            lemma_nearest_multiple(n, unit, c);
        }
    }
}

proof fn lemma_nearest_multiple(n: nat, unit: nat, c: int)
    requires
        unit > 0,
    ensures
        magnitude(half_even(n, unit) * unit - n) <= magnitude(c * unit - n),
{
    law_half_even_is_nearest(n, unit);
    let h = half_even(n, unit);
    if c > h {
        assert(c * unit >= h * unit + unit) by (nonlinear_arith)
            requires
                c >= h + 1,
                unit > 0,
        ;
    } else if c < h {
        assert(c * unit <= h * unit - unit) by (nonlinear_arith)
            requires
                c <= h - 1,
                unit > 0,
        ;
    }
}

} // verus!
