//! Decimal text of the numbers that reports hold.
//!
//! A count or a frequency is the quotient of two integers. It is printed through the binary64
//! number nearest to that one quotient, so that the printed figure is the one that floating point
//! printing gives for it. A level is a binary64 number already, and is printed as it is.

use crate::binary64::{half_even_u128, magnitude_i128, nearest, round};
use vstd::arithmetic::power::*;
use vstd::arithmetic::power2::*;
use vstd::prelude::*;

verus! {

/// The character of a decimal digit.
pub open spec fn digit_char(d: nat) -> char {
    (48 + d) as char
}

/// The decimal digits of a natural number, without leading zeros.
pub open spec fn digits(n: nat) -> Seq<char>
    decreases n,
{
    if n < 10 {
        seq![digit_char(n)]
    } else {
        digits(n / 10).push(digit_char(n % 10))
    }
}

/// The lowest `width` decimal digits of a natural number, with leading zeros.
pub open spec fn low_digits(n: nat, width: nat) -> Seq<char>
    decreases width,
{
    if width == 0 {
        Seq::empty()
    } else {
        low_digits(n / 10, (width - 1) as nat).push(digit_char(n % 10))
    }
}

/// A count as a binary64 number.
pub open spec fn counted(num: nat) -> nat {
    crate::binary64::nearest_whole(num, 1)
}

/// The binary64 number nearest to the quotient of a count and `den`, in units of the last of
/// `places` decimals.
pub open spec fn scaled_decimal(num: nat, den: nat, places: nat) -> nat {
    let n = counted(num);
    crate::binary64::half_even(
        (crate::binary64::significand(n, den) * pow2(crate::binary64::scale_down(n, den)) * pow(
            10,
            places,
        )) as nat,
        pow2(crate::binary64::scale_up(n, den)),
    )
}

/// A number of units of the last of `places` decimals.
pub open spec fn with_point(r: nat, places: nat) -> Seq<char> {
    let unit = pow(10, places) as nat;
    if places == 0 {
        digits(r)
    } else {
        digits(r / unit).push('.') + low_digits(r % unit, places)
    }
}

/// The quotient of a count and `den` with `places` decimals.
pub open spec fn decimal(num: nat, den: nat, places: nat) -> Seq<char> {
    with_point(scaled_decimal(num, den, places), places)
}

/// The sign that stands before a number: a minus for a negative one, a plus where asked for.
pub open spec fn sign(num: int, plus: bool) -> Seq<char> {
    if num < 0 {
        seq!['-']
    } else if plus {
        seq!['+']
    } else {
        Seq::empty()
    }
}

/// The signed fraction `num / den` with `places` decimals.
pub open spec fn fixed(num: int, den: nat, places: nat) -> Seq<char> {
    sign(num, false) + decimal(crate::binary64::magnitude(num), den, places)
}

/// As `fixed`, with a plus before a number that is not negative.
pub open spec fn fixed_plus(num: int, den: nat, places: nat) -> Seq<char> {
    sign(num, true) + decimal(crate::binary64::magnitude(num), den, places)
}

/// The number `num / unit`, rounded to `places` decimals, the even one of two equally near ones.
pub open spec fn exact(num: int, unit: nat, places: nat) -> Seq<char> {
    sign(num, false) + exact_size(num, unit, places)
}

/// As `exact`, with a plus before a number that is not negative.
pub open spec fn exact_plus(num: int, unit: nat, places: nat) -> Seq<char> {
    sign(num, true) + exact_size(num, unit, places)
}

pub open spec fn exact_size(num: int, unit: nat, places: nat) -> Seq<char> {
    with_point(
        crate::binary64::half_even(
            (crate::binary64::magnitude(num) * pow(10, places)) as nat,
            unit,
        ),
        places,
    )
}

/// Digits in groups of three from the right, with a comma between two groups.
pub open spec fn grouped(s: Seq<char>) -> Seq<char>
    decreases s.len(),
{
    if s.len() <= 3 {
        s
    } else {
        grouped(s.take(s.len() - 3)).push(',') + s.skip(s.len() - 3)
    }
}

/// The binary64 number nearest to the quotient of a count and `den`, rounded to whole units, halves
/// up.
pub open spec fn whole_units(num: nat, den: nat) -> nat {
    let n = counted(num);
    let up = pow2(crate::binary64::scale_up(n, den));
    (2 * crate::binary64::significand(n, den) * pow2(crate::binary64::scale_down(n, den)) + up) / (2
        * up)
}

/// A number with at least two digits.
pub open spec fn two_digits(n: nat) -> Seq<char> {
    if n < 10 {
        seq!['0'] + digits(n)
    } else {
        digits(n)
    }
}

/// A number of seconds as hours, minutes and seconds.
pub open spec fn clock(total: nat) -> Seq<char> {
    two_digits(total / 3600).push(':') + two_digits(total % 3600 / 60).push(':') + two_digits(
        total % 60,
    )
}

/// A character with an ASCII capital made small.
pub open spec fn lower_char(c: char) -> char {
    if 'A' <= c <= 'Z' {
        (c as u32 + 32) as char
    } else {
        c
    }
}

/// A text with its ASCII capitals made small.
pub open spec fn lower(s: Seq<char>) -> Seq<char> {
    s.map_values(|c: char| lower_char(c))
}

fn lower_code(c: char) -> (code: u32)
    ensures
        code == lower_char(c) as u32,
{
    let code: u32 = c as u32;
    if 65 <= code && code <= 90 {
        code + 32
    } else {
        code
    }
}

/// Whether `s` is `word` once its ASCII capitals are made small.
pub fn lower_is(s: &str, word: &str) -> (b: bool)
    ensures
        b == (lower(s@) == word@),
{
    let n: usize = s.unicode_len();
    if n != word.unicode_len() {
        return false;
    }
    let mut i: usize = 0;
    while i < n
        invariant
            n == s@.len(),
            n == word@.len(),
            i <= n,
            forall|j: int| 0 <= j < i ==> lower(s@)[j] == word@[j],
        decreases n - i,
    {
        if lower_code(s.get_char(i)) != word.get_char(i) as u32 {
            assert(lower(s@)[i as int] != word@[i as int]);
            return false;
        }
        i = i + 1;
    }
    assert(lower(s@) =~= word@);
    true
}

/// Whether two texts are the same.
pub fn same(s: &str, word: &str) -> (b: bool)
    ensures
        b == (s@ == word@),
{
    s.to_owned() == word.to_owned()
}

/// The text of one decimal digit.
fn digit_text(d: u32) -> (r: &'static str)
    requires
        d < 10,
    ensures
        r@ == seq![digit_char(d as nat)],
{
    proof {
        reveal_strlit("0");
        reveal_strlit("1");
        reveal_strlit("2");
        reveal_strlit("3");
        reveal_strlit("4");
        reveal_strlit("5");
        reveal_strlit("6");
        reveal_strlit("7");
        reveal_strlit("8");
        reveal_strlit("9");
    }
    match d {
        0 => "0",
        1 => "1",
        2 => "2",
        3 => "3",
        4 => "4",
        5 => "5",
        6 => "6",
        7 => "7",
        8 => "8",
        _ => "9",
    }
}

/// Appends the decimal digits of `n`.
pub fn push_digits(out: &mut String, n: u128)
    ensures
        final(out)@ == old(out)@ + digits(n as nat),
    decreases n,
{
    if n < 10 {
        out.append(digit_text(n as u32));
    } else {
        push_digits(out, n / 10);
        out.append(digit_text((n % 10) as u32));
        assert(out@ == old(out)@ + digits(n as nat));
    }
}

/// Appends the lowest `width` decimal digits of `n`.
pub fn push_low_digits(out: &mut String, n: u128, width: u32)
    ensures
        final(out)@ == old(out)@ + low_digits(n as nat, width as nat),
    decreases width,
{
    if width > 0 {
        push_low_digits(out, n / 10, width - 1);
        out.append(digit_text((n % 10) as u32));
    }
    assert(out@ == old(out)@ + low_digits(n as nat, width as nat));
}

fn power_of_ten(places: u32) -> (r: u128)
    requires
        places <= 9,
    ensures
        r == pow(10, places as nat),
        0 < r <= 1_000_000_000,
{
    let mut r: u128 = 1;
    let mut i: u32 = 0;
    proof {
        lemma_pow0(10);
    }
    while i < places
        invariant
            i <= places <= 9,
            r == pow(10, i as nat),
            0 < r,
        decreases places - i,
    {
        proof {
            lemma_pow_strictly_increases(10, i as nat, 9);
            lemma_pow_adds(10, i as nat, 1);
            lemma_pow1(10);
            assert(pow(10, 9) == 1_000_000_000) by {
                reveal_with_fuel(pow, 10);
            }
        }
        r = 10 * r;
        i = i + 1;
    }
    proof {
        assert(pow(10, 9) == 1_000_000_000) by {
            reveal_with_fuel(pow, 10);
        }
        lemma_pow_increases(10, places as nat, 9);
    }
    r
}

/// A count as a binary64 number.
fn count_as_binary64(num: u64) -> (r: u128)
    ensures
        r == counted(num as nat),
        r <= 0x1_0000_0000_0000_0000,
{
    proof {
        lemma_pow2(0);
        lemma_pow0(2);
        lemma2_to64();
        lemma2_to64_rest();
        crate::binary64::law_rounding_keeps_limits(num as int, 1, 64);
    }
    round(num as i128) as u128
}

/// Appends `r` units of the last of `places` decimals.
fn push_with_point(out: &mut String, r: u128, places: u32)
    requires
        places <= 9,
    ensures
        final(out)@ == old(out)@ + with_point(r as nat, places as nat),
{
    if places == 0 {
        push_digits(out, r);
    } else {
        let unit: u128 = power_of_ten(places);
        proof {
            reveal_strlit(".");
        }
        push_digits(out, r / unit);
        out.append(".");
        push_low_digits(out, r % unit, places);
        assert(out@ == old(out)@ + with_point(r as nat, places as nat));
    }
}

/// Appends the quotient of a count and `den` with `places` decimals.
pub fn push_decimal(out: &mut String, num: u64, den: u64, places: u32)
    requires
        den > 0,
        places <= 9,
    ensures
        final(out)@ == old(out)@ + decimal(num as nat, den as nat, places as nat),
{
    let (m, down, up) = nearest(count_as_binary64(num), den);
    let unit: u128 = power_of_ten(places);
    proof {
        assert(m * down <= 0x20_0000_0000_0000 * 0x1_0000) by (nonlinear_arith)
            requires
                0 <= m <= 0x20_0000_0000_0000,
                0 <= down <= 0x1_0000,
        ;
        assert(m * down * unit <= 0x20_0000_0000_0000 * 0x1_0000 * 1_000_000_000)
            by (nonlinear_arith)
            requires
                0 <= m * down <= 0x20_0000_0000_0000 * 0x1_0000,
                0 <= unit <= 1_000_000_000,
        ;
    }
    push_with_point(out, half_even_u128(m * down * unit, up), places);
}

/// The integer nearest to `size * pow(10, places) / unit`, the even one of two equally near ones.
fn scaled_size(size: u128, unit: u128, places: u32) -> (r: u128)
    requires
        0 < unit <= 0x100_0000_0000_0000_0000_0000_0000_0000,
        size <= unit * 0x1_0000_0000_0000_0000_0000,
        places <= 9,
    ensures
        r == crate::binary64::half_even(
            (size * pow(10, places as nat)) as nat,
            unit as nat,
        ),
{
    let mut q: u128 = size / unit;
    let mut r: u128 = size % unit;
    let mut i: u32 = 0;
    let ghost all: int = size as int;
    proof {
        lemma_pow0(10);
        vstd::arithmetic::div_mod::lemma_fundamental_div_mod(size as int, unit as int);
        assert(q <= 0x1_0000_0000_0000_0000_0000) by (nonlinear_arith)
            requires
                size == unit * q + r,
                0 <= r,
                size <= unit * 0x1_0000_0000_0000_0000_0000,
                unit > 0,
        ;
    }
    while i < places
        invariant
            i <= places <= 9,
            0 < unit <= 0x100_0000_0000_0000_0000_0000_0000_0000,
            r < unit,
            all == size * pow(10, i as nat),
            all == unit * q + r,
            q < 0x1_0000_0000_0000_0000_0001 * pow(10, i as nat),
            0 < pow(10, i as nat) <= 1_000_000_000,
        decreases places - i,
    {
        proof {
            let t = pow(10, i as nat);
            lemma_pow_strictly_increases(10, i as nat, 9);
            lemma_pow_adds(10, i as nat, 1);
            lemma_pow1(10);
            assert(pow(10, 9) == 1_000_000_000) by {
                reveal_with_fuel(pow, 10);
            }
            lemma_pow_increases(10, (i + 1) as nat, 9);
            assert(size * (t * 10) == 10 * (size * t)) by (nonlinear_arith);
            vstd::arithmetic::div_mod::lemma_fundamental_div_mod((10 * r) as int, unit as int);
            let d = (10 * r) as int / unit as int;
            assert(0 <= d < 10) by (nonlinear_arith)
                requires
                    10 * r == unit * d + (10 * r) as int % unit as int,
                    0 <= (10 * r) as int % unit as int,
                    0 <= r < unit,
                    (10 * r) as int % (unit as int) < unit,
            ;
            assert(unit * (10 * q + d) + (10 * r) as int % unit as int == 10 * (unit * q + r))
                by (nonlinear_arith)
                requires
                    10 * r == unit * d + (10 * r) as int % unit as int,
            ;
            all = 10 * all;
        }
        q = 10 * q + 10 * r / unit;
        r = 10 * r % unit;
        i = i + 1;
    }
    proof {
        vstd::arithmetic::div_mod::lemma_fundamental_div_mod_converse(
            all,
            unit as int,
            q as int,
            r as int,
        );
    }
    if r < unit - r || (r == unit - r && q % 2 == 0) {
        q
    } else {
        q + 1
    }
}

/// Appends `num / unit`, rounded to `places` decimals.
pub fn push_exact(out: &mut String, num: i128, unit: u128, places: u32)
    requires
        0 < unit <= 0x100_0000_0000_0000_0000_0000_0000_0000,
        crate::binary64::magnitude(num as int) <= unit * 0x1_0000_0000_0000_0000_0000,
        places <= 9,
    ensures
        final(out)@ == old(out)@ + exact(num as int, unit as nat, places as nat),
{
    proof {
        reveal_strlit("-");
    }
    if num < 0 {
        out.append("-");
    }
    push_with_point(out, scaled_size(magnitude_i128(num), unit, places), places);
    assert(out@ == old(out)@ + exact(num as int, unit as nat, places as nat));
}

/// As `push_exact`, with a plus before a number that is not negative.
pub fn push_exact_plus(out: &mut String, num: i128, unit: u128, places: u32)
    requires
        0 < unit <= 0x100_0000_0000_0000_0000_0000_0000_0000,
        crate::binary64::magnitude(num as int) <= unit * 0x1_0000_0000_0000_0000_0000,
        places <= 9,
    ensures
        final(out)@ == old(out)@ + exact_plus(num as int, unit as nat, places as nat),
{
    proof {
        reveal_strlit("+");
    }
    let ghost head = out@;
    if num >= 0 {
        out.append("+");
    }
    push_exact(out, num, unit, places);
    assert(out@ == head + exact_plus(num as int, unit as nat, places as nat));
}

fn magnitude_i64(num: i64) -> (r: u64)
    ensures
        r == crate::binary64::magnitude(num as int),
{
    if num >= 0 {
        num as u64
    } else if num == i64::MIN {
        0x8000_0000_0000_0000
    } else {
        (-num) as u64
    }
}

/// Appends the signed fraction `num / den` with `places` decimals.
pub fn push_fixed(out: &mut String, num: i64, den: u64, places: u32)
    requires
        den > 0,
        places <= 9,
    ensures
        final(out)@ == old(out)@ + fixed(num as int, den as nat, places as nat),
{
    proof {
        reveal_strlit("-");
    }
    if num < 0 {
        out.append("-");
    }
    push_decimal(out, magnitude_i64(num), den, places);
    assert(out@ == old(out)@ + fixed(num as int, den as nat, places as nat));
}

/// As `push_fixed`, with a plus before a number that is not negative.
pub fn push_fixed_plus(out: &mut String, num: i64, den: u64, places: u32)
    requires
        den > 0,
        places <= 9,
    ensures
        final(out)@ == old(out)@ + fixed_plus(num as int, den as nat, places as nat),
{
    proof {
        reveal_strlit("-");
        reveal_strlit("+");
    }
    if num < 0 {
        out.append("-");
    } else {
        out.append("+");
    }
    push_decimal(out, magnitude_i64(num), den, places);
    assert(out@ == old(out)@ + fixed_plus(num as int, den as nat, places as nat));
}

proof fn lemma_digits_split(n: nat)
    requires
        n >= 1000,
    ensures
        digits(n) == digits(n / 1000) + low_digits(n % 1000, 3),
{
    reveal_with_fuel(digits, 4);
    reveal_with_fuel(low_digits, 4);
    assert(n / 10 / 10 / 10 == n / 1000);
    assert(n % 1000 % 10 == n % 10);
    assert(n % 1000 / 10 % 10 == n / 10 % 10);
    assert(n % 1000 / 10 / 10 % 10 == n / 10 / 10 % 10);
}

proof fn lemma_low_digits_len(n: nat, width: nat)
    ensures
        low_digits(n, width).len() == width,
    decreases width,
{
    if width > 0 {
        lemma_low_digits_len(n / 10, (width - 1) as nat);
    }
}

fn push_grouped(out: &mut String, v: u64)
    ensures
        final(out)@ == old(out)@ + grouped(digits(v as nat)),
    decreases v,
{
    if v < 1000 {
        push_digits(out, v as u128);
        proof {
            reveal_with_fuel(digits, 4);
        }
    } else {
        push_grouped(out, v / 1000);
        proof {
            reveal_strlit(",");
        }
        out.append(",");
        push_low_digits(out, (v % 1000) as u128, 3);
        proof {
            let s = digits(v as nat);
            let head = digits((v / 1000) as nat);
            let tail = low_digits((v % 1000) as nat, 3);
            lemma_digits_split(v as nat);
            lemma_low_digits_len((v % 1000) as nat, 3);
            assert(head.len() > 0);
            assert(s.take(s.len() - 3) == head);
            assert(s.skip(s.len() - 3) == tail);
            assert(out@ == old(out)@ + grouped(s));
        }
    }
}

/// A count with a comma between thousands.
pub fn format_with_commas(v: u64) -> (r: String)
    ensures
        r@ == grouped(digits(v as nat)),
{
    let mut out = String::new();
    push_grouped(&mut out, v);
    assert(out@ == grouped(digits(v as nat)));
    out
}

fn push_two_digits(out: &mut String, n: u128)
    ensures
        final(out)@ == old(out)@ + two_digits(n as nat),
{
    if n < 10 {
        proof {
            reveal_strlit("0");
        }
        out.append("0");
    }
    push_digits(out, n);
    assert(out@ == old(out)@ + two_digits(n as nat));
}

/// The quotient of a count and `den`, rounded to whole units.
pub fn to_whole_units(num: u64, den: u64) -> (r: u128)
    requires
        den > 0,
    ensures
        r == whole_units(num as nat, den as nat),
{
    let (m, down, up) = nearest(count_as_binary64(num), den);
    assert(m * down <= 0x20_0000_0000_0000 * 0x1_0000) by (nonlinear_arith)
        requires
            0 <= m <= 0x20_0000_0000_0000,
            0 <= down <= 0x1_0000,
    ;
    assert(2 * m * down == 2 * (m * down)) by (nonlinear_arith);
    (2 * (m * down) + up) / (2 * up)
}

/// The whole seconds in `num / den` seconds, none where it is negative.
pub open spec fn whole_seconds(num: int, den: nat) -> nat {
    if num < 0 {
        0
    } else {
        whole_units(num as nat, den)
    }
}

/// The duration of `num / den` seconds as hours, minutes and seconds.
pub fn format_duration_hms(num: i128, den: u64) -> (r: String)
    requires
        den > 0,
        num <= u64::MAX,
    ensures
        r@ == clock(whole_seconds(num as int, den as nat)),
{
    let total: u128 = if num < 0 {
        0
    } else {
        to_whole_units(num as u64, den)
    };
    proof {
        reveal_strlit(":");
    }
    let mut out = String::new();
    push_two_digits(&mut out, total / 3600);
    out.append(":");
    push_two_digits(&mut out, total % 3600 / 60);
    out.append(":");
    push_two_digits(&mut out, total % 60);
    assert(out@ == clock(total as nat));
    out
}

/// A text of digits only.
pub open spec fn all_digits(s: Seq<char>) -> bool {
    forall|i: int| 0 <= i < s.len() ==> '0' <= #[trigger] s[i] <= '9'
}

proof fn lemma_digits_are_digits(n: nat)
    ensures
        all_digits(digits(n)),
        digits(n).len() > 0,
    decreases n,
{
    if n >= 10 {
        lemma_digits_are_digits(n / 10);
    }
}

proof fn lemma_grouped(s: Seq<char>)
    requires
        all_digits(s),
    ensures
        grouped(s).filter(|c: char| c != ',') == s,
        forall|j: int|
            0 <= j < grouped(s).len() ==> (#[trigger] grouped(s)[grouped(s).len() - 1 - j] == ','
                <==> j % 4 == 3),
    decreases s.len(),
{
    let p = |c: char| c != ',';
    if s.len() <= 3 {
        assert(s.filter(p) =~= s) by {
            lemma_filter_all(s);
        }
    } else {
        let head = s.take(s.len() - 3);
        let tail = s.skip(s.len() - 3);
        lemma_grouped(head);
        lemma_filter_all(tail);
        let g = grouped(head);
        Seq::filter_distributes_over_add(g.push(','), tail, p);
        assert(g.push(',').filter(p) == g.filter(p)) by {
            assert(g.push(',').drop_last() =~= g);
            reveal(Seq::filter);
        }
        assert(head + tail =~= s);
        let all = grouped(s);
        assert forall|j: int| 0 <= j < all.len() implies (#[trigger] all[all.len() - 1 - j] == ','
            <==> j % 4 == 3) by {
            if j < 3 {
                assert(all[all.len() - 1 - j] == tail[2 - j]);
            } else if j > 3 {
                assert(all[all.len() - 1 - j] == g[g.len() - 1 - (j - 4)]);
            }
        }
    }
}

proof fn lemma_filter_all(s: Seq<char>)
    requires
        all_digits(s),
    ensures
        s.filter(|c: char| c != ',') == s,
    decreases s.len(),
{
    reveal(Seq::filter);
    if s.len() > 0 {
        lemma_filter_all(s.drop_last());
        assert(s.drop_last().push(s.last()) =~= s);
    }
}

/// A count with commas holds the digits of the count, and a comma behind every third of them from
/// the right but nowhere else.
pub proof fn law_commas_part_thousands(v: nat)
    ensures
        ({
            let s = grouped(digits(v));
            &&& s.filter(|c: char| c != ',') == digits(v)
            &&& forall|j: int|
                0 <= j < s.len() ==> (#[trigger] s[s.len() - 1 - j] == ',' <==> j % 4 == 3)
        }),
{
    lemma_digits_are_digits(v);
    lemma_grouped(digits(v));
}

/// A whole number that binary64 holds is printed as its digits.
pub proof fn law_whole_numbers_print_as_they_are(n: nat)
    requires
        n < 0x20_0000_0000_0000,
    ensures
        decimal(n, 1, 0) == digits(n),
{
    let up = pow2(crate::binary64::scale_up(n, 1));
    crate::binary64::law_small_integers_stay(n as int);
    lemma_pow2(0);
    lemma_pow0(2);
    lemma_pow0(10);
    lemma_pow2_pos(crate::binary64::scale_up(n, 1));
    assert(crate::binary64::scale_down(n, 1) == 0);
    assert(crate::binary64::significand(n, 1) == n * up) by {
        assert(crate::binary64::half_even(n * up, 1) == n * up);
    }
    assert((n * up) / up == n && (n * up) % up == 0) by {
        vstd::arithmetic::div_mod::lemma_fundamental_div_mod_converse(
            (n * up) as int,
            up as int,
            n as int,
            0,
        );
    }
    assert(n * up * 1 * 1 == n * up);
}

/// A quotient that is a whole number stays what it is.
pub proof fn law_whole_quotients_stay(w: nat, den: nat)
    requires
        den > 0,
        w * den < 0x20_0000_0000_0000,
    ensures
        whole_units(w * den, den) == w,
{
    let n = w * den;
    let up = pow2(crate::binary64::scale_up(n, den));
    crate::binary64::law_small_integers_stay(n as int);
    lemma_pow2(0);
    lemma_pow0(2);
    lemma_pow2_pos(crate::binary64::scale_up(n, den));
    assert(crate::binary64::scale_down(n, den) == 0);
    assert(n * up == (w * up) * den) by (nonlinear_arith)
        requires
            n == w * den,
    ;
    vstd::arithmetic::div_mod::lemma_fundamental_div_mod_converse(
        (n * up) as int,
        den as int,
        (w * up) as int,
        0,
    );
    assert(crate::binary64::significand(n, den) == w * up);
    assert(2 * (w * up) * 1 + up == w * (2 * up) + up) by (nonlinear_arith);
    vstd::arithmetic::div_mod::lemma_fundamental_div_mod_converse(
        (w * (2 * up) + up) as int,
        (2 * up) as int,
        w as int,
        up as int,
    );
}

/// The number that decimal digits stand for.
pub open spec fn place_value(s: Seq<char>) -> int
    decreases s.len(),
{
    if s.len() == 0 {
        0
    } else {
        10 * place_value(s.drop_last()) + (s.last() as int - 48)
    }
}

/// The digits of a number are digits, stand for that number, and have no zero before them.
pub proof fn law_digits_stand_for_the_number(n: nat)
    ensures
        all_digits(digits(n)),
        place_value(digits(n)) == n,
        digits(n).len() > 0,
        digits(n).len() > 1 ==> digits(n)[0] != '0',
    decreases n,
{
    reveal_with_fuel(place_value, 2);
    if n >= 10 {
        law_digits_stand_for_the_number(n / 10);
        let head = digits(n / 10);
        assert(digits(n).drop_last() =~= head);
        assert(digits(n)[0] == head[0]);
        if head.len() == 1 {
            assert(place_value(head) == 10 * place_value(head.drop_last()) + (head[0] as int - 48));
        }
    }
}

/// The low digits of a number are as many as asked for, and stand for what is left of the number
/// by the power of ten that they reach to.
pub proof fn law_low_digits_stand_for_the_rest(n: nat, width: nat)
    ensures
        low_digits(n, width).len() == width,
        all_digits(low_digits(n, width)),
        place_value(low_digits(n, width)) == n as int % pow(10, width),
    decreases width,
{
    lemma_pow_positive(10, width);
    if width == 0 {
        lemma_pow0(10);
    } else {
        let w = (width - 1) as nat;
        law_low_digits_stand_for_the_rest(n / 10, w);
        assert(low_digits(n, width).drop_last() =~= low_digits(n / 10, w));
        lemma_pow_positive(10, w);
        lemma_pow_adds(10, w, 1);
        lemma_pow1(10);
        let p = pow(10, w);
        let a = n as int / 10;
        assert(n as int % (10 * p) == 10 * (a % p) + n as int % 10) by {
            vstd::arithmetic::div_mod::lemma_fundamental_div_mod(a, p);
            vstd::arithmetic::div_mod::lemma_mod_bound(a, p);
            let rest = 10 * (a % p) + n as int % 10;
            assert(n == (a / p) * (10 * p) + rest) by (nonlinear_arith)
                requires
                    n == 10 * a + n as int % 10,
                    a == p * (a / p) + a % p,
                    rest == 10 * (a % p) + n as int % 10,
            ;
            vstd::arithmetic::div_mod::lemma_fundamental_div_mod_converse(
                n as int,
                10 * p,
                a / p,
                rest,
            );
        }
    }
}

/// A decimal has `places` digits behind its point, and reads as the number of last places that it
/// is made of.
pub proof fn law_point_stands_before_the_places(r: nat, places: nat)
    ensures
        ({
            let s = with_point(r, places);
            let cut = s.len() - 1 - places;
            &&& places == 0 ==> all_digits(s) && place_value(s) == r
            &&& places > 0 ==> {
                &&& cut > 0
                &&& s[cut] == '.'
                &&& all_digits(s.take(cut))
                &&& all_digits(s.skip(cut + 1))
                &&& place_value(s.take(cut)) * pow(10, places) + place_value(s.skip(cut + 1)) == r
            }
        }),
{
    law_digits_stand_for_the_number(r);
    if places > 0 {
        lemma_pow_positive(10, places);
        let unit = pow(10, places) as nat;
        let s = with_point(r, places);
        let cut = s.len() - 1 - places;
        law_digits_stand_for_the_number(r / unit);
        law_low_digits_stand_for_the_rest(r % unit, places);
        assert(s.take(cut) =~= digits(r / unit));
        assert(s.skip(cut + 1) =~= low_digits(r % unit, places));
        vstd::arithmetic::div_mod::lemma_fundamental_div_mod(r as int, unit as int);
        vstd::arithmetic::div_mod::lemma_mod_bound(r as int, unit as int);
        vstd::arithmetic::div_mod::lemma_small_mod((r % unit) as nat, unit);
        assert((r / unit) as int * pow(10, places) == unit as int * (r as int / unit as int))
            by (nonlinear_arith)
            requires
                unit == pow(10, places),
                (r / unit) as int == r as int / unit as int,
        ;
    }
}

/// A printed quotient is off by half of its last place at most, but for the 53 bits through which
/// it goes.
pub proof fn law_decimal_is_near(num: nat, den: nat, places: nat)
    requires
        den > 0,
    ensures
        exists|r: nat|
            decimal(num, den, places) == #[trigger] with_point(r, places) && {
                let n = crate::binary64::rounded(num as int);
                &&& 0x20_0000_0000_0000 * (r * den - n * pow(10, places)) <= 0x10_0000_0000_0000
                    * den + pow(10, places) * n
                &&& 0x20_0000_0000_0000 * (n * pow(10, places) - r * den) <= 0x10_0000_0000_0000
                    * den + pow(10, places) * n
            },
{
    let r = scaled_decimal(num, den, places);
    let t = pow(10, places);
    lemma_pow_positive(10, places);
    let n = counted(num);
    let up = pow2(crate::binary64::scale_up(n, den)) as int;
    let down = pow2(crate::binary64::scale_down(n, den)) as int;
    lemma_pow2_pos(crate::binary64::scale_up(n, den));
    if n == 0 {
        lemma_pow2(0);
        lemma_pow0(2);
        assert(crate::binary64::scale_down(n, den) == 0);
        assert(crate::binary64::half_even(0, den) == 0);
        assert(crate::binary64::significand(n, den) == 0) by {
            assert(0 * pow2(crate::binary64::scale_up(n, den)) == 0);
            assert(den * 1 == den);
        }
        assert(0 * down * t == 0) by (nonlinear_arith);
        assert(r == 0);
        assert(r * den == 0 && n * t == 0 && t * n == 0) by (nonlinear_arith)
            requires
                r == 0,
                n == 0,
        ;
    } else {
        crate::binary64::law_significand_is_nearest(n, den);
        let sig = crate::binary64::significand(n, den) as int;
        let v = sig * down * t;
        assert(v >= 0) by (nonlinear_arith)
            requires
                v == sig * down * t,
                sig >= 0,
                down > 0,
                t > 0,
        ;
        crate::binary64::law_half_even_is_nearest(v as nat, up as nat);
        lemma_near(r as int, n as int, den as int, t, sig, up, down);
    }
    assert(decimal(num, den, places) == with_point(r, places));
}

proof fn lemma_near(r: int, num: int, den: int, t: int, sig: int, up: int, down: int)
    requires
        den > 0,
        num > 0,
        t > 0,
        up > 0,
        down > 0,
        num * up >= 0x10_0000_0000_0000 * (den * down),
        -(den * down) <= 2 * (sig * (den * down) - num * up) <= den * down,
        -up <= 2 * (r * up - sig * down * t) <= up,
    ensures
        0x20_0000_0000_0000 * (r * den - num * t) <= 0x10_0000_0000_0000 * den + t * num,
        0x20_0000_0000_0000 * (num * t - r * den) <= 0x10_0000_0000_0000 * den + t * num,
{
    let a = r * up - sig * down * t;
    let b = sig * (den * down) - num * up;
    let e = r * den - num * t;
    assert(e * up == den * (r * up) - t * (num * up)) by (nonlinear_arith)
        requires
            e == r * den - num * t,
    ;
    assert(den * a == den * (r * up) - den * (sig * down * t)) by (nonlinear_arith)
        requires
            a == r * up - sig * down * t,
    ;
    assert(t * b == t * (sig * (den * down)) - t * (num * up)) by (nonlinear_arith)
        requires
            b == sig * (den * down) - num * up,
    ;
    assert(den * (sig * down * t) == t * (sig * (den * down))) by (nonlinear_arith);
    assert(-(den * up) <= 2 * (den * a) <= den * up) by (nonlinear_arith)
        requires
            -up <= 2 * a <= up,
            den > 0,
    ;
    assert(-(t * (den * down)) <= 2 * (t * b) <= t * (den * down)) by (nonlinear_arith)
        requires
            -(den * down) <= 2 * b <= den * down,
            t > 0,
    ;
    assert(0x10_0000_0000_0000 * (t * (den * down)) <= t * (num * up)) by (nonlinear_arith)
        requires
            num * up >= 0x10_0000_0000_0000 * (den * down),
            t > 0,
    ;
    assert(t * (num * up) == (t * num) * up) by (nonlinear_arith);
    let limit = 0x10_0000_0000_0000 * den + t * num;
    assert(limit * up == 0x10_0000_0000_0000 * (den * up) + (t * num) * up) by (nonlinear_arith)
        requires
            limit == 0x10_0000_0000_0000 * den + t * num,
    ;
    assert(0x20_0000_0000_0000 * (e * up) <= limit * up);
    assert(-(limit * up) <= 0x20_0000_0000_0000 * (e * up));
    assert(0x20_0000_0000_0000 * e <= limit && -limit <= 0x20_0000_0000_0000 * e)
        by (nonlinear_arith)
        requires
            0x20_0000_0000_0000 * (e * up) <= limit * up,
            -(limit * up) <= 0x20_0000_0000_0000 * (e * up),
            up > 0,
    ;
}

/// A quotient rounded to whole units is off by half a unit at most, but for the 53 bits through
/// which it goes.
pub proof fn law_whole_units_are_near(num: nat, den: nat)
    requires
        den > 0,
    ensures
        ({
            let n = crate::binary64::rounded(num as int);
            let w = whole_units(num, den);
            &&& 0x20_0000_0000_0000 * (w * den - n) <= 0x10_0000_0000_0000 * den + n
            &&& 0x20_0000_0000_0000 * (n - w * den) <= 0x10_0000_0000_0000 * den + n
        }),
{
    let w = whole_units(num, den) as int;
    let n = counted(num);
    let up = pow2(crate::binary64::scale_up(n, den)) as int;
    let down = pow2(crate::binary64::scale_down(n, den)) as int;
    let sig = crate::binary64::significand(n, den) as int;
    lemma_pow2_pos(crate::binary64::scale_up(n, den));
    if num == 0 {
        crate::binary64::law_small_integers_stay(0);
        law_whole_quotients_stay(0, den);
        assert(0 * den == 0);
    } else {
        crate::binary64::law_whole_is_near(num, 1);
        assert(n > 0);
        crate::binary64::law_significand_is_nearest(n, den);
        let v = 2 * sig * down + up;
        vstd::arithmetic::div_mod::lemma_fundamental_div_mod(v, 2 * up);
        vstd::arithmetic::div_mod::lemma_mod_bound(v, 2 * up);
        assert((2 * up) * w == 2 * (w * up)) by (nonlinear_arith);
        assert(2 * sig * down == 2 * (sig * down * 1)) by (nonlinear_arith);
        lemma_near(w, n as int, den as int, 1, sig, up, down);
    }
}

/// A number printed exactly is off by half of its last place at most, the even one of two equally
/// near ones, and has its own sign.
pub proof fn law_exact_is_nearest(num: int, unit: nat, places: nat)
    requires
        unit > 0,
    ensures
        exists|r: nat|
            {
                let size = if num < 0 {
                    -num
                } else {
                    num
                };
                let off = 2 * (r * unit - size * pow(10, places));
                &&& exact(num, unit, places) == (if num < 0 {
                    seq!['-']
                } else {
                    seq![]
                }) + #[trigger] with_point(r, places)
                &&& exact_plus(num, unit, places) == (if num < 0 {
                    seq!['-']
                } else {
                    seq!['+']
                }) + with_point(r, places)
                &&& -(unit as int) <= off <= unit
                &&& (off == unit || off == -(unit as int)) ==> r % 2 == 0
            },
{
    let size = crate::binary64::magnitude(num);
    lemma_pow_positive(10, places);
    assert(size * pow(10, places) >= 0) by (nonlinear_arith)
        requires
            size >= 0,
            pow(10, places) > 0,
    ;
    let v = (size * pow(10, places)) as nat;
    crate::binary64::law_half_even_is_nearest(v, unit);
    let r = crate::binary64::half_even(v, unit);
    assert(exact(num, unit, places) =~= (if num < 0 {
        seq!['-']
    } else {
        seq![]
    }) + with_point(r, places));
}

/// A signed quotient is its size with a minus before it where it is negative, and with a plus else
/// where a sign is asked for.
pub proof fn law_signs_stand_before_sizes(num: nat, den: nat, places: nat)
    ensures
        fixed(num as int, den, places) == decimal(num, den, places),
        fixed_plus(num as int, den, places) == seq!['+'] + decimal(num, den, places),
        num > 0 ==> fixed(-(num as int), den, places) == seq!['-'] + decimal(num, den, places),
        num > 0 ==> fixed_plus(-(num as int), den, places) == seq!['-'] + decimal(num, den, places),
{
    assert(fixed(num as int, den, places) =~= decimal(num, den, places));
}

/// A number of two digits or more stands for itself, with one zero before a single digit.
pub proof fn law_two_digits(n: nat)
    ensures
        all_digits(two_digits(n)),
        place_value(two_digits(n)) == n,
        two_digits(n).len() >= 2,
        two_digits(n).len() > 2 ==> two_digits(n)[0] != '0',
{
    law_digits_stand_for_the_number(n);
    if n < 10 {
        reveal_with_fuel(place_value, 3);
        assert(two_digits(n).drop_last() =~= seq!['0']);
    } else {
        assert(digits(n).len() >= 2) by {
            law_digits_stand_for_the_number(n / 10);
        }
    }
}

/// A clock shows the hours, minutes and seconds that a number of seconds is made of.
pub proof fn law_clock_shows_its_parts(h: nat, m: nat, s: nat)
    requires
        m < 60,
        s < 60,
    ensures
        clock(3600 * h + 60 * m + s) == two_digits(h) + seq![':'] + two_digits(m) + seq![':']
            + two_digits(s),
{
    let total = 3600 * h + 60 * m + s;
    assert(total / 3600 == h);
    assert(total % 3600 / 60 == m);
    assert(total % 60 == s);
    assert(clock(total) =~= two_digits(h) + seq![':'] + two_digits(m) + seq![':'] + two_digits(s));
}

/// A negative duration counts no second, any other the whole seconds of its quotient.
pub proof fn law_durations_start_at_zero(num: int, den: nat)
    ensures
        num <= 0 && den > 0 ==> whole_seconds(num, den) == 0,
        num > 0 ==> whole_seconds(num, den) == whole_units(num as nat, den),
{
    if num == 0 && den > 0 {
        law_whole_quotients_stay(0, den);
        assert(0 * den == 0);
    }
}

/// Making a text small keeps its length and every character but the capitals A to Z, which become
/// a to z.
pub proof fn law_lower_changes_capitals_only(s: Seq<char>)
    ensures
        lower(s).len() == s.len(),
        forall|i: int|
            0 <= i < s.len() ==> (#[trigger] lower(s)[i]) as int == s[i] as int + (if 65 <= s[i] as int
                <= 90 {
                32int
            } else {
                0
            }),
{
}

/// Hours, minutes and seconds add up to the total, and minutes and seconds stay below sixty.
pub proof fn law_clock_adds_up(total: nat)
    ensures
        3600 * (total / 3600) + 60 * (total % 3600 / 60) + total % 60 == total,
        total % 3600 / 60 < 60,
        total % 60 < 60,
{
}

/// A text holds another one.
pub open spec fn shows(text: Seq<char>, part: Seq<char>) -> bool {
    exists|before: Seq<char>, behind: Seq<char>| text == #[trigger] (before + part + behind)
}

/// A text shows itself.
pub broadcast proof fn law_text_shows_itself(part: Seq<char>)
    ensures
        #[trigger] shows(part, part),
{
    assert(part =~= Seq::<char>::empty() + part + Seq::<char>::empty());
}

/// Two texts put together show what either of them shows.
pub broadcast proof fn law_joined_texts_show_both(a: Seq<char>, b: Seq<char>, part: Seq<char>)
    ensures
        shows(a, part) || shows(b, part) ==> #[trigger] shows(a + b, part),
{
    if shows(a, part) {
        let (x, y) = choose|x: Seq<char>, y: Seq<char>| a == #[trigger] (x + part + y);
        assert(a + b =~= x + part + (y + b));
    } else if shows(b, part) {
        let (x, y) = choose|x: Seq<char>, y: Seq<char>| b == #[trigger] (x + part + y);
        assert(a + b =~= (a + x) + part + y);
    }
}

/// A text ends in another one.
pub open spec fn ends_in(text: Seq<char>, part: Seq<char>) -> bool {
    exists|before: Seq<char>| text == #[trigger] (before + part)
}

/// A text shows what it ends in.
pub broadcast proof fn law_endings_are_shown(text: Seq<char>, part: Seq<char>)
    ensures
        ends_in(text, part) ==> #[trigger] shows(text, part),
{
    if ends_in(text, part) {
        let before = choose|before: Seq<char>| text == #[trigger] (before + part);
        assert(text =~= before + part + Seq::<char>::empty());
    }
}

/// What is put behind a text is put behind its ending.
pub broadcast proof fn law_endings_grow(text: Seq<char>, part: Seq<char>, more: Seq<char>)
    ensures
        ends_in(text, part) ==> #[trigger] ends_in(text + more, part + more),
{
    if ends_in(text, part) {
        let before = choose|before: Seq<char>| text == #[trigger] (before + part);
        assert(text + more =~= before + (part + more));
    }
}

/// A text ends in what was put behind it last.
pub broadcast proof fn law_last_part_is_an_ending(text: Seq<char>, part: Seq<char>)
    ensures
        #[trigger] ends_in(text + part, part),
{
}

/// Texts one behind the other.
pub open spec fn in_turn(parts: Seq<Seq<char>>) -> Seq<char>
    decreases parts.len(),
{
    if parts.len() == 0 {
        Seq::empty()
    } else {
        in_turn(parts.drop_last()) + parts.last()
    }
}

/// Texts with a comma between each and the next.
pub open spec fn with_commas(parts: Seq<Seq<char>>) -> Seq<char>
    decreases parts.len(),
{
    if parts.len() == 0 {
        Seq::empty()
    } else if parts.len() == 1 {
        parts[0]
    } else {
        with_commas(parts.drop_last()) + seq![','] + parts.last()
    }
}

pub(crate) proof fn lemma_exact_holds_no_comma(num: int, unit: nat, places: nat)
    requires
        unit > 0,
    ensures
        !exact(num, unit, places).contains(','),
{
    law_exact_is_nearest(num, unit, places);
    let s = exact(num, unit, places);
    let body = exact_size(num, unit, places);
    let v = (crate::binary64::magnitude(num) * pow(10, places)) as nat;
    let r = crate::binary64::half_even(v, unit);
    law_point_stands_before_the_places(r, places);
    assert(body == with_point(r, places));
    assert forall|i: int| 0 <= i < body.len() implies body[i] != ',' by {
        if places > 0 {
            let cut = body.len() - 1 - places;
            if i < cut {
                assert(body.take(cut)[i] == body[i]);
            } else if i > cut {
                assert(body.skip(cut + 1)[i - cut - 1] == body[i]);
            }
        }
    }
    assert forall|i: int| 0 <= i < s.len() implies s[i] != ',' by {
        let n = sign(num, false).len();
        if i >= n {
            assert(s[i] == body[i - n]);
        }
    }
}

proof fn lemma_no_comma(s: Seq<char>)
    requires
        !s.contains(','),
    ensures
        s.filter(|c: char| c == ',').len() == 0,
    decreases s.len(),
{
    reveal(Seq::filter);
    if s.len() > 0 {
        assert(s[s.len() - 1] == s.last());
        assert(!s.drop_last().contains(',')) by {
            if s.drop_last().contains(',') {
                let i = choose|i: int| 0 <= i < s.len() - 1 && s.drop_last()[i] == ',';
                assert(s[i] == ',');
            }
        }
        lemma_no_comma(s.drop_last());
    }
}

pub(crate) proof fn lemma_commas_between(parts: Seq<Seq<char>>)
    requires
        parts.len() > 0,
        forall|i: int| 0 <= i < parts.len() ==> !(#[trigger] parts[i]).contains(','),
    ensures
        with_commas(parts).filter(|c: char| c == ',').len() == parts.len() - 1,
    decreases parts.len(),
{
    let p = |c: char| c == ',';
    if parts.len() == 1 {
        lemma_no_comma(parts[0]);
    } else {
        let front = parts.drop_last();
        assert forall|i: int| 0 <= i < front.len() implies !(#[trigger] front[i]).contains(',') by {
            assert(front[i] == parts[i]);
        }
        lemma_commas_between(front);
        lemma_no_comma(parts[parts.len() - 1]);
        let head = with_commas(front);
        Seq::filter_distributes_over_add(head + seq![','], parts.last(), p);
        Seq::filter_distributes_over_add(head, seq![','], p);
        assert(seq![','].filter(p).len() == 1) by {
            reveal(Seq::filter);
            assert(seq![','].drop_last() =~= Seq::<char>::empty());
            assert(seq![','].last() == ',');
            assert(Seq::<char>::empty().filter(p).len() == 0);
        }
    }
}

} // verus!
