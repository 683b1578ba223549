//! Fixed-point text of quotients, rounded the way binary64 arithmetic rounds.
//!
//! A count divided by a unit is shown with a few decimals. The quotient is the
//! binary64 one: the count is rounded to 53 significant bits, the division
//! rounds again, and the digits shown round the stored value once more. All
//! three roundings go to the nearest value, ties to the even one, and all are
//! computed here on integers.

use crate::text::{characters, decimal, decimal_text, digit, push_decimal};
use vstd::string::*;
use vstd::prelude::*;

verus! {

/// `n / d` rounded to the nearest integer, ties to the even one.
pub open spec fn half_even(n: nat, d: nat) -> nat {
    let q = n / d;
    let r = n % d;
    if 2 * r < d || (2 * r == d && q % 2 == 0) {
        q
    } else {
        q + 1
    }
}

/// The distance between neighbouring binary64 values around the integer `n`:
/// one below `2^53`, doubling with every further binary digit.
pub open spec fn spacing(n: nat) -> nat
    decreases n,
{
    if n < 0x20_0000_0000_0000 {
        1
    } else {
        2 * spacing(n / 2)
    }
}

/// The binary64 value nearest to the integer `n`.
pub open spec fn nearest_double(n: nat) -> nat {
    half_even(n, spacing(n)) * spacing(n)
}

/// The power of two that brings `n` up to `bound` by doubling.
pub open spec fn growth(n: nat, bound: nat) -> nat
    decreases
        if n < bound {
            bound - n
        } else {
            0
        },
{
    if n == 0 || n >= bound {
        1
    } else {
        2 * growth(2 * n, bound)
    }
}

/// The 53-bit significand of the binary64 quotient `n / d`, whose value is the
/// significand divided by `growth(n, 2^52 * d)`.
pub open spec fn significand(n: nat, d: nat) -> nat {
    half_even(n * growth(n, 0x10_0000_0000_0000 * d), d)
}

/// The binary64 quotient `n / d`, in units of `1 / scale`, rounded for display.
pub open spec fn displayed_quotient(n: nat, d: nat, scale: nat) -> nat {
    let m = nearest_double(n);
    half_even(significand(m, d) * scale, growth(m, 0x10_0000_0000_0000 * d))
}

fn divide_half_even(n: u128, d: u128) -> (q: u128)
    requires
        0 < d < 0x8000_0000_0000_0000_0000_0000_0000_0000,
    ensures
        q == half_even(n as nat, d as nat),
        q <= n / d + 1,
{
    let quotient: u128 = n / d;
    let rest: u128 = n % d;
    if 2 * rest < d || (2 * rest == d && quotient % 2 == 0) {
        quotient
    } else {
        proof {
            assert(n as int / d as int <= n) by (nonlinear_arith)
                requires
                    d > 0,
            ;
            if d == 1 {
                assert(rest == 0);
            }
            assert(n as int / d as int <= n as int / 2) by (nonlinear_arith)
                requires
                    d >= 2,
            ;
        }
        quotient + 1
    }
}

proof fn lemma_spacing_bound(n: nat)
    ensures
        spacing(n) >= 1,
        n >= 0x20_0000_0000_0000 ==> spacing(n) * 0x10_0000_0000_0000 <= n,
    decreases n,
{
    if n >= 0x20_0000_0000_0000 {
        lemma_spacing_bound(n / 2);
    }
}

fn spacing_of(n: u64) -> (s: u64)
    ensures
        s == spacing(n as nat),
        1 <= s <= 4096,
    decreases n,
{
    proof {
        lemma_spacing_bound(n as nat);
    }
    if n < 0x20_0000_0000_0000 {
        1
    } else {
        proof {
            lemma_spacing_bound((n / 2) as nat);
        }
        2 * spacing_of(n / 2)
    }
}

fn nearest(n: u64) -> (m: u128)
    ensures
        m == nearest_double(n as nat),
        m <= 0x1_0000_0000_0001_0000,
        n > 0 ==> m > 0,
{
    let s: u64 = spacing_of(n);
    let q: u128 = divide_half_even(n as u128, s as u128);
    proof {
        lemma_spacing_bound(n as nat);
        let qi = q as int;
        let si = s as int;
        let ni = n as int;
        assert(ni / si * si <= ni) by (nonlinear_arith)
            requires
                si > 0,
                ni >= 0,
        ;
        assert(qi * si <= (ni / si + 1) * si) by (nonlinear_arith)
            requires
                qi <= ni / si + 1,
                si > 0,
        ;
        assert((ni / si + 1) * si == ni / si * si + si) by (nonlinear_arith);
        assert(qi * si <= ni + si);
        if n > 0 {
            if n < 0x20_0000_0000_0000 {
                assert(si == 1);
                assert(ni / 1 == ni);
            } else {
                assert(ni / si >= 1) by (nonlinear_arith)
                    requires
                        ni >= si,
                        si > 0,
                ;
            }
            assert(qi * si > 0) by (nonlinear_arith)
                requires
                    qi > 0,
                    si > 0,
            ;
        }
    }
    q * (s as u128)
}

/// Double `n` until it reaches `bound`; the grown value and the factor.
fn grow(n: u128, bound: u128) -> (grown: (u128, u128))
    requires
        0 < n < bound,
        bound <= 0x100_0000_0000_0000_0000_0000,
    ensures
        grown.1 == growth(n as nat, bound as nat),
        grown.0 == n * growth(n as nat, bound as nat),
        bound <= grown.0 < 2 * bound,
        1 <= grown.1 <= grown.0,
{
    let mut value: u128 = n;
    let mut factor: u128 = 1;
    while value < bound
        invariant
            0 < n < bound,
            bound <= 0x100_0000_0000_0000_0000_0000,
            value == n * factor,
            factor >= 1,
            1 <= value < 2 * bound,
            growth(n as nat, bound as nat) == factor * growth(value as nat, bound as nat),
        decreases 2 * bound - value,
    {
        proof {
            let g = growth((2 * value) as nat, bound as nat);
            assert(growth(value as nat, bound as nat) == 2 * g);
            assert(factor * (2 * g) == (2 * factor) * g) by (nonlinear_arith);
            assert(n * (2 * factor) == 2 * (n * factor)) by (nonlinear_arith);
            assert(factor <= value) by (nonlinear_arith)
                requires
                    value == n * factor,
                    n >= 1,
            ;
        }
        value = 2 * value;
        factor = 2 * factor;
    }
    proof {
        assert(factor <= value) by (nonlinear_arith)
            requires
                value == n * factor,
                n >= 1,
        ;
        let g = growth(value as nat, bound as nat);
        assert(factor * g == factor) by (nonlinear_arith)
            requires
                g == 1,
        ;
    }
    (value, factor)
}

/// The binary64 quotient `n / d` in units of `1 / scale`, rounded for display.
pub fn display_quotient(n: u64, d: u64, scale: u64) -> (r: u128)
    requires
        0x2000 <= d <= 0x100_0000,
        1 <= scale <= 1000,
        n > 0,
    ensures
        r == displayed_quotient(n as nat, d as nat, scale as nat),
{
    let m: u128 = nearest(n);
    let bound: u128 = 0x10_0000_0000_0000u128 * (d as u128);
    let (grown, factor) = grow(m, bound);
    let s: u128 = divide_half_even(grown, d as u128);
    proof {
        let gi = grown as int;
        let di = d as int;
        assert(gi / di <= 0x20_0000_0000_0000) by (nonlinear_arith)
            requires
                gi < 2 * (0x10_0000_0000_0000 * di),
                di > 0,
        ;
        assert(s * scale <= 0x20_0000_0000_0001 * 1000) by (nonlinear_arith)
            requires
                s <= 0x20_0000_0000_0001,
                scale <= 1000,
        ;
    }
    divide_half_even(s * (scale as u128), factor)
}

/// A value in tenths, with its decimal.
pub open spec fn tenths(value: nat) -> Seq<char> {
    decimal(value / 10) + seq!['.', digit(value % 10)]
}

/// A value in hundredths, with its two decimals.
pub open spec fn hundredths(value: nat) -> Seq<char> {
    decimal(value / 100) + seq!['.', digit(value / 10 % 10), digit(value % 10)]
}

fn push_digit(text: &mut String, d: u128)
    requires
        d < 10,
    ensures
        final(text)@ == old(text)@.push(digit(d as nat)),
{
    let byte: u8 = 48 + d as u8;
    text.push(byte as char);
}

fn push_tenths(text: &mut String, value: u128)
    ensures
        final(text)@ == old(text)@ + tenths(value as nat),
{
    push_decimal(text, value / 10);
    text.push('.');
    push_digit(text, value % 10);
    assert(text@ =~= old(text)@ + tenths(value as nat));
}

fn push_hundredths(text: &mut String, value: u128)
    ensures
        final(text)@ == old(text)@ + hundredths(value as nat),
{
    push_decimal(text, value / 100);
    text.push('.');
    push_digit(text, value / 10 % 10);
    push_digit(text, value % 10);
    assert(text@ =~= old(text)@ + hundredths(value as nat));
}

/// A memory size: plain bytes below one mebibyte, else mebibytes to two
/// decimals.
pub open spec fn bytes_text(bytes: nat) -> Seq<char> {
    if bytes >= 0x10_0000 {
        hundredths(displayed_quotient(bytes, 0x10_0000, 100)) + " MiB"@
    } else {
        decimal(bytes) + " B"@
    }
}

/// A memory size as the domain summary shows it.
pub fn format_bytes(bytes: u64) -> (text: String)
    ensures
        text@ == bytes_text(bytes as nat),
{
    let mut text = String::new();
    if bytes >= 0x10_0000 {
        push_hundredths(&mut text, display_quotient(bytes, 0x10_0000, 100));
        text.append(" MiB");
    } else {
        push_decimal(&mut text, bytes as u128);
        text.append(" B");
    }
    assert(text@ =~= bytes_text(bytes as nat));
    text
}

/// A memory size in kibibytes, as mebibytes to one decimal. A division by a power
/// of two is exact.
pub open spec fn mebibytes_text(kibibytes: nat) -> Seq<char> {
    tenths(half_even(nearest_double(kibibytes) * 10, 1024)) + " MiB"@
}

/// A memory size as the diagnostics window shows it.
pub fn format_mebibytes(kibibytes: u64) -> (text: String)
    ensures
        text@ == mebibytes_text(kibibytes as nat),
{
    let mut text = String::new();
    push_tenths(&mut text, divide_half_even(nearest(kibibytes) * 10, 1024));
    text.append(" MiB");
    assert(text@ =~= mebibytes_text(kibibytes as nat));
    text
}

/// The digits of `digits` in groups of three from the right, a narrow
/// no-break space between groups; the first `n` of them.
pub open spec fn grouped(digits: Seq<char>, n: nat) -> Seq<char>
    decreases n,
{
    if n == 0 {
        Seq::empty()
    } else {
        let i = (n - 1) as nat;
        if i > 0 && (digits.len() - i) % 3 == 0 {
            grouped(digits, i).push('\u{202f}').push(digits[i as int])
        } else {
            grouped(digits, i).push(digits[i as int])
        }
    }
}

/// A count: millions to one decimal, else grouped digits, else plain digits.
pub open spec fn count_text(n: nat) -> Seq<char> {
    if n >= 1_000_000 {
        tenths(displayed_quotient(n, 1_000_000, 10)).push('M')
    } else if n >= 1_000 {
        grouped(decimal(n), decimal(n).len())
    } else {
        decimal(n)
    }
}

/// A sample count as the diagnostics window shows it.
pub fn format_count(n: usize) -> (text: String)
    ensures
        text@ == count_text(n as nat),
{
    let mut text = String::new();
    if n >= 1_000_000 {
        push_tenths(&mut text, display_quotient(n as u64, 1_000_000, 10));
        text.push('M');
        assert(text@ =~= count_text(n as nat));
    } else if n >= 1_000 {
        let plain = decimal_text(n as u64);
        let digits = characters(plain.as_str());
        let mut i: usize = 0;
        while i < digits.len()
            invariant
                digits@ == decimal(n as nat),
                i <= digits.len(),
                text@ == grouped(digits@, i as nat),
            decreases digits.len() - i,
        {
            if i > 0 && (digits.len() - i) % 3 == 0 {
                text.push('\u{202f}');
            }
            text.push(digits[i]);
            i = i + 1;
        }
    } else {
        push_decimal(&mut text, n as u128);
        assert(text@ =~= count_text(n as nat));
    }
    text
}

/// Grouping only inserts separators: without them the digits are unchanged.
pub proof fn grouping_keeps_the_digits(digits: Seq<char>, n: nat)
    requires
        n <= digits.len(),
        forall|i: int| 0 <= i < digits.len() ==> digits[i] != '\u{202f}',
    ensures
        grouped(digits, n).filter(|c: char| c != '\u{202f}') == digits.take(n as int),
    decreases n,
{
    reveal(Seq::filter);
    let keep = |c: char| c != '\u{202f}';
    if n == 0 {
        assert(grouped(digits, 0).filter(keep) =~= digits.take(0));
    } else {
        let i = (n - 1) as nat;
        grouping_keeps_the_digits(digits, i);
        let before = grouped(digits, i);
        let separated = before.push('\u{202f}');
        assert(separated.drop_last() =~= before);
        assert(separated.filter(keep) == before.filter(keep));
        assert(before.push(digits[i as int]).drop_last() =~= before);
        assert(separated.push(digits[i as int]).drop_last() =~= separated);
        assert(digits.take(i as int).push(digits[i as int]) =~= digits.take(n as int));
    }
}

/// The distance of two integers.
pub open spec fn distance(a: int, b: int) -> int {
    if a < b {
        b - a
    } else {
        a - b
    }
}

/// Rounding a quotient gives the integer nearest to it; of two that are equally near, the even
/// one.
pub proof fn rounding_goes_to_the_nearest(n: nat, d: nat)
    requires
        d > 0,
    ensures
        2 * distance(half_even(n, d) * d as int, n as int) <= d,
        2 * distance(half_even(n, d) * d as int, n as int) == d ==> half_even(n, d) % 2 == 0,
{
    let q = (n / d) as int;
    let r = (n % d) as int;
    vstd::arithmetic::div_mod::lemma_fundamental_div_mod(n as int, d as int);
    assert(d * q == q * d) by (nonlinear_arith);
    assert((q + 1) * d == q * d + d) by (nonlinear_arith);
    assert(0 <= r < d);
    assert(n == q * d + r);
}

/// No integer is nearer to a quotient than the rounded one.
pub proof fn nothing_is_nearer_than_the_rounded(n: nat, d: nat, other: int)
    requires
        d > 0,
    ensures
        distance(half_even(n, d) * d as int, n as int) <= distance(other * d, n as int),
{
    rounding_goes_to_the_nearest(n, d);
    let h = half_even(n, d) as int;
    if other < h {
        assert(other * d + d <= h * d) by (nonlinear_arith)
            requires
                other + 1 <= h,
                d > 0,
        ;
    } else if other > h {
        assert(h * d + d <= other * d) by (nonlinear_arith)
            requires
                h + 1 <= other,
                d > 0,
        ;
    }
}

proof fn lemma_scaled_rounding(n: nat, d: nat, c: nat)
    requires
        d > 0,
        c > 0,
    ensures
        half_even(n * c, d * c) == half_even(n, d),
{
    let q = (n / d) as int;
    let r = (n % d) as int;
    vstd::arithmetic::div_mod::lemma_fundamental_div_mod(n as int, d as int);
    assert(d * c > 0 && n * c >= 0) by (nonlinear_arith)
        requires
            d > 0,
            c > 0,
    ;
    assert(n * c == (d * c) * q + r * c) by (nonlinear_arith)
        requires
            n == d * q + r,
    ;
    assert(0 <= r * c < d * c) by (nonlinear_arith)
        requires
            0 <= r < d,
            c > 0,
    ;
    vstd::arithmetic::div_mod::lemma_fundamental_div_mod_converse((n * c) as int, (d * c) as int, q, r * c);
    assert(2 * r < d <==> 2 * (r * c) < d * c) by (nonlinear_arith)
        requires
            c > 0,
    ;
    assert(2 * r == d <==> 2 * (r * c) == d * c) by (nonlinear_arith)
        requires
            c > 0,
    ;
}

/// From two to the power of 53 on, an integer lies between 2^52 and 2^53 times its spacing,
/// which is a power of two; below that, every integer is a number of its own.
pub proof fn spacing_keeps_fifty_three_digits(n: nat) -> (k: nat)
    ensures
        spacing(n) == vstd::arithmetic::power2::pow2(k),
        n < 0x20_0000_0000_0000 ==> spacing(n) == 1,
        n >= 0x20_0000_0000_0000 ==> 0x10_0000_0000_0000 * spacing(n) <= n < 0x20_0000_0000_0000
            * spacing(n),
    decreases n,
{
    if n < 0x20_0000_0000_0000 {
        vstd::arithmetic::power2::lemma2_to64();
        0
    } else {
        let k = spacing_keeps_fifty_three_digits(n / 2);
        vstd::arithmetic::power2::lemma_pow2_unfold((k + 1) as nat);
        (k + 1) as nat
    }
}

/// The nearest number to an integer is a multiple of the spacing there, at most half a spacing
/// away, and the integer itself below two to the power of 53.
pub proof fn a_double_is_near_its_integer(n: nat)
    ensures
        exists|q: nat| nearest_double(n) == #[trigger] (q * spacing(n)),
        2 * distance(nearest_double(n) as int, n as int) <= spacing(n),
        n < 0x20_0000_0000_0000 ==> nearest_double(n) == n,
{
    let k = spacing_keeps_fifty_three_digits(n);
    lemma_spacing_bound(n);
    rounding_goes_to_the_nearest(n, spacing(n));
    assert(nearest_double(n) == half_even(n, spacing(n)) * spacing(n));
}

/// Growing a positive number doubles it until it first reaches the bound.
pub proof fn growth_reaches_the_bound(n: nat, bound: nat) -> (k: nat)
    requires
        0 < n < bound,
    ensures
        growth(n, bound) == vstd::arithmetic::power2::pow2(k),
        bound <= n * growth(n, bound) < 2 * bound,
    decreases bound - n,
{
    let g = growth(2 * n, bound);
    assert(growth(n, bound) == 2 * g);
    assert(n * (2 * g) == (2 * n) * g) by (nonlinear_arith);
    assert(n * growth(n, bound) == (2 * n) * g);
    vstd::arithmetic::power2::lemma2_to64();
    if 2 * n >= bound {
        assert((2 * n) * g == 2 * n) by (nonlinear_arith)
            requires
                g == 1,
        ;
        1
    } else {
        let k = growth_reaches_the_bound(2 * n, bound);
        vstd::arithmetic::power2::lemma_pow2_unfold((k + 1) as nat);
        (k + 1) as nat
    }
}

/// A displayed quotient is the count's nearest number `m`, divided and rounded to a significand
/// `s` over a power of two `g` that gives it fifty-three digits, and rounded to the units shown:
/// each of the three is at most half a step from what it rounds.
pub proof fn a_displayed_quotient_is_rounded_three_times(n: nat, d: nat, scale: nat) -> (parts: (
    nat,
    nat,
    nat,
))
    requires
        0 < d,
        0 < nearest_double(n) < 0x10_0000_0000_0000 * d,
    ensures
        ({
            let (m, s, g) = parts;
            &&& 2 * distance(m as int, n as int) <= spacing(n)
            &&& exists|k: nat| g == vstd::arithmetic::power2::pow2(k)
            &&& 0x10_0000_0000_0000 * d <= m * g < 0x20_0000_0000_0000 * d
            &&& 2 * distance(s * d as int, m * g as int) <= d
            &&& 2 * distance(displayed_quotient(n, d, scale) * g as int, s * scale as int) <= g
        }),
{
    let m = nearest_double(n);
    let bound = 0x10_0000_0000_0000 * d;
    let g = growth(m, bound);
    let s = significand(m, d);
    a_double_is_near_its_integer(n);
    let k = growth_reaches_the_bound(m, bound);
    vstd::arithmetic::power2::lemma_pow2_pos(k);
    rounding_goes_to_the_nearest(m * g, d);
    rounding_goes_to_the_nearest(s * scale, g);
    (m, s, g)
}

/// A size of less than 2^53 bytes is shown in mebibytes rounded once, to the nearest hundredth.
pub proof fn mebibytes_are_rounded_once(bytes: nat)
    requires
        0 < bytes < 0x20_0000_0000_0000,
    ensures
        displayed_quotient(bytes, 0x10_0000, 100) == half_even(bytes * 100, 0x10_0000),
{
    let d: nat = 0x10_0000;
    let bound = 0x10_0000_0000_0000 * d;
    a_double_is_near_its_integer(bytes);
    let g = growth(bytes, bound);
    let k = growth_reaches_the_bound(bytes, bound);
    vstd::arithmetic::power2::lemma2_to64();
    if k < 20 {
        vstd::arithmetic::power2::lemma_pow2_strictly_increases(k, 20);
        assert(g <= 0x8_0000) by {
            if k < 19 {
                vstd::arithmetic::power2::lemma_pow2_strictly_increases(k, 19);
            }
        }
        assert(bytes * g < 0x20_0000_0000_0000 * 0x8_0000) by (nonlinear_arith)
            requires
                bytes < 0x20_0000_0000_0000,
                0 < g <= 0x8_0000,
        ;
    }
    let c = vstd::arithmetic::power2::pow2((k - 20) as nat);
    vstd::arithmetic::power2::lemma_pow2_adds(20, (k - 20) as nat);
    vstd::arithmetic::power2::lemma_pow2_pos((k - 20) as nat);
    assert(g == d * c);
    assert(bytes * g == (bytes * c) * d) by (nonlinear_arith)
        requires
            g == d * c,
    ;
    lemma_scaled_rounding(bytes * c, 1, d);
    assert(half_even(bytes * c, 1) == bytes * c);
    assert(significand(bytes, d) == bytes * c);
    assert((bytes * c) * 100 == (bytes * 100) * c) by (nonlinear_arith);
    lemma_scaled_rounding(bytes * 100, d, c);
}

proof fn lemma_one_more_digit(s: Seq<char>, d: nat)
    requires
        d < 10,
    ensures
        crate::text::digits_value(s.push(digit(d))) == 10 * crate::text::digits_value(s) + d,
{
    assert(s.push(digit(d)).drop_last() =~= s);
    assert(digit(d) as nat == 48 + d);
}

proof fn lemma_last_two_digits(value: nat)
    ensures
        value == 10 * (10 * (value / 100) + value / 10 % 10) + value % 10,
{
    let tens = value / 10;
    assert(value == 10 * tens + value % 10);
    assert(tens == 10 * (tens / 10) + tens % 10);
    assert(tens / 10 == value / 100);
}

/// A value in tenths is written with a point before its last digit, and reads back as the value
/// once the point is taken out.
pub proof fn tenths_have_one_decimal(value: nat)
    ensures
        tenths(value).len() >= 3,
        tenths(value)[tenths(value).len() - 2] == '.',
        crate::text::digits_value(tenths(value).remove(tenths(value).len() - 2)) == value,
{
    let whole = decimal(value / 10);
    crate::text::a_number_reads_back(value / 10);
    lemma_one_more_digit(whole, value % 10);
    assert(tenths(value).remove(whole.len() as int) =~= whole.push(digit(value % 10)));
}

/// A value in hundredths is written with a point before its last two digits, and reads back as
/// the value once the point is taken out.
pub proof fn hundredths_have_two_decimals(value: nat)
    ensures
        hundredths(value).len() >= 4,
        hundredths(value)[hundredths(value).len() - 3] == '.',
        crate::text::digits_value(hundredths(value).remove(hundredths(value).len() - 3)) == value,
{
    let whole = decimal(value / 100);
    let first = whole.push(digit(value / 10 % 10));
    assert(hundredths(value).remove(whole.len() as int) =~= first.push(digit(value % 10)));
    assert(crate::text::digits_value(first.push(digit(value % 10))) == value) by {
        crate::text::a_number_reads_back(value / 100);
        lemma_one_more_digit(whole, value / 10 % 10);
        lemma_one_more_digit(first, value % 10);
        lemma_last_two_digits(value);
    }
    assert(whole.len() >= 1) by {
        crate::text::a_number_reads_back(value / 100);
    }
}

/// A size is written in bytes below one mebibyte, and in mebibytes to the nearest hundredth from
/// there on.
pub proof fn a_size_is_written_in_its_unit(bytes: nat)
    ensures
        bytes < 1024 * 1024 ==> bytes_text(bytes) == decimal(bytes) + " B"@,
        1024 * 1024 <= bytes < 0x20_0000_0000_0000 ==> bytes_text(bytes) == hundredths(
            half_even(bytes * 100, 1024 * 1024),
        ) + " MiB"@,
{
    if 1024 * 1024 <= bytes < 0x20_0000_0000_0000 {
        mebibytes_are_rounded_once(bytes);
    }
}

/// A size in kibibytes is written in mebibytes to the nearest tenth.
pub proof fn kibibytes_are_written_in_mebibytes(kibibytes: nat)
    requires
        kibibytes < 0x20_0000_0000_0000,
    ensures
        mebibytes_text(kibibytes) == tenths(half_even(kibibytes * 10, 1024)) + " MiB"@,
{
    a_double_is_near_its_integer(kibibytes);
}

proof fn lemma_grouped_apart(high: Seq<char>, low: Seq<char>, n: nat)
    requires
        low.len() % 3 == 0,
        n <= high.len(),
    ensures
        grouped(high + low, n) == grouped(high, n),
    decreases n,
{
    if n > 0 {
        lemma_grouped_apart(high, low, (n - 1) as nat);
        assert((high + low)[n - 1] == high[n - 1]);
    }
}

proof fn lemma_grouped_behind(high: Seq<char>, low: Seq<char>, n: nat)
    requires
        low.len() % 3 == 0,
        0 < n <= low.len(),
        high.len() > 0,
    ensures
        grouped(high + low, (high.len() + n) as nat) == grouped(high, high.len()).push('\u{202f}')
            + grouped(low, n),
    decreases n,
{
    let i = high.len() + n - 1;
    assert((high + low)[i] == low[n - 1]);
    if n == 1 {
        lemma_grouped_apart(high, low, high.len());
        assert(grouped(low, 0) =~= Seq::empty());
        assert(grouped(low, 1) =~= seq![low[0]]);
        assert(grouped(high + low, (high.len() + 1) as nat) =~= grouped(high, high.len()).push(
            '\u{202f}',
        ).push(low[0]));
    } else {
        lemma_grouped_behind(high, low, (n - 1) as nat);
        assert(grouped(high + low, (high.len() + n) as nat) =~= grouped(high, high.len()).push(
            '\u{202f}',
        ) + grouped(low, n));
    }
}

/// Up to three digits stand together; more of them are grouped as what stands before the last
/// three, a separator, and the last three.
pub proof fn digits_stand_in_threes(digits: Seq<char>, high: Seq<char>, low: Seq<char>)
    requires
        1 <= digits.len() <= 3,
        high.len() > 0,
        low.len() == 3,
    ensures
        grouped(digits, digits.len()) == digits,
        grouped(high + low, (high + low).len()) == grouped(high, high.len()).push('\u{202f}') + low,
{
    reveal_with_fuel(grouped, 4);
    assert(grouped(digits, digits.len()) =~= digits);
    assert(grouped(low, low.len()) =~= low);
    lemma_grouped_behind(high, low, 3);
    assert((high + low).len() == high.len() + 3);
}

/// A count is written plainly below a thousand, in groups of digits below a million, and in
/// millions to one decimal from there on.
pub proof fn a_count_is_written_by_its_size(n: nat)
    ensures
        n < 1000 ==> count_text(n) == decimal(n),
        1000 <= n < 1000 * 1000 ==> count_text(n) == grouped(decimal(n), decimal(n).len()),
        1000 * 1000 <= n ==> count_text(n) == tenths(displayed_quotient(n, 1000 * 1000, 10)) + seq!['M'],
{
    if n >= 1000 * 1000 {
        assert(count_text(n) =~= tenths(displayed_quotient(n, 1000 * 1000, 10)) + seq!['M']);
    }
}

} // verus!
