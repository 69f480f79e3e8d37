//! Byte counts as text.
//!
//! A count is shown either as plain bytes (`1023 B`) or divided by a power of
//! the standard's base, with a fixed number of fractional digits and the
//! symbol of the magnitude (`1.50 KiB`). The division is exact: the shown
//! number is the quotient rounded to the nearest value that the digits can
//! hold, a tie going to the even last digit.

use vstd::prelude::*;
use vstd::string::*;
use vstd::arithmetic::div_mod::lemma_fundamental_div_mod_converse;
use vstd::arithmetic::div_mod::lemma_div_is_ordered;
use crate::decimal::{
    all_digits, decimal, digit_char, digit_str, digits_value, lemma_decimal_value,
    lemma_digit_char, lemma_padded_shape, padded, push_decimal,
};
use crate::units::{symbol, symbol_str, Prefix, Standard, MAX_STEP};

verus! {

/// The largest divisor by which a count is ever scaled: 1024 to the power of
/// [`MAX_STEP`].
pub const MAX_DIVISOR: u128 = 0x1_0000_0000_0000_0000_0000;

/// Dividing a count that has reached the base leaves less, but not nothing.
pub proof fn lemma_quotient_smaller(count: nat, base: nat)
    requires
        2 <= base <= count,
    ensures
        1 <= count / base < count,
        count == base * (count / base) + count % base,
        count % base < base,
{
    assert(1 <= count / base < count && count == base * (count / base) + count % base && count
        % base < base) by (nonlinear_arith)
        requires
            2 <= base <= count,
    ;
}

/// `base` multiplied by itself `exp` times.
pub open spec fn power(base: nat, exp: nat) -> nat
    decreases exp,
{
    if exp == 0 {
        1
    } else {
        base * power(base, (exp - 1) as nat)
    }
}

/// How often `count` can be divided by `base` before it falls below `base`.
pub open spec fn auto_step(count: nat, base: nat) -> nat
    decreases count,
{
    if base < 2 || count < base {
        0
    } else {
        proof {
            lemma_quotient_smaller(count, base);
        }
        1 + auto_step(count / base, base)
    }
}

/// The magnitude step at which a count is shown: the one the prefix names,
/// or for `Auto` the one the count itself reaches.
pub open spec fn chosen_step(count: u64, standard: Standard, prefix: Prefix) -> nat {
    match prefix.spec_step() {
        Some(step) => step,
        None => auto_step(count as nat, standard.spec_base()),
    }
}

/// `num / den` as the nearest whole number, a tie going to the even one.
pub open spec fn round_half_even(num: nat, den: nat) -> nat
    recommends
        den > 0,
{
    let q = num / den;
    let r = num % den;
    if 2 * r > den || (2 * r == den && q % 2 == 1) {
        q + 1
    } else {
        q
    }
}

/// `num / den` written with exactly `digits` fractional digits; with none,
/// the decimal point is left out too.
pub open spec fn fixed_point(num: nat, den: nat, digits: nat) -> Seq<char>
    recommends
        den > 0,
{
    let unit = power(10, digits);
    let scaled = round_half_even(num * unit, den);
    if digits == 0 {
        decimal(scaled / unit)
    } else {
        decimal(scaled / unit) + seq!['.'] + padded(scaled % unit, digits)
    }
}

/// A count as plain bytes.
pub open spec fn plain_text(count: u64) -> Seq<char> {
    decimal(count as nat) + seq![' ', 'B']
}

/// A count shown at a given magnitude step. Step 0 is plain bytes, and so is
/// any step past the last one that has a symbol.
pub open spec fn scaled_text(count: u64, standard: Standard, step: nat, precision: u32) -> Seq<
    char,
> {
    if step == 0 || step > MAX_STEP {
        plain_text(count)
    } else {
        fixed_point(count as nat, power(standard.spec_base(), step), precision as nat) + seq![' ']
            + symbol(step) + standard.spec_infix() + seq!['B']
    }
}

/// The text of a byte count under a standard, a prefix and a precision.
pub open spec fn format_bytes_spec(
    count: u64,
    standard: Standard,
    prefix: Prefix,
    precision: u32,
) -> Seq<char> {
    scaled_text(count, standard, chosen_step(count, standard, prefix), precision)
}

/// The number that a run of digits stands for, read from the left.
spec fn digits_number(s: Seq<u8>) -> nat
    decreases s.len(),
{
    if s.len() == 0 {
        0
    } else {
        digits_number(s.drop_last()) * 10 + s.last() as nat
    }
}

/// Whether every element is a decimal digit.
spec fn valid_digits(s: Seq<u8>) -> bool {
    forall|i: int| 0 <= i < s.len() ==> #[trigger] s[i] < 10
}

/// A run of digits as characters.
spec fn digits_text(s: Seq<u8>) -> Seq<char> {
    Seq::new(s.len(), |i: int| digit_char(s[i] as nat))
}

/// Powers of a positive base are positive and grow with the base and the
/// exponent.
pub proof fn lemma_power_ordered(b1: nat, b2: nat, e1: nat, e2: nat)
    requires
        1 <= b1 <= b2,
        e1 <= e2,
    ensures
        1 <= power(b1, e1) <= power(b2, e2),
    decreases e2,
{
    if e2 == 0 {
    } else if e1 == 0 {
        lemma_power_ordered(b1, b2, 0, (e2 - 1) as nat);
        assert(power(b2, e2) >= 1) by (nonlinear_arith)
            requires
                power(b2, e2) == b2 * power(b2, (e2 - 1) as nat),
                b2 >= 1,
                power(b2, (e2 - 1) as nat) >= 1,
        ;
    } else {
        lemma_power_ordered(b1, b2, (e1 - 1) as nat, (e2 - 1) as nat);
        let x = power(b1, (e1 - 1) as nat);
        let y = power(b2, (e2 - 1) as nat);
        assert(1 <= b1 * x <= b2 * y) by (nonlinear_arith)
            requires
                1 <= b1 <= b2,
                1 <= x <= y,
        ;
    }
}

/// The largest powers that scaling ever meets.
pub proof fn lemma_power_values()
    ensures
        power(1000, 7) == 1_000_000_000_000_000_000_000,
        power(1024, 7) == 0x40_0000_0000_0000_0000,
        power(1024, 8) == MAX_DIVISOR,
{
    reveal_with_fuel(power, 10);
}

/// The step that `Auto` picks is the one whose power of the base the count
/// has reached while staying below the next.
pub proof fn lemma_auto_step_bounds(count: nat, base: nat)
    requires
        base >= 2,
    ensures
        count < power(base, auto_step(count, base) + 1),
        count >= 1 ==> power(base, auto_step(count, base)) <= count,
    decreases count,
{
    if count < base {
        reveal_with_fuel(power, 2);
    } else {
        let rest = count / base;
        lemma_quotient_smaller(count, base);
        lemma_auto_step_bounds(rest, base);
        let s = auto_step(rest, base);
        assert(auto_step(count, base) == s + 1);
        assert(power(base, s + 2) == base * power(base, s + 1));
        assert(power(base, s + 1) == base * power(base, s));
        assert(count < base * power(base, s + 1)) by (nonlinear_arith)
            requires
                rest < power(base, s + 1),
                count == base * rest + count % base,
                count % base < base,
        ;
        assert(base * power(base, s) <= count) by (nonlinear_arith)
            requires
                power(base, s) <= rest,
                count == base * rest + count % base,
        ;
    }
}

/// A larger count never gets a smaller step from `Auto`.
pub proof fn lemma_auto_step_monotonic(smaller: nat, larger: nat, base: nat)
    requires
        smaller <= larger,
    ensures
        auto_step(smaller, base) <= auto_step(larger, base),
    decreases smaller,
{
    if base < 2 || smaller < base {
    } else {
        lemma_quotient_smaller(smaller, base);
        lemma_quotient_smaller(larger, base);
        lemma_div_is_ordered(smaller as int, larger as int, base as int);
        lemma_auto_step_monotonic(smaller / base, larger / base, base);
    }
}

/// Under one standard and the prefix `Auto`, a larger count is never shown
/// at a smaller magnitude step.
pub proof fn lemma_chosen_step_monotonic(smaller: u64, larger: u64, standard: Standard)
    requires
        smaller <= larger,
    ensures
        chosen_step(smaller, standard, Prefix::Auto) <= chosen_step(
            larger,
            standard,
            Prefix::Auto,
        ),
{
    lemma_auto_step_monotonic(smaller as nat, larger as nat, standard.spec_base());
}

/// A 64-bit count never goes past step 6 under `Auto`, so the step it picks
/// always has a symbol.
pub proof fn lemma_auto_step_small(count: u64, standard: Standard)
    ensures
        auto_step(count as nat, standard.spec_base()) <= 6,
{
    let base = standard.spec_base();
    let s = auto_step(count as nat, base);
    if s >= 7 {
        lemma_auto_step_bounds(count as nat, base);
        lemma_power_ordered(1000, base, 7, s);
        lemma_power_values();
    }
}

/// Under `Auto` a count below the base is shown as plain bytes.
pub proof fn lemma_auto_below_base(count: u64, standard: Standard, precision: u32)
    requires
        count < standard.spec_base(),
    ensures
        format_bytes_spec(count, standard, Prefix::Auto, precision) == plain_text(count),
{
}

/// Zero bytes are shown as `0 B` whenever the prefix does not force a
/// magnitude.
pub proof fn lemma_zero_bytes(standard: Standard, prefix: Prefix, precision: u32)
    requires
        prefix == Prefix::Auto || prefix == Prefix::Plain,
    ensures
        format_bytes_spec(0, standard, prefix, precision) =~= seq!['0', ' ', 'B'],
{
}

/// The rounded quotient is a nearest whole number: it is off from the true
/// quotient by at most one half.
pub proof fn lemma_round_half_even_is_nearest(num: nat, den: nat)
    requires
        den > 0,
    ensures
        -(den as int) <= 2 * (round_half_even(num, den) * den - num) <= den,
{
    let q = num / den;
    let r = num % den;
    assert(num == q * den + r && r < den) by (nonlinear_arith)
        requires
            q == num / den,
            r == num % den,
            den > 0,
    ;
    assert((q + 1) * den == q * den + den) by (nonlinear_arith);
}

/// A number written with fractional digits has exactly as many of them as
/// were asked for: digits only, then the decimal point, then that many
/// digits. Written with none, it is digits only.
pub proof fn lemma_fixed_point_shape(num: nat, den: nat, digits: nat)
    requires
        den > 0,
    ensures
        ({
            let text = fixed_point(num, den, digits);
            let point = text.len() - digits - 1;
            if digits == 0 {
                text.len() > 0 && all_digits(text)
            } else {
                &&& point > 0
                &&& text[point] == '.'
                &&& all_digits(text.take(point))
                &&& all_digits(text.skip(point + 1))
                &&& text.skip(point + 1).len() == digits
            }
        }),
{
    let unit = power(10, digits);
    let scaled = round_half_even(num * unit, den);
    let whole = decimal(scaled / unit);
    let frac = padded(scaled % unit, digits);
    lemma_decimal_value(scaled / unit);
    lemma_padded_shape(scaled % unit, digits);
    if digits > 0 {
        let text = fixed_point(num, den, digits);
        let point = text.len() - digits - 1;
        assert(point == whole.len());
        assert(text.take(point) =~= whole);
        assert(text.skip(point + 1) =~= frac);
    }
}

/// The zero-padded text of a number stands for the number's last digits.
pub proof fn lemma_padded_value(n: nat, width: nat)
    ensures
        digits_value(padded(n, width)) == n % power(10, width),
    decreases width,
{
    if width == 0 {
    } else {
        let unit = power(10, (width - 1) as nat);
        let upper = n / 10;
        lemma_padded_value(upper, (width - 1) as nat);
        lemma_power_ordered(10, 10, 0, (width - 1) as nat);
        lemma_digit_char(n % 10);
        let s = padded(n, width);
        assert(s.drop_last() =~= padded(upper, (width - 1) as nat));
        assert(s.last() == digit_char(n % 10));
        let a = upper / unit;
        let b = upper % unit;
        assert(upper == unit * a + b && b < unit) by (nonlinear_arith)
            requires
                a == upper / unit,
                b == upper % unit,
                unit >= 1,
        ;
        assert(n == (10 * unit) * a + (10 * b + n % 10)) by (nonlinear_arith)
            requires
                upper == unit * a + b,
                n == 10 * upper + n % 10,
        ;
        lemma_fundamental_div_mod_converse(
            n as int,
            (10 * unit) as int,
            a as int,
            (10 * b + n % 10) as int,
        );
    }
}

/// The number that is shown is the rounded quotient: read as whole numbers,
/// the digits before the decimal point and the digits after it make up the
/// quotient of `num` and `den` in units of the last digit, rounded to the
/// nearest, a tie going to the even one.
pub proof fn lemma_fixed_point_value(num: nat, den: nat, digits: nat)
    requires
        den > 0,
    ensures
        ({
            let text = fixed_point(num, den, digits);
            let scaled = round_half_even(num * power(10, digits), den);
            let point = text.len() - digits - 1;
            if digits == 0 {
                digits_value(text) == scaled
            } else {
                digits_value(text.take(point)) * power(10, digits) + digits_value(
                    text.skip(point + 1),
                ) == scaled
            }
        }),
{
    let unit = power(10, digits);
    let scaled = round_half_even(num * unit, den);
    let whole = decimal(scaled / unit);
    let frac = padded(scaled % unit, digits);
    lemma_power_ordered(10, 10, 0, digits);
    lemma_decimal_value(scaled / unit);
    lemma_padded_shape(scaled % unit, digits);
    lemma_padded_value(scaled % unit, digits);
    let w = scaled / unit;
    let f = scaled % unit;
    assert(scaled == w * unit + f && f < unit) by (nonlinear_arith)
        requires
            w == scaled / unit,
            f == scaled % unit,
            unit >= 1,
    ;
    assert(f % unit == f) by (nonlinear_arith)
        requires
            f < unit,
    ;
    if digits == 0 {
        assert(w * unit == w) by (nonlinear_arith)
            requires
                unit == 1,
        ;
    } else {
        let text = fixed_point(num, den, digits);
        let point = text.len() - digits - 1;
        assert(point == whole.len());
        assert(text.take(point) =~= whole);
        assert(text.skip(point + 1) =~= frac);
    }
}

/// A run of digits, as characters, is the zero-padded text of its number,
/// which is below the power of ten of its length.
proof fn lemma_digits_text(s: Seq<u8>)
    requires
        valid_digits(s),
    ensures
        digits_text(s) =~= padded(digits_number(s), s.len()),
        digits_number(s) < power(10, s.len()),
    decreases s.len(),
{
    if s.len() == 0 {
    } else {
        let init = s.drop_last();
        lemma_digits_text(init);
        let n = digits_number(s);
        assert(n / 10 == digits_number(init) && n % 10 == s.last() as nat) by {
            lemma_fundamental_div_mod_converse(
                n as int,
                10,
                digits_number(init) as int,
                s.last() as int,
            );
        }
        assert(digits_text(s) =~= digits_text(init).push(digit_char(s.last() as nat)));
    }
}

/// Adding one to a run of digits: where the digits from `split` on were all
/// nines and are now zeros, and the part before them has grown by one, up to
/// a carry out of it, the whole has grown by one up to the same carry.
proof fn lemma_carry(before: Seq<u8>, after: Seq<u8>, split: int, carry: nat)
    requires
        before.len() == after.len(),
        0 <= split <= before.len(),
        forall|j: int| split <= j < before.len() ==> before[j] == 9 && after[j] == 0,
        digits_number(after.take(split)) + carry * power(10, split as nat) == digits_number(
            before.take(split),
        ) + 1,
    ensures
        digits_number(after) + carry * power(10, before.len()) == digits_number(before) + 1,
    decreases before.len() - split,
{
    if split == before.len() {
        assert(before.take(split) =~= before);
        assert(after.take(split) =~= after);
    } else {
        let b = before.drop_last();
        let a = after.drop_last();
        assert(b.take(split) =~= before.take(split));
        assert(a.take(split) =~= after.take(split));
        lemma_carry(b, a, split, carry);
        let unit = power(10, b.len());
        assert(power(10, before.len()) == 10 * unit);
        assert(carry * (10 * unit) == 10 * (carry * unit)) by (nonlinear_arith);
    }
}

/// The step that `Auto` picks for a count.
pub fn auto_step_of(count: u64, standard: Standard) -> (step: usize)
    ensures
        step == auto_step(count as nat, standard.spec_base()),
        step <= 6,
{
    let k = standard.base();
    let mut x = count;
    let mut step: usize = 0;
    proof {
        lemma_auto_step_small(count, standard);
    }
    while x >= k
        invariant
            k == standard.spec_base(),
            auto_step(count as nat, k as nat) == step + auto_step(x as nat, k as nat),
            auto_step(count as nat, k as nat) <= 6,
        decreases x,
    {
        x = x / k;
        step += 1;
    }
    step
}

/// The divisor of a magnitude step: the base to the power of the step.
pub fn divisor(standard: Standard, step: usize) -> (d: u128)
    requires
        step <= MAX_STEP,
    ensures
        d == power(standard.spec_base(), step as nat),
        0 < d <= MAX_DIVISOR,
{
    let k = standard.base() as u128;
    let mut d: u128 = 1;
    let mut i: usize = 0;
    proof {
        lemma_power_ordered(k as nat, 1024, 0, 8);
    }
    while i < step
        invariant
            i <= step <= MAX_STEP,
            k == standard.spec_base(),
            d == power(k as nat, i as nat),
            0 < d <= MAX_DIVISOR,
        decreases step - i,
    {
        proof {
            lemma_power_ordered(k as nat, 1024, (i + 1) as nat, 8);
            lemma_power_values();
        }
        d = d * k;
        i += 1;
    }
    d
}

/// The first `digits` fractional digits of `rest / den`, cut off, and what
/// is left over after them.
fn fraction_digits(rest: u128, den: u128, digits: u32) -> (out: (Vec<u8>, u128))
    requires
        rest < den <= u128::MAX / 10,
    ensures
        out.0@.len() == digits,
        valid_digits(out.0@),
        out.1 < den,
        rest * power(10, digits as nat) == digits_number(out.0@) * den + out.1,
{
    let mut frac: Vec<u8> = Vec::new();
    let mut r: u128 = rest;
    let mut i: u32 = 0;
    assert(rest * power(10, 0) == digits_number(frac@) * den + r) by (nonlinear_arith)
        requires
            power(10, 0) == 1,
            digits_number(frac@) == 0,
            r == rest,
    ;
    while i < digits
        invariant
            i <= digits,
            frac@.len() == i,
            valid_digits(frac@),
            r < den <= u128::MAX / 10,
            rest * power(10, i as nat) == digits_number(frac@) * den + r,
        decreases digits - i,
    {
        let t: u128 = r * 10;
        let d128: u128 = t / den;
        let left: u128 = t % den;
        assert(d128 < 10 && t == d128 * den + left) by (nonlinear_arith)
            requires
                d128 == t / den,
                left == t % den,
                t < 10 * den,
                den > 0,
        ;
        let d: u8 = d128 as u8;
        let ghost old_frac = frac@;
        frac.push(d);
        proof {
            assert(frac@.drop_last() =~= old_frac);
            let f = digits_number(old_frac);
            let p = power(10, i as nat);
            assert(power(10, (i + 1) as nat) == 10 * p);
            assert(rest * (10 * p) == (f * 10 + d) * den + left) by (nonlinear_arith)
                requires
                    rest * p == f * den + r,
                    r * 10 == d * den + left,
            ;
        }
        r = left;
        i += 1;
    }
    (frac, r)
}

/// Adds one to a run of digits in place and says whether the addition ran
/// out of it at the front.
fn increment(digits: &mut Vec<u8>) -> (carry: bool)
    requires
        valid_digits(old(digits)@),
    ensures
        final(digits)@.len() == old(digits)@.len(),
        valid_digits(final(digits)@),
        digits_number(final(digits)@) + (if carry {
            power(10, old(digits)@.len())
        } else {
            0
        }) == digits_number(old(digits)@) + 1,
{
    let n = digits.len();
    let mut i: usize = n;
    while i > 0
        invariant
            i <= n,
            n == digits@.len(),
            n == old(digits)@.len(),
            valid_digits(digits@),
            valid_digits(old(digits)@),
            digits@.take(i as int) =~= old(digits)@.take(i as int),
            forall|j: int| i <= j < n ==> old(digits)@[j] == 9 && digits@[j] == 0,
        decreases i,
    {
        let d = digits[i - 1];
        assert(d == old(digits)@.take(i as int)[i - 1]);
        if d < 9 {
            digits.set(i - 1, d + 1);
            proof {
                let before = old(digits)@;
                let after = digits@;
                assert(after.take(i as int).drop_last() =~= before.take(i as int).drop_last());
                assert(after.take(i as int).last() == d + 1);
                assert(before.take(i as int).last() == d);
                lemma_carry(before, after, i as int, 0);
            }
            return false;
        }
        digits.set(i - 1, 0);
        i -= 1;
    }
    proof {
        let before = old(digits)@;
        let after = digits@;
        assert(before.take(0) =~= Seq::<u8>::empty());
        assert(after.take(0) =~= Seq::<u8>::empty());
        lemma_carry(before, after, 0, 1);
        assert(1 * power(10, n as nat) == power(10, n as nat)) by (nonlinear_arith);
    }
    true
}

/// Appends a run of digits as characters.
fn push_digits(out: &mut String, digits: &Vec<u8>)
    requires
        valid_digits(digits@),
    ensures
        final(out)@ == old(out)@ + digits_text(digits@),
{
    let n = digits.len();
    let mut i: usize = 0;
    assert(out@ =~= old(out)@ + digits_text(digits@).take(0));
    while i < n
        invariant
            i <= n,
            n == digits@.len(),
            valid_digits(digits@),
            out@ =~= old(out)@ + digits_text(digits@).take(i as int),
        decreases n - i,
    {
        out.append(digit_str(digits[i]));
        assert(digits_text(digits@).take(i + 1) =~= digits_text(digits@).take(i as int).push(
            digit_char(digits@[i as int] as nat),
        ));
        i += 1;
    }
    assert(digits_text(digits@).take(n as int) =~= digits_text(digits@));
}

/// The whole part and the remainder of a division fix the rounded quotient:
/// it is the whole part, or one more where the remainder is past the half or
/// at the half with an odd whole part.
proof fn lemma_rounding(num: nat, den: nat, whole: nat, rest: nat)
    requires
        den > 0,
        rest < den,
        num == whole * den + rest,
    ensures
        num / den == whole,
        num % den == rest,
        round_half_even(num, den) == whole + (if 2 * rest > den || (2 * rest == den && whole % 2
            == 1) {
            1nat
        } else {
            0nat
        }),
{
    assert(whole * den == den * whole) by (nonlinear_arith);
    lemma_fundamental_div_mod_converse(num as int, den as int, whole as int, rest as int);
}

/// Appends `num / den` with exactly `digits` fractional digits, rounded to
/// the nearest such number, a tie going to the even last digit. The divisor
/// must leave room for one more decimal digit in 128 bits.
pub fn push_fixed_point(out: &mut String, num: u64, den: u128, digits: u32)
    requires
        0 < den <= u128::MAX / 10,
    ensures
        final(out)@ == old(out)@ + fixed_point(num as nat, den as nat, digits as nat),
{
    let q: u128 = num as u128 / den;
    let r0: u128 = num as u128 % den;
    assert(q <= num && num == q * den + r0 && r0 < den) by (nonlinear_arith)
        requires
            q == num as u128 / den,
            r0 == num as u128 % den,
            den > 0,
    ;
    let (mut frac, r) = fraction_digits(r0, den, digits);
    let ghost unit = power(10, digits as nat);
    let ghost f = digits_number(frac@);
    let ghost trunc: nat = (q * unit + f) as nat;
    proof {
        lemma_digits_text(frac@);
        assert(num * unit == trunc * den + r) by (nonlinear_arith)
            requires
                num == q * den + r0,
                r0 * unit == f * den + r,
                trunc == q * unit + f,
        ;
        lemma_rounding(num as nat * unit, den as nat, trunc, r as nat);
    }
    let last_odd = if digits == 0 {
        q % 2 == 1
    } else {
        frac[(digits - 1) as usize] % 2 == 1
    };
    proof {
        if digits == 0 {
            assert(frac@ =~= Seq::<u8>::empty());
            assert(trunc == q) by (nonlinear_arith)
                requires
                    trunc == q * unit + f,
                    unit == 1,
                    f == 0,
            ;
        } else {
            let rest_unit = power(10, (digits - 1) as nat);
            let init = digits_number(frac@.drop_last());
            let last = frac@.last();
            assert(unit == 10 * rest_unit);
            assert(trunc == 2 * (5 * (q * rest_unit + init)) + last) by (nonlinear_arith)
                requires
                    trunc == q * unit + f,
                    unit == 10 * rest_unit,
                    f == init * 10 + last,
            ;
        }
        assert(last_odd == (trunc % 2 == 1));
    }
    let twice: u128 = r * 2;
    let up = twice > den || (twice == den && last_odd);
    let ghost scaled = round_half_even(num as nat * unit, den as nat);
    assert(scaled == trunc + (if up {
        1nat
    } else {
        0nat
    }));
    let mut whole: u128 = q;
    if up {
        let carry = increment(&mut frac);
        if carry {
            whole = q + 1;
        }
        proof {
            let g = digits_number(frac@);
            let c: nat = if carry {
                1
            } else {
                0
            };
            assert(scaled == (q + c) * unit + g) by (nonlinear_arith)
                requires
                    scaled == q * unit + f + 1,
                    g + c * unit == f + 1,
            ;
        }
    }
    proof {
        lemma_digits_text(frac@);
        let g = digits_number(frac@);
        assert(scaled == whole * unit + g);
        lemma_power_ordered(10, 10, 0, digits as nat);
        assert(whole * unit == unit * whole) by (nonlinear_arith);
        lemma_fundamental_div_mod_converse(scaled as int, unit as int, whole as int, g as int);
        assert(scaled / unit == whole);
        assert(scaled % unit == g);
        assert(whole <= u64::MAX) by (nonlinear_arith)
            requires
                scaled == whole * unit + g,
                unit >= 1,
                scaled <= trunc + 1,
                trunc * den + r == num * unit,
                den >= 1,
                num <= u64::MAX,
                whole == q || (whole == q + 1 && up),
                up ==> 2 * r >= den && r > 0,
                q <= num,
                num == q * den + r0,
        ;
    }
    push_decimal(out, whole as u64);
    if digits > 0 {
        proof {
            reveal_strlit(".");
        }
        out.append(".");
        push_digits(out, &frac);
    }
    assert(out@ =~= old(out)@ + fixed_point(num as nat, den as nat, digits as nat));
}

/// The text of a count at a given magnitude step: plain bytes for step 0 and
/// for a step past the last one that has a symbol.
pub fn format_with_step(count: u64, standard: Standard, step: usize, precision: u32) -> (s:
    String)
    ensures
        s@ == scaled_text(count, standard, step as nat, precision),
{
    let mut s = String::new();
    if step == 0 || step > MAX_STEP {
        proof {
            reveal_strlit(" B");
        }
        push_decimal(&mut s, count);
        s.append(" B");
        assert(s@ =~= plain_text(count));
        return s;
    }
    proof {
        reveal_strlit(" ");
        reveal_strlit("B");
    }
    push_fixed_point(&mut s, count, divisor(standard, step), precision);
    s.append(" ");
    s.append(symbol_str(step));
    s.append(standard.infix());
    s.append("B");
    assert(s@ =~= scaled_text(count, standard, step as nat, precision));
    s
}

/// The text of a byte count: `<count> B` at step 0, else
/// `<value> <symbol><infix>B` with `precision` fractional digits.
pub fn format_bytes(count: u64, standard: Standard, prefix: Prefix, precision: u32) -> (s: String)
    ensures
        s@ == format_bytes_spec(count, standard, prefix, precision),
{
    let step = match prefix.step() {
        Some(step) => step,
        None => auto_step_of(count, standard),
    };
    format_with_step(count, standard, step, precision)
}

} // verus!
