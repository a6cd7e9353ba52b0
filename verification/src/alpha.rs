//! Decimal notation of an opacity sample as a fraction of full opacity.
//!
//! An opacity sample `a` between 0 and 255 is written as the shortest
//! decimal fraction that still identifies the single-precision binary
//! number nearest to `a / 255`. Everything here is stated and computed over
//! integers: the binary number is `single_mantissa(a) / 2^single_scale(a)`,
//! and a decimal `n / 10^k` identifies it when it lies within half a unit
//! of the mantissa's last place.

use vstd::prelude::*;
use crate::decimal::{append_padded_decimal, padded_decimal_text};

verus! {

/// `b` to the power `e`.
pub open spec fn power(b: nat, e: nat) -> nat
    decreases e,
{
    if e == 0 {
        1
    } else {
        b * power(b, (e - 1) as nat)
    }
}

/// The least `s` from `start` on, and at most 31, with
/// `a * 2^s >= 255 * 2^23`.
pub open spec fn scale_from(a: nat, start: nat) -> nat
    decreases 31 - start,
{
    if start >= 31 || a * power(2, start) >= 255 * power(2, 23) {
        start
    } else {
        scale_from(a, start + 1)
    }
}

/// The binary scale of `a / 255` with a mantissa of 24 bits: the `s` with
/// `2^23 <= (a / 255) * 2^s < 2^24`, for `a` from 1 to 255.
pub open spec fn single_scale(a: nat) -> nat {
    scale_from(a, 23)
}

/// The mantissa of the single-precision number nearest to `a / 255`:
/// `a * 2^s / 255` rounded to the nearest integer. (The quotient is never
/// halfway between two integers, because 255 is odd.)
pub open spec fn single_mantissa(a: nat) -> nat {
    (2 * a * power(2, single_scale(a)) + 255) / 510
}

/// How far the decimal `n / 10^k` lies from the binary number of `a`, in
/// units of `1 / (2^(s+1) * 10^k)`.
pub open spec fn decimal_gap(a: nat, n: nat, k: nat) -> nat {
    let left = n * power(2, single_scale(a) + 1);
    let right = 2 * single_mantissa(a) * power(10, k);
    if left >= right {
        (left - right) as nat
    } else {
        (right - left) as nat
    }
}

/// Whether the decimal `n / 10^k` identifies the binary number of `a`: it
/// lies less than half a unit of the last mantissa place away from it, or
/// exactly half a unit where the mantissa is even.
pub open spec fn reads_back(a: nat, n: nat, k: nat) -> bool {
    let gap = decimal_gap(a, n, k);
    gap < power(10, k) || (gap == power(10, k) && single_mantissa(a) % 2 == 0)
}

/// The binary number of `a` rounded to `k` decimal places, as a multiple
/// of `1 / 10^k`.
pub open spec fn rounded_decimal(a: nat, k: nat) -> nat {
    (2 * single_mantissa(a) * power(10, k) + power(2, single_scale(a))) / power(
        2,
        single_scale(a) + 1,
    )
}

/// The least number of places from `start` on, and at most 10, at which
/// the rounded decimal identifies the binary number of `a`.
pub open spec fn places_from(a: nat, start: nat) -> nat
    decreases 10 - start,
{
    if start >= 10 || reads_back(a, rounded_decimal(a, start), start) {
        start
    } else {
        places_from(a, start + 1)
    }
}

/// The number of decimal places in the notation of `a / 255`.
pub open spec fn alpha_places(a: nat) -> nat {
    places_from(a, 1)
}

/// The notation of the opacity `a / 255`: `0` and `1` at the two ends, and
/// between them a zero, a point and the digits of the shortest decimal
/// that identifies the single-precision number nearest to `a / 255`.
pub open spec fn alpha_text(a: u8) -> Seq<char> {
    if a == 0 {
        seq!['0']
    } else if a == 255 {
        seq!['1']
    } else {
        seq!['0', '.'] + padded_decimal_text(
            rounded_decimal(a as nat, alpha_places(a as nat)),
            alpha_places(a as nat),
        )
    }
}

proof fn lemma_power_2_23()
    ensures
        power(2, 23) == 8388608,
{
    reveal_with_fuel(power, 24);
}

proof fn lemma_power_step(b: nat, e: nat)
    ensures
        power(b, e + 1) == b * power(b, e),
{
}

proof fn lemma_power_positive(b: nat, e: nat)
    requires
        b > 0,
    ensures
        power(b, e) > 0,
    decreases e,
{
    if e > 0 {
        lemma_power_positive(b, (e - 1) as nat);
        assert(b * power(b, (e - 1) as nat) > 0) by (nonlinear_arith)
            requires
                b > 0,
                power(b, (e - 1) as nat) > 0,
        ;
    }
}

proof fn lemma_power_monotonic(b: nat, e1: nat, e2: nat)
    requires
        b > 0,
        e1 <= e2,
    ensures
        power(b, e1) <= power(b, e2),
    decreases e2,
{
    if e1 < e2 {
        lemma_power_monotonic(b, e1, (e2 - 1) as nat);
        lemma_power_positive(b, (e2 - 1) as nat);
        assert(power(b, (e2 - 1) as nat) <= b * power(b, (e2 - 1) as nat)) by (nonlinear_arith)
            requires
                b > 0,
                power(b, (e2 - 1) as nat) > 0,
        ;
    }
}

/// The scale lies between 23 and 31, and with it `a * 2^s / 255` lies
/// between `2^23` and `2^24`.
pub proof fn lemma_scale_bounds(a: nat)
    requires
        1 <= a <= 255,
    ensures
        23 <= single_scale(a) <= 31,
        255 * power(2, 23) <= a * power(2, single_scale(a)) < 510 * power(2, 23),
{
    lemma_power_2_23();
    lemma_scale_from_bounds(a, 23);
}

proof fn lemma_scale_from_bounds(a: nat, start: nat)
    requires
        1 <= a <= 255,
        23 <= start <= 31,
        a * power(2, start) < 510 * power(2, 23),
    ensures
        start <= scale_from(a, start) <= 31,
        255 * power(2, 23) <= a * power(2, scale_from(a, start)) < 510 * power(2, 23),
    decreases 31 - start,
{
    lemma_power_2_23();
    if start >= 31 {
        reveal_with_fuel(power, 9);
        assert(power(2, 31) == 256 * power(2, 23));
        assert(a * power(2, 31) >= 255 * power(2, 23)) by (nonlinear_arith)
            requires
                a >= 1,
                power(2, 31) == 256 * 8388608,
                power(2, 23) == 8388608,
        ;
    } else if a * power(2, start) >= 255 * power(2, 23) {
    } else {
        lemma_power_step(2, start);
        assert(a * power(2, start + 1) == 2 * (a * power(2, start))) by (nonlinear_arith)
            requires
                power(2, start + 1) == 2 * power(2, start),
        ;
        lemma_scale_from_bounds(a, start + 1);
    }
}

/// The mantissa has 24 bits, and it is the integer nearest to
/// `a * 2^s / 255`.
pub proof fn lemma_mantissa_bounds(a: nat)
    requires
        1 <= a <= 255,
    ensures
        power(2, 23) <= single_mantissa(a) <= 2 * power(2, 23),
        2 * a * power(2, single_scale(a)) - 255 < 510 * single_mantissa(a) <= 2 * a * power(
            2,
            single_scale(a),
        ) + 255,
{
    lemma_scale_bounds(a);
    lemma_power_2_23();
    let x = a * power(2, single_scale(a));
    assert(2 * a * power(2, single_scale(a)) == 2 * x) by (nonlinear_arith)
        requires
            x == a * power(2, single_scale(a)),
    ;
}

proof fn lemma_power_10_10()
    ensures
        power(10, 10) == 10000000000,
{
    reveal_with_fuel(power, 11);
}

proof fn lemma_power_2_31()
    ensures
        power(2, 31) == 2147483648,
{
    lemma_power_2_23();
    reveal_with_fuel(power, 9);
    assert(power(2, 31) == 256 * power(2, 23));
}

/// Rounding a quotient to the nearest integer: with an even divisor `2 * h`
/// the rounded quotient of `x` is at most `h` away from `x`, and no other
/// multiple of the divisor is nearer.
proof fn lemma_rounded_quotient(x: nat, h: nat, n: nat)
    requires
        h > 0,
    ensures
        ({
            let r = (x + h) / (2 * h);
            let gap_r = if r * (2 * h) >= x {
                r * (2 * h) - x
            } else {
                x - r * (2 * h)
            };
            let gap_n = if n * (2 * h) >= x {
                n * (2 * h) - x
            } else {
                x - n * (2 * h)
            };
            gap_r <= h && gap_r <= gap_n
        }),
{
    let d = 2 * h;
    let r = (x + h) / d;
    assert(r * d <= x + h < r * d + d) by (nonlinear_arith)
        requires
            r == (x + h) / d,
            d > 0,
    ;
    if n >= r + 1 {
        assert(n * d >= r * d + d) by (nonlinear_arith)
            requires
                n >= r + 1,
                d > 0,
        ;
    } else if n + 1 <= r {
        assert(n * d + d <= r * d) by (nonlinear_arith)
            requires
                n + 1 <= r,
                d > 0,
        ;
    }
}

/// Among the decimals with `k` places, none lies nearer to the binary
/// number of `a` than the rounded one.
pub proof fn lemma_rounded_is_nearest(a: nat, n: nat, k: nat)
    requires
        1 <= a <= 255,
    ensures
        decimal_gap(a, rounded_decimal(a, k), k) <= decimal_gap(a, n, k),
        decimal_gap(a, rounded_decimal(a, k), k) <= power(2, single_scale(a)),
{
    let s = single_scale(a);
    lemma_power_positive(2, s);
    lemma_power_step(2, s);
    lemma_rounded_quotient(2 * single_mantissa(a) * power(10, k), power(2, s), n);
}

/// A decimal that identifies the binary number of `a` at `k` places makes
/// the rounded decimal identify it too.
pub proof fn lemma_rounded_reads_back(a: nat, n: nat, k: nat)
    requires
        1 <= a <= 255,
        reads_back(a, n, k),
    ensures
        reads_back(a, rounded_decimal(a, k), k),
{
    lemma_rounded_is_nearest(a, n, k);
}

proof fn lemma_places_from(a: nat, start: nat)
    requires
        1 <= a <= 255,
        1 <= start <= 10,
    ensures
        start <= places_from(a, start) <= 10,
        reads_back(a, rounded_decimal(a, places_from(a, start)), places_from(a, start)),
        forall|k: nat|
            start <= k < places_from(a, start) ==> !reads_back(a, #[trigger] rounded_decimal(a, k), k),
    decreases 10 - start,
{
    if start >= 10 {
        lemma_rounded_is_nearest(a, 0, 10);
        lemma_scale_bounds(a);
        lemma_power_monotonic(2, single_scale(a), 31);
        lemma_power_2_31();
        lemma_power_10_10();
    } else if reads_back(a, rounded_decimal(a, start), start) {
    } else {
        lemma_places_from(a, start + 1);
    }
}

/// The notation of `a / 255` identifies the single-precision number
/// nearest to `a / 255`, and it has between one and ten places.
pub proof fn lemma_notation_reads_back(a: nat)
    requires
        1 <= a <= 255,
    ensures
        1 <= alpha_places(a) <= 10,
        reads_back(a, rounded_decimal(a, alpha_places(a)), alpha_places(a)),
{
    lemma_places_from(a, 1);
}

/// No decimal with fewer places (and at least one) identifies the
/// single-precision number nearest to `a / 255`.
pub proof fn lemma_notation_is_shortest(a: nat, n: nat, k: nat)
    requires
        1 <= a <= 255,
        1 <= k < alpha_places(a),
    ensures
        !reads_back(a, n, k),
{
    lemma_places_from(a, 1);
    if reads_back(a, n, k) {
        lemma_rounded_reads_back(a, n, k);
        assert(!reads_back(a, rounded_decimal(a, k), k));
    }
}

/// The scale of `a` together with `2^scale`.
fn scale_of(a: u8) -> (r: (u32, u64))
    requires
        1 <= a,
    ensures
        r.0 == single_scale(a as nat),
        r.1 == power(2, single_scale(a as nat)),
        23 <= r.0 <= 31,
        r.1 <= 2147483648,
{
    let mut s: u32 = 23;
    let mut p: u64 = 8388608;
    proof {
        lemma_power_2_23();
        lemma_power_2_31();
        lemma_scale_bounds(a as nat);
        lemma_power_monotonic(2, single_scale(a as nat), 31);
    }
    loop
        invariant
            23 <= s <= 31,
            p == power(2, s as nat),
            p <= 2147483648,
            power(2, 23) == 8388608,
            power(2, 31) == 2147483648,
            scale_from(a as nat, s as nat) == single_scale(a as nat),
        ensures
            s == single_scale(a as nat),
        decreases 31 - s,
    {
        assert((a as u64) * p <= 255 * 2147483648) by (nonlinear_arith)
            requires
                a <= 255,
                p <= 2147483648,
        ;
        if s >= 31 || (a as u64) * p >= 2139095040 {
            break ;
        }
        proof {
            lemma_power_step(2, s as nat);
            lemma_power_monotonic(2, (s + 1) as nat, 31);
        }
        s = s + 1;
        p = p * 2;
    }
    (s, p)
}

/// Appends the notation of the opacity `a / 255` to `out`.
pub fn append_alpha(out: &mut String, a: u8)
    ensures
        final(out)@ == old(out)@ + alpha_text(a),
{
    if a == 0 {
        out.push('0');
        return ;
    }
    if a == 255 {
        out.push('1');
        return ;
    }
    let (s, p) = scale_of(a);
    proof {
        lemma_power_2_23();
        lemma_power_10_10();
        lemma_scale_bounds(a as nat);
        lemma_mantissa_bounds(a as nat);
        lemma_power_step(2, s as nat);
        lemma_places_from(a as nat, 1);
        lemma_power_positive(2, s as nat);
        assert(power(10, 1) == 10) by {
            reveal_with_fuel(power, 2);
        }
        assert(2 * (a as nat) * power(2, s as nat) == 2 * (a * p)) by (nonlinear_arith)
            requires
                p == power(2, s as nat),
        ;
        assert((a as u64) * p <= 255 * 2147483648) by (nonlinear_arith)
            requires
                a <= 255,
                p <= 2147483648,
        ;
    }
    let m: u64 = (2 * ((a as u64) * p) + 255) / 510;
    assert(m == single_mantissa(a as nat));
    let mut k: u32 = 1;
    let mut q: u64 = 10;
    let mut n: u64 = 0;
    loop
        invariant_except_break
            1 <= k <= 10,
        invariant
            q == power(10, k as nat),
            q <= 10000000000,
            power(10, 10) == 10000000000,
            p == power(2, s as nat),
            2 * p == power(2, (s + 1) as nat),
            0 < p <= 2147483648,
            s == single_scale(a as nat),
            m == single_mantissa(a as nat),
            m <= 16777216,
            places_from(a as nat, k as nat) == alpha_places(a as nat),
        ensures
            k == alpha_places(a as nat),
            n == rounded_decimal(a as nat, k as nat),
        decreases 10 - k,
    {
        assert(2 * m * q <= 2 * 16777216 * 10000000000) by (nonlinear_arith)
            requires
                m <= 16777216,
                q <= 10000000000,
        ;
        assert(2 * (m as nat) * power(10, k as nat) == 2 * m * q);
        let x: u64 = 2 * m * q;
        n = (x + p) / (2 * p);
        assert(n * (2 * p) <= x + p) by (nonlinear_arith)
            requires
                n == (x + p) / (2 * p),
                p > 0,
        ;
        assert(n == rounded_decimal(a as nat, k as nat));
        let left: u64 = n * (2 * p);
        let gap: u64 = if left >= x {
            left - x
        } else {
            x - left
        };
        assert(gap == decimal_gap(a as nat, n as nat, k as nat));
        if k >= 10 || gap < q || (gap == q && m % 2 == 0) {
            break ;
        }
        proof {
            lemma_power_step(10, k as nat);
            lemma_power_monotonic(10, (k + 1) as nat, 10);
        }
        k = k + 1;
        q = q * 10;
    }
    out.push('0');
    out.push('.');
    append_padded_decimal(out, n, k);
    assert(final(out)@ == old(out)@ + alpha_text(a));
}

} // verus!
