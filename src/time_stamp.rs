//! Conversion of a host timestamp, an IEEE-754 double counting
//! milliseconds, into an exact [`Duration`].
//!
//! The double is taken by its bit pattern. The result is the double's exact
//! value in nanoseconds, rounded to the nearest nanosecond with ties to even.

use vstd::prelude::*;
use vstd::arithmetic::power2::{
    pow2, lemma2_to64, lemma2_to64_rest, lemma_pow2_adds, lemma_pow2_pos, lemma_pow2_strictly_increases,
};
use vstd::arithmetic::div_mod::lemma_fundamental_div_mod_converse;

use crate::duration::{Duration, MILLIS_PER_SEC, NANOS_PER_MILLI};

verus! {

/// `n / d` rounded to the nearest integer, an exact half going to the even
/// neighbour.
pub open spec fn round_half_even(n: int, d: int) -> int {
    let q = n / d;
    let r = n % d;
    if 2 * r < d {
        q
    } else if 2 * r > d {
        q + 1
    } else if q % 2 == 0 {
        q
    } else {
        q + 1
    }
}

/// The biased exponent field of a double.
pub open spec fn exponent_field(bits: u64) -> int {
    (bits as int / 0x10_0000_0000_0000) % 0x800
}

/// The fraction field of a double: its 52 low bits.
pub open spec fn fraction_field(bits: u64) -> int {
    bits as int % 0x10_0000_0000_0000
}

/// Whether `bits` is a double that can be converted: zero or positive (a
/// negative zero included) and below 2^64, so neither infinite nor NaN.
pub open spec fn is_time_stamp(bits: u64) -> bool {
    &&& (bits < 0x8000_0000_0000_0000 || bits == 0x8000_0000_0000_0000)
    &&& exponent_field(bits) < 1087
}

/// The magnitude of the double `bits`, counted in units of 2^-1074, the
/// smallest positive double.
pub open spec fn time_stamp_units(bits: u64) -> int {
    let e = exponent_field(bits);
    let f = fraction_field(bits);
    if e == 0 {
        f
    } else {
        (0x10_0000_0000_0000 + f) * pow2((e - 1) as nat)
    }
}

/// The double `bits`, read as milliseconds, in nanoseconds: its exact value
/// times one million, rounded to the nearest integer with ties to even.
pub open spec fn time_stamp_nanos(bits: u64) -> int {
    round_half_even(time_stamp_units(bits) * 1_000_000, pow2(1074) as int)
}

proof fn lemma_round_scale(n: int, d: int, k: int)
    requires
        n >= 0,
        d > 0,
        k > 0,
    ensures
        round_half_even(n * k, d * k) == round_half_even(n, d),
{
    let q = n / d;
    let r = n % d;
    vstd::arithmetic::div_mod::lemma_fundamental_div_mod(n, d);
    vstd::arithmetic::div_mod::lemma_mod_bound(n, d);
    assert(n * k == q * (d * k) + r * k && 0 <= r * k < d * k) by (nonlinear_arith)
        requires
            n == d * q + r,
            0 <= r < d,
            k > 0,
    ;
    lemma_fundamental_div_mod_converse(n * k, d * k, q, r * k);
    assert((2 * (r * k) < d * k) == (2 * r < d)) by (nonlinear_arith)
        requires
            k > 0,
    ;
    assert((2 * (r * k) > d * k) == (2 * r > d)) by (nonlinear_arith)
        requires
            k > 0,
    ;
}

proof fn lemma_round_shift(x: int, d: int, k: int)
    requires
        x >= 0,
        d > 0,
        k >= 0,
        k % 2 == 0,
    ensures
        round_half_even(x + k * d, d) == round_half_even(x, d) + k,
{
    let q = x / d;
    let r = x % d;
    vstd::arithmetic::div_mod::lemma_fundamental_div_mod(x, d);
    vstd::arithmetic::div_mod::lemma_mod_bound(x, d);
    assert(x + k * d == (q + k) * d + r) by (nonlinear_arith)
        requires
            x == d * q + r,
    ;
    lemma_fundamental_div_mod_converse(x + k * d, d, q + k, r);
}

proof fn lemma_round_small(n: int, d: int)
    requires
        0 <= n,
        2 * n < d,
    ensures
        round_half_even(n, d) == 0,
{
    lemma_fundamental_div_mod_converse(n, d, 0, n);
}

proof fn lemma_pow2_96()
    ensures
        pow2(96) == 0x1_0000_0000_0000_0000_0000_0000,
{
    lemma2_to64();
    lemma_pow2_adds(64, 32);
}

/// Rounds `t * 10^6 / 2^96` to the nearest integer, ties to even: `t` is a
/// fraction of a millisecond in 96-bit fixed point, the result nanoseconds.
fn round_sub_milli(t: u128) -> (r: u32)
    requires
        t < 0x1_0000_0000_0000_0000_0000_0000,
    ensures
        r == round_half_even(t * 1_000_000, pow2(96) as int),
        r <= 1_000_000,
{
    let scaled: u128 = t * 1_000_000;
    let quotient: u128 = scaled >> 96u128;
    let rem: u128 = scaled & 0xffff_ffff_ffff_ffff_ffff_ffff;
    let half: u128 = 0x8000_0000_0000_0000_0000_0000;
    proof {
        lemma_pow2_96();
        vstd::bits::lemma_u128_shr_is_div(scaled, 96);
        assert(scaled & 0xffff_ffff_ffff_ffff_ffff_ffff == scaled % 0x1_0000_0000_0000_0000_0000_0000)
            by (bit_vector);
        vstd::arithmetic::div_mod::lemma_fundamental_div_mod(scaled as int, pow2(96) as int);
        assert(quotient < 1_000_000) by (nonlinear_arith)
            requires
                scaled == quotient * 0x1_0000_0000_0000_0000_0000_0000 + rem,
                rem >= 0,
                scaled < 1_000_000 * 0x1_0000_0000_0000_0000_0000_0000,
        ;
    }
    let nanos = quotient as u32;
    let round_up = rem > half || (rem == half && nanos % 2 == 1);
    if round_up {
        nanos + 1
    } else {
        nanos
    }
}

proof fn lemma_even_millis(millis: int)
    ensures
        (millis * 1_000_000) % 2 == 0,
{
    assert(millis * 1_000_000 == (millis * 500_000) * 2) by (nonlinear_arith);
    vstd::arithmetic::div_mod::lemma_mod_multiples_basic(millis * 500_000, 2);
}

/// The fields of a double, as the conversion extracts them.
proof fn lemma_fields(bits: u64)
    ensures
        (bits >> 52u64) & 0x7ff == exponent_field(bits),
        bits & 0xf_ffff_ffff_ffff == fraction_field(bits),
        (bits & 0xf_ffff_ffff_ffff) | 0x10_0000_0000_0000 == (bits & 0xf_ffff_ffff_ffff)
            + 0x10_0000_0000_0000,
        bits & 0xf_ffff_ffff_ffff < 0x10_0000_0000_0000,
{
    assert((bits >> 52u64) & 0x7ff == (bits / 0x10_0000_0000_0000) % 0x800) by (bit_vector);
    assert(bits & 0xf_ffff_ffff_ffff == bits % 0x10_0000_0000_0000) by (bit_vector);
    assert((bits & 0xf_ffff_ffff_ffff) | 0x10_0000_0000_0000 == (bits & 0xf_ffff_ffff_ffff)
        + 0x10_0000_0000_0000) by (bit_vector);
    assert(bits & 0xf_ffff_ffff_ffff < 0x10_0000_0000_0000) by (bit_vector);
}

/// Below an exponent of -21 a double of milliseconds is under half a
/// nanosecond, which rounds to zero.
proof fn lemma_below_half_nano(bits: u64)
    requires
        exponent_field(bits) < 1002,
    ensures
        time_stamp_nanos(bits) == 0,
{
    let e = exponent_field(bits);
    let f = fraction_field(bits);
    let units = time_stamp_units(bits);
    let d = pow2(1074) as int;
    lemma2_to64();
    lemma_pow2_adds(64, 10);
    lemma_pow2_adds(74, 1000);
    lemma_pow2_pos(1000);
    let p1000 = pow2(1000) as int;
    if e == 0 {
        assert(2 * (units * 1_000_000) < d) by (nonlinear_arith)
            requires
                units == f,
                0 <= f < 0x10_0000_0000_0000,
                d == 0x400_0000_0000_0000_0000 * p1000,
                p1000 > 0,
        ;
    } else {
        let p = pow2((e - 1) as nat) as int;
        if e - 1 < 1000 {
            lemma_pow2_strictly_increases((e - 1) as nat, 1000);
        }
        lemma_pow2_pos((e - 1) as nat);
        assert(2 * (units * 1_000_000) < d) by (nonlinear_arith)
            requires
                units == (0x10_0000_0000_0000 + f) * p,
                0 <= f < 0x10_0000_0000_0000,
                0 < p <= p1000,
                d == 0x400_0000_0000_0000_0000 * p1000,
        ;
    }
    lemma_round_small(units * 1_000_000, d);
}

/// Whether the double with bits `bits` can be converted by
/// [`time_stamp_to_duration`]: zero or positive, finite and below 2^64.
pub fn time_stamp_in_range(bits: u64) -> (r: bool)
    ensures
        r == is_time_stamp(bits),
{
    proof {
        lemma_fields(bits);
    }
    let exponent: u64 = (bits >> 52u64) & 0x7ff;
    (bits < 0x8000_0000_0000_0000 || bits == 0x8000_0000_0000_0000) && exponent < 1087
}

/// Converts a host timestamp, given as the bits of a double counting
/// milliseconds, into a [`Duration`]: the double's exact value rounded to the
/// nearest nanosecond, ties to even.
pub fn time_stamp_to_duration(bits: u64) -> (r: Duration)
    requires
        is_time_stamp(bits),
    ensures
        r@ == time_stamp_nanos(bits),
{
    let exponent: u64 = (bits >> 52u64) & 0x7ff;
    let fraction: u64 = bits & 0xf_ffff_ffff_ffff;
    let mantissa: u64 = fraction | 0x10_0000_0000_0000;
    proof {
        lemma_fields(bits);
        lemma2_to64();
        lemma2_to64_rest();
        lemma_pow2_adds(96, 978);
        lemma_pow2_pos(978);
        lemma_pow2_96();
    }
    let ghost units = time_stamp_units(bits);
    let ghost d = pow2(1074) as int;
    let ghost p978 = pow2(978) as int;
    if exponent < 1002 {
        proof {
            lemma_below_half_nano(bits);
        }
        return Duration::new(0, 0);
    }
    let mut millis: u64;
    let mut nanos: u32;
    if exponent < 1023 {
        // Under one millisecond: the mantissa, shifted into 96-bit fixed point,
        // is the whole timestamp.
        let shift: u64 = exponent - 979;
        proof {
            vstd::bits::lemma_u64_pow2_no_overflow(shift as nat);
            vstd::bits::lemma_u64_shl_is_mul(1, shift);
            if shift < 43 {
                lemma_pow2_strictly_increases(shift as nat, 43);
            }
            assert(mantissa * pow2(shift as nat) < 0x1_0000_0000_0000_0000_0000_0000)
                by (nonlinear_arith)
                requires
                    mantissa < 0x20_0000_0000_0000,
                    pow2(shift as nat) <= 0x800_0000_0000,
            ;
        }
        let t: u128 = (mantissa as u128) * ((1u64 << shift) as u128);
        let rounded = round_sub_milli(t);
        proof {
            let ps = pow2(shift as nat) as int;
            lemma_pow2_adds(shift as nat, 978);
            assert(units * 1_000_000 == (t * 1_000_000) * p978) by (nonlinear_arith)
                requires
                    units == mantissa * pow2((exponent - 1) as nat),
                    pow2((exponent - 1) as nat) == ps * p978,
                    t == mantissa * ps,
            ;
            lemma_round_scale(t * 1_000_000, pow2(96) as int, p978);
        }
        if rounded == NANOS_PER_MILLI {
            millis = 1;
            nanos = 0;
        } else {
            millis = 0;
            nanos = rounded;
        }
    } else if exponent < 1075 {
        // Whole milliseconds above the binary point, a fraction below it.
        let exp: u64 = exponent - 1023;
        let width: u64 = 52 - exp;
        proof {
            vstd::bits::lemma_u64_pow2_no_overflow(width as nat);
            vstd::bits::lemma_u64_shl_is_mul(1, width);
            vstd::bits::lemma_u64_shr_is_div(mantissa, width);
            vstd::bits::lemma_u64_low_bits_mask_is_mod(mantissa, width as nat);
        }
        let whole: u64 = mantissa >> width;
        let frac: u64 = mantissa & ((1u64 << width) - 1);
        proof {
            lemma_pow2_pos(width as nat);
            lemma_pow2_adds(width as nat, exp as nat);
            vstd::arithmetic::div_mod::lemma_fundamental_div_mod(
                mantissa as int,
                pow2(width as nat) as int,
            );
            vstd::arithmetic::div_mod::lemma_mod_bound(mantissa as int, pow2(width as nat) as int);
            assert(frac * pow2(exp as nat) < 0x10_0000_0000_0000) by (nonlinear_arith)
                requires
                    frac < pow2(width as nat),
                    pow2(width as nat) * pow2(exp as nat) == 0x10_0000_0000_0000,
            ;
            vstd::bits::lemma_u64_shl_is_mul(frac, exp);
            assert(whole <= mantissa) by (nonlinear_arith)
                requires
                    mantissa == pow2(width as nat) * whole + frac,
                    pow2(width as nat) > 0,
                    frac >= 0,
            ;
        }
        let t: u128 = ((frac << exp) as u128) * 0x1000_0000_0000;
        let rounded = round_sub_milli(t);
        proof {
            let pw = pow2(width as nat) as int;
            let pe = pow2(exp as nat) as int;
            lemma_pow2_adds(exp as nat, 44);
            lemma_pow2_adds((exp + 44) as nat, 978);
            lemma_pow2_adds(width as nat, (exp + 1022) as nat);
            assert(units * 1_000_000 == (t * 1_000_000) * p978 + (whole * 1_000_000) * d)
                by (nonlinear_arith)
                requires
                    units == mantissa * pow2((exponent - 1) as nat),
                    mantissa == pw * whole + frac,
                    pow2((exponent - 1) as nat) == pe * 0x1000_0000_0000 * p978,
                    pw * pow2((exponent - 1) as nat) == d,
                    t == frac * pe * 0x1000_0000_0000,
            ;
            lemma_even_millis(whole as int);
            vstd::arithmetic::mul::lemma_mul_nonnegative(t * 1_000_000, p978);
            lemma_round_shift((t * 1_000_000) * p978, d, whole * 1_000_000);
            lemma_round_scale(t * 1_000_000, pow2(96) as int, p978);
        }
        if rounded == NANOS_PER_MILLI {
            millis = whole + 1;
            nanos = 0;
        } else {
            millis = whole;
            nanos = rounded;
        }
    } else {
        // No fraction: the value is a whole number of milliseconds.
        let shift: u64 = exponent - 1075;
        proof {
            if shift < 11 {
                lemma_pow2_strictly_increases(shift as nat, 11);
            }
            assert(mantissa * pow2(shift as nat) <= u64::MAX) by (nonlinear_arith)
                requires
                    mantissa < 0x20_0000_0000_0000,
                    pow2(shift as nat) <= 0x800,
            ;
            vstd::bits::lemma_u64_shl_is_mul(mantissa, shift);
        }
        millis = mantissa << shift;
        proof {
            lemma_pow2_adds(shift as nat, 1074);
            assert(units * 1_000_000 == 0 + (millis * 1_000_000) * d) by (nonlinear_arith)
                requires
                    units == mantissa * pow2((exponent - 1) as nat),
                    pow2((exponent - 1) as nat) == pow2(shift as nat) * d,
                    millis == mantissa * pow2(shift as nat),
            ;
            lemma_even_millis(millis as int);
            lemma_round_shift(0, d, millis * 1_000_000);
            lemma_round_small(0, d);
        }
        nanos = 0;
    }
    assert(millis * 1_000_000 + nanos == time_stamp_nanos(bits) && nanos < NANOS_PER_MILLI);
    let secs = millis / MILLIS_PER_SEC;
    let carry = millis % MILLIS_PER_SEC;
    let nanos = nanos + (carry as u32) * NANOS_PER_MILLI;
    Duration::new(secs, nanos)
}

/// The magnitude bits of a double: its bits with the sign bit cleared. For
/// doubles that are not NaN they order the doubles by absolute value.
pub open spec fn time_stamp_magnitude(bits: u64) -> int {
    bits as int % 0x8000_0000_0000_0000
}

proof fn lemma_round_monotonic(n1: int, n2: int, d: int)
    requires
        0 <= n1 <= n2,
        d > 0,
    ensures
        round_half_even(n1, d) <= round_half_even(n2, d),
{
    vstd::arithmetic::div_mod::lemma_div_is_ordered(n1, n2, d);
    vstd::arithmetic::div_mod::lemma_fundamental_div_mod(n1, d);
    vstd::arithmetic::div_mod::lemma_fundamental_div_mod(n2, d);
    vstd::arithmetic::div_mod::lemma_mod_bound(n1, d);
    vstd::arithmetic::div_mod::lemma_mod_bound(n2, d);
    if n1 / d == n2 / d {
        assert(n1 % d <= n2 % d) by (nonlinear_arith)
            requires
                n1 == d * (n1 / d) + n1 % d,
                n2 == d * (n2 / d) + n2 % d,
                n1 / d == n2 / d,
                n1 <= n2,
        ;
    }
}

proof fn lemma_units_monotonic(a: u64, b: u64)
    requires
        is_time_stamp(a),
        is_time_stamp(b),
        time_stamp_magnitude(a) <= time_stamp_magnitude(b),
    ensures
        0 <= time_stamp_units(a) <= time_stamp_units(b),
{
    let ea = exponent_field(a);
    let eb = exponent_field(b);
    let fa = fraction_field(a);
    let fb = fraction_field(b);
    assert(a < 0x8000_0000_0000_0000 ==> a % 0x8000_0000_0000_0000 == (a / 0x10_0000_0000_0000)
        % 0x800 * 0x10_0000_0000_0000 + a % 0x10_0000_0000_0000) by (bit_vector);
    assert(b < 0x8000_0000_0000_0000 ==> b % 0x8000_0000_0000_0000 == (b / 0x10_0000_0000_0000)
        % 0x800 * 0x10_0000_0000_0000 + b % 0x10_0000_0000_0000) by (bit_vector);
    assert(time_stamp_magnitude(a) == ea * 0x10_0000_0000_0000 + fa);
    assert(time_stamp_magnitude(b) == eb * 0x10_0000_0000_0000 + fb);
    if ea > 0 {
        lemma_pow2_pos((ea - 1) as nat);
    }
    if eb > 0 {
        lemma_pow2_pos((eb - 1) as nat);
    }
    if ea == eb {
        assert(fa <= fb);
        if ea > 0 {
            let p = pow2((ea - 1) as nat) as int;
            assert((0x10_0000_0000_0000 + fa) * p <= (0x10_0000_0000_0000 + fb) * p)
                by (nonlinear_arith)
                requires
                    fa <= fb,
                    p > 0,
            ;
        }
    } else {
        assert(ea < eb) by (nonlinear_arith)
            requires
                ea * 0x10_0000_0000_0000 + fa <= eb * 0x10_0000_0000_0000 + fb,
                0 <= fa < 0x10_0000_0000_0000,
                0 <= fb < 0x10_0000_0000_0000,
                ea != eb,
        ;
        let pb = pow2((eb - 1) as nat) as int;
        assert(0x10_0000_0000_0000 * pb <= time_stamp_units(b)) by (nonlinear_arith)
            requires
                time_stamp_units(b) == (0x10_0000_0000_0000 + fb) * pb,
                fb >= 0,
                pb > 0,
        ;
        if ea == 0 {
            assert(time_stamp_units(a) < 0x10_0000_0000_0000 * pb) by (nonlinear_arith)
                requires
                    time_stamp_units(a) == fa,
                    fa < 0x10_0000_0000_0000,
                    pb > 0,
            ;
        } else {
            let pa = pow2((ea - 1) as nat) as int;
            lemma_pow2_adds((ea - 1) as nat, 1);
            if ea < eb - 1 {
                lemma_pow2_strictly_increases(ea as nat, (eb - 1) as nat);
            }
            lemma2_to64();
            assert(time_stamp_units(a) < 0x10_0000_0000_0000 * pb) by (nonlinear_arith)
                requires
                    time_stamp_units(a) == (0x10_0000_0000_0000 + fa) * pa,
                    fa < 0x10_0000_0000_0000,
                    pa > 0,
                    pa * 2 <= pb,
            ;
        }
    }
}

/// Later host timer readings never give an earlier instant: of two
/// timestamps that can be converted, the one with the larger value converts to
/// the longer duration. So instants taken from a timer that does not run
/// backwards are in the order they were taken.
pub proof fn lemma_time_stamp_monotonic(a: u64, b: u64)
    requires
        is_time_stamp(a),
        is_time_stamp(b),
        time_stamp_magnitude(a) <= time_stamp_magnitude(b),
    ensures
        time_stamp_nanos(a) <= time_stamp_nanos(b),
{
    lemma_units_monotonic(a, b);
    lemma_pow2_pos(1074);
    assert(time_stamp_units(a) * 1_000_000 <= time_stamp_units(b) * 1_000_000);
    lemma_round_monotonic(
        time_stamp_units(a) * 1_000_000,
        time_stamp_units(b) * 1_000_000,
        pow2(1074) as int,
    );
}

} // verus!
