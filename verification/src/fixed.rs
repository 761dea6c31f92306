//! Saturating fixed-point arithmetic on `i64` values scaled by `FX_ONE`.
//!
//! A fixed-point value `v` stands for the real number `v / FX_ONE`.
//! Products and quotients are computed exactly in 128-bit intermediates,
//! rounded toward zero, and saturated at the `i64` range, so every
//! operation has a bit-precise contract over mathematical integers.

use vstd::prelude::*;

verus! {

/// The fixed-point unit: stored values are scaled by this factor.
pub const FX_ONE: i64 = 1_000_000_000;

/// Absolute value over mathematical integers.
pub open spec fn iabs(x: int) -> int {
    if x < 0 {
        -x
    } else {
        x
    }
}

/// Clamp over mathematical integers.
pub open spec fn clamp_spec(x: int, lo: int, hi: int) -> int {
    if x < lo {
        lo
    } else if x > hi {
        hi
    } else {
        x
    }
}

/// Saturation of a mathematical integer at the `i64` range.
pub open spec fn sat_i64(x: int) -> int {
    if x > i64::MAX {
        i64::MAX as int
    } else if x < i64::MIN {
        i64::MIN as int
    } else {
        x
    }
}

/// Fixed-point product, rounded toward zero, saturated: (a * b) / FX_ONE.
pub open spec fn fx_mul_spec(a: int, b: int) -> int {
    let m = (iabs(a) * iabs(b)) / (FX_ONE as int);
    if (a < 0) != (b < 0) {
        sat_i64(-m)
    } else {
        sat_i64(m)
    }
}

/// Fixed-point quotient, rounded toward zero, saturated: (a * FX_ONE) / b.
/// A zero divisor yields zero.
pub open spec fn fx_div_spec(a: int, b: int) -> int {
    if b == 0 {
        0
    } else {
        let m = (iabs(a) * (FX_ONE as int)) / iabs(b);
        if (a < 0) != (b < 0) {
            sat_i64(-m)
        } else {
            sat_i64(m)
        }
    }
}

/// Rescaling by a non-negative rational num/den, rounded toward zero.
pub open spec fn fx_scale_spec(a: int, num: int, den: int) -> int {
    let m = (iabs(a) * num) / den;
    if a < 0 {
        sat_i64(-m)
    } else {
        sat_i64(m)
    }
}

/// Magnitude of an `i64` as an unsigned 128-bit value.
fn abs_u128(a: i64) -> (r: u128)
    ensures
        r as int == iabs(a as int),
{
    if a >= 0 {
        a as u128
    } else {
        let neg: i128 = -(a as i128);
        neg as u128
    }
}

/// Rebuilds a signed `i64` from a sign and a magnitude, saturating.
fn sat_from_sign_mag(neg: bool, mag: u128) -> (r: i64)
    ensures
        r as int == sat_i64(
            if neg {
                -(mag as int)
            } else {
                mag as int
            },
        ),
{
    if neg {
        if mag >= 9223372036854775808u128 {
            i64::MIN
        } else {
            -(mag as i64)
        }
    } else {
        if mag >= 9223372036854775807u128 {
            i64::MAX
        } else {
            mag as i64
        }
    }
}

/// Saturating addition.
pub fn fx_add(a: i64, b: i64) -> (r: i64)
    ensures
        r as int == sat_i64(a + b),
{
    if b >= 0 {
        if a > i64::MAX - b {
            i64::MAX
        } else {
            a + b
        }
    } else {
        if a < i64::MIN - b {
            i64::MIN
        } else {
            a + b
        }
    }
}

/// Saturating subtraction.
pub fn fx_sub(a: i64, b: i64) -> (r: i64)
    ensures
        r as int == sat_i64(a - b),
{
    if b >= 0 {
        if a < i64::MIN + b {
            i64::MIN
        } else {
            a - b
        }
    } else {
        if a > i64::MAX + b {
            i64::MAX
        } else {
            a - b
        }
    }
}

/// Fixed-point multiplication: exact 128-bit product, scaled down.
pub fn fx_mul(a: i64, b: i64) -> (r: i64)
    ensures
        r as int == fx_mul_spec(a as int, b as int),
{
    let neg: bool = (a < 0) != (b < 0);
    let ma: u128 = abs_u128(a);
    let mb: u128 = abs_u128(b);
    assert(ma * mb <= 0x8000_0000_0000_0000u128 * 0x8000_0000_0000_0000u128)
        by (nonlinear_arith)
        requires
            ma <= 0x8000_0000_0000_0000u128,
            mb <= 0x8000_0000_0000_0000u128,
    ;
    let prod: u128 = ma * mb;
    let mag: u128 = prod / (FX_ONE as u128);
    sat_from_sign_mag(neg, mag)
}

/// Fixed-point division: a zero divisor yields zero.
pub fn fx_div(a: i64, b: i64) -> (r: i64)
    ensures
        r as int == fx_div_spec(a as int, b as int),
{
    if b == 0 {
        return 0;
    }
    let neg: bool = (a < 0) != (b < 0);
    let ma: u128 = abs_u128(a);
    let mb: u128 = abs_u128(b);
    assert(ma * (FX_ONE as u128) <= 0x8000_0000_0000_0000u128 * 0x4000_0000u128)
        by (nonlinear_arith)
        requires
            ma <= 0x8000_0000_0000_0000u128,
    ;
    let prod: u128 = ma * (FX_ONE as u128);
    let mag: u128 = prod / mb;
    sat_from_sign_mag(neg, mag)
}

/// Multiplies by the non-negative rational num/den without rescaling by
/// the unit, rounding toward zero.
pub fn fx_scale(a: i64, num: u64, den: u64) -> (r: i64)
    requires
        den > 0,
    ensures
        r as int == fx_scale_spec(a as int, num as int, den as int),
{
    if a == 0 {
        assert((0int * (num as int)) / (den as int) == 0) by (nonlinear_arith)
            requires
                den > 0,
        ;
        return 0;
    }
    let neg: bool = a < 0;
    let ma: u128 = abs_u128(a);
    assert(ma * (num as u128) <= 0x8000_0000_0000_0000u128 * 0xffff_ffff_ffff_ffffu128)
        by (nonlinear_arith)
        requires
            ma <= 0x8000_0000_0000_0000u128,
            num <= 0xffff_ffff_ffff_ffffu64,
    ;
    let prod: u128 = ma * (num as u128);
    let mag: u128 = prod / (den as u128);
    sat_from_sign_mag(neg, mag)
}

/// Clamps a value into the closed interval [lo, hi].
pub fn fx_clamp(x: i64, lo: i64, hi: i64) -> (r: i64)
    requires
        lo <= hi,
    ensures
        r == if x < lo {
            lo
        } else if x > hi {
            hi
        } else {
            x
        },
{
    if x < lo {
        lo
    } else if x > hi {
        hi
    } else {
        x
    }
}

/// Integer square root over the full `u128` range: the unique r with
/// r * r <= x < (r + 1) * (r + 1).
pub fn isqrt_u128(x: u128) -> (r: u128)
    ensures
        r * r <= x,
        x < (r + 1) * (r + 1),
        r < 0x1_0000_0000_0000_0000u128,
{
    let mut lo: u128 = 0;
    let mut hi: u128 = 0xffff_ffff_ffff_ffffu128;
    assert(x < (hi + 1) * (hi + 1)) by (nonlinear_arith)
        requires
            hi == 0xffff_ffff_ffff_ffffu128,
            x <= u128::MAX,
    ;
    while lo < hi
        invariant
            lo <= hi,
            hi <= 0xffff_ffff_ffff_ffffu128,
            lo * lo <= x,
            x < (hi + 1) * (hi + 1),
        decreases hi - lo,
    {
        let mid: u128 = lo + (hi - lo + 1) / 2;
        assert(mid * mid < 0xffff_ffff_ffff_ffff_ffff_ffff_ffff_ffffu128) by (nonlinear_arith)
            requires
                mid <= 0xffff_ffff_ffff_ffffu128,
        ;
        let sq: u128 = mid * mid;
        if sq <= x {
            lo = mid;
        } else {
            hi = mid - 1;
        }
    }
    lo
}

/// The integer square root as a specification value, built by counting
/// up from zero.
pub open spec fn isqrt_spec(x: int) -> int
    decreases x,
{
    if x <= 0 {
        0
    } else {
        let p = isqrt_spec(x - 1);
        if (p + 1) * (p + 1) <= x {
            p + 1
        } else {
            p
        }
    }
}

/// The counted-up square root satisfies the square-root bounds.
pub proof fn lemma_isqrt_spec_correct(x: int)
    requires
        0 <= x,
    ensures
        0 <= isqrt_spec(x),
        isqrt_spec(x) * isqrt_spec(x) <= x,
        x < (isqrt_spec(x) + 1) * (isqrt_spec(x) + 1),
    decreases x,
{
    if x > 0 {
        lemma_isqrt_spec_correct(x - 1);
        let p = isqrt_spec(x - 1);
        if (p + 1) * (p + 1) <= x {
            assert((p + 2) * (p + 2) > x) by (nonlinear_arith)
                requires
                    x - 1 < (p + 1) * (p + 1),
                    0 <= p,
            ;
        }
    }
}

/// The fixed-point square root as a specification value.
pub open spec fn fx_sqrt_spec(x: int) -> int {
    if x <= 0 {
        0
    } else {
        isqrt_spec(x * (FX_ONE as int))
    }
}

/// The square-root characterization pins a single value.
pub proof fn lemma_isqrt_unique(x: int, r1: int, r2: int)
    by (nonlinear_arith)
    requires
        0 <= r1,
        0 <= r2,
        r1 * r1 <= x,
        x < (r1 + 1) * (r1 + 1),
        r2 * r2 <= x,
        x < (r2 + 1) * (r2 + 1),
    ensures
        r1 == r2,
{
}

/// Fixed-point square root: non-positive inputs yield zero; otherwise the
/// result is the integer square root of x * FX_ONE, which keeps the unit.
pub fn fx_sqrt(x: i64) -> (r: i64)
    ensures
        r as int == fx_sqrt_spec(x as int),
        x <= 0 ==> r == 0,
        x > 0 ==> 0 < r && (r as int) * (r as int) <= (x as int) * (FX_ONE as int) && (x as int)
            * (FX_ONE as int) < (r as int + 1) * (r as int + 1),
        x == FX_ONE ==> r == FX_ONE,
        0 <= x <= FX_ONE ==> 0 <= r <= FX_ONE,
{
    if x <= 0 {
        return 0;
    }
    assert((x as u128) * (FX_ONE as u128) <= 0x8000_0000_0000_0000u128 * 0x4000_0000u128)
        by (nonlinear_arith)
        requires
            x as u128 <= 0x8000_0000_0000_0000u128,
    ;
    let scaled: u128 = (x as u128) * (FX_ONE as u128);
    let root: u128 = isqrt_u128(scaled);
    assert(root < 0x8000_0000_0000_0000u128) by (nonlinear_arith)
        requires
            root * root <= scaled,
            scaled < 0x8000_0000_0000_0000u128 * 0x4000_0000u128,
    ;
    let r: i64 = root as i64;
    assert(r > 0) by {
        assert(root > 0) by (nonlinear_arith)
            requires
                root * root <= scaled,
                scaled < (root + 1) * (root + 1),
                scaled >= FX_ONE as u128,
        ;
    }
    proof {
        lemma_isqrt_spec_correct(scaled as int);
        lemma_isqrt_unique(scaled as int, root as int, isqrt_spec(scaled as int));
        if x == FX_ONE {
            assert((FX_ONE as int) * (FX_ONE as int) <= scaled < (FX_ONE as int + 1) * (FX_ONE
                as int + 1)) by (nonlinear_arith)
                requires
                    scaled == (FX_ONE as int) * (FX_ONE as int),
            ;
            lemma_isqrt_unique(scaled as int, root as int, FX_ONE as int);
        }
        if x <= FX_ONE {
            assert(root <= FX_ONE) by (nonlinear_arith)
                requires
                    root * root <= scaled,
                    scaled <= (FX_ONE as int) * (FX_ONE as int),
                    root >= 0,
            ;
        }
    }
    r
}

/// The unit-interval product stays in the unit interval, a full-unit
/// factor is the identity, and a zero factor annihilates.
pub proof fn lemma_fx_mul_unit(a: int, b: int)
    by (nonlinear_arith)
    requires
        0 <= a <= FX_ONE,
        0 <= b <= FX_ONE,
    ensures
        0 <= fx_mul_spec(a, b) <= FX_ONE,
        b == FX_ONE ==> fx_mul_spec(a, b) == a,
        a == 0 || b == 0 ==> fx_mul_spec(a, b) == 0,
        fx_mul_spec(a, b) <= a,
{
}

/// The whole-exponent part of the fixed-point power: the unit repeatedly
/// multiplied by the base.
pub open spec fn pow_int_steps(s: int, w: int) -> int
    decreases w,
{
    if w <= 0 {
        FX_ONE as int
    } else {
        fx_mul_spec(pow_int_steps(s, w - 1), s)
    }
}

/// The fractional-exponent part of the fixed-point power: square-root
/// bisection over the leading twenty binary digits of the fraction,
/// folding the root in wherever a digit is set.
pub open spec fn pow_frac_steps(root: int, acc: int, f: int, k: int) -> int
    decreases 20 - k,
{
    if k >= 20 || f <= 0 {
        acc
    } else {
        let root2 = fx_sqrt_spec(root);
        let f2 = 2 * f;
        if f2 >= FX_ONE {
            pow_frac_steps(root2, fx_mul_spec(acc, root2), f2 - (FX_ONE as int), k + 1)
        } else {
            pow_frac_steps(root2, acc, f2, k + 1)
        }
    }
}

/// The fixed-point power of a unit-interval base as a specification
/// value: exact at the endpoints and at exponent one, otherwise the
/// whole-exponent product (capped at 128) refined by the fractional
/// bisection.
pub open spec fn fx_powf_spec(s: int, n: int) -> int {
    if s <= 0 {
        0
    } else if s >= FX_ONE {
        FX_ONE as int
    } else if n == FX_ONE {
        s
    } else {
        let w = if n / (FX_ONE as int) > 128 {
            128int
        } else {
            n / (FX_ONE as int)
        };
        pow_frac_steps(s, pow_int_steps(s, w), n % (FX_ONE as int), 0)
    }
}

/// Fixed-point power with a unit-interval base and a positive exponent.
/// The integer part of the exponent is applied by repeated multiplication
/// (capped at 128); the fractional part by square-root bisection over its
/// leading 20 binary digits. Endpoint bases are exact.
pub fn fx_powf_unit(s: i64, n: i64) -> (r: i64)
    requires
        0 <= s <= FX_ONE,
        0 < n,
    ensures
        r as int == fx_powf_spec(s as int, n as int),
        0 <= r <= FX_ONE,
        s == 0 ==> r == 0,
        s == FX_ONE ==> r == FX_ONE,
        n == FX_ONE ==> r == s,
{
    if s == 0 {
        return 0;
    }
    if s == FX_ONE {
        return FX_ONE;
    }
    if n == FX_ONE {
        return s;
    }
    let nu: u64 = n as u64;
    let whole_raw: u64 = nu / (FX_ONE as u64);
    let whole: u64 = if whole_raw > 128 {
        128
    } else {
        whole_raw
    };
    let frac: u64 = nu % (FX_ONE as u64);
    let mut r: i64 = FX_ONE;
    let mut i: u64 = 0;
    while i < whole
        invariant
            0 <= s <= FX_ONE,
            0 <= r <= FX_ONE,
            i <= whole,
            r as int == pow_int_steps(s as int, i as int),
        decreases whole - i,
    {
        proof {
            lemma_fx_mul_unit(r as int, s as int);
        }
        r = fx_mul(r, s);
        i = i + 1;
    }
    let mut root: i64 = s;
    let mut f: u64 = frac;
    let mut k: u64 = 0;
    while k < 20 && f > 0
        invariant
            0 <= root <= FX_ONE,
            0 <= r <= FX_ONE,
            f < FX_ONE as u64,
            k <= 20,
            pow_frac_steps(root as int, r as int, f as int, k as int) == pow_frac_steps(
                s as int,
                pow_int_steps(s as int, whole as int),
                frac as int,
                0,
            ),
        decreases 20 - k,
    {
        root = fx_sqrt(root);
        f = f * 2;
        if f >= FX_ONE as u64 {
            f = f - (FX_ONE as u64);
            proof {
                lemma_fx_mul_unit(r as int, root as int);
            }
            r = fx_mul(r, root);
        }
        k = k + 1;
    }
    r
}

/// Cap used for wide accumulators such as dot products.
pub const DOT_CAP: i128 = 10_000_000_000_000_000_000_000_000_000;

/// Saturation of a mathematical integer at a symmetric cap.
pub open spec fn sat_cap(x: int, cap: int) -> int {
    if x > cap {
        cap
    } else if x < -cap {
        -cap
    } else {
        x
    }
}

/// Fixed-point product without the `i64` saturation: (a * b) / FX_ONE
/// rounded toward zero, exact over the wide range.
pub open spec fn mul_fx_wide_spec(a: int, b: int) -> int {
    let m = (iabs(a) * iabs(b)) / (FX_ONE as int);
    if (a < 0) != (b < 0) {
        -m
    } else {
        m
    }
}

/// Magnitude of an `i128` as an unsigned 128-bit value.
fn abs_i128(a: i128) -> (r: u128)
    requires
        a > i128::MIN,
    ensures
        r as int == iabs(a as int),
{
    if a >= 0 {
        a as u128
    } else {
        (-a) as u128
    }
}

/// Wide fixed-point product of two `i64` values, kept in `i128`.
pub fn mul_fx_wide(a: i64, b: i64) -> (r: i128)
    ensures
        r as int == mul_fx_wide_spec(a as int, b as int),
        -100_000_000_000_000_000_000_000_000_000i128 <= r
            <= 100_000_000_000_000_000_000_000_000_000i128,
{
    let neg: bool = (a < 0) != (b < 0);
    let ma: u128 = abs_u128(a);
    let mb: u128 = abs_u128(b);
    assert(ma * mb <= 0x8000_0000_0000_0000u128 * 0x8000_0000_0000_0000u128)
        by (nonlinear_arith)
        requires
            ma <= 0x8000_0000_0000_0000u128,
            mb <= 0x8000_0000_0000_0000u128,
    ;
    let mag: u128 = (ma * mb) / (FX_ONE as u128);
    proof {
        assert(((ma * mb) as int) / (FX_ONE as int)
            <= 100_000_000_000_000_000_000_000_000_000int) by (nonlinear_arith)
            requires
                ma * mb <= 0x8000_0000_0000_0000u128 * 0x8000_0000_0000_0000u128,
        ;
    }
    if neg {
        -(mag as i128)
    } else {
        mag as i128
    }
}

/// Accumulates into a wide dot product, saturating at `DOT_CAP`.
pub fn cap_add_i128(acc: i128, t: i128) -> (r: i128)
    requires
        -DOT_CAP <= acc <= DOT_CAP,
        -200_000_000_000_000_000_000_000_000_000i128 <= t
            <= 200_000_000_000_000_000_000_000_000_000i128,
    ensures
        r as int == sat_cap(acc + t, DOT_CAP as int),
{
    let s: i128 = acc + t;
    if s > DOT_CAP {
        DOT_CAP
    } else if s < -DOT_CAP {
        -DOT_CAP
    } else {
        s
    }
}

/// Fixed-point quotient of two wide values, saturated into `i64`.
/// A zero divisor yields zero, as in `fx_div`.
pub fn fx_ratio_i128(num: i128, den: i128) -> (r: i64)
    requires
        -DOT_CAP <= num <= DOT_CAP,
        -DOT_CAP <= den <= DOT_CAP,
    ensures
        r as int == fx_div_spec(num as int, den as int),
{
    if den == 0 {
        return 0;
    }
    let neg: bool = (num < 0) != (den < 0);
    let mn: u128 = abs_i128(num);
    let md: u128 = abs_i128(den);
    assert(mn * (FX_ONE as u128) <= 10_000_000_000_000_000_000_000_000_000u128 * 0x4000_0000u128)
        by (nonlinear_arith)
        requires
            mn <= 10_000_000_000_000_000_000_000_000_000u128,
    ;
    let mag: u128 = (mn * (FX_ONE as u128)) / md;
    sat_from_sign_mag(neg, mag)
}

/// Saturating absolute value.
pub fn fx_abs(x: i64) -> (r: i64)
    ensures
        r as int == sat_i64(iabs(x as int)),
        r >= 0,
{
    if x >= 0 {
        x
    } else if x == i64::MIN {
        i64::MAX
    } else {
        -x
    }
}

/// Truncated-toward-zero integer quotient; a zero divisor yields zero.
pub open spec fn div_tz_spec(a: int, b: int) -> int {
    if b == 0 {
        0
    } else {
        let m = iabs(a) / iabs(b);
        if (a < 0) != (b < 0) {
            -m
        } else {
            m
        }
    }
}

/// Plain quotient of a wide value by a positive count, saturated into
/// `i64`.
pub fn i128_div_to_i64(num: i128, den: u64) -> (r: i64)
    requires
        den > 0,
        -DOT_CAP <= num <= DOT_CAP,
    ensures
        r as int == sat_i64(div_tz_spec(num as int, den as int)),
{
    let neg: bool = num < 0;
    let mn: u128 = abs_i128(num);
    let mag: u128 = mn / (den as u128);
    sat_from_sign_mag(neg, mag)
}

/// Saturates a wide value into the `i64` range.
pub fn sat_i128_to_i64(x: i128) -> (r: i64)
    ensures
        r as int == sat_i64(x as int),
{
    if x > i64::MAX as i128 {
        i64::MAX
    } else if x < i64::MIN as i128 {
        i64::MIN
    } else {
        x as i64
    }
}

/// Natural logarithm of 2 in fixed-point form.
pub const FX_LN2: i64 = 693_147_181;

/// One pass of the doubling normalization: the mantissa doubles (and
/// the exponent drops) while it sits under the unit, for up to 64
/// rounds.
pub open spec fn ln_up_steps(m: int, e: int, k: int) -> (int, int)
    decreases 64 - k,
{
    if k >= 64 {
        (m, e)
    } else if m < FX_ONE {
        ln_up_steps(2 * m, e - 1, k + 1)
    } else {
        ln_up_steps(m, e, k + 1)
    }
}

/// One pass of the halving normalization: the mantissa halves (and the
/// exponent rises) while it sits at or above twice the unit.
pub open spec fn ln_down_steps(m: int, e: int, k: int) -> (int, int)
    decreases 64 - k,
{
    if k >= 64 {
        (m, e)
    } else if m >= 2 * FX_ONE {
        ln_down_steps(m / 2, e + 1, k + 1)
    } else {
        ln_down_steps(m, e, k + 1)
    }
}

/// The binary digits of the mantissa's log, extracted by repeated
/// squaring over thirty rounds.
pub open spec fn ln_frac_steps(m: int, frac: int, bitval: int, k: int) -> int
    decreases 30 - k,
{
    if k >= 30 {
        frac
    } else {
        let m2 = (m * m) / (FX_ONE as int);
        if m2 >= 2 * FX_ONE {
            ln_frac_steps(m2 / 2, frac + bitval, bitval / 2, k + 1)
        } else {
            ln_frac_steps(m2, frac, bitval / 2, k + 1)
        }
    }
}

/// The fixed-point natural logarithm as a specification value: the
/// normalized binary log rescaled by ln 2.
pub open spec fn fx_ln_spec(x: int) -> int {
    let up = ln_up_steps(x, 0, 0);
    let down = ln_down_steps(up.0, up.1, 0);
    let frac = ln_frac_steps(down.0, 0, (FX_ONE as int) / 2, 0);
    fx_mul_spec(down.1 * (FX_ONE as int) + frac, FX_LN2 as int)
}

/// Fixed-point natural logarithm for positive inputs: the input is
/// normalized to [1, 2) by powers of two, the mantissa's binary log is
/// extracted digit by digit through repeated squaring, and the binary
/// log is rescaled by ln 2. Exact at one; signed as the input sits above
/// or below one.
pub fn fx_ln(x: i64) -> (r: i64)
    requires
        x > 0,
    ensures
        r as int == fx_ln_spec(x as int),
        x == FX_ONE ==> r == 0,
        x >= FX_ONE ==> r >= 0,
        x <= FX_ONE ==> r <= 0,
        -64 * (FX_ONE as int) <= r as int <= 64 * (FX_ONE as int),
{
    proof {
        vstd::arithmetic::power2::lemma2_to64();
    }
    let mut m: u64 = x as u64;
    let mut e: i64 = 0;
    let mut k: u64 = 0;
    while k < 64
        invariant
            1 <= m,
            m <= 0x8000_0000_0000_0000u64,
            -(k as int) <= e <= 0,
            k <= 64,
            m >= FX_ONE as u64 || m as int >= vstd::arithmetic::power2::pow2(k as nat),
            ln_up_steps(m as int, e as int, k as int) == ln_up_steps(x as int, 0, 0),
            x >= FX_ONE ==> e == 0 && m == x as u64,
            x == FX_ONE ==> m == FX_ONE as u64,
            x < FX_ONE ==> (e < 0 || m == x as u64),
            e < 0 ==> m < 2 * (FX_ONE as u64),
        decreases 64 - k,
    {
        if m < FX_ONE as u64 {
            proof {
                vstd::arithmetic::power2::lemma_pow2_unfold((k + 1) as nat);
            }
            m = m * 2;
            e = e - 1;
        }
        k = k + 1;
    }
    proof {
        if m < FX_ONE as u64 {
            assert(m as int >= vstd::arithmetic::power2::pow2(64));
            assert(false);
        }
    }
    k = 0;
    while k < 64
        invariant
            FX_ONE as u64 <= m,
            -64 <= e,
            e <= k as int,
            k <= 64,
            m < 2 * (FX_ONE as u64) || (m as int) * vstd::arithmetic::power2::pow2(k as nat)
                <= u64::MAX as int,
            ln_down_steps(m as int, e as int, k as int) == ln_down_steps(
                ln_up_steps(x as int, 0, 0).0,
                ln_up_steps(x as int, 0, 0).1,
                0,
            ),
            x == FX_ONE ==> m == FX_ONE as u64 && e == 0,
            x < FX_ONE ==> m < 2 * (FX_ONE as u64) && e < 0,
            x >= FX_ONE ==> e >= 0,
        decreases 64 - k,
    {
        if m >= 2 * (FX_ONE as u64) {
            proof {
                vstd::arithmetic::power2::lemma_pow2_unfold((k + 1) as nat);
                vstd::arithmetic::power2::lemma_pow2_pos(k as nat);
                assert((m as int / 2) * (2 * vstd::arithmetic::power2::pow2(k as nat)) <= (m
                    as int) * vstd::arithmetic::power2::pow2(k as nat)) by (nonlinear_arith)
                    requires
                        m >= 2,
                        vstd::arithmetic::power2::pow2(k as nat) >= 1,
                ;
            }
            m = m / 2;
            e = e + 1;
        }
        k = k + 1;
    }
    proof {
        if m >= 2 * (FX_ONE as u64) {
            assert((m as int) * vstd::arithmetic::power2::pow2(64) <= u64::MAX as int);
            assert((m as int) * vstd::arithmetic::power2::pow2(64) > u64::MAX as int)
                by (nonlinear_arith)
                requires
                    m as int >= 1,
                    vstd::arithmetic::power2::pow2(64) == 0x1_0000_0000_0000_0000,
            ;
            assert(false);
        }
    }
    let mut frac: u64 = 0;
    let mut bitval: u64 = (FX_ONE as u64) / 2;
    k = 0;
    while k < 30
        invariant
            FX_ONE as u64 <= m < 2 * (FX_ONE as u64),
            frac + 2 * bitval <= FX_ONE as u64,
            ln_frac_steps(m as int, frac as int, bitval as int, k as int) == ln_frac_steps(
                ln_down_steps(ln_up_steps(x as int, 0, 0).0, ln_up_steps(x as int, 0, 0).1, 0).0,
                0,
                (FX_ONE as int) / 2,
                0,
            ),
            x == FX_ONE ==> m == FX_ONE as u64 && frac == 0,
        decreases 30 - k,
    {
        assert((m as int) * (m as int) < 4 * (FX_ONE as int) * (FX_ONE as int)) by (nonlinear_arith)
            requires
                m < 2 * (FX_ONE as u64),
        ;
        assert((m as int) * (m as int) >= (FX_ONE as int) * (FX_ONE as int)) by (nonlinear_arith)
            requires
                m >= FX_ONE as u64,
        ;
        let m2w: u128 = ((m as u128) * (m as u128)) / (FX_ONE as u128);
        proof {
            assert(((m as int) * (m as int)) / (FX_ONE as int) < 4 * (FX_ONE as int)) by (
            nonlinear_arith)
                requires
                    (m as int) * (m as int) < 4 * (FX_ONE as int) * (FX_ONE as int),
            ;
            assert(((m as int) * (m as int)) / (FX_ONE as int) >= FX_ONE as int) by (
            nonlinear_arith)
                requires
                    (m as int) * (m as int) >= (FX_ONE as int) * (FX_ONE as int),
            ;
            if m == FX_ONE as u64 {
                assert(((FX_ONE as int) * (FX_ONE as int)) / (FX_ONE as int) == FX_ONE as int) by (
                nonlinear_arith);
            }
        }
        let m2: u64 = m2w as u64;
        if m2 >= 2 * (FX_ONE as u64) {
            m = m2 / 2;
            frac = frac + bitval;
        } else {
            m = m2;
        }
        bitval = bitval / 2;
        k = k + 1;
    }
    let log2_fx: i64 = e * FX_ONE + (frac as i64);
    let r: i64 = fx_mul(log2_fx, FX_LN2);
    proof {
        lemma_fx_ln_range(log2_fx as int);
        if x == FX_ONE {
            assert(fx_mul_spec(0, FX_LN2 as int) == 0) by (nonlinear_arith);
        }
    }
    r
}

/// Scaling a bounded binary log by ln 2 keeps sign and bound.
proof fn lemma_fx_ln_range(g: int)
    by (nonlinear_arith)
    requires
        -65 * (FX_ONE as int) <= g <= 65 * (FX_ONE as int),
    ensures
        -64 * (FX_ONE as int) <= fx_mul_spec(g, FX_LN2 as int) <= 64 * (FX_ONE as int),
        g >= 0 ==> fx_mul_spec(g, FX_LN2 as int) >= 0,
        g <= 0 ==> fx_mul_spec(g, FX_LN2 as int) <= 0,
{
}

} // verus!
