//! Saturating Q16.16 fixed-point arithmetic.
//!
//! Every engine quantity is an `i64` holding 65536 units per 1.0.  All
//! operations saturate at the `i64` range instead of overflowing, so they are
//! total functions with exact specifications: numerical edge cases are defused
//! by clamping rather than surfacing as errors.

use vstd::prelude::*;
use vstd::arithmetic::power2::pow2;

verus! {

/// One in Q16.16 units.
pub const FX_ONE: i64 = 65536;

/// One half in Q16.16 units.
pub const FX_HALF: i64 = 32768;

/// The circle constant pi in Q16.16 units.
pub const FX_PI: i64 = 205887;

/// Two pi in Q16.16 units (exactly twice `FX_PI`).
pub const FX_TWO_PI: i64 = 411774;

/// Half pi in Q16.16 units.
pub const FX_HALF_PI: i64 = 102944;

/// Negated pi in Q16.16 units.
pub const FX_NEG_PI: i64 = -205887;

/// Result of clamping an unbounded integer into the `i64` range.
pub open spec fn fx_clip(x: int) -> i64 {
    if x > i64::MAX as int {
        i64::MAX
    } else if x < i64::MIN as int {
        i64::MIN
    } else {
        x as i64
    }
}

/// Saturating fixed-point sum.
pub open spec fn fx_add_spec(a: i64, b: i64) -> i64 {
    fx_clip(a + b)
}

/// Saturating fixed-point difference.
pub open spec fn fx_sub_spec(a: i64, b: i64) -> i64 {
    fx_clip(a - b)
}

/// Saturating fixed-point product: floor((a * b) / 65536), clamped.
pub open spec fn fx_mul_spec(a: i64, b: i64) -> i64 {
    fx_clip((a * b) / (FX_ONE as int))
}

/// Saturating fixed-point quotient for a positive divisor:
/// floor((a * 65536) / b), clamped.
pub open spec fn fx_div_spec(a: i64, b: i64) -> i64 {
    if b <= 0 {
        0
    } else {
        fx_clip((a * (FX_ONE as int)) / (b as int))
    }
}

/// Clamp into an inclusive interval.
pub open spec fn fx_clamp_spec(x: i64, lo: i64, hi: i64) -> i64 {
    if x < lo {
        lo
    } else if x > hi {
        hi
    } else {
        x
    }
}

pub open spec fn fx_min_spec(a: i64, b: i64) -> i64 {
    if a < b {
        a
    } else {
        b
    }
}

pub open spec fn fx_max_spec(a: i64, b: i64) -> i64 {
    if a > b {
        a
    } else {
        b
    }
}

pub fn fx_add(a: i64, b: i64) -> (r: i64)
    ensures
        r == fx_add_spec(a, b),
{
    match a.checked_add(b) {
        Some(v) => v,
        None => if b >= 0 {
            i64::MAX
        } else {
            i64::MIN
        },
    }
}

pub fn fx_sub(a: i64, b: i64) -> (r: i64)
    ensures
        r == fx_sub_spec(a, b),
{
    match a.checked_sub(b) {
        Some(v) => v,
        None => if b <= 0 {
            i64::MAX
        } else {
            i64::MIN
        },
    }
}

proof fn lemma_i64_product_in_i128(a: i64, b: i64)
    ensures
        -0x40000000000000000000000000000000 <= a * b
            <= 0x40000000000000000000000000000000,
{
    assert(-0x40000000000000000000000000000000 <= (a as int) * (b as int)
        <= 0x40000000000000000000000000000000) by (nonlinear_arith)
        requires
            -0x8000000000000000 <= a <= 0x7fffffffffffffff,
            -0x8000000000000000 <= b <= 0x7fffffffffffffff,
    ;
}

/// Euclidean (floor, for a positive divisor) quotient is bounded by the
/// magnitude of the dividend.
proof fn lemma_floor_div_bounds(p: int, d: int)
    requires
        d >= 1,
    ensures
        p >= 0 ==> 0 <= p / d <= p,
        p < 0 ==> p <= p / d <= 0,
{
    if p >= 0 {
        assert(0 <= p / d <= p) by (nonlinear_arith)
            requires
                d >= 1,
                p >= 0,
        ;
    } else {
        assert(p <= p / d <= 0) by (nonlinear_arith)
            requires
                d >= 1,
                p < 0,
        ;
    }
}

pub fn fx_mul(a: i64, b: i64) -> (r: i64)
    ensures
        r == fx_mul_spec(a, b),
{
    proof {
        lemma_i64_product_in_i128(a, b);
    }
    let p: i128 = (a as i128) * (b as i128);
    proof {
        lemma_floor_div_bounds(p as int, FX_ONE as int);
    }
    let q: i128 = p.checked_div_euclid(FX_ONE as i128).unwrap();
    if q > i64::MAX as i128 {
        i64::MAX
    } else if q < i64::MIN as i128 {
        i64::MIN
    } else {
        q as i64
    }
}

pub fn fx_div(a: i64, b: i64) -> (r: i64)
    ensures
        r == fx_div_spec(a, b),
{
    if b <= 0 {
        return 0;
    }
    proof {
        lemma_i64_product_in_i128(a, FX_ONE);
    }
    let num: i128 = (a as i128) * (FX_ONE as i128);
    proof {
        lemma_floor_div_bounds(num as int, b as int);
    }
    let q: i128 = num.checked_div_euclid(b as i128).unwrap();
    if q > i64::MAX as i128 {
        i64::MAX
    } else if q < i64::MIN as i128 {
        i64::MIN
    } else {
        q as i64
    }
}

pub fn fx_clamp(x: i64, lo: i64, hi: i64) -> (r: i64)
    ensures
        r == fx_clamp_spec(x, lo, hi),
{
    if x < lo {
        lo
    } else if x > hi {
        hi
    } else {
        x
    }
}

pub fn fx_min(a: i64, b: i64) -> (r: i64)
    ensures
        r == fx_min_spec(a, b),
{
    if a < b {
        a
    } else {
        b
    }
}

pub fn fx_max(a: i64, b: i64) -> (r: i64)
    ensures
        r == fx_max_spec(a, b),
{
    if a > b {
        a
    } else {
        b
    }
}

/// Remainder of a phase modulo two pi, always in [0, two pi).
pub open spec fn fx_mod_two_pi_spec(x: i64) -> i64 {
    ((x as int) % (FX_TWO_PI as int)) as i64
}

pub fn fx_mod_two_pi(x: i64) -> (r: i64)
    ensures
        r == fx_mod_two_pi_spec(x),
        0 <= r < FX_TWO_PI,
{
    x.checked_rem_euclid(FX_TWO_PI).unwrap()
}

/// Saturating absolute value.
pub open spec fn fx_abs_spec(x: i64) -> i64 {
    if x < 0 {
        fx_clip(-(x as int))
    } else {
        x
    }
}

pub fn fx_abs(x: i64) -> (r: i64)
    ensures
        r == fx_abs_spec(x),
        r >= 0,
{
    if x == i64::MIN {
        i64::MAX
    } else if x < 0 {
        -x
    } else {
        x
    }
}

/// The floor of the square root of a nonnegative integer.
pub open spec fn sqrt_floor(x: int) -> int {
    choose|r: int| r >= 0 && #[trigger] (r * r) <= x && (r + 1) * (r + 1) > x
}

/// Any witness of the square-root bracket is the unique floor square root.
pub proof fn lemma_sqrt_floor_is(x: int, r: int)
    requires
        r >= 0,
        r * r <= x,
        (r + 1) * (r + 1) > x,
    ensures
        sqrt_floor(x) == r,
{
    assert(exists|q: int| q >= 0 && #[trigger] (q * q) <= x && (q + 1) * (q + 1) > x) by {
        assert(r >= 0 && r * r <= x && (r + 1) * (r + 1) > x);
    }
    let s = sqrt_floor(x);
    assert(s >= 0 && s * s <= x && (s + 1) * (s + 1) > x);
    if s < r {
        assert((s + 1) * (s + 1) <= r * r) by (nonlinear_arith)
            requires
                0 <= s < r,
        ;
    } else if r < s {
        assert((r + 1) * (r + 1) <= s * s) by (nonlinear_arith)
            requires
                0 <= r < s,
        ;
    }
}

/// Integer square root: the greatest `r` with `r * r <= x`.
pub fn fx_isqrt_u128(x: u128) -> (r: u128)
    ensures
        r * r <= x,
        (r + 1) * (r + 1) > x,
        r <= 0xffffffffffffffff,
{
    let mut lo: u128 = 0;
    let mut hi: u128 = 0x10000000000000000;
    proof {
        assert(x < hi * hi) by (nonlinear_arith)
            requires
                hi == 0x10000000000000000,
                x <= u128::MAX,
        ;
    }
    while hi - lo > 1
        invariant
            lo < hi <= 0x10000000000000000,
            lo * lo <= x,
            x < hi * hi,
        decreases hi - lo,
    {
        let mid: u128 = lo + (hi - lo) / 2;
        proof {
            assert(mid * mid <= u128::MAX) by (nonlinear_arith)
                requires
                    mid < 0x10000000000000000,
            ;
        }
        if mid * mid <= x {
            lo = mid;
        } else {
            hi = mid;
        }
    }
    lo
}

/// The magnitude of a complex fixed-point value: the floor square root of
/// the sum of the squared components, clamped into the `i64` range.
pub open spec fn fx_mag_spec(re: i64, im: i64) -> i64 {
    fx_clip(sqrt_floor(re * re + im * im))
}

pub fn fx_mag(re: i64, im: i64) -> (r: i64)
    ensures
        r == fx_mag_spec(re, im),
        r >= 0,
{
    proof {
        lemma_i64_product_in_i128(re, re);
        lemma_i64_product_in_i128(im, im);
        assert(re * re >= 0) by (nonlinear_arith);
        assert(im * im >= 0) by (nonlinear_arith);
    }
    let e: u128 = ((re as i128) * (re as i128)) as u128 + ((im as i128) * (im as i128)) as u128;
    let s = fx_isqrt_u128(e);
    proof {
        lemma_sqrt_floor_is(e as int, s as int);
    }
    if s > i64::MAX as u128 {
        i64::MAX
    } else {
        s as i64
    }
}

/// Clamp of an unbounded nonnegative integer into the `u128` range.
pub open spec fn u128_clip(x: int) -> u128 {
    if x > u128::MAX as int {
        u128::MAX
    } else if x < 0 {
        0
    } else {
        x as u128
    }
}

/// Total energy of the first `n` components of a complex wave: the
/// saturating sum of the squared component magnitudes.
pub open spec fn energy_acc_spec(re: Seq<i64>, im: Seq<i64>, n: int) -> u128
    decreases n,
{
    if n <= 0 {
        0
    } else {
        u128_clip(
            energy_acc_spec(re, im, n - 1) + re[n - 1] * re[n - 1] + im[n - 1] * im[n - 1],
        )
    }
}

/// Saturating total energy of a complex wave.
pub fn wave_energy(re: &Vec<i64>, im: &Vec<i64>) -> (r: u128)
    requires
        re@.len() == im@.len(),
    ensures
        r == energy_acc_spec(re@, im@, re@.len() as int),
{
    let n = re.len();
    let mut acc: u128 = 0;
    let mut i: usize = 0;
    while i < n
        invariant
            i <= n,
            n == re@.len() == im@.len(),
            acc == energy_acc_spec(re@, im@, i as int),
        decreases n - i,
    {
        let a = re[i];
        let b = im[i];
        proof {
            lemma_i64_product_in_i128(a, a);
            lemma_i64_product_in_i128(b, b);
            assert(a * a >= 0) by (nonlinear_arith);
            assert(b * b >= 0) by (nonlinear_arith);
        }
        let term: u128 = ((a as i128) * (a as i128)) as u128 + ((b as i128) * (b as i128)) as u128;
        if acc > u128::MAX - term {
            acc = u128::MAX;
        } else {
            acc = acc + term;
        }
        i = i + 1;
    }
    acc
}

/// Numerator scale 16 in Q16.16 units.
pub const FX_SIXTEEN: i64 = 1048576;

/// Scale 4 in Q16.16 units.
pub const FX_FOUR: i64 = 262144;

/// Five pi squared in Q16.16 units.
pub const FX_FIVE_PI_SQ: i64 = 3234072;

/// Rational approximation of sine on the half period [0, pi]:
/// sin x ~ 16 x (pi - x) / (5 pi^2 - 4 x (pi - x)), clamped into [0, 1].
pub open spec fn fx_sin_half_spec(x: i64) -> i64 {
    let t = fx_mul_spec(x, fx_sub_spec(FX_PI, x));
    let num = fx_mul_spec(t, FX_SIXTEEN);
    let den = fx_sub_spec(FX_FIVE_PI_SQ, fx_mul_spec(t, FX_FOUR));
    fx_clamp_spec(fx_div_spec(num, den), 0, FX_ONE)
}

fn fx_sin_half(x: i64) -> (r: i64)
    ensures
        r == fx_sin_half_spec(x),
        0 <= r <= FX_ONE,
{
    let t = fx_mul(x, fx_sub(FX_PI, x));
    let num = fx_mul(t, FX_SIXTEEN);
    let den = fx_sub(FX_FIVE_PI_SQ, fx_mul(t, FX_FOUR));
    fx_clamp(fx_div(num, den), 0, FX_ONE)
}

/// Sine of a Q16.16 phase, by reduction modulo two pi and half-period
/// symmetry.
pub open spec fn fx_sin_spec(x: i64) -> i64 {
    let m = fx_mod_two_pi_spec(x);
    if m <= FX_PI {
        fx_sin_half_spec(m)
    } else {
        (0 - fx_sin_half_spec((m - FX_PI) as i64)) as i64
    }
}

pub fn fx_sin(x: i64) -> (r: i64)
    ensures
        r == fx_sin_spec(x),
        -FX_ONE <= r <= FX_ONE,
{
    let m = fx_mod_two_pi(x);
    if m <= FX_PI {
        fx_sin_half(m)
    } else {
        let v = fx_sin_half(m - FX_PI);
        0 - v
    }
}

/// Cosine of a Q16.16 phase, as the sine shifted by half pi.
pub open spec fn fx_cos_spec(x: i64) -> i64 {
    fx_sin_spec(fx_add_spec(x, FX_HALF_PI))
}

pub fn fx_cos(x: i64) -> (r: i64)
    ensures
        r == fx_cos_spec(x),
        -FX_ONE <= r <= FX_ONE,
{
    fx_sin(fx_add(x, FX_HALF_PI))
}

/// log2(e) in Q16.16 units.
pub const FX_LOG2_E: i64 = 94548;

/// Cubic-plus-quartic polynomial coefficients for 2^f on f in [0, 1).
pub const FX_EXP_C1: i64 = 45426;

pub const FX_EXP_C2: i64 = 15743;

pub const FX_EXP_C3: i64 = 3638;

pub const FX_EXP_C4: i64 = 729;

/// Upper cap of the fixed-point exponential (1e10 in Q16.16 units).
pub const FX_EXP_CAP: i64 = 655360000000000;

/// Polynomial approximation of 2^(f/65536) for f in [0, 65536).
pub open spec fn fx_exp2_frac_spec(f: i64) -> i64 {
    fx_add_spec(
        FX_ONE,
        fx_mul_spec(
            f,
            fx_add_spec(
                FX_EXP_C1,
                fx_mul_spec(
                    f,
                    fx_add_spec(FX_EXP_C2, fx_mul_spec(f, fx_add_spec(FX_EXP_C3, fx_mul_spec(f, FX_EXP_C4)))),
                ),
            ),
        ),
    )
}

fn fx_exp2_frac(f: i64) -> (r: i64)
    ensures
        r == fx_exp2_frac_spec(f),
{
    fx_add(
        FX_ONE,
        fx_mul(
            f,
            fx_add(FX_EXP_C1, fx_mul(f, fx_add(FX_EXP_C2, fx_mul(f, fx_add(FX_EXP_C3, fx_mul(f, FX_EXP_C4)))))),
        ),
    )
}

/// Fixed-point exponential e^x, computed as 2^(x*log2(e)) with the integer
/// part as a power-of-two scaling and the fractional part by polynomial.
/// The result is clamped into [0, `FX_EXP_CAP`].
pub open spec fn fx_exp_spec(x: i64) -> i64 {
    let y = fx_mul_spec(x, FX_LOG2_E);
    let k = (y as int) / (FX_ONE as int);
    let f = ((y as int) % (FX_ONE as int)) as i64;
    let p = fx_exp2_frac_spec(f);
    if k >= 34 {
        FX_EXP_CAP
    } else if k >= 0 {
        fx_min_spec(fx_clip(p * pow2(k as nat)), FX_EXP_CAP)
    } else if k >= -50 {
        fx_clip((p as int) / (pow2((-k) as nat) as int))
    } else {
        0
    }
}

/// The fractional-part polynomial stays within [1, 2.5] for f in [0, 65536).
proof fn lemma_exp2_frac_bounds(f: i64)
    requires
        0 <= f < FX_ONE,
    ensures
        FX_ONE <= fx_exp2_frac_spec(f) <= 163840,
{
    let t3 = fx_add_spec(FX_EXP_C3, fx_mul_spec(f, FX_EXP_C4));
    assert(0 <= fx_mul_spec(f, FX_EXP_C4) <= FX_EXP_C4) by (nonlinear_arith)
        requires
            0 <= f < FX_ONE,
    ;
    let t2 = fx_add_spec(FX_EXP_C2, fx_mul_spec(f, t3));
    assert(0 <= fx_mul_spec(f, t3) <= t3) by (nonlinear_arith)
        requires
            0 <= f < FX_ONE,
            0 < t3 <= 4367,
    ;
    let t1 = fx_add_spec(FX_EXP_C1, fx_mul_spec(f, t2));
    assert(0 <= fx_mul_spec(f, t2) <= t2) by (nonlinear_arith)
        requires
            0 <= f < FX_ONE,
            0 < t2 <= 20110,
    ;
    assert(0 <= fx_mul_spec(f, t1) <= t1) by (nonlinear_arith)
        requires
            0 <= f < FX_ONE,
            0 < t1 <= 65536,
    ;
}

pub fn fx_exp(x: i64) -> (r: i64)
    ensures
        r == fx_exp_spec(x),
        0 <= r <= FX_EXP_CAP,
{
    let y = fx_mul(x, FX_LOG2_E);
    let k: i64 = y.checked_div_euclid(FX_ONE).unwrap();
    let f: i64 = y.checked_rem_euclid(FX_ONE).unwrap();
    proof {
        vstd::arithmetic::div_mod::lemma_fundamental_div_mod(y as int, FX_ONE as int);
        lemma_exp2_frac_bounds(f);
    }
    let p = fx_exp2_frac(f);
    if k >= 34 {
        FX_EXP_CAP
    } else if k >= 0 {
        let m = pow2_exec(k);
        proof {
            vstd::arithmetic::power2::lemma2_to64_rest();
            if (k as nat) < 33 {
                vstd::arithmetic::power2::lemma_pow2_strictly_increases(k as nat, 33);
            }
            assert(p * m <= 163840 * 0x200000000) by (nonlinear_arith)
                requires
                    0 <= p <= 163840,
                    0 <= m <= 0x200000000,
            ;
        }
        let prod = p.checked_mul(m).unwrap();
        fx_min(prod, FX_EXP_CAP)
    } else if k >= -50 {
        let d = pow2_exec(0 - k);
        let q = (p as u64) / (d as u64);
        q as i64
    } else {
        0
    }
}

/// 2^k for 0 <= k <= 50, by repeated doubling.
fn pow2_exec(k: i64) -> (r: i64)
    requires
        0 <= k <= 50,
    ensures
        r == pow2(k as nat),
        1 <= r <= 0x4000000000000,
{
    proof {
        vstd::arithmetic::power2::lemma2_to64();
        vstd::arithmetic::power2::lemma2_to64_rest();
    }
    let mut m: i64 = 1;
    let mut i: i64 = 0;
    while i < k
        invariant
            0 <= i <= k <= 50,
            m == pow2(i as nat),
            pow2(50) == 0x4000000000000,
        decreases k - i,
    {
        proof {
            vstd::arithmetic::power2::lemma_pow2_unfold((i + 1) as nat);
            if (i as nat) < 50 {
                vstd::arithmetic::power2::lemma_pow2_strictly_increases(i as nat, 50);
            }
        }
        m = m * 2;
        i = i + 1;
    }
    proof {
        if (k as nat) < 50 {
            vstd::arithmetic::power2::lemma_pow2_strictly_increases(k as nat, 50);
        }
        vstd::arithmetic::power2::lemma_pow2_pos(k as nat);
    }
    m
}

} // verus!
