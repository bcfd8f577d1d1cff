//! Milli-unit fixed-point arithmetic.
//!
//! A quantity the simulation treats as a real number is stored as an `i64`
//! holding one thousand times its value ("milli-units"). Every operation
//! clips its result into `[-FX_MAX, FX_MAX]`, so the arithmetic is closed
//! and free of overflow, and each operation has an exact specification.

use vstd::prelude::*;

verus! {

/// Magnitude bound of every fixed-point value.
pub const FX_MAX: i64 = 2_000_000_000_000;

/// One whole unit in milli-units.
pub const MILLI: i64 = 1000;

/// A value in range for the fixed-point arithmetic.
pub open spec fn fx_ok(x: i64) -> bool {
    -FX_MAX <= x <= FX_MAX
}

/// Clip an exact result into the representable range.
pub open spec fn fx_clip(x: int) -> int {
    if x > FX_MAX as int {
        FX_MAX as int
    } else if x < -(FX_MAX as int) {
        -(FX_MAX as int)
    } else {
        x
    }
}

/// Quotient rounded toward zero, for a positive divisor.
pub open spec fn div_trunc(n: int, d: int) -> int
    recommends
        d > 0,
{
    if n >= 0 {
        n / d
    } else {
        -((-n) / d)
    }
}

/// The smaller of two exact values.
pub open spec fn smin(a: int, b: int) -> int {
    if a <= b {
        a
    } else {
        b
    }
}

/// The larger of two exact values.
pub open spec fn smax(a: int, b: int) -> int {
    if a >= b {
        a
    } else {
        b
    }
}

/// Exact meaning of fixed-point addition.
pub open spec fn fx_add_spec(a: int, b: int) -> int {
    fx_clip(a + b)
}

/// Exact meaning of fixed-point subtraction.
pub open spec fn fx_sub_spec(a: int, b: int) -> int {
    fx_clip(a - b)
}

/// Exact meaning of fixed-point multiplication: the product of the two
/// represented values, truncated to milli-units and clipped.
pub open spec fn fx_mul_spec(a: int, b: int) -> int {
    fx_clip(div_trunc(a * b, MILLI as int))
}

/// Exact meaning of fixed-point division: the ratio of the two represented
/// values, truncated to milli-units and clipped. The divisor is positive.
pub open spec fn fx_div_spec(a: int, b: int) -> int
    recommends
        b > 0,
{
    fx_clip(div_trunc(a * (MILLI as int), b))
}

pub fn fx_add(a: i64, b: i64) -> (r: i64)
    requires
        fx_ok(a),
        fx_ok(b),
    ensures
        r == fx_add_spec(a as int, b as int),
        fx_ok(r),
{
    let s: i64 = a + b;
    if s > FX_MAX {
        FX_MAX
    } else if s < -FX_MAX {
        -FX_MAX
    } else {
        s
    }
}

pub fn fx_sub(a: i64, b: i64) -> (r: i64)
    requires
        fx_ok(a),
        fx_ok(b),
    ensures
        r == fx_sub_spec(a as int, b as int),
        fx_ok(r),
{
    let s: i64 = a - b;
    if s > FX_MAX {
        FX_MAX
    } else if s < -FX_MAX {
        -FX_MAX
    } else {
        s
    }
}

pub fn fx_mul(a: i64, b: i64) -> (r: i64)
    requires
        fx_ok(a),
        fx_ok(b),
    ensures
        r == fx_mul_spec(a as int, b as int),
        fx_ok(r),
{
    let neg: bool = (a < 0) != (b < 0);
    let ma: u128 = if a < 0 {
        (-(a as i128)) as u128
    } else {
        a as u128
    };
    let mb: u128 = if b < 0 {
        (-(b as i128)) as u128
    } else {
        b as u128
    };
    proof {
        assert(ma * mb <= (FX_MAX as u128) * (FX_MAX as u128)) by (nonlinear_arith)
            requires
                ma <= FX_MAX as u128,
                mb <= FX_MAX as u128,
        ;
    }
    let p: u128 = ma * mb;
    let q: u128 = p / 1000;
    let qc: u128 = if q > FX_MAX as u128 {
        FX_MAX as u128
    } else {
        q
    };
    let r: i64 = if neg {
        -(qc as i64)
    } else {
        qc as i64
    };
    proof {
        let ai = a as int;
        let bi = b as int;
        assert(ma as int * mb as int == if ai * bi >= 0 { ai * bi } else { -(ai * bi) })
            by (nonlinear_arith)
            requires
                ma as int == if ai < 0 { -ai } else { ai },
                mb as int == if bi < 0 { -bi } else { bi },
        ;
        if !neg {
            assert(ai * bi >= 0) by (nonlinear_arith)
                requires
                    (ai < 0) == (bi < 0),
            ;
        } else {
            assert(ai * bi <= 0) by (nonlinear_arith)
                requires
                    (ai < 0) != (bi < 0),
            ;
        }
    }
    r
}

pub fn fx_div(a: i64, b: i64) -> (r: i64)
    requires
        fx_ok(a),
        0 < b,
    ensures
        r == fx_div_spec(a as int, b as int),
        fx_ok(r),
{
    let neg: bool = a < 0;
    let ma: u128 = if a < 0 {
        (-(a as i128)) as u128
    } else {
        a as u128
    };
    let p: u128 = ma * 1000;
    let q: u128 = p / (b as u128);
    let qc: u128 = if q > FX_MAX as u128 {
        FX_MAX as u128
    } else {
        q
    };
    let r: i64 = if neg {
        -(qc as i64)
    } else {
        qc as i64
    };
    proof {
        let ai = a as int;
        let bi = b as int;
        assert(p as int == if ai >= 0 { ai * 1000 } else { -(ai * 1000) }) by (nonlinear_arith)
            requires
                ma as int == if ai < 0 { -ai } else { ai },
                p as int == ma as int * 1000,
        ;
        assert(q as int == p as int / bi);
    }
    r
}

/// Half a turn (pi) in milli-radians, as this library's sinusoid divides the
/// circle.
pub const PI_MILLI: i64 = 3142;

/// A full turn in milli-radians.
pub const TAU_MILLI: i64 = 6284;

/// A quarter turn in milli-radians.
pub const HALF_PI_MILLI: i64 = 1571;

/// Rational half-wave approximation of the sine on `[0, PI_MILLI]`
/// (milli-radians in, milli-units out). It is exact at the ends and at the
/// peak: `0, 0` and `PI_MILLI, 0` give `0`, `HALF_PI_MILLI` gives `MILLI`.
pub open spec fn sin_half_wave(t: int) -> int
    recommends
        0 <= t <= PI_MILLI as int,
{
    (16000 * (t * (PI_MILLI as int - t))) / (5 * (PI_MILLI as int) * (PI_MILLI as int) - 4 * (t
        * (PI_MILLI as int - t)))
}

/// The library's sinusoid: the argument reduced modulo one turn, then the
/// half-wave approximation with the sign of the half it falls in.
pub open spec fn sin_milli_spec(x: int) -> int {
    let m = x % (TAU_MILLI as int);
    if m < PI_MILLI as int {
        sin_half_wave(m)
    } else {
        -sin_half_wave(m - PI_MILLI as int)
    }
}

proof fn lemma_half_wave_bounds(t: int)
    requires
        0 <= t <= PI_MILLI as int,
    ensures
        0 <= sin_half_wave(t) <= MILLI as int,
{
    let p = PI_MILLI as int;
    let u = t * (p - t);
    assert((p - 2 * t) * (p - 2 * t) >= 0) by (nonlinear_arith);
    assert(0 <= u && 4 * u <= p * p) by (nonlinear_arith)
        requires
            0 <= t <= p,
            u == t * (p - t),
            (p - 2 * t) * (p - 2 * t) >= 0,
    ;
    assert(5 * p * p - 4 * u >= p * p > 0);
    assert(16000 * u >= 0) by (nonlinear_arith)
        requires
            u >= 0,
    ;
    assert(16000 * u / (5 * p * p - 4 * u) >= 0);
    // 16000 u <= 1000 (5 p^2 - 4 u)  <=>  20 u <= 5 p^2  <=>  4 u <= p^2
    assert(16000 * u <= 1000 * (5 * p * p - 4 * u)) by (nonlinear_arith)
        requires
            4 * u <= p * p,
    ;
    let den = 5 * p * p - 4 * u;
    vstd::arithmetic::div_mod::lemma_div_is_ordered(16000 * u, 1000 * den, den);
    vstd::arithmetic::div_mod::lemma_div_multiples_vanish(1000, den);
    assert(den * 1000 == 1000 * den) by (nonlinear_arith);
}

fn sin_half_wave_exec(t: i64) -> (r: i64)
    requires
        0 <= t <= PI_MILLI,
    ensures
        r == sin_half_wave(t as int),
        0 <= r <= MILLI,
{
    proof {
        assert(0 <= t as int * (PI_MILLI as int - t as int) <= (PI_MILLI as int) * (
        PI_MILLI as int)) by (nonlinear_arith)
            requires
                0 <= t as int <= PI_MILLI as int,
        ;
    }
    let u: i64 = t * (PI_MILLI - t);
    let num: i64 = 16000 * u;
    let den: i64 = 5 * PI_MILLI * PI_MILLI - 4 * u;
    proof {
        lemma_half_wave_bounds(t as int);
        assert(4 * (u as int) <= (PI_MILLI as int) * (PI_MILLI as int)) by (nonlinear_arith)
            requires
                u as int == t as int * (PI_MILLI as int - t as int),
                0 <= t as int <= PI_MILLI as int,
        ;
    }
    num / den
}

/// The sinusoid as an executable function.
pub fn sin_milli(x: i64) -> (r: i64)
    requires
        fx_ok(x),
    ensures
        r == sin_milli_spec(x as int),
        -MILLI <= r <= MILLI,
{
    // Shift by a multiple of the period to make the argument nonnegative,
    // so the reduction can use unsigned arithmetic.
    let shifted: i64 = x + TAU_MILLI * (FX_MAX / TAU_MILLI + 1);
    let m64: u64 = (shifted as u64) % (TAU_MILLI as u64);
    let m: i64 = m64 as i64;
    proof {
        let tau = TAU_MILLI as int;
        let k = FX_MAX as int / tau + 1;
        vstd::arithmetic::div_mod::lemma_mod_multiples_vanish(k, x as int, tau);
        assert(shifted as int % tau == x as int % tau);
        lemma_half_wave_bounds(if (m as int) < (PI_MILLI as int) {
            m as int
        } else {
            m as int - PI_MILLI as int
        });
    }
    if m < PI_MILLI {
        sin_half_wave_exec(m)
    } else {
        let v: i64 = sin_half_wave_exec(m - PI_MILLI);
        -v
    }
}

/// Cosine, as the sinusoid a quarter turn ahead; the shifted argument is
/// clipped back into range first.
pub open spec fn cos_milli_spec(x: int) -> int {
    sin_milli_spec(fx_clip(x + HALF_PI_MILLI as int))
}

pub fn cos_milli(x: i64) -> (r: i64)
    requires
        fx_ok(x),
    ensures
        r == cos_milli_spec(x as int),
        -MILLI <= r <= MILLI,
{
    let shifted: i64 = fx_add(x, HALF_PI_MILLI);
    sin_milli(shifted)
}

pub fn fx_min(a: i64, b: i64) -> (r: i64)
    ensures
        r == if a <= b { a as int } else { b as int },
{
    if a <= b {
        a
    } else {
        b
    }
}

pub fn fx_max(a: i64, b: i64) -> (r: i64)
    ensures
        r == if a >= b { a as int } else { b as int },
{
    if a >= b {
        a
    } else {
        b
    }
}

} // verus!
