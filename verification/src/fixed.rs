//! Fixed-point scalar arithmetic: values carry 16 fractional bits, so the
//! integer `SCALE` stands for the real number one. All transform math in this
//! crate is exact integer arithmetic over this representation.
use vstd::prelude::*;

verus! {

/// The fixed-point unit: an `i64` value `v` represents the real number `v / SCALE`.
pub const SCALE: i64 = 65536;

/// A full turn (two pi) in fixed-point radians, rounded to a multiple of four
/// so that a quarter turn is exact.
pub const FX_TAU: i64 = 411776;

/// A quarter turn in fixed-point radians.
pub const FX_QUARTER: i64 = 102944;

/// A half turn in fixed-point radians.
pub const FX_HALF: i64 = 205888;

/// Division by `SCALE`, truncating toward zero: the rescaling step of every
/// fixed-point product.
pub open spec fn div_s(x: int) -> int {
    if x >= 0 {
        x / (SCALE as int)
    } else {
        -((-x) / (SCALE as int))
    }
}

/// Clamp a value into `[lo, hi]`.
pub open spec fn clamp_i(x: int, lo: int, hi: int) -> int {
    if x < lo {
        lo
    } else if x > hi {
        hi
    } else {
        x
    }
}

/// Clamp a value into the fixed-point interval `[-1, 1]`.
pub open spec fn clip_unit(v: int) -> int {
    clamp_i(v, -(SCALE as int), SCALE as int)
}

/// Rescaling an exact multiple of `SCALE` loses nothing.
pub proof fn lemma_div_s_mul(x: int)
    ensures
        div_s(x * (SCALE as int)) == x,
{
    if x >= 0 {
        vstd::arithmetic::div_mod::lemma_div_multiples_vanish(x, SCALE as int);
    } else {
        vstd::arithmetic::div_mod::lemma_div_multiples_vanish(-x, SCALE as int);
    }
}

/// The magnitude of a rescaled value is bounded by the rescaled magnitude bound.
pub proof fn lemma_div_s_bound(x: int, b: int)
    requires
        0 <= b,
        -b <= x <= b,
    ensures
        -(b / (SCALE as int)) <= div_s(x) <= b / (SCALE as int),
{
    if x >= 0 {
        vstd::arithmetic::div_mod::lemma_div_is_ordered(x, b, SCALE as int);
        vstd::arithmetic::div_mod::lemma_div_is_ordered(0, x, SCALE as int);
    } else {
        vstd::arithmetic::div_mod::lemma_div_is_ordered(-x, b, SCALE as int);
        vstd::arithmetic::div_mod::lemma_div_is_ordered(0, -x, SCALE as int);
    }
}

/// Rescale a wide intermediate product back to the fixed-point grid.
pub fn div_fix(x: i128) -> (r: i64)
    requires
        -0x4000_0000_0000_0000_0000 <= x <= 0x4000_0000_0000_0000_0000,
    ensures
        r as int == div_s(x as int),
        -0x4000_0000_0000_0000 <= r <= 0x4000_0000_0000_0000,
{
    proof {
        lemma_div_s_bound(x as int, 0x4000_0000_0000_0000_0000);
    }
    (x / (SCALE as i128)) as i64
}

/// Fixed-point product of two scalars, with ghost magnitude bounds that make
/// the absence of overflow provable at each call site.
pub fn fix_mul(a: i64, b: i64, Ghost(ba): Ghost<int>, Ghost(bb): Ghost<int>) -> (r: i64)
    requires
        0 <= ba,
        0 <= bb,
        -ba <= a as int <= ba,
        -bb <= b as int <= bb,
        ba * bb <= 0x1000_0000_0000_0000_0000,
    ensures
        r as int == div_s(a as int * b as int),
        -((ba * bb) / (SCALE as int)) <= r as int <= (ba * bb) / (SCALE as int),
{
    assert(-(ba * bb) <= (a as int) * (b as int) <= ba * bb) by (nonlinear_arith)
        requires
            0 <= ba,
            0 <= bb,
            -ba <= a as int <= ba,
            -bb <= b as int <= bb,
    ;
    let p: i128 = (a as i128) * (b as i128);
    let r: i64 = div_fix(p);
    proof {
        lemma_div_s_bound(p as int, ba * bb);
    }
    r
}

/// Saturating addition on `i64`.
pub fn sat_add(a: i64, b: i64) -> (r: i64)
    ensures
        r as int == clamp_i(a as int + b as int, i64::MIN as int, i64::MAX as int),
{
    let s: i128 = (a as i128) + (b as i128);
    if s > i64::MAX as i128 {
        i64::MAX
    } else if s < i64::MIN as i128 {
        i64::MIN
    } else {
        s as i64
    }
}

/// An angle reduced to `[0, FX_TAU)`: the representative used by the
/// trigonometric tables below.
pub open spec fn norm_angle_spec(a: int) -> int {
    if a >= 0 {
        a % (FX_TAU as int)
    } else if (-a) % (FX_TAU as int) == 0 {
        0
    } else {
        (FX_TAU as int) - (-a) % (FX_TAU as int)
    }
}

/// Reduce an angle in fixed-point radians to `[0, FX_TAU)`.
pub fn norm_angle(a: i64) -> (r: i64)
    requires
        a != i64::MIN,
    ensures
        r as int == norm_angle_spec(a as int),
        0 <= r < FX_TAU,
{
    if a >= 0 {
        a % FX_TAU
    } else {
        let m: i64 = (-a) % FX_TAU;
        if m == 0 {
            0
        } else {
            FX_TAU - m
        }
    }
}

/// Degree-seven Taylor polynomial for the sine of a first-quadrant angle,
/// evaluated on the fixed-point grid and clipped to `[-1, 1]`.
pub open spec fn sin_poly_spec(x: int) -> int {
    let s = SCALE as int;
    let x2 = (x * x) / s;
    let x3 = (x2 * x) / s;
    let x5 = (x3 * x2) / s;
    let x7 = (x5 * x2) / s;
    clip_unit(x - x3 / 6 + x5 / 120 - x7 / 5040)
}

/// Degree-six Taylor polynomial for the cosine of a first-quadrant angle,
/// evaluated on the fixed-point grid and clipped to `[-1, 1]`.
pub open spec fn cos_poly_spec(x: int) -> int {
    let s = SCALE as int;
    let x2 = (x * x) / s;
    let x4 = (x2 * x2) / s;
    let x6 = (x4 * x2) / s;
    clip_unit(s - x2 / 2 + x4 / 24 - x6 / 720)
}

fn sin_poly(x: i64) -> (r: i64)
    requires
        0 <= x <= FX_QUARTER,
    ensures
        r as int == sin_poly_spec(x as int),
        -SCALE <= r <= SCALE,
{
    assert(0 <= (x as int) * (x as int) <= 102944 * 102944) by (nonlinear_arith)
        requires
            0 <= x as int <= 102944,
    ;
    let x2: i64 = (x * x) / SCALE;
    proof {
        vstd::arithmetic::div_mod::lemma_div_is_ordered(
            (x as int) * (x as int),
            102944int * 102944,
            SCALE as int,
        );
        vstd::arithmetic::div_mod::lemma_div_is_ordered(0, (x as int) * (x as int), SCALE as int);
    }
    assert(0 <= (x2 as int) * (x as int) <= 161705 * 102944) by (nonlinear_arith)
        requires
            0 <= x2 as int <= 161705,
            0 <= x as int <= 102944,
    ;
    let x3: i64 = (x2 * x) / SCALE;
    proof {
        vstd::arithmetic::div_mod::lemma_div_is_ordered(
            (x2 as int) * (x as int),
            161705int * 102944,
            SCALE as int,
        );
        vstd::arithmetic::div_mod::lemma_div_is_ordered(0, (x2 as int) * (x as int), SCALE as int);
    }
    assert(0 <= (x3 as int) * (x2 as int) <= 254010 * 161705) by (nonlinear_arith)
        requires
            0 <= x3 as int <= 254010,
            0 <= x2 as int <= 161705,
    ;
    let x5: i64 = (x3 * x2) / SCALE;
    proof {
        vstd::arithmetic::div_mod::lemma_div_is_ordered(
            (x3 as int) * (x2 as int),
            254010int * 161705,
            SCALE as int,
        );
        vstd::arithmetic::div_mod::lemma_div_is_ordered(0, (x3 as int) * (x2 as int), SCALE as int);
    }
    assert(0 <= (x5 as int) * (x2 as int) <= 627000 * 161705) by (nonlinear_arith)
        requires
            0 <= x5 as int <= 627000,
            0 <= x2 as int <= 161705,
    ;
    let x7: i64 = (x5 * x2) / SCALE;
    proof {
        vstd::arithmetic::div_mod::lemma_div_is_ordered(
            (x5 as int) * (x2 as int),
            627000int * 161705,
            SCALE as int,
        );
        vstd::arithmetic::div_mod::lemma_div_is_ordered(0, (x5 as int) * (x2 as int), SCALE as int);
    }
    let raw: i64 = x - x3 / 6 + x5 / 120 - x7 / 5040;
    if raw > SCALE {
        SCALE
    } else if raw < -SCALE {
        -SCALE
    } else {
        raw
    }
}

fn cos_poly(x: i64) -> (r: i64)
    requires
        0 <= x <= FX_QUARTER,
    ensures
        r as int == cos_poly_spec(x as int),
        -SCALE <= r <= SCALE,
{
    assert(0 <= (x as int) * (x as int) <= 102944 * 102944) by (nonlinear_arith)
        requires
            0 <= x as int <= 102944,
    ;
    let x2: i64 = (x * x) / SCALE;
    proof {
        vstd::arithmetic::div_mod::lemma_div_is_ordered(
            (x as int) * (x as int),
            102944int * 102944,
            SCALE as int,
        );
        vstd::arithmetic::div_mod::lemma_div_is_ordered(0, (x as int) * (x as int), SCALE as int);
    }
    assert(0 <= (x2 as int) * (x2 as int) <= 161705 * 161705) by (nonlinear_arith)
        requires
            0 <= x2 as int <= 161705,
    ;
    let x4: i64 = (x2 * x2) / SCALE;
    proof {
        vstd::arithmetic::div_mod::lemma_div_is_ordered(
            (x2 as int) * (x2 as int),
            161705int * 161705,
            SCALE as int,
        );
        vstd::arithmetic::div_mod::lemma_div_is_ordered(0, (x2 as int) * (x2 as int), SCALE as int);
    }
    assert(0 <= (x4 as int) * (x2 as int) <= 399000 * 161705) by (nonlinear_arith)
        requires
            0 <= x4 as int <= 399000,
            0 <= x2 as int <= 161705,
    ;
    let x6: i64 = (x4 * x2) / SCALE;
    proof {
        vstd::arithmetic::div_mod::lemma_div_is_ordered(
            (x4 as int) * (x2 as int),
            399000int * 161705,
            SCALE as int,
        );
        vstd::arithmetic::div_mod::lemma_div_is_ordered(0, (x4 as int) * (x2 as int), SCALE as int);
    }
    let raw: i64 = SCALE - x2 / 2 + x4 / 24 - x6 / 720;
    if raw > SCALE {
        SCALE
    } else if raw < -SCALE {
        -SCALE
    } else {
        raw
    }
}

/// Sine of a fixed-point angle: quadrant reduction over the polynomial above.
pub open spec fn sin_fx_spec(a: int) -> int {
    let n = norm_angle_spec(a);
    if n < FX_QUARTER {
        sin_poly_spec(n)
    } else if n < FX_HALF {
        sin_poly_spec((FX_HALF as int) - n)
    } else if n < (FX_HALF as int) + (FX_QUARTER as int) {
        -sin_poly_spec(n - (FX_HALF as int))
    } else {
        -sin_poly_spec((FX_TAU as int) - n)
    }
}

/// Cosine of a fixed-point angle: quadrant reduction over the polynomial above.
pub open spec fn cos_fx_spec(a: int) -> int {
    let n = norm_angle_spec(a);
    if n < FX_QUARTER {
        cos_poly_spec(n)
    } else if n < FX_HALF {
        -cos_poly_spec((FX_HALF as int) - n)
    } else if n < (FX_HALF as int) + (FX_QUARTER as int) {
        -cos_poly_spec(n - (FX_HALF as int))
    } else {
        cos_poly_spec((FX_TAU as int) - n)
    }
}

/// Sine of an angle given in fixed-point radians.
pub fn sin_fx(a: i64) -> (r: i64)
    requires
        a != i64::MIN,
    ensures
        r as int == sin_fx_spec(a as int),
        -SCALE <= r <= SCALE,
{
    let n: i64 = norm_angle(a);
    if n < FX_QUARTER {
        sin_poly(n)
    } else if n < FX_HALF {
        sin_poly(FX_HALF - n)
    } else if n < FX_HALF + FX_QUARTER {
        -sin_poly(n - FX_HALF)
    } else {
        -sin_poly(FX_TAU - n)
    }
}

/// Cosine of an angle given in fixed-point radians.
pub fn cos_fx(a: i64) -> (r: i64)
    requires
        a != i64::MIN,
    ensures
        r as int == cos_fx_spec(a as int),
        -SCALE <= r <= SCALE,
{
    let n: i64 = norm_angle(a);
    if n < FX_QUARTER {
        cos_poly(n)
    } else if n < FX_HALF {
        -cos_poly(FX_HALF - n)
    } else if n < FX_HALF + FX_QUARTER {
        -cos_poly(n - FX_HALF)
    } else {
        cos_poly(FX_TAU - n)
    }
}

/// The sine of zero is exactly zero.
pub proof fn lemma_sin_zero()
    ensures
        sin_fx_spec(0) == 0,
{
    assert(norm_angle_spec(0) == 0);
    assert(sin_poly_spec(0) == 0);
}

/// The cosine of zero is exactly one.
pub proof fn lemma_cos_zero()
    ensures
        cos_fx_spec(0) == SCALE,
{
    assert(norm_angle_spec(0) == 0);
    assert(cos_poly_spec(0) == SCALE);
}

} // verus!
