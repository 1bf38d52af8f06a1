//! Angle helpers in fixed point: degree conversion, small polynomial
//! approximations of the trigonometric functions the camera and the sky
//! map need, and spherical coordinates.

use vstd::prelude::*;

use crate::fixed::{
    fadd, fdiv, fmul, fneg, fsqrt, fsub, fx_add, fx_div, fx_mul, fx_neg, fx_sqrt, fx_sub, FX_MAX,
    FX_ONE,
};
use crate::vector::{Vec3, V3};

verus! {

/// Pi in fixed point.
pub const FX_PI: i64 = 205887;

/// Pi / 2 in fixed point.
pub const FX_PI_2: i64 = 102944;

/// Pi / 4 in fixed point.
pub const FX_PI_4: i64 = 51472;

pub open spec fn spec_degrees_to_radians(degrees: int) -> int {
    fx_div(fx_mul(degrees, FX_PI as int), 180 * FX_ONE)
}

pub fn degrees_to_radians(degrees: i64) -> (r: i64)
    ensures
        r == spec_degrees_to_radians(degrees as int),
{
    fdiv(fmul(degrees, FX_PI), 180 * FX_ONE)
}

/// Taylor polynomial of the sine around zero, adequate on `[-pi, pi]`.
pub open spec fn spec_sin(x: int) -> int {
    let x2 = fx_mul(x, x);
    let x3 = fx_mul(x2, x);
    let x5 = fx_mul(x3, x2);
    let x7 = fx_mul(x5, x2);
    let x9 = fx_mul(x7, x2);
    fx_add(
        fx_sub(fx_add(fx_sub(x, fx_div(x3, 6 * FX_ONE)), fx_div(x5, 120 * FX_ONE)), fx_div(
            x7,
            5040 * FX_ONE,
        )),
        fx_div(x9, 362880 * FX_ONE),
    )
}

pub fn fsin(x: i64) -> (r: i64)
    ensures
        r == spec_sin(x as int),
{
    let x2 = fmul(x, x);
    let x3 = fmul(x2, x);
    let x5 = fmul(x3, x2);
    let x7 = fmul(x5, x2);
    let x9 = fmul(x7, x2);
    fadd(
        fsub(fadd(fsub(x, fdiv(x3, 6 * FX_ONE)), fdiv(x5, 120 * FX_ONE)), fdiv(x7, 5040 * FX_ONE)),
        fdiv(x9, 362880 * FX_ONE),
    )
}

/// Taylor polynomial of the cosine around zero, adequate on `[-pi, pi]`.
pub open spec fn spec_cos(x: int) -> int {
    let x2 = fx_mul(x, x);
    let x4 = fx_mul(x2, x2);
    let x6 = fx_mul(x4, x2);
    let x8 = fx_mul(x6, x2);
    fx_add(
        fx_sub(fx_add(fx_sub(FX_ONE as int, fx_div(x2, 2 * FX_ONE)), fx_div(x4, 24 * FX_ONE)),
            fx_div(x6, 720 * FX_ONE)),
        fx_div(x8, 40320 * FX_ONE),
    )
}

pub fn fcos(x: i64) -> (r: i64)
    ensures
        r == spec_cos(x as int),
{
    let x2 = fmul(x, x);
    let x4 = fmul(x2, x2);
    let x6 = fmul(x4, x2);
    let x8 = fmul(x6, x2);
    fadd(
        fsub(fadd(fsub(FX_ONE, fdiv(x2, 2 * FX_ONE)), fdiv(x4, 24 * FX_ONE)), fdiv(
            x6,
            720 * FX_ONE,
        )),
        fdiv(x8, 40320 * FX_ONE),
    )
}

/// The tangent as the quotient of the two polynomials; where the cosine
/// term vanishes the result saturates.
pub open spec fn spec_tan(x: int) -> int {
    let c = spec_cos(x);
    if c == 0 {
        FX_MAX as int
    } else {
        fx_div(spec_sin(x), c)
    }
}

pub fn ftan(x: i64) -> (r: i64)
    ensures
        r == spec_tan(x as int),
{
    let c = fcos(x);
    if c == 0 {
        FX_MAX
    } else {
        fdiv(fsin(x), c)
    }
}

/// A polynomial arc tangent on `[0, FX_ONE]`.
pub open spec fn spec_atan_unit(z: int) -> int {
    fx_add(
        fx_mul(FX_PI_4 as int, z),
        fx_mul(fx_mul(z, fx_sub(FX_ONE as int, z)), fx_add(16037, fx_mul(4345, z))),
    )
}

fn atan_unit(z: i64) -> (r: i64)
    ensures
        r == spec_atan_unit(z as int),
{
    fadd(fmul(FX_PI_4, z), fmul(fmul(z, fsub(FX_ONE, z)), fadd(16037, fmul(4345, z))))
}

/// The angle of the point `(x, y)` from the positive x axis, in
/// `(-pi, pi]`; zero for the origin.
pub open spec fn spec_atan2(y: int, x: int) -> int {
    let ax = if x < 0 {
        fx_neg(x)
    } else {
        x
    };
    let ay = if y < 0 {
        fx_neg(y)
    } else {
        y
    };
    if ax == 0 && ay == 0 {
        0
    } else {
        let base = if ay <= ax {
            spec_atan_unit(fx_div(ay, ax))
        } else {
            fx_sub(FX_PI_2 as int, spec_atan_unit(fx_div(ax, ay)))
        };
        let from_x = if x < 0 {
            fx_sub(FX_PI as int, base)
        } else {
            base
        };
        if y < 0 {
            fx_neg(from_x)
        } else {
            from_x
        }
    }
}

pub fn fatan2(y: i64, x: i64) -> (r: i64)
    ensures
        r == spec_atan2(y as int, x as int),
{
    let ax = if x < 0 {
        fneg(x)
    } else {
        x
    };
    let ay = if y < 0 {
        fneg(y)
    } else {
        y
    };
    if ax == 0 && ay == 0 {
        return 0;
    }
    let base = if ay <= ax {
        atan_unit(fdiv(ay, ax))
    } else {
        fsub(FX_PI_2, atan_unit(fdiv(ax, ay)))
    };
    let from_x = if x < 0 {
        fsub(FX_PI, base)
    } else {
        base
    };
    if y < 0 {
        fneg(from_x)
    } else {
        from_x
    }
}

/// The arc cosine on `[-FX_ONE, FX_ONE]`, in `[0, pi]`.
pub open spec fn spec_acos(x: int) -> int {
    spec_atan2(fx_sqrt(fx_sub(FX_ONE as int, fx_mul(x, x))), x)
}

pub fn facos(x: i64) -> (r: i64)
    ensures
        r == spec_acos(x as int),
{
    fatan2(fsqrt(fsub(FX_ONE, fmul(x, x))), x)
}

/// The polar and azimuthal angles of a direction, as the sky map reads
/// them: the polar angle of the downward component, and the azimuth of
/// `(-z, x)` shifted into `[0, 2 pi]`.
pub open spec fn spec_to_spherical_coords(v: V3) -> (int, int) {
    (spec_acos(fx_neg(v.y)), fx_add(spec_atan2(fx_neg(v.z), v.x), FX_PI as int))
}

pub fn to_spherical_coords(vector: &Vec3) -> (r: (i64, i64))
    ensures
        (r.0 as int, r.1 as int) == spec_to_spherical_coords(vector@),
{
    (facos(fneg(vector.y)), fadd(fatan2(fneg(vector.z), vector.x), FX_PI))
}

} // verus!
