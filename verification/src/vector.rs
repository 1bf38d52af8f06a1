//! Three-component fixed-point vectors and the small vector calculus the
//! renderer needs: dot and cross products, length, normalization,
//! reflection and refraction.

use vstd::prelude::*;

use crate::fixed::{
    fadd, fdiv, fmul, fneg, fsqrt, fsub, fx_add, fx_div, fx_mul, fx_neg, fx_sqrt, fx_sub, FX_MAX,
    FX_ONE,
};

verus! {

/// A vector of three fixed-point coordinates.
#[derive(Clone, Copy, Debug, PartialEq, Eq, Structural)]
pub struct Vec3 {
    pub x: i64,
    pub y: i64,
    pub z: i64,
}

/// The mathematical model of a `Vec3`: three unbounded integers, each a
/// fixed-point numerator.
pub struct V3 {
    pub x: int,
    pub y: int,
    pub z: int,
}

impl View for Vec3 {
    type V = V3;

    open spec fn view(&self) -> V3 {
        V3 { x: self.x as int, y: self.y as int, z: self.z as int }
    }
}

/// All three coordinates lie in the saturation range.
pub open spec fn v3_in_range(a: V3) -> bool {
    &&& -(FX_MAX as int) <= a.x <= FX_MAX as int
    &&& -(FX_MAX as int) <= a.y <= FX_MAX as int
    &&& -(FX_MAX as int) <= a.z <= FX_MAX as int
}

pub open spec fn v3_zero() -> V3 {
    V3 { x: 0, y: 0, z: 0 }
}

pub open spec fn vec_add(a: V3, b: V3) -> V3 {
    V3 { x: fx_add(a.x, b.x), y: fx_add(a.y, b.y), z: fx_add(a.z, b.z) }
}

pub open spec fn vec_sub(a: V3, b: V3) -> V3 {
    V3 { x: fx_sub(a.x, b.x), y: fx_sub(a.y, b.y), z: fx_sub(a.z, b.z) }
}

pub open spec fn vec_neg(a: V3) -> V3 {
    V3 { x: fx_neg(a.x), y: fx_neg(a.y), z: fx_neg(a.z) }
}

/// Scale every coordinate by the fixed-point factor `k`.
pub open spec fn vec_scale(a: V3, k: int) -> V3 {
    V3 { x: fx_mul(a.x, k), y: fx_mul(a.y, k), z: fx_mul(a.z, k) }
}

pub open spec fn vec_dot(a: V3, b: V3) -> int {
    fx_add(fx_add(fx_mul(a.x, b.x), fx_mul(a.y, b.y)), fx_mul(a.z, b.z))
}

pub open spec fn vec_cross(a: V3, b: V3) -> V3 {
    V3 {
        x: fx_sub(fx_mul(a.y, b.z), fx_mul(a.z, b.y)),
        y: fx_sub(fx_mul(a.z, b.x), fx_mul(a.x, b.z)),
        z: fx_sub(fx_mul(a.x, b.y), fx_mul(a.y, b.x)),
    }
}

pub open spec fn vec_magnitude2(a: V3) -> int {
    vec_dot(a, a)
}

pub open spec fn vec_magnitude(a: V3) -> int {
    fx_sqrt(vec_magnitude2(a))
}

/// Normalization divides by the length; the zero vector is left unchanged
/// so the operation stays total.
pub open spec fn vec_normalize(a: V3) -> V3 {
    let m = vec_magnitude(a);
    if m == 0 {
        a
    } else {
        V3 { x: fx_div(a.x, m), y: fx_div(a.y, m), z: fx_div(a.z, m) }
    }
}

/// True when every coordinate is below the fixed-point resolution, which
/// in this representation means exactly zero.
pub open spec fn vec_near_zero(a: V3) -> bool {
    a.x == 0 && a.y == 0 && a.z == 0
}

/// Mirror `v` about the plane with normal `n`.
pub open spec fn vec_reflect(v: V3, n: V3) -> V3 {
    let d = vec_dot(v, n);
    vec_sub(v, vec_scale(n, fx_add(d, d)))
}

/// Snell refraction of the unit vector `uv` at a surface with normal `n`
/// and relative index of refraction `eta`.
pub open spec fn vec_refract(uv: V3, n: V3, eta: int) -> V3 {
    let cos_theta = if vec_dot(n, vec_neg(uv)) < FX_ONE as int {
        vec_dot(n, vec_neg(uv))
    } else {
        FX_ONE as int
    };
    let out_perp = vec_scale(vec_add(uv, vec_scale(n, cos_theta)), eta);
    let k = fx_sub(FX_ONE as int, vec_magnitude2(out_perp));
    let k_abs = if k < 0 {
        -k
    } else {
        k
    };
    let out_parallel = vec_scale(n, fx_neg(fx_sqrt(k_abs)));
    vec_add(out_perp, out_parallel)
}

impl Vec3 {
    pub fn new(x: i64, y: i64, z: i64) -> (r: Vec3)
        ensures
            r@ == (V3 { x: x as int, y: y as int, z: z as int }),
    {
        Vec3 { x, y, z }
    }

    pub fn zero() -> (r: Vec3)
        ensures
            r@ == v3_zero(),
    {
        Vec3 { x: 0, y: 0, z: 0 }
    }

    pub fn plus(&self, other: &Vec3) -> (r: Vec3)
        ensures
            r@ == vec_add(self@, other@),
    {
        Vec3 { x: fadd(self.x, other.x), y: fadd(self.y, other.y), z: fadd(self.z, other.z) }
    }

    pub fn minus(&self, other: &Vec3) -> (r: Vec3)
        ensures
            r@ == vec_sub(self@, other@),
    {
        Vec3 { x: fsub(self.x, other.x), y: fsub(self.y, other.y), z: fsub(self.z, other.z) }
    }

    pub fn negate(&self) -> (r: Vec3)
        ensures
            r@ == vec_neg(self@),
    {
        Vec3 { x: fneg(self.x), y: fneg(self.y), z: fneg(self.z) }
    }

    pub fn scale(&self, k: i64) -> (r: Vec3)
        ensures
            r@ == vec_scale(self@, k as int),
    {
        Vec3 { x: fmul(self.x, k), y: fmul(self.y, k), z: fmul(self.z, k) }
    }

    pub fn dot(&self, other: &Vec3) -> (r: i64)
        ensures
            r == vec_dot(self@, other@),
    {
        fadd(fadd(fmul(self.x, other.x), fmul(self.y, other.y)), fmul(self.z, other.z))
    }

    pub fn cross(&self, other: &Vec3) -> (r: Vec3)
        ensures
            r@ == vec_cross(self@, other@),
    {
        Vec3 {
            x: fsub(fmul(self.y, other.z), fmul(self.z, other.y)),
            y: fsub(fmul(self.z, other.x), fmul(self.x, other.z)),
            z: fsub(fmul(self.x, other.y), fmul(self.y, other.x)),
        }
    }

    pub fn magnitude2(&self) -> (r: i64)
        ensures
            r == vec_magnitude2(self@),
    {
        self.dot(self)
    }

    pub fn magnitude(&self) -> (r: i64)
        ensures
            r == vec_magnitude(self@),
    {
        fsqrt(self.magnitude2())
    }

    pub fn normalize(&self) -> (r: Vec3)
        ensures
            r@ == vec_normalize(self@),
    {
        let m = self.magnitude();
        if m == 0 {
            *self
        } else {
            Vec3 { x: fdiv(self.x, m), y: fdiv(self.y, m), z: fdiv(self.z, m) }
        }
    }
}

/// Returns true if a vector is smaller than the fixed-point resolution in
/// each coordinate.
pub fn near_zero(vector: &Vec3) -> (r: bool)
    ensures
        r == vec_near_zero(vector@),
{
    vector.x == 0 && vector.y == 0 && vector.z == 0
}

/// Reflect `vector` about the normal `normal`.
pub fn reflect(vector: &Vec3, normal: &Vec3) -> (r: Vec3)
    ensures
        r@ == vec_reflect(vector@, normal@),
{
    let d = vector.dot(normal);
    vector.minus(&normal.scale(fadd(d, d)))
}

/// Refract `uv` about `normal` with the given refraction ratio.
pub fn refract(uv: &Vec3, normal: &Vec3, etai_over_etat: i64) -> (r: Vec3)
    ensures
        r@ == vec_refract(uv@, normal@, etai_over_etat as int),
{
    let cos_theta = crate::fixed::fmin(normal.dot(&uv.negate()), FX_ONE);
    let out_perp = uv.plus(&normal.scale(cos_theta)).scale(etai_over_etat);
    let k = fsub(FX_ONE, out_perp.magnitude2());
    let k_abs = if k < 0 {
        fneg(k)
    } else {
        k
    };
    let out_parallel = normal.scale(fneg(fsqrt(k_abs)));
    out_perp.plus(&out_parallel)
}

/// A vector's squared magnitude is never negative.
pub proof fn lemma_vec_magnitude2_nonneg(a: V3)
    ensures
        vec_magnitude2(a) >= 0,
{
    crate::fixed::lemma_fx_mul_sign(a.x, a.x);
    crate::fixed::lemma_fx_mul_sign(a.y, a.y);
    crate::fixed::lemma_fx_mul_sign(a.z, a.z);
}

/// The dot product is symmetric.
pub proof fn lemma_vec_dot_comm(a: V3, b: V3)
    ensures
        vec_dot(a, b) == vec_dot(b, a),
{
    assert(a.x * b.x == b.x * a.x);
    assert(a.y * b.y == b.y * a.y);
    assert(a.z * b.z == b.z * a.z);
}

/// Negating the left argument of a dot product negates the result, as long
/// as the left argument is in the representable range.
pub proof fn lemma_vec_dot_neg_left(a: V3, b: V3)
    requires
        v3_in_range(a),
    ensures
        vec_dot(vec_neg(a), b) == -vec_dot(a, b),
{
    crate::fixed::lemma_fx_mul_neg_left(a.x, b.x);
    crate::fixed::lemma_fx_mul_neg_left(a.y, b.y);
    crate::fixed::lemma_fx_mul_neg_left(a.z, b.z);
}

} // verus!
