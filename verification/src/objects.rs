//! The sphere primitive: quadratic ray intersection and its bounding box,
//! with the guarantees that a ray starting outside and pointing away
//! misses, and that a ray starting inside hits.

use vstd::prelude::*;

use crate::aabb::{AabbV, AABB};
use crate::fixed::{
    fadd, fdiv, fmul, fneg, fsqrt, fsub, fx_add, fx_div, fx_mul, fx_neg, fx_sqrt, fx_sub,
    lemma_fx_div_sign, lemma_fx_mul_sign, lemma_isqrt_ge, lemma_isqrt_le, sat, tdiv, FX_MAX,
    FX_ONE,
};
use crate::ray::{opt_hit_view, ray_at, spec_hit_record, HitRecord, HitV, Ray, RayV};
use crate::scene::MaterialHandle;
use crate::vector::{
    lemma_vec_magnitude2_nonneg, vec_add, vec_dot, vec_magnitude2, vec_sub, Vec3, V3,
};

verus! {

/// A sphere with a material from the scene's table.
#[derive(Clone, Copy, Debug, PartialEq, Eq, Structural)]
pub struct Sphere {
    center: Vec3,
    radius: i64,
    material: MaterialHandle,
}

/// Mathematical model of a sphere.
pub struct SphereV {
    pub center: V3,
    pub radius: int,
    pub material: int,
}

impl View for Sphere {
    type V = SphereV;

    closed spec fn view(&self) -> SphereV {
        SphereV { center: self.center@, radius: self.radius as int, material: self.material.0 as int }
    }
}

/// The outward normal at a surface point: the offset from the center
/// scaled by the inverse radius (left unscaled for a degenerate sphere).
pub open spec fn sphere_outward_normal(s: SphereV, p: V3) -> V3 {
    let off = vec_sub(p, s.center);
    if s.radius == 0 {
        off
    } else {
        V3 {
            x: fx_div(off.x, s.radius),
            y: fx_div(off.y, s.radius),
            z: fx_div(off.z, s.radius),
        }
    }
}

/// The quadratic coefficients of a ray-sphere intersection.
pub open spec fn sphere_a(s: SphereV, r: RayV) -> int {
    vec_magnitude2(r.direction)
}

pub open spec fn sphere_half_b(s: SphereV, r: RayV) -> int {
    vec_dot(vec_sub(r.origin, s.center), r.direction)
}

pub open spec fn sphere_c(s: SphereV, r: RayV) -> int {
    fx_sub(vec_magnitude2(vec_sub(r.origin, s.center)), fx_mul(s.radius, s.radius))
}

pub open spec fn sphere_disc(s: SphereV, r: RayV) -> int {
    fx_sub(fx_mul(sphere_half_b(s, r), sphere_half_b(s, r)), fx_mul(sphere_a(s, r), sphere_c(s, r)))
}

/// The nearer and farther roots of the quadratic.
pub open spec fn sphere_root1(s: SphereV, r: RayV) -> int {
    fx_div(fx_neg(fx_add(sphere_half_b(s, r), fx_sqrt(sphere_disc(s, r)))), sphere_a(s, r))
}

pub open spec fn sphere_root2(s: SphereV, r: RayV) -> int {
    fx_div(fx_sub(fx_sqrt(sphere_disc(s, r)), sphere_half_b(s, r)), sphere_a(s, r))
}

/// The hit record of a root accepted at parameter `t`.
pub open spec fn sphere_record(s: SphereV, r: RayV, t: int) -> HitV {
    let p = ray_at(r, t);
    spec_hit_record(p, sphere_outward_normal(s, p), t, r.direction, s.material)
}

/// The full intersection routine: reject a degenerate direction or a
/// negative discriminant, then accept the nearest root inside
/// `[tmin, tmax]`.
pub open spec fn spec_sphere_hit(s: SphereV, r: RayV, tmin: int, tmax: int) -> Option<HitV> {
    if sphere_a(s, r) == 0 {
        Option::None
    } else if sphere_disc(s, r) < 0 {
        Option::None
    } else {
        let root1 = sphere_root1(s, r);
        let root2 = sphere_root2(s, r);
        if !(root1 < tmin || tmax < root1) {
            Option::Some(sphere_record(s, r, root1))
        } else if !(root2 < tmin || tmax < root2) {
            Option::Some(sphere_record(s, r, root2))
        } else {
            Option::None
        }
    }
}

/// The box `[center - radius, center + radius]` on every axis.
pub open spec fn spec_sphere_bounds(s: SphereV) -> AabbV {
    let rv = V3 { x: s.radius, y: s.radius, z: s.radius };
    AabbV { min: vec_sub(s.center, rv), max: vec_add(s.center, rv) }
}

impl Sphere {
    pub fn new(center: Vec3, radius: i64, material: MaterialHandle) -> (s: Sphere)
        ensures
            s@ == (SphereV {
                center: center@,
                radius: radius as int,
                material: material.0 as int,
            }),
    {
        Sphere { center, radius, material }
    }

    /// Intersect a ray with this sphere inside `[tmin, tmax]`.
    pub fn hit(&self, ray: &Ray, tmin: i64, tmax: i64) -> (res: Option<HitRecord>)
        ensures
            opt_hit_view(res) == spec_sphere_hit(self@, ray@, tmin as int, tmax as int),
    {
        let oc = ray.origin.minus(&self.center);

        let a = ray.direction.magnitude2();
        let half_b = oc.dot(&ray.direction);
        let c = fsub(oc.magnitude2(), fmul(self.radius, self.radius));

        if a == 0 {
            return None;
        }
        let discriminant = fsub(fmul(half_b, half_b), fmul(a, c));
        if discriminant < 0 {
            return None;
        }

        let sqrtd = fsqrt(discriminant);

        // Find the nearest root that lies in an acceptable range
        let mut root = fdiv(fneg(fadd(half_b, sqrtd)), a);
        if root < tmin || tmax < root {
            root = fdiv(fsub(sqrtd, half_b), a);
            if root < tmin || tmax < root {
                return None;
            }
        }

        let point = ray.at(root);
        let off = point.minus(&self.center);
        let normal = if self.radius == 0 {
            off
        } else {
            Vec3 {
                x: fdiv(off.x, self.radius),
                y: fdiv(off.y, self.radius),
                z: fdiv(off.z, self.radius),
            }
        };

        Some(HitRecord::new(point, normal, root, ray, self.material))
    }

    /// The handle of this sphere's material.
    pub fn material(&self) -> (r: MaterialHandle)
        ensures
            r.0 as int == self@.material,
    {
        self.material
    }

    /// The bounding box of this sphere.
    pub fn bounds(&self) -> (b: AABB)
        ensures
            b@ == spec_sphere_bounds(self@),
    {
        let rv = Vec3 { x: self.radius, y: self.radius, z: self.radius };
        AABB { min: self.center.minus(&rv), max: self.center.plus(&rv) }
    }
}

/// A sphere's material handle is an index, so it is never negative.
pub proof fn lemma_sphere_material_nonneg(s: Sphere)
    ensures
        s@.material >= 0,
{
}

/// The near root never exceeds the far root.
pub proof fn lemma_sphere_roots_ordered(s: SphereV, r: RayV)
    requires
        sphere_a(s, r) != 0,
    ensures
        sphere_root1(s, r) <= sphere_root2(s, r),
{
    lemma_vec_magnitude2_nonneg(r.direction);
    let a = sphere_a(s, r);
    let hb = sphere_half_b(s, r);
    let sq = fx_sqrt(sphere_disc(s, r));
    crate::fixed::lemma_fx_sqrt_nonneg(sphere_disc(s, r));
    assert(fx_neg(fx_add(hb, sq)) <= fx_sub(sq, hb));
    crate::fixed::lemma_fx_div_mono(fx_neg(fx_add(hb, sq)), fx_sub(sq, hb), a);
}

/// A sphere hit always lies inside the query interval.
pub proof fn lemma_sphere_hit_in_interval(s: SphereV, r: RayV, tmin: int, tmax: int)
    ensures
        spec_sphere_hit(s, r, tmin, tmax) is Some ==> tmin <= crate::bvh::hit_t(
            spec_sphere_hit(s, r, tmin, tmax),
        ) <= tmax,
{
}

/// Shrinking the far end of the interval restricts the answer: the same
/// record while its parameter still fits, nothing otherwise.
pub proof fn lemma_sphere_hit_restricts(s: SphereV, r: RayV, tmin: int, tmax1: int, tmax2: int)
    requires
        tmax2 <= tmax1,
    ensures
        spec_sphere_hit(s, r, tmin, tmax2) == crate::bvh::restrict_hit(
            spec_sphere_hit(s, r, tmin, tmax1),
            tmax2,
        ),
{
    if sphere_a(s, r) != 0 && sphere_disc(s, r) >= 0 {
        lemma_sphere_roots_ordered(s, r);
    }
}

/// A ray that starts at or outside the sphere's surface and does not point
/// toward it never hits for positive `tmin`: both quadratic roots lie at
/// or below zero.
pub proof fn lemma_sphere_miss_when_outside(s: SphereV, r: RayV, tmin: int, tmax: int)
    requires
        tmin > 0,
        sphere_half_b(s, r) >= 0,
        sphere_c(s, r) >= 0,
    ensures
        spec_sphere_hit(s, r, tmin, tmax) is None,
{
    let a = sphere_a(s, r);
    let hb = sphere_half_b(s, r);
    let c = sphere_c(s, r);
    let disc = sphere_disc(s, r);
    lemma_vec_magnitude2_nonneg(r.direction);
    if a != 0 && disc >= 0 {
        lemma_fx_mul_sign(a, c);
        lemma_fx_mul_sign(hb, hb);
        // disc * FX_ONE never exceeds hb^2, so its root is at most hb
        let sq = fx_sqrt(disc);
        crate::fixed::lemma_fx_sqrt_nonneg(disc);
        assert(sq <= hb) by {
            assert(disc <= fx_mul(hb, hb));
            assert(fx_mul(hb, hb) * FX_ONE <= hb * hb) by {
                assert(hb * hb >= 0) by (nonlinear_arith)
                    requires
                        hb >= 0,
                {}
                assert(tdiv(hb * hb, FX_ONE as int) == hb * hb / FX_ONE as int);
                assert(sat(hb * hb / FX_ONE as int) <= hb * hb / FX_ONE as int);
                assert((hb * hb / FX_ONE as int) * FX_ONE <= hb * hb) by {
                    vstd::arithmetic::div_mod::lemma_fundamental_div_mod(hb * hb, FX_ONE as int);
                    vstd::arithmetic::div_mod::lemma_mod_bound(hb * hb, FX_ONE as int);
                }
                assert(sat(hb * hb / FX_ONE as int) * FX_ONE <= (hb * hb / FX_ONE as int) * FX_ONE)
                    by (nonlinear_arith)
                    requires
                        sat(hb * hb / FX_ONE as int) <= hb * hb / FX_ONE as int,
                        FX_ONE as int > 0,
                {}
            }
            if disc > 0 {
                assert(disc * FX_ONE <= fx_mul(hb, hb) * FX_ONE) by (nonlinear_arith)
                    requires
                        disc <= fx_mul(hb, hb),
                        FX_ONE as int > 0,
                {}
                assert(disc * FX_ONE >= 0) by (nonlinear_arith)
                    requires
                        disc > 0,
                        FX_ONE as int > 0,
                {}
                lemma_isqrt_le(disc * FX_ONE, hb);
            }
        };
        assert(fx_neg(fx_add(hb, sq)) <= 0);
        lemma_fx_div_sign(fx_neg(fx_add(hb, sq)), a);
        assert(sphere_root1(s, r) <= 0);
        assert(fx_sub(sq, hb) <= 0);
        lemma_fx_div_sign(fx_sub(sq, hb), a);
        assert(sphere_root2(s, r) <= 0);
    }
}

/// A ray that starts strictly inside the sphere (by at least one
/// fixed-point unit of margin on `a * c`) hits it: the far root is not
/// negative, so any interval from a nonpositive `tmin` up to that root
/// reports an intersection.
pub proof fn lemma_sphere_hit_from_inside(s: SphereV, r: RayV, tmin: int, tmax: int)
    requires
        tmin <= 0,
        sphere_a(s, r) != 0,
        fx_mul(sphere_a(s, r), sphere_c(s, r)) <= -(FX_ONE as int),
        fx_mul(sphere_half_b(s, r), sphere_half_b(s, r)) <= FX_MAX as int / 2,
        fx_mul(sphere_a(s, r), sphere_c(s, r)) >= -(FX_MAX as int / 2),
        sphere_root2(s, r) <= tmax,
    ensures
        spec_sphere_hit(s, r, tmin, tmax) is Some,
{
    let a = sphere_a(s, r);
    let hb = sphere_half_b(s, r);
    let c = sphere_c(s, r);
    let disc = sphere_disc(s, r);
    lemma_vec_magnitude2_nonneg(r.direction);
    lemma_fx_mul_sign(hb, hb);
    // no saturation in the discriminant
    assert(disc == fx_mul(hb, hb) - fx_mul(a, c));
    assert(disc >= fx_mul(hb, hb) + FX_ONE);
    let sq = fx_sqrt(disc);
    crate::fixed::lemma_fx_sqrt_nonneg(disc);
    // disc * FX_ONE exceeds hb^2, so the root is at least hb
    assert(sq >= hb) by {
        if hb > 0 {
            assert(fx_mul(hb, hb) == sat(tdiv(hb * hb, FX_ONE as int)));
            assert(hb * hb >= 0) by (nonlinear_arith);
            assert(tdiv(hb * hb, FX_ONE as int) == hb * hb / FX_ONE as int);
            assert(hb * hb / FX_ONE as int <= FX_MAX as int / 2);
            assert(sat(hb * hb / FX_ONE as int) == hb * hb / FX_ONE as int);
            assert(disc * FX_ONE >= (hb * hb / FX_ONE as int) * FX_ONE + FX_ONE * FX_ONE)
                by (nonlinear_arith)
                requires
                    disc >= hb * hb / FX_ONE as int + FX_ONE,
            {}
            assert((hb * hb / FX_ONE as int) * FX_ONE + FX_ONE >= hb * hb) by {
                vstd::arithmetic::div_mod::lemma_fundamental_div_mod(hb * hb, FX_ONE as int);
                vstd::arithmetic::div_mod::lemma_mod_bound(hb * hb, FX_ONE as int);
            }
            assert(disc * FX_ONE >= hb * hb);
            lemma_isqrt_ge(disc * FX_ONE, hb);
        }
    };
    assert(fx_sub(sq, hb) >= 0);
    lemma_fx_div_sign(fx_sub(sq, hb), a);
    assert(sphere_root2(s, r) >= 0);
}

} // verus!
