//! Rays and hit records.
//!
//! A `HitRecord` always stores a normal that points against the incident
//! ray; the constructor flips the outward surface normal when the ray
//! strikes the back face.

use vstd::prelude::*;

use crate::color::{color_add, color_scale, Color, C3};
use crate::fixed::{fadd, fmul, fsub, fx_add, fx_mul, fx_sub, FX_ONE};
use crate::scene::MaterialHandle;
use crate::vector::{v3_in_range, vec_add, vec_dot, vec_neg, vec_normalize, vec_scale, Vec3, V3};

verus! {

/// A half line: all points `origin + t * direction` for `t >= 0`.
#[derive(Clone, Copy, Debug, PartialEq, Eq, Structural)]
pub struct Ray {
    pub origin: Vec3,
    pub direction: Vec3,
}

/// Mathematical model of a ray.
pub struct RayV {
    pub origin: V3,
    pub direction: V3,
}

impl View for Ray {
    type V = RayV;

    open spec fn view(&self) -> RayV {
        RayV { origin: self.origin@, direction: self.direction@ }
    }
}

/// The point a ray reaches at parameter `t`.
pub open spec fn ray_at(r: RayV, t: int) -> V3 {
    vec_add(r.origin, vec_scale(r.direction, t))
}

/// The blend factor of `vertical_grad`: half of the normalized direction's
/// `y` plus one.
pub open spec fn grad_factor(r: RayV) -> int {
    fx_mul(FX_ONE as int / 2, fx_add(vec_normalize(r.direction).y, FX_ONE as int))
}

/// The vertical gradient between `top` and `bottom` sampled by a ray.
pub open spec fn spec_vertical_grad(r: RayV, top: C3, bottom: C3) -> C3 {
    let t = grad_factor(r);
    color_add(color_scale(top, fx_sub(FX_ONE as int, t)), color_scale(bottom, t))
}

impl Ray {
    pub fn new(origin: Vec3, direction: Vec3) -> (r: Ray)
        ensures
            r@ == (RayV { origin: origin@, direction: direction@ }),
    {
        Ray { origin, direction }
    }

    /// The point this ray reaches at parameter `t`.
    pub fn at(&self, t: i64) -> (p: Vec3)
        ensures
            p@ == ray_at(self@, t as int),
    {
        self.origin.plus(&self.direction.scale(t))
    }

    /// Blend `top` and `bottom` by the height of the ray's direction.
    pub fn vertical_grad(&self, top: Color, bottom: Color) -> (c: Color)
        ensures
            c@ == spec_vertical_grad(self@, top@, bottom@),
    {
        let t = fmul(FX_ONE / 2, fadd(self.direction.normalize().y, FX_ONE));
        top.scale(fsub(FX_ONE, t)).plus(&bottom.scale(t))
    }
}

/// Everything the integrator needs to know about one ray-surface
/// intersection. Normals always oppose the incident direction.
#[derive(Clone, Copy, Debug, PartialEq, Eq, Structural)]
pub struct HitRecord {
    pub point: Vec3,
    pub normal: Vec3,
    pub t: i64,
    pub front_face: bool,
    pub material: MaterialHandle,
}

/// Mathematical model of a hit record.
pub struct HitV {
    pub point: V3,
    pub normal: V3,
    pub t: int,
    pub front_face: bool,
    pub material: int,
}

impl View for HitRecord {
    type V = HitV;

    open spec fn view(&self) -> HitV {
        HitV {
            point: self.point@,
            normal: self.normal@,
            t: self.t as int,
            front_face: self.front_face,
            material: self.material.0 as int,
        }
    }
}

/// The view of an optional ray.
pub open spec fn opt_ray_view(o: Option<Ray>) -> Option<RayV> {
    match o {
        Option::Some(r) => Option::Some(r@),
        Option::None => Option::None,
    }
}

/// The view of an optional hit record.
pub open spec fn opt_hit_view(o: Option<HitRecord>) -> Option<HitV> {
    match o {
        Option::Some(h) => Option::Some(h@),
        Option::None => Option::None,
    }
}

/// What `HitRecord::new` builds from an outward normal: the `front_face`
/// flag and the possibly flipped stored normal.
pub open spec fn spec_hit_record(
    point: V3,
    outward_normal: V3,
    t: int,
    direction: V3,
    material: int,
) -> HitV {
    let front_face = vec_dot(direction, outward_normal) < 0;
    HitV {
        point,
        normal: if front_face {
            outward_normal
        } else {
            vec_neg(outward_normal)
        },
        t,
        front_face,
        material,
    }
}

impl HitRecord {
    /// Record a hit from an outward surface normal. The stored normal is
    /// flipped if needed so that it never points along the incident ray.
    pub fn new(
        point: Vec3,
        outward_normal: Vec3,
        t: i64,
        ray: &Ray,
        material: MaterialHandle,
    ) -> (rec: HitRecord)
        requires
            v3_in_range(outward_normal@),
        ensures
            rec@ == spec_hit_record(point@, outward_normal@, t as int, ray@.direction, material.0 as int),
            vec_dot(rec@.normal, ray@.direction) <= 0,
    {
        let front_face = ray.direction.dot(&outward_normal) < 0;
        let normal = if front_face {
            outward_normal
        } else {
            outward_normal.negate()
        };
        proof {
            if !front_face {
                crate::vector::lemma_vec_dot_neg_left(outward_normal@, ray@.direction);
            }
            crate::vector::lemma_vec_dot_comm(outward_normal@, ray@.direction);
        }
        HitRecord { point, normal, t, front_face, material }
    }
}

} // verus!
