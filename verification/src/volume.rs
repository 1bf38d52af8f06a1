//! Participating media: a homogeneous isotropic volume bounded by another
//! object. A ray entering the boundary scatters after an exponentially
//! distributed distance; the decision is a pure function of the two
//! boundary hits and the unit sample.

use vstd::prelude::*;

use crate::fixed::{
    fadd, fdiv, fln_unit, fmul, fneg, fsub, fx_add, fx_div, fx_mul, fx_neg, fx_sub, spec_ln_unit,
    FX_ONE,
};
use crate::ray::{opt_hit_view, ray_at, spec_hit_record, HitRecord, HitV, Ray, RayV};
use crate::scene::{MaterialHandle, Object};
use crate::vector::{vec_magnitude, Vec3, V3};

verus! {

/// An isotropic medium inside a boundary object, with the negated inverse
/// of its density.
pub struct Volume {
    pub boundary: Box<Object>,
    pub neg_inv_density: i64,
}

impl Volume {
    /// Wrap a boundary with a medium of the given positive density.
    pub fn new(boundary: Box<Object>, density: i64) -> (v: Volume)
        requires
            density > 0,
        ensures
            v.boundary == boundary,
            v.neg_inv_density as int == fx_neg(fx_div(FX_ONE as int, density as int)),
    {
        Volume { boundary, neg_inv_density: fneg(fdiv(FX_ONE, density)) }
    }
}

/// Where a ray scatters inside the medium, given the two boundary hits:
/// the entry and exit parameters clamped to the query interval, the
/// distance inside, and the sampled scatter distance. A degenerate ray
/// direction scatters nowhere.
pub open spec fn spec_volume_march(
    h1: HitV,
    h2: HitV,
    ray: RayV,
    tmin: int,
    tmax: int,
    xi: int,
    neg_inv_density: int,
    material: int,
) -> Option<HitV> {
    let t1a = if h1.t < tmin {
        tmin
    } else {
        h1.t
    };
    let t2 = if h2.t > tmax {
        tmax
    } else {
        h2.t
    };
    if t1a >= t2 {
        Option::None
    } else {
        let t1 = if t1a < 0 {
            0
        } else {
            t1a
        };
        let ray_length = vec_magnitude(ray.direction);
        if ray_length == 0 {
            Option::None
        } else {
            let distance_inside = fx_mul(fx_sub(t2, t1), ray_length);
            let hit_distance = fx_mul(neg_inv_density, spec_ln_unit(xi));
            if hit_distance > distance_inside {
                Option::None
            } else {
                let t = fx_add(t1, fx_div(hit_distance, ray_length));
                Option::Some(
                    spec_hit_record(
                        ray_at(ray, t),
                        V3 { x: FX_ONE as int, y: 0, z: 0 },
                        t,
                        ray.direction,
                        material,
                    ),
                )
            }
        }
    }
}

/// Decide where a ray scatters inside a medium from its two boundary
/// hits and a unit sample.
pub fn volume_march(
    h1: &HitRecord,
    h2: &HitRecord,
    ray: &Ray,
    tmin: i64,
    tmax: i64,
    xi: i64,
    neg_inv_density: i64,
    material: MaterialHandle,
) -> (r: Option<HitRecord>)
    ensures
        opt_hit_view(r) == spec_volume_march(
            h1@,
            h2@,
            ray@,
            tmin as int,
            tmax as int,
            xi as int,
            neg_inv_density as int,
            material.0 as int,
        ),
{
    let t1a = if h1.t < tmin {
        tmin
    } else {
        h1.t
    };
    let t2 = if h2.t > tmax {
        tmax
    } else {
        h2.t
    };
    if t1a >= t2 {
        return None;
    }
    let t1 = if t1a < 0 {
        0
    } else {
        t1a
    };
    let ray_length = ray.direction.magnitude();
    if ray_length == 0 {
        return None;
    }
    let distance_inside_boundary = fmul(fsub(t2, t1), ray_length);
    let hit_distance = fmul(neg_inv_density, fln_unit(xi));
    if hit_distance > distance_inside_boundary {
        return None;
    }
    let t = fadd(t1, fdiv(hit_distance, ray_length));
    Some(HitRecord::new(ray.at(t), Vec3 { x: FX_ONE, y: 0, z: 0 }, t, ray, material))
}

} // verus!
