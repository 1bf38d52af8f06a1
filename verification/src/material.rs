//! Material variants and their scatter laws.
//!
//! Every material answers a hit with an attenuation color and an optional
//! scattered ray; no scattered ray ends the path. The generator is passed
//! explicitly, so each scatter is an exact function of its inputs and the
//! generator state.

use vstd::prelude::*;

use crate::color::{Color, C3};
use crate::fixed::{
    fadd, fdiv, fmul, fsqrt, fsub, fx_add, fx_div, fx_mul, fx_sqrt, fx_sub, lemma_fx_mul_mono_both,
    lemma_fx_mul_sign, lemma_fx_mul_square_le_one, FX_ONE,
};
use crate::ray::{opt_ray_view, HitRecord, HitV, Ray, RayV};
use crate::sample::{
    rng_step, rng_unit_of, sample_unit_sphere_surface, sample_unit_sphere_volume,
    spec_surface_sample, spec_volume_sample, Rng64, SAMPLE_ATTEMPTS,
};
use crate::vector::{
    near_zero, reflect, refract, vec_add, vec_dot, vec_near_zero, vec_neg, vec_normalize,
    vec_reflect, vec_refract, vec_scale,
};

verus! {

/// A diffuse surface that scatters around the normal.
#[derive(Clone, Copy, Debug, PartialEq, Eq, Structural)]
pub struct Lambertian {
    pub albedo: Color,
}

/// A reflective surface with a fuzz radius.
#[derive(Clone, Copy, Debug, PartialEq, Eq, Structural)]
pub struct Metal {
    pub albedo: Color,
    pub fuzz: i64,
}

/// A light source; `new` premultiplies color and strength.
#[derive(Clone, Copy, Debug, PartialEq, Eq, Structural)]
pub struct Emission {
    pub color: Color,
}

/// A transparent surface with an index of refraction.
#[derive(Clone, Copy, Debug, PartialEq, Eq, Structural)]
pub struct Dielectric {
    pub ir: i64,
}

/// A medium that scatters uniformly in all directions.
#[derive(Clone, Copy, Debug, PartialEq, Eq, Structural)]
pub struct Isotropic {
    pub color: Color,
}

/// A random blend of two materials.
pub struct MixMaterial {
    pub first: Box<Material>,
    pub second: Box<Material>,
    pub factor: i64,
}

/// The closed family of materials a scene can hold.
pub enum Material {
    Lambertian(Lambertian),
    Metal(Metal),
    Emission(Emission),
    Dielectric(Dielectric),
    MixMaterial(MixMaterial),
    Isotropic(Isotropic),
}

impl Lambertian {
    pub fn new(albedo: Color) -> (m: Lambertian)
        ensures
            m.albedo == albedo,
    {
        Lambertian { albedo }
    }
}

impl Metal {
    pub fn new(albedo: Color, fuzz: i64) -> (m: Metal)
        ensures
            m.albedo == albedo,
            m.fuzz == fuzz,
    {
        Metal { albedo, fuzz }
    }
}

impl Emission {
    pub fn new(color: Color, strength: i64) -> (m: Emission)
        ensures
            m.color@ == crate::color::color_scale(color@, strength as int),
    {
        Emission { color: color.scale(strength) }
    }
}

impl Dielectric {
    pub fn new(ir: i64) -> (m: Dielectric)
        ensures
            m.ir == ir,
    {
        Dielectric { ir }
    }

    /// Schlick's approximation for reflectance.
    pub fn reflectance(cosine: i64, idx: i64) -> (r: i64)
        ensures
            r == spec_reflectance(cosine as int, idx as int),
    {
        let denom = fadd(FX_ONE, idx);
        let r0a = if denom == 0 {
            0
        } else {
            fdiv(fsub(FX_ONE, idx), denom)
        };
        let r0 = fmul(r0a, r0a);
        let p1 = fsub(FX_ONE, cosine);
        let p2 = fmul(p1, p1);
        let p4 = fmul(p2, p2);
        let p5 = fmul(p4, p1);
        fadd(r0, fmul(fsub(FX_ONE, r0), p5))
    }
}

/// Schlick's approximation: the base reflectance at normal incidence plus
/// its complement scaled by the fifth power of one minus the cosine.
pub open spec fn spec_reflectance(cosine: int, idx: int) -> int {
    let denom = fx_add(FX_ONE as int, idx);
    let r0a = if denom == 0 {
        0
    } else {
        fx_div(fx_sub(FX_ONE as int, idx), denom)
    };
    let r0 = fx_mul(r0a, r0a);
    let p1 = fx_sub(FX_ONE as int, cosine);
    let p2 = fx_mul(p1, p1);
    let p4 = fx_mul(p2, p2);
    let p5 = fx_mul(p4, p1);
    fx_add(r0, fx_mul(fx_sub(FX_ONE as int, r0), p5))
}

impl MixMaterial {
    pub fn new(first: Box<Material>, second: Box<Material>, factor: i64) -> (m: MixMaterial)
        ensures
            m.first == first,
            m.second == second,
            m.factor == factor,
    {
        MixMaterial { first, second, factor }
    }
}

impl Isotropic {
    pub fn new(color: Color) -> (m: Isotropic)
        ensures
            m.color == color,
    {
        Isotropic { color }
    }
}

/// What a material's scatter returns: the attenuation, the scattered ray
/// if the path continues, and the generator state after the draws.
pub open spec fn spec_scatter(m: Material, ray: RayV, hit: HitV, s: u64) -> (C3, Option<RayV>, u64)
    decreases m,
{
    match m {
        Material::Lambertian(l) => {
            let (d, s2) = spec_surface_sample(s);
            let dir = vec_add(hit.normal, d);
            let dir2 = if vec_near_zero(dir) {
                hit.normal
            } else {
                dir
            };
            (l.albedo@, Option::Some(RayV { origin: hit.point, direction: dir2 }), s2)
        },
        Material::Metal(mt) => {
            let reflected = vec_reflect(vec_normalize(ray.direction), hit.normal);
            let (d, s2) = spec_surface_sample(s);
            let dir = vec_add(reflected, vec_scale(d, mt.fuzz as int));
            if vec_dot(dir, hit.normal) > 0 {
                (mt.albedo@, Option::Some(RayV { origin: hit.point, direction: dir }), s2)
            } else {
                (C3 { r: 0, g: 0, b: 0 }, Option::None, s2)
            }
        },
        Material::Emission(e) => (e.color@, Option::None, s),
        Material::Dielectric(di) => {
            let ratio = if hit.front_face {
                if di.ir == 0 {
                    FX_ONE as int
                } else {
                    fx_div(FX_ONE as int, di.ir as int)
                }
            } else {
                di.ir as int
            };
            let unit = vec_normalize(ray.direction);
            let cos_theta = if vec_dot(hit.normal, vec_neg(unit)) < FX_ONE as int {
                vec_dot(hit.normal, vec_neg(unit))
            } else {
                FX_ONE as int
            };
            let sin_theta = fx_sqrt(fx_sub(FX_ONE as int, fx_mul(cos_theta, cos_theta)));
            let cannot_refract = fx_mul(ratio, sin_theta) > FX_ONE as int;
            let white = C3 { r: FX_ONE as int, g: FX_ONE as int, b: FX_ONE as int };
            if cannot_refract {
                let dir = vec_reflect(unit, hit.normal);
                (white, Option::Some(RayV { origin: hit.point, direction: dir }), s)
            } else {
                let s2 = rng_step(s);
                let u = rng_unit_of(s2);
                let dir = if spec_reflectance(cos_theta, ratio) > u {
                    vec_reflect(unit, hit.normal)
                } else {
                    vec_refract(unit, hit.normal, ratio)
                };
                (white, Option::Some(RayV { origin: hit.point, direction: dir }), s2)
            }
        },
        Material::MixMaterial(mx) => {
            let s2 = rng_step(s);
            let u = rng_unit_of(s2);
            if u >= mx.factor as int {
                spec_scatter(*mx.first, ray, hit, s2)
            } else {
                spec_scatter(*mx.second, ray, hit, s2)
            }
        },
        Material::Isotropic(iso) => {
            let (d, s2) = spec_volume_sample(s, SAMPLE_ATTEMPTS as nat);
            (iso.color@, Option::Some(RayV { origin: hit.point, direction: d }), s2)
        },
    }
}

impl Material {
    /// Answer a hit with an attenuation and an optional scattered ray.
    pub fn scatter(&self, ray: &Ray, hit: &HitRecord, rng: &mut Rng64) -> (r: (Color, Option<
        Ray,
    >))
        ensures
            ({
                let (att, sc, s) = spec_scatter(*self, ray@, hit@, old(rng).state);
                r.0@ == att && opt_ray_view(r.1) == sc && final(rng).state == s
            }),
        decreases *self,
    {
        match self {
            Material::Lambertian(l) => {
                let mut scatter_direction = hit.normal.plus(&sample_unit_sphere_surface(rng));
                if near_zero(&scatter_direction) {
                    // Catch degenerate scatter direction
                    scatter_direction = hit.normal;
                }
                let scattered = Ray::new(hit.point, scatter_direction);
                (l.albedo, Some(scattered))
            },
            Material::Metal(mt) => {
                let reflected = reflect(&ray.direction.normalize(), &hit.normal);
                let scattered = Ray::new(
                    hit.point,
                    reflected.plus(&sample_unit_sphere_surface(rng).scale(mt.fuzz)),
                );
                if scattered.direction.dot(&hit.normal) > 0 {
                    (mt.albedo, Some(scattered))
                } else {
                    (Color::black(), None)
                }
            },
            Material::Emission(e) => (e.color, None),
            Material::Dielectric(di) => {
                let refraction_ratio = if hit.front_face {
                    if di.ir == 0 {
                        FX_ONE
                    } else {
                        fdiv(FX_ONE, di.ir)
                    }
                } else {
                    di.ir
                };
                let unit_direction = ray.direction.normalize();
                let cos_theta = crate::fixed::fmin(hit.normal.dot(&unit_direction.negate()), FX_ONE);
                let sin_theta = fsqrt(fsub(FX_ONE, fmul(cos_theta, cos_theta)));

                let cannot_refract = fmul(refraction_ratio, sin_theta) > FX_ONE;
                let direction = if cannot_refract {
                    reflect(&unit_direction, &hit.normal)
                } else {
                    let u = rng.next_unit();
                    if Dielectric::reflectance(cos_theta, refraction_ratio) > u {
                        reflect(&unit_direction, &hit.normal)
                    } else {
                        refract(&unit_direction, &hit.normal, refraction_ratio)
                    }
                };
                (Color::new(FX_ONE, FX_ONE, FX_ONE), Some(Ray::new(hit.point, direction)))
            },
            Material::MixMaterial(mx) => {
                let u = rng.next_unit();
                if u >= mx.factor {
                    mx.first.scatter(ray, hit, rng)
                } else {
                    mx.second.scatter(ray, hit, rng)
                }
            },
            Material::Isotropic(iso) => {
                let direction = sample_unit_sphere_volume(rng);
                (iso.color, Some(Ray::new(hit.point, direction)))
            },
        }
    }
}

/// For a fixed index of at least one, Schlick's reflectance is
/// monotonically decreasing in the cosine over `[0, 1]`.
pub proof fn lemma_schlick_monotone(c1: int, c2: int, idx: int)
    requires
        0 <= c1 <= c2 <= FX_ONE as int,
        idx >= FX_ONE as int,
    ensures
        spec_reflectance(c2, idx) <= spec_reflectance(c1, idx),
{
    let one = FX_ONE as int;
    let denom = fx_add(one, idx);
    let r0a = fx_div(fx_sub(one, idx), denom);
    // the base reflectance lies in [0, 1]
    assert(-one <= r0a <= one) by {
        let num = fx_sub(one, idx);
        assert(-(denom) <= num <= denom);
        assert(crate::fixed::sabs(num * one) <= denom * one) by (nonlinear_arith)
            requires
                -(denom) <= num <= denom,
                one > 0,
        {}
        assert(crate::fixed::sabs(num * one) / denom <= denom * one / denom) by {
            vstd::arithmetic::div_mod::lemma_div_is_ordered(
                crate::fixed::sabs(num * one),
                denom * one,
                denom,
            );
        }
        assert(denom * one / denom == one) by {
            vstd::arithmetic::div_mod::lemma_div_multiples_vanish(one, denom);
            assert(denom * one == one * denom) by (nonlinear_arith);
        }
        assert(crate::fixed::sabs(num * one) / denom >= 0) by {
            vstd::arithmetic::div_mod::lemma_div_pos_is_pos(crate::fixed::sabs(num * one), denom);
        }
    }
    let r0 = fx_mul(r0a, r0a);
    lemma_fx_mul_square_le_one(r0a);
    let k = fx_sub(one, r0);
    assert(0 <= k <= one);
    // the falloff terms are nonnegative and ordered
    let p1a = fx_sub(one, c2);
    let p1b = fx_sub(one, c1);
    assert(0 <= p1a <= p1b <= one);
    let p2a = fx_mul(p1a, p1a);
    let p2b = fx_mul(p1b, p1b);
    lemma_fx_mul_mono_both(p1a, p1b, p1a, p1b);
    lemma_fx_mul_sign(p1a, p1a);
    let p4a = fx_mul(p2a, p2a);
    let p4b = fx_mul(p2b, p2b);
    lemma_fx_mul_mono_both(p2a, p2b, p2a, p2b);
    lemma_fx_mul_sign(p2a, p2a);
    let p5a = fx_mul(p4a, p1a);
    let p5b = fx_mul(p4b, p1b);
    lemma_fx_mul_mono_both(p4a, p4b, p1a, p1b);
    lemma_fx_mul_sign(p4a, p1a);
    lemma_fx_mul_mono_both(p5a, p5b, k, k);
    assert(fx_mul(p5a, k) == fx_mul(k, p5a)) by {
        assert(p5a * k == k * p5a);
    }
    assert(fx_mul(p5b, k) == fx_mul(k, p5b)) by {
        assert(p5b * k == k * p5b);
    }
}

} // verus!
