//! Background emitters: a uniform color, a vertical gradient, and an
//! equirectangular sky image.

use vstd::prelude::*;

use crate::color::{color_scale, Color, C3};
use crate::fixed::{
    fdiv, fmul, fx_div, fx_mul, fx_sub, lemma_isqrt_unique, sabs, tdiv, FX_ONE,
};
use crate::math::{spec_to_spherical_coords, to_spherical_coords, FX_PI};
use crate::ray::{grad_factor, spec_vertical_grad, Ray, RayV};
use crate::vector::{vec_magnitude2, vec_normalize, V3};

verus! {

/// A background that emits one color in every direction.
#[derive(Clone, Copy, Debug, PartialEq, Eq, Structural)]
pub struct UniformBackground {
    pub color: Color,
}

impl UniformBackground {
    pub fn new(color: Color) -> (b: UniformBackground)
        ensures
            b.color == color,
    {
        UniformBackground { color }
    }

    /// Every ray samples the same color.
    pub fn sample(&self, ray: &Ray) -> (c: Color)
        ensures
            c == self.color,
    {
        self.color
    }
}

/// A background that blends two colors by the height of the ray.
#[derive(Clone, Copy, Debug, PartialEq, Eq, Structural)]
pub struct GradientBackground {
    pub top: Color,
    pub bottom: Color,
}

impl GradientBackground {
    pub fn new(top: Color, bottom: Color) -> (b: GradientBackground)
        ensures
            b.top == top,
            b.bottom == bottom,
    {
        GradientBackground { top, bottom }
    }

    pub fn sample(&self, ray: &Ray) -> (c: Color)
        ensures
            c@ == spec_vertical_grad(ray@, self.top@, self.bottom@),
    {
        ray.vertical_grad(self.top, self.bottom)
    }
}

/// A ray pointing straight up samples the gradient's `bottom` color, and
/// one pointing straight down samples `top`: the blend factor is the
/// normalized direction's height mapped from `[-1, 1]` to `[0, 1]`.
pub proof fn lemma_gradient_directional(r: RayV, top: C3, bottom: C3)
    requires
        crate::color::c3_in_range(top),
        crate::color::c3_in_range(bottom),
    ensures
        r.direction == (V3 { x: 0, y: FX_ONE as int, z: 0 }) ==> spec_vertical_grad(r, top, bottom)
            == bottom,
        r.direction == (V3 { x: 0, y: -(FX_ONE as int), z: 0 }) ==> spec_vertical_grad(
            r,
            top,
            bottom,
        ) == top,
{
    let one = FX_ONE as int;
    if r.direction == (V3 { x: 0, y: one, z: 0 }) || r.direction == (V3 { x: 0, y: -one, z: 0 }) {
        let d = r.direction;
        assert(vec_magnitude2(d) == one) by {
            assert(fx_mul(0, 0) == 0);
            assert(fx_mul(one, one) == one) by {
                lemma_unit_square();
            }
            assert(fx_mul(-one, -one) == one) by {
                lemma_unit_square();
                crate::fixed::lemma_fx_mul_neg_left(one, -one);
                crate::fixed::lemma_fx_mul_neg_left(-one, -one);
                assert(fx_mul(-one, -one) == -fx_mul(one, -one));
                assert(fx_mul(one, -one) == fx_mul(-one, one)) by {
                    assert(one * -one == -one * one);
                }
                assert(fx_mul(-one, one) == -fx_mul(one, one));
            }
        }
        assert(crate::fixed::fx_sqrt(one) == one) by {
            lemma_isqrt_unique(one * one, one);
        }
        assert(fx_div(one, one) == one) by {
            lemma_unit_quotient();
        }
        assert(fx_div(-one, one) == -one) by {
            lemma_unit_quotient();
            assert(tdiv(-one * one, one) == -tdiv(one * one, one)) by {
                crate::fixed::lemma_tdiv_neg(one * one, one);
                assert((-one) * one == -(one * one));
            }
        }
        assert(fx_div(0, one) == 0) by {
            assert(sabs(0int) / sabs(one) == 0) by {
                vstd::arithmetic::div_mod::lemma_div_of0(one);
            }
        }
        // the blend factor is exactly one going up, exactly zero going down
        let t = grad_factor(r);
        if d.y == one {
            assert(t == one) by {
                assert(fx_mul(one / 2, 2 * one) == one) by {
                    assert(tdiv((one / 2) * (2 * one), one) == one) by {
                        assert((one / 2) * (2 * one) == one * one) by (nonlinear_arith)
                            requires
                                one == 65536,
                        {}
                        lemma_unit_square();
                    }
                }
            }
            assert(color_scale(top, fx_sub(one, t)) == (C3 { r: 0, g: 0, b: 0 })) by {
                lemma_scale_zero(top);
            }
            assert(color_scale(bottom, one) == bottom) by {
                lemma_scale_one(bottom);
            }
        } else {
            assert(t == 0) by {
                assert(fx_mul(one / 2, 0) == 0) by {
                    assert((one / 2) * 0 == 0);
                    vstd::arithmetic::div_mod::lemma_div_of0(one);
                }
            }
            assert(color_scale(bottom, 0) == (C3 { r: 0, g: 0, b: 0 })) by {
                lemma_scale_zero(bottom);
            }
            assert(color_scale(top, fx_sub(one, 0)) == top) by {
                lemma_scale_one(top);
            }
        }
    }
}

/// One squared in fixed point is one.
proof fn lemma_unit_square()
    ensures
        fx_mul(FX_ONE as int, FX_ONE as int) == FX_ONE as int,
        tdiv(FX_ONE as int * FX_ONE as int, FX_ONE as int) == FX_ONE as int,
{
    vstd::arithmetic::div_mod::lemma_div_multiples_vanish(FX_ONE as int, FX_ONE as int);
}

/// One divided by one in fixed point is one.
proof fn lemma_unit_quotient()
    ensures
        fx_div(FX_ONE as int, FX_ONE as int) == FX_ONE as int,
{
    vstd::arithmetic::div_mod::lemma_div_multiples_vanish(FX_ONE as int, FX_ONE as int);
}

/// Scaling by zero gives black.
proof fn lemma_scale_zero(c: C3)
    ensures
        color_scale(c, 0) == (C3 { r: 0, g: 0, b: 0 }),
{
    assert(c.r * 0 == 0);
    assert(c.g * 0 == 0);
    assert(c.b * 0 == 0);
    vstd::arithmetic::div_mod::lemma_div_of0(FX_ONE as int);
}

/// Scaling by one keeps representable channels.
proof fn lemma_scale_one(c: C3)
    requires
        -(crate::fixed::FX_MAX as int) <= c.r <= crate::fixed::FX_MAX as int,
        -(crate::fixed::FX_MAX as int) <= c.g <= crate::fixed::FX_MAX as int,
        -(crate::fixed::FX_MAX as int) <= c.b <= crate::fixed::FX_MAX as int,
    ensures
        color_scale(c, FX_ONE as int) == c,
{
    lemma_scale_one_channel(c.r);
    lemma_scale_one_channel(c.g);
    lemma_scale_one_channel(c.b);
}

/// Multiplying a representable value by one keeps it.
proof fn lemma_scale_one_channel(v: int)
    requires
        -(crate::fixed::FX_MAX as int) <= v <= crate::fixed::FX_MAX as int,
    ensures
        fx_mul(v, FX_ONE as int) == v,
{
    let one = FX_ONE as int;
    if v >= 0 {
        assert(tdiv(v * one, one) == v) by {
            vstd::arithmetic::div_mod::lemma_div_multiples_vanish(v, one);
            assert(v * one == one * v) by (nonlinear_arith);
        }
    } else {
        assert(tdiv(v * one, one) == -tdiv(-(v * one), one)) by {
            crate::fixed::lemma_tdiv_neg(-(v * one), one);
        }
        assert(-(v * one) == (-v) * one) by (nonlinear_arith);
        assert(tdiv((-v) * one, one) == -v) by {
            vstd::arithmetic::div_mod::lemma_div_multiples_vanish(-v, one);
            assert((-v) * one == one * (-v)) by (nonlinear_arith);
        }
    }
}

/// An equirectangular sky image sampled by direction.
pub struct SkyMap {
    pub image: Vec<Color>,
    pub width: usize,
    pub height: usize,
}

impl SkyMap {
    /// A usable sky map: a nonempty raster whose buffer matches its
    /// dimensions, small enough that pixel coordinates stay exact.
    pub open spec fn wf(&self) -> bool {
        &&& self.image@.len() == self.width * self.height
        &&& 1 <= self.width <= 0x10000
        &&& 1 <= self.height <= 0x10000
    }

    /// Wrap an image buffer already laid out row-major.
    pub fn from_buffer(image: Vec<Color>, width: usize, height: usize) -> (s: SkyMap)
        requires
            image@.len() == width * height,
            1 <= width <= 0x10000,
            1 <= height <= 0x10000,
        ensures
            s.image == image,
            s.width == width,
            s.height == height,
            s.wf(),
    {
        SkyMap { image, width, height }
    }

    /// Sample the image in the ray's direction.
    pub fn sample(&self, ray: &Ray) -> (c: Color)
        requires
            self.wf(),
        ensures
            c@ == spec_skymap_sample(self, ray@),
    {
        let dir = ray.direction.normalize();
        let spherical_coords = to_spherical_coords(&dir);
        let u = fdiv(spherical_coords.0, FX_PI);
        let v = fdiv(spherical_coords.1, 2 * FX_PI);
        let scaled_x = fmul(v, (self.width as i64) * FX_ONE);
        let scaled_y = fmul(u, (self.height as i64) * FX_ONE);
        let xq: u64 = if scaled_x <= 0 {
            0
        } else {
            (scaled_x as u64) / (FX_ONE as u64)
        };
        let x = (xq % (self.width as u64)) as usize;
        let yq: u64 = if scaled_y <= 0 {
            0
        } else {
            (scaled_y as u64) / (FX_ONE as u64)
        };
        let y = self.height - 1 - ((yq % (self.height as u64)) as usize);
        proof {
            lemma_skymap_index(self, ray@);
            assert(x < self.width);
            assert(y < self.height);
            assert(x + y * self.width < self.image@.len()) by (nonlinear_arith)
                requires
                    0 <= x < self.width,
                    0 <= y < self.height,
                    self.image@.len() == self.width * self.height,
            {}
            assert(x + y * self.width <= 0xffff_ffff) by (nonlinear_arith)
                requires
                    0 <= x < self.width <= 0x10000,
                    0 <= y < self.height <= 0x10000,
            {}
        }
        self.image[x + y * self.width]
    }
}

/// The integer part of a nonnegative fixed-point value.
pub open spec fn fx_floor(v: int) -> int {
    if v <= 0 {
        0
    } else {
        v / FX_ONE as int
    }
}

/// Which pixel a ray's direction maps to: spherical coordinates scaled to
/// the raster, wrapped by its dimensions, with the vertical axis flipped.
pub open spec fn spec_skymap_pixel(s: &SkyMap, r: RayV) -> (int, int) {
    let dir = vec_normalize(r.direction);
    let (su, sv) = spec_to_spherical_coords(dir);
    let u = fx_div(su, FX_PI as int);
    let v = fx_div(sv, 2 * FX_PI as int);
    let x = fx_floor(fx_mul(v, s.width as int * FX_ONE)) % (s.width as int);
    let y = s.height - 1 - fx_floor(fx_mul(u, s.height as int * FX_ONE)) % (s.height as int);
    (x, y)
}

/// The color a ray samples from the sky image.
pub open spec fn spec_skymap_sample(s: &SkyMap, r: RayV) -> C3 {
    let (x, y) = spec_skymap_pixel(s, r);
    s.image@[x + y * s.width].view()
}

/// The sampled pixel lies inside the raster.
proof fn lemma_skymap_index(s: &SkyMap, r: RayV)
    requires
        s.wf(),
    ensures
        ({
            let (x, y) = spec_skymap_pixel(s, r);
            0 <= x < s.width && 0 <= y < s.height
        }),
{
    let dir = vec_normalize(r.direction);
    let (su, sv) = spec_to_spherical_coords(dir);
    let u = fx_div(su, FX_PI as int);
    let v = fx_div(sv, 2 * FX_PI as int);
    lemma_mod_range(fx_floor(fx_mul(v, s.width as int * FX_ONE)), s.width as int);
    lemma_mod_range(fx_floor(fx_mul(u, s.height as int * FX_ONE)), s.height as int);
}

/// A nonnegative value reduced by a positive modulus lies below it.
proof fn lemma_mod_range(a: int, m: int)
    requires
        a >= 0,
        m > 0,
    ensures
        0 <= a % m < m,
{
}

/// The closed family of backgrounds a scene can hold.
pub enum Background {
    Uniform(UniformBackground),
    Gradient(GradientBackground),
    Sky(SkyMap),
}

/// A background in a usable state.
pub open spec fn background_wf(b: &Background) -> bool {
    match b {
        Background::Uniform(_) => true,
        Background::Gradient(_) => true,
        Background::Sky(s) => s.wf(),
    }
}

/// What a background returns for a ray.
pub open spec fn spec_background_sample(b: &Background, r: RayV) -> C3 {
    match b {
        Background::Uniform(u) => u.color@,
        Background::Gradient(g) => spec_vertical_grad(r, g.top@, g.bottom@),
        Background::Sky(s) => spec_skymap_sample(s, r),
    }
}

impl Background {
    /// Sample this background in the ray's direction.
    pub fn sample(&self, ray: &Ray) -> (c: Color)
        requires
            background_wf(self),
        ensures
            c@ == spec_background_sample(self, ray@),
    {
        match self {
            Background::Uniform(u) => u.sample(ray),
            Background::Gradient(g) => g.sample(ray),
            Background::Sky(s) => s.sample(ray),
        }
    }
}

} // verus!
