//! The pinhole camera: a viewing configuration and the derived frame that
//! turns normalized image coordinates into primary rays.

use vstd::prelude::*;

use crate::fixed::{fadd, fdiv, fmul, fx_add, fx_div, fx_mul, FX_ONE};
use crate::math::{degrees_to_radians, ftan, spec_degrees_to_radians, spec_tan};
use crate::ray::{Ray, RayV};
use crate::vector::{
    vec_add, vec_cross, vec_near_zero, vec_normalize, vec_scale, vec_sub, Vec3, V3,
};

verus! {

/// The derived camera frame, computed once per render.
#[derive(Clone, Copy, Debug, PartialEq, Eq, Structural)]
pub struct RayOrigin {
    pub origin: Vec3,
    pub horizontal: Vec3,
    pub vertical: Vec3,
    pub lower_left_corner: Vec3,
}

/// Mathematical model of a camera frame.
pub struct RayOriginV {
    pub origin: V3,
    pub horizontal: V3,
    pub vertical: V3,
    pub lower_left_corner: V3,
}

impl View for RayOrigin {
    type V = RayOriginV;

    open spec fn view(&self) -> RayOriginV {
        RayOriginV {
            origin: self.origin@,
            horizontal: self.horizontal@,
            vertical: self.vertical@,
            lower_left_corner: self.lower_left_corner@,
        }
    }
}

/// The primary ray through normalized image coordinates `(s, t)`; `t`
/// grows downward in the output, so the vertical term is subtracted.
pub open spec fn spec_get_ray(ro: RayOriginV, s: int, t: int) -> RayV {
    RayV {
        origin: ro.origin,
        direction: vec_sub(
            vec_sub(
                vec_add(ro.lower_left_corner, vec_scale(ro.horizontal, s)),
                vec_scale(ro.vertical, t),
            ),
            ro.origin,
        ),
    }
}

impl RayOrigin {
    /// The primary ray through normalized image coordinates `(s, t)`.
    pub fn get_ray(&self, s: i64, t: i64) -> (r: Ray)
        ensures
            r@ == spec_get_ray(self@, s as int, t as int),
    {
        Ray::new(
            self.origin,
            self.lower_left_corner.plus(&self.horizontal.scale(s)).minus(
                &self.vertical.scale(t),
            ).minus(&self.origin),
        )
    }
}

/// The viewing configuration: eye, target, up direction, vertical field
/// of view in degrees, and width over height.
#[derive(Clone, Copy, Debug, PartialEq, Eq, Structural)]
pub struct Camera {
    pub lookfrom: Vec3,
    pub lookat: Vec3,
    pub vertical: Vec3,
    pub vertical_fov: i64,
    pub aspect_ratio: i64,
}

/// Mathematical model of a camera.
pub struct CameraV {
    pub lookfrom: V3,
    pub lookat: V3,
    pub vertical: V3,
    pub vertical_fov: int,
    pub aspect_ratio: int,
}

impl View for Camera {
    type V = CameraV;

    open spec fn view(&self) -> CameraV {
        CameraV {
            lookfrom: self.lookfrom@,
            lookat: self.lookat@,
            vertical: self.vertical@,
            vertical_fov: self.vertical_fov as int,
            aspect_ratio: self.aspect_ratio as int,
        }
    }
}

/// The frame a camera derives: an orthogonal basis toward the target and
/// the viewport spans from the field of view and the aspect ratio.
pub open spec fn spec_ray_origin(c: CameraV) -> RayOriginV {
    let theta = spec_degrees_to_radians(c.vertical_fov);
    let h = spec_tan(fx_div(theta, 2 * FX_ONE));
    let viewport_height = fx_add(h, h);
    let viewport_width = fx_mul(c.aspect_ratio, viewport_height);
    let w = vec_normalize(vec_sub(c.lookfrom, c.lookat));
    let u = vec_normalize(vec_cross(c.vertical, w));
    let v = vec_cross(w, u);
    let horizontal = vec_scale(u, viewport_width);
    let vertical = vec_scale(v, viewport_height);
    RayOriginV {
        origin: c.lookfrom,
        horizontal,
        vertical,
        lower_left_corner: vec_sub(
            vec_add(
                vec_sub(c.lookfrom, vec_scale(horizontal, FX_ONE as int / 2)),
                vec_scale(vertical, FX_ONE as int / 2),
            ),
            w,
        ),
    }
}

/// A usable camera: the field of view is strictly between 0 and 180
/// degrees, and the eye, target and up direction are not collinear.
pub open spec fn spec_camera_valid(c: CameraV) -> bool {
    &&& 0 < c.vertical_fov < 180 * FX_ONE
    &&& !vec_near_zero(vec_sub(c.lookfrom, c.lookat))
    &&& !vec_near_zero(vec_cross(c.vertical, vec_sub(c.lookfrom, c.lookat)))
}

impl Camera {
    pub fn new(lookfrom: Vec3, lookat: Vec3, vertical: Vec3, vertical_fov: i64, aspect_ratio: i64)
        -> (c: Camera)
        ensures
            c == (Camera { lookfrom, lookat, vertical, vertical_fov, aspect_ratio }),
    {
        Camera { lookfrom, lookat, vertical, vertical_fov, aspect_ratio }
    }

    /// Whether the configuration can produce a frame.
    pub fn is_valid(&self) -> (r: bool)
        ensures
            r == spec_camera_valid(self@),
    {
        0 < self.vertical_fov && self.vertical_fov < 180 * FX_ONE && !crate::vector::near_zero(
            &self.lookfrom.minus(&self.lookat),
        ) && !crate::vector::near_zero(&self.vertical.cross(&self.lookfrom.minus(&self.lookat)))
    }

    /// Derive the frame that turns image coordinates into rays.
    pub fn ray_origin(&self) -> (ro: RayOrigin)
        ensures
            ro@ == spec_ray_origin(self@),
    {
        let theta = degrees_to_radians(self.vertical_fov);
        let h = ftan(fdiv(theta, 2 * FX_ONE));
        let viewport_height = fadd(h, h);
        let viewport_width = fmul(self.aspect_ratio, viewport_height);

        let w = self.lookfrom.minus(&self.lookat).normalize();
        let u = self.vertical.cross(&w).normalize();
        let v = w.cross(&u);

        let horizontal = u.scale(viewport_width);
        let vertical = v.scale(viewport_height);

        RayOrigin {
            origin: self.lookfrom,
            horizontal,
            vertical,
            lower_left_corner: self.lookfrom.minus(&horizontal.scale(FX_ONE / 2)).plus(
                &vertical.scale(FX_ONE / 2),
            ).minus(&w),
        }
    }
}

} // verus!
