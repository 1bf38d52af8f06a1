//! Axis-aligned bounding boxes and the slab intersection test, together
//! with the ordering facts about `surround` that the bounding-volume
//! hierarchy proof rests on.

use vstd::prelude::*;

use crate::fixed::{
    fadd, fdiv, fmax, fmin, fsub, fx_add, fx_div, fx_max, fx_min, fx_sub, lemma_fx_div_mono,
    FX_MAX, FX_ONE,
};
use crate::ray::{Ray, RayV};
use crate::vector::{v3_in_range, Vec3, V3};

verus! {

/// An axis-aligned box: `min` is the corner with the smallest coordinates,
/// `max` the one with the largest. A reversed box (some `min` coordinate
/// above `max`) is permitted and acts as an empty region.
#[derive(Clone, Copy, Debug, PartialEq, Eq, Structural)]
pub struct AABB {
    /// Lower corner of the box.
    pub min: Vec3,
    /// Upper corner of the box.
    pub max: Vec3,
}

/// Mathematical model of an `AABB`.
pub struct AabbV {
    pub min: V3,
    pub max: V3,
}

impl View for AABB {
    type V = AabbV;

    open spec fn view(&self) -> AabbV {
        AabbV { min: self.min@, max: self.max@ }
    }
}

/// The box whose coordinates are ordered, so it bounds a nonempty region.
pub open spec fn aabb_ordered(a: AabbV) -> bool {
    a.min.x <= a.max.x && a.min.y <= a.max.y && a.min.z <= a.max.z
}

/// The neutral element of `surround`: a reversed box that every box
/// absorbs.
pub open spec fn aabb_empty() -> AabbV {
    AabbV {
        min: V3 { x: FX_MAX as int, y: FX_MAX as int, z: FX_MAX as int },
        max: V3 { x: -(FX_MAX as int), y: -(FX_MAX as int), z: -(FX_MAX as int) },
    }
}

/// The smallest box containing both arguments.
pub open spec fn spec_surround(a: AabbV, b: AabbV) -> AabbV {
    AabbV {
        min: V3 {
            x: fx_min(a.min.x, b.min.x),
            y: fx_min(a.min.y, b.min.y),
            z: fx_min(a.min.z, b.min.z),
        },
        max: V3 {
            x: fx_max(a.max.x, b.max.x),
            y: fx_max(a.max.y, b.max.y),
            z: fx_max(a.max.z, b.max.z),
        },
    }
}

/// Both corners lie in the saturation range.
pub open spec fn aabb_in_range(b: AabbV) -> bool {
    v3_in_range(b.min) && v3_in_range(b.max)
}

/// `big` contains `small` axis by axis.
pub open spec fn encloses(big: AabbV, small: AabbV) -> bool {
    &&& big.min.x <= small.min.x && small.max.x <= big.max.x
    &&& big.min.y <= small.min.y && small.max.y <= big.max.y
    &&& big.min.z <= small.min.z && small.max.z <= big.max.z
}

/// An axis with zero direction can only pass the slab test when the origin
/// lies between the two planes.
pub open spec fn slab_axis_ok(bmin: int, bmax: int, o: int, d: int) -> bool {
    d != 0 || (bmin <= o && o <= bmax)
}

/// Narrow a parameter interval by one slab: entry and exit parameters of
/// the two axis planes, swapped when the direction is negative.
pub open spec fn slab_axis_update(
    bmin: int,
    bmax: int,
    o: int,
    d: int,
    lo: int,
    hi: int,
) -> (int, int) {
    if d == 0 {
        (lo, hi)
    } else {
        let t0 = fx_div(fx_sub(bmin, o), d);
        let t1 = fx_div(fx_sub(bmax, o), d);
        let ta = if d < 0 {
            t1
        } else {
            t0
        };
        let tb = if d < 0 {
            t0
        } else {
            t1
        };
        (fx_max(lo, ta), fx_min(hi, tb))
    }
}

/// The slab test: a ray intersects the box within `(tmin, tmax)` when the
/// three per-axis parameter intervals and the query interval have a common
/// interior point.
pub open spec fn spec_slab_hit(b: AabbV, r: RayV, tmin: int, tmax: int) -> bool {
    &&& slab_axis_ok(b.min.x, b.max.x, r.origin.x, r.direction.x)
    &&& slab_axis_ok(b.min.y, b.max.y, r.origin.y, r.direction.y)
    &&& slab_axis_ok(b.min.z, b.max.z, r.origin.z, r.direction.z)
    &&& {
        let (l1, h1) = slab_axis_update(
            b.min.x,
            b.max.x,
            r.origin.x,
            r.direction.x,
            tmin,
            tmax,
        );
        let (l2, h2) = slab_axis_update(b.min.y, b.max.y, r.origin.y, r.direction.y, l1, h1);
        let (l3, h3) = slab_axis_update(b.min.z, b.max.z, r.origin.z, r.direction.z, l2, h2);
        l3 < h3
    }
}

impl AABB {
    /// Reports whether the corners are ordered, so the box bounds a
    /// nonempty region.
    pub fn is_empty(&self) -> (r: bool)
        ensures
            r == aabb_ordered(self@),
    {
        self.min.x <= self.max.x && self.min.y <= self.max.y && self.min.z <= self.max.z
    }

    /// The degenerate box holding a single point.
    pub fn from_point(point: Vec3) -> (r: AABB)
        ensures
            r@ == (AabbV { min: point@, max: point@ }),
    {
        AABB { min: point, max: point }
    }

    /// The neutral box for `surround`.
    pub fn empty() -> (r: AABB)
        ensures
            r@ == aabb_empty(),
    {
        AABB {
            min: Vec3 { x: FX_MAX, y: FX_MAX, z: FX_MAX },
            max: Vec3 { x: -FX_MAX, y: -FX_MAX, z: -FX_MAX },
        }
    }

    /// The midpoint of the box.
    pub fn centroid(&self) -> (r: Vec3)
        ensures
            r@ == crate::vector::vec_scale(crate::vector::vec_add(self@.min, self@.max), FX_ONE as int / 2),
    {
        self.min.plus(&self.max).scale(FX_ONE / 2)
    }

    /// Edge lengths of the box.
    pub fn dimensions(&self) -> (r: Vec3)
        ensures
            r@ == crate::vector::vec_sub(self@.max, self@.min),
    {
        self.max.minus(&self.min)
    }

    /// Returns a bounding box surrounding two bounding boxes.
    pub fn surround(first: AABB, second: AABB) -> (r: AABB)
        ensures
            r@ == spec_surround(first@, second@),
    {
        AABB {
            min: Vec3 {
                x: fmin(first.min.x, second.min.x),
                y: fmin(first.min.y, second.min.y),
                z: fmin(first.min.z, second.min.z),
            },
            max: Vec3 {
                x: fmax(first.max.x, second.max.x),
                y: fmax(first.max.y, second.max.y),
                z: fmax(first.max.z, second.max.z),
            },
        }
    }

    /// Ensures that no coordinate dimension of the bounding box is below a
    /// given epsilon, widening degenerate axes around their midpoint.
    pub fn epsilon_expand(bounds: AABB, epsilon: i64) -> (r: AABB)
        ensures
            r@ == spec_epsilon_expand(bounds@, epsilon as int),
    {
        let dimensions = bounds.dimensions();
        let centroid = bounds.centroid();
        let mut result = bounds;

        if dimensions.x < epsilon {
            result.min.x = fsub(centroid.x, epsilon);
            result.max.x = fadd(centroid.x, epsilon);
        }
        if dimensions.y < epsilon {
            result.min.y = fsub(centroid.y, epsilon);
            result.max.y = fadd(centroid.y, epsilon);
        }
        if dimensions.z < epsilon {
            result.min.z = fsub(centroid.z, epsilon);
            result.max.z = fadd(centroid.z, epsilon);
        }
        result
    }

    /// Returns true if the ray hits the bounding box strictly within
    /// `(tmin, tmax)`.
    pub fn hit(&self, ray: &Ray, tmin: i64, tmax: i64) -> (r: bool)
        ensures
            r == spec_slab_hit(self@, ray@, tmin as int, tmax as int),
    {
        let mut lo = tmin;
        let mut hi = tmax;

        // x pass
        if ray.direction.x == 0 {
            if ray.origin.x < self.min.x || ray.origin.x > self.max.x {
                return false;
            }
        } else {
            let t0 = fdiv(fsub(self.min.x, ray.origin.x), ray.direction.x);
            let t1 = fdiv(fsub(self.max.x, ray.origin.x), ray.direction.x);
            if ray.direction.x < 0 {
                lo = fmax(lo, t1);
                hi = fmin(hi, t0);
            } else {
                lo = fmax(lo, t0);
                hi = fmin(hi, t1);
            }
        }
        if hi <= lo {
            return false;
        }

        // y pass
        if ray.direction.y == 0 {
            if ray.origin.y < self.min.y || ray.origin.y > self.max.y {
                return false;
            }
        } else {
            let t0 = fdiv(fsub(self.min.y, ray.origin.y), ray.direction.y);
            let t1 = fdiv(fsub(self.max.y, ray.origin.y), ray.direction.y);
            if ray.direction.y < 0 {
                lo = fmax(lo, t1);
                hi = fmin(hi, t0);
            } else {
                lo = fmax(lo, t0);
                hi = fmin(hi, t1);
            }
        }
        if hi <= lo {
            return false;
        }

        // z pass
        if ray.direction.z == 0 {
            if ray.origin.z < self.min.z || ray.origin.z > self.max.z {
                return false;
            }
        } else {
            let t0 = fdiv(fsub(self.min.z, ray.origin.z), ray.direction.z);
            let t1 = fdiv(fsub(self.max.z, ray.origin.z), ray.direction.z);
            if ray.direction.z < 0 {
                lo = fmax(lo, t1);
                hi = fmin(hi, t0);
            } else {
                lo = fmax(lo, t0);
                hi = fmin(hi, t1);
            }
        }
        if hi <= lo {
            return false;
        }

        true
    }
}

/// Expansion of a box so that no axis is shorter than `epsilon`.
pub open spec fn spec_epsilon_expand(b: AabbV, epsilon: int) -> AabbV {
    let c = crate::vector::vec_scale(crate::vector::vec_add(b.min, b.max), FX_ONE as int / 2);
    let dim = crate::vector::vec_sub(b.max, b.min);
    AabbV {
        min: V3 {
            x: if dim.x < epsilon {
                fx_sub(c.x, epsilon)
            } else {
                b.min.x
            },
            y: if dim.y < epsilon {
                fx_sub(c.y, epsilon)
            } else {
                b.min.y
            },
            z: if dim.z < epsilon {
                fx_sub(c.z, epsilon)
            } else {
                b.min.z
            },
        },
        max: V3 {
            x: if dim.x < epsilon {
                fx_add(c.x, epsilon)
            } else {
                b.max.x
            },
            y: if dim.y < epsilon {
                fx_add(c.y, epsilon)
            } else {
                b.max.y
            },
            z: if dim.z < epsilon {
                fx_add(c.z, epsilon)
            } else {
                b.max.z
            },
        },
    }
}

/// Surrounding a box with itself gives the box back.
pub proof fn lemma_surround_idempotent(a: AabbV)
    ensures
        spec_surround(a, a) == a,
{
}

/// `surround` does not depend on the order of its arguments.
pub proof fn lemma_surround_commutative(a: AabbV, b: AabbV)
    ensures
        spec_surround(a, b) == spec_surround(b, a),
{
}

/// The empty box is a neutral element of `surround` for boxes whose
/// corners are representable.
pub proof fn lemma_surround_empty(a: AabbV)
    requires
        v3_in_range(a.min),
        v3_in_range(a.max),
    ensures
        spec_surround(a, aabb_empty()) == a,
{
}

/// The surrounding box contains both of its arguments.
pub proof fn lemma_surround_encloses(a: AabbV, b: AabbV)
    ensures
        encloses(spec_surround(a, b), a),
        encloses(spec_surround(a, b), b),
{
}

/// Enclosure is transitive.
pub proof fn lemma_encloses_transitive(a: AabbV, b: AabbV, c: AabbV)
    requires
        encloses(a, b),
        encloses(b, c),
    ensures
        encloses(a, c),
{
}

/// One slab pass of a larger box narrows the interval no more than the
/// same pass of an enclosed box.
proof fn lemma_slab_axis_monotone(
    bminb: int,
    bmaxb: int,
    bmins: int,
    bmaxs: int,
    o: int,
    d: int,
    lob: int,
    hib: int,
    los: int,
    his: int,
)
    requires
        bminb <= bmins,
        bmaxs <= bmaxb,
        lob <= los,
        his <= hib,
    ensures
        ({
            let (lb, hb) = slab_axis_update(bminb, bmaxb, o, d, lob, hib);
            let (ls, hs) = slab_axis_update(bmins, bmaxs, o, d, los, his);
            lb <= ls && hs <= hb
        }),
{
    if d != 0 {
        lemma_fx_div_mono(fx_sub(bminb, o), fx_sub(bmins, o), d);
        lemma_fx_div_mono(fx_sub(bmaxs, o), fx_sub(bmaxb, o), d);
    }
}

/// A slab test that passes for a box also passes for any enclosing box.
pub proof fn lemma_slab_hit_monotone(big: AabbV, small: AabbV, r: RayV, tmin: int, tmax: int)
    requires
        encloses(big, small),
        spec_slab_hit(small, r, tmin, tmax),
    ensures
        spec_slab_hit(big, r, tmin, tmax),
{
    lemma_slab_axis_monotone(
        big.min.x,
        big.max.x,
        small.min.x,
        small.max.x,
        r.origin.x,
        r.direction.x,
        tmin,
        tmax,
        tmin,
        tmax,
    );
    let (lb1, hb1) = slab_axis_update(big.min.x, big.max.x, r.origin.x, r.direction.x, tmin, tmax);
    let (ls1, hs1) = slab_axis_update(
        small.min.x,
        small.max.x,
        r.origin.x,
        r.direction.x,
        tmin,
        tmax,
    );
    lemma_slab_axis_monotone(
        big.min.y,
        big.max.y,
        small.min.y,
        small.max.y,
        r.origin.y,
        r.direction.y,
        lb1,
        hb1,
        ls1,
        hs1,
    );
    let (lb2, hb2) = slab_axis_update(big.min.y, big.max.y, r.origin.y, r.direction.y, lb1, hb1);
    let (ls2, hs2) = slab_axis_update(small.min.y, small.max.y, r.origin.y, r.direction.y, ls1, hs1);
    lemma_slab_axis_monotone(
        big.min.z,
        big.max.z,
        small.min.z,
        small.max.z,
        r.origin.z,
        r.direction.z,
        lb2,
        hb2,
        ls2,
        hs2,
    );
}

} // verus!
