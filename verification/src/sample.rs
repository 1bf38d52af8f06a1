//! Deterministic pseudo-random sampling.
//!
//! The renderer draws every random quantity from an explicit xorshift
//! generator, so a render is a pure function of the scene and the seed.
//! Rejection sampling is bounded: after a fixed number of draws the
//! sampler falls back to a fixed value inside the target region, so every
//! sampler terminates and has an exact description.

use vstd::prelude::*;

use crate::aabb::AABB;
use crate::fixed::{fadd, fmul, fsub, fx_add, fx_mul, fx_sub, FX_ONE};
use crate::vector::{vec_magnitude2, vec_normalize, Vec3, V3};

verus! {

/// Attempts a bounded rejection sampler makes before falling back.
pub const SAMPLE_ATTEMPTS: u32 = 64;

/// The state transition of the xorshift generator.
pub open spec fn rng_step(s: u64) -> u64 {
    let a = s ^ (s << 13);
    let b = a ^ (a >> 7);
    b ^ (b << 17)
}

/// The fixed-point unit sample read off a generator state: a value in
/// `[0, FX_ONE)`.
pub open spec fn rng_unit_of(s: u64) -> int {
    ((s >> 32) & 0xffff) as int
}

/// A deterministic xorshift pseudo-random generator. The state is never
/// zero.
#[derive(Clone, Copy, Debug, PartialEq, Eq, Structural)]
pub struct Rng64 {
    pub state: u64,
}

impl Rng64 {
    /// Seed a generator; a zero seed is replaced by a fixed odd constant
    /// because zero is a fixed point of xorshift.
    pub fn new(seed: u64) -> (r: Rng64)
        ensures
            r.state == spec_seed_state(seed),
    {
        if seed == 0 {
            Rng64 { state: 0x9e3779b97f4a7c15 }
        } else {
            Rng64 { state: seed }
        }
    }

    /// Advance the generator and return a fixed-point value in
    /// `[0, FX_ONE)`.
    pub fn next_unit(&mut self) -> (r: i64)
        ensures
            final(self).state == rng_step(old(self).state),
            r == rng_unit_of(final(self).state),
            0 <= r < FX_ONE,
    {
        let s0 = self.state;
        let a = s0 ^ (s0 << 13);
        let b = a ^ (a >> 7);
        let s1 = b ^ (b << 17);
        self.state = s1;
        let v: u64 = (s1 >> 32) & 0xffff;
        proof {
            assert(v < 65536) by (bit_vector)
                requires
                    v == (s1 >> 32) & 0xffff,
            {}
        }
        v as i64
    }

    /// Advance the generator and return a fixed-point value in
    /// `[lo, hi)` (or `lo` when the range is empty).
    pub fn next_range(&mut self, lo: i64, hi: i64) -> (r: i64)
        ensures
            final(self).state == rng_step(old(self).state),
            r == spec_range_value(lo as int, hi as int, rng_unit_of(final(self).state)),
    {
        let u = self.next_unit();
        fadd(lo, fmul(fsub(hi, lo), u))
    }
}

/// The state a seed produces.
pub open spec fn spec_seed_state(seed: u64) -> u64 {
    if seed == 0 {
        0x9e3779b97f4a7c15u64
    } else {
        seed
    }
}

/// A unit sample stretched over `[lo, hi)`.
pub open spec fn spec_range_value(lo: int, hi: int, u: int) -> int {
    fx_add(lo, fx_mul(fx_sub(hi, lo), u))
}

/// The vector drawn by one cube sample from state `s`, with the state
/// after the three coordinate draws.
pub open spec fn spec_cube_sample(b: crate::aabb::AabbV, s: u64) -> (V3, u64) {
    let s1 = rng_step(s);
    let s2 = rng_step(s1);
    let s3 = rng_step(s2);
    (
        V3 {
            x: spec_range_value(b.min.x, b.max.x, rng_unit_of(s1)),
            y: spec_range_value(b.min.y, b.max.y, rng_unit_of(s2)),
            z: spec_range_value(b.min.z, b.max.z, rng_unit_of(s3)),
        },
        s3,
    )
}

/// Uniformly samples vectors in an axis-aligned cube region.
#[derive(Clone, Copy, Debug, PartialEq, Eq, Structural)]
pub struct CubeSampler {
    pub aabb: AABB,
}

impl CubeSampler {
    pub fn new(aabb: AABB) -> (r: CubeSampler)
        ensures
            r.aabb == aabb,
    {
        CubeSampler { aabb }
    }

    /// The cube spanning `[lo, hi]` on every axis.
    pub fn from_range(lo: i64, hi: i64) -> (r: CubeSampler)
        ensures
            r.aabb@.min == (V3 { x: lo as int, y: lo as int, z: lo as int }),
            r.aabb@.max == (V3 { x: hi as int, y: hi as int, z: hi as int }),
    {
        CubeSampler {
            aabb: AABB { min: Vec3 { x: lo, y: lo, z: lo }, max: Vec3 { x: hi, y: hi, z: hi } },
        }
    }

    /// Reports whether the sampled region is nonempty.
    pub fn is_empty(&self) -> (r: bool)
        ensures
            r == crate::aabb::aabb_ordered(self.aabb@),
    {
        self.aabb.is_empty()
    }

    /// Draw one vector, uniform over the cube.
    pub fn sample_single(&self, rng: &mut Rng64) -> (r: Vec3)
        ensures
            ({
                let (v, s) = spec_cube_sample(self.aabb@, old(rng).state);
                r@ == v && final(rng).state == s
            }),
    {
        let x = rng.next_range(self.aabb.min.x, self.aabb.max.x);
        let y = rng.next_range(self.aabb.min.y, self.aabb.max.y);
        let z = rng.next_range(self.aabb.min.z, self.aabb.max.z);
        Vec3 { x, y, z }
    }
}

/// The bounded rejection loop of the unit-sphere volume sampler: draw from
/// the cube `[-1, 1]^3` until the vector lies inside the unit sphere, with
/// the zero vector as fallback after the attempt budget.
pub open spec fn spec_volume_sample(s: u64, attempts: nat) -> (V3, u64)
    decreases attempts,
{
    if attempts == 0 {
        (V3 { x: 0, y: 0, z: 0 }, s)
    } else {
        let (v, s2) = spec_cube_sample(unit_cube(), s);
        if vec_magnitude2(v) < FX_ONE as int {
            (v, s2)
        } else {
            spec_volume_sample(s2, (attempts - 1) as nat)
        }
    }
}

/// The cube `[-1, 1]^3`.
pub open spec fn unit_cube() -> crate::aabb::AabbV {
    crate::aabb::AabbV {
        min: V3 { x: -(FX_ONE as int), y: -(FX_ONE as int), z: -(FX_ONE as int) },
        max: V3 { x: FX_ONE as int, y: FX_ONE as int, z: FX_ONE as int },
    }
}

/// Samples vectors inside the volume of the unit sphere.
#[derive(Clone, Copy, Debug, PartialEq, Eq, Structural)]
pub struct SphereVolumeSampler {}

impl SphereVolumeSampler {
    pub fn unit_sphere() -> (r: SphereVolumeSampler) {
        SphereVolumeSampler {  }
    }

    /// Draw a vector strictly inside the unit sphere (the zero vector if
    /// every attempt is rejected).
    pub fn sample_single(&self, rng: &mut Rng64) -> (r: Vec3)
        ensures
            ({
                let (v, s) = spec_volume_sample(old(rng).state, SAMPLE_ATTEMPTS as nat);
                r@ == v && final(rng).state == s
            }),
            vec_magnitude2(r@) < FX_ONE as int,
    {
        let cube = CubeSampler::from_range(-FX_ONE, FX_ONE);
        let mut i: u32 = 0;
        while i < SAMPLE_ATTEMPTS
            invariant
                i <= SAMPLE_ATTEMPTS,
                cube.aabb@ == unit_cube(),
                spec_volume_sample(old(rng).state, SAMPLE_ATTEMPTS as nat) == spec_volume_sample(
                    rng.state,
                    (SAMPLE_ATTEMPTS - i) as nat,
                ),
            decreases SAMPLE_ATTEMPTS - i,
        {
            let v = cube.sample_single(rng);
            if v.magnitude2() < FX_ONE {
                return v;
            }
            i = i + 1;
        }
        proof {
            lemma_volume_sample_zero(rng.state);
        }
        Vec3::zero()
    }
}

/// The exhausted rejection loop falls back to the zero vector.
proof fn lemma_volume_sample_zero(s: u64)
    ensures
        spec_volume_sample(s, 0) == (V3 { x: 0, y: 0, z: 0 }, s),
        vec_magnitude2(V3 { x: 0, y: 0, z: 0 }) < FX_ONE as int,
{
    crate::fixed::lemma_fx_mul_sign(0, 0);
}

/// The surface sampler: a volume sample pushed onto the unit sphere by
/// normalization.
pub open spec fn spec_surface_sample(s: u64) -> (V3, u64) {
    let (v, s2) = spec_volume_sample(s, SAMPLE_ATTEMPTS as nat);
    (vec_normalize(v), s2)
}

/// Samples directions on the surface of the unit sphere.
#[derive(Clone, Copy, Debug, PartialEq, Eq, Structural, Default)]
pub struct UnitSphereSurfaceSampler {}

impl UnitSphereSurfaceSampler {
    /// Draw a direction on the unit sphere (the zero vector in the
    /// rejection fallback case).
    pub fn sample_single(&self, rng: &mut Rng64) -> (r: Vec3)
        ensures
            ({
                let (v, s) = spec_surface_sample(old(rng).state);
                r@ == v && final(rng).state == s
            }),
    {
        let v = SphereVolumeSampler::unit_sphere().sample_single(rng);
        v.normalize()
    }
}

/// Draw a direction on the surface of the unit sphere.
pub fn sample_unit_sphere_surface(rng: &mut Rng64) -> (r: Vec3)
    ensures
        ({
            let (v, s) = spec_surface_sample(old(rng).state);
            r@ == v && final(rng).state == s
        }),
{
    let sampler = UnitSphereSurfaceSampler {  };
    sampler.sample_single(rng)
}

/// Draw a vector with every coordinate uniform over `[min, max)`.
pub fn random_vector(min: i64, max: i64, rng: &mut Rng64) -> (r: Vec3)
    ensures
        ({
            let (v, s) = spec_cube_sample(
                crate::aabb::AabbV {
                    min: V3 { x: min as int, y: min as int, z: min as int },
                    max: V3 { x: max as int, y: max as int, z: max as int },
                },
                old(rng).state,
            );
            r@ == v && final(rng).state == s
        }),
{
    CubeSampler::from_range(min, max).sample_single(rng)
}

/// Draw a vector strictly inside the unit sphere.
pub fn random_in_unit_sphere(rng: &mut Rng64) -> (r: Vec3)
    ensures
        ({
            let (v, s) = spec_volume_sample(old(rng).state, SAMPLE_ATTEMPTS as nat);
            r@ == v && final(rng).state == s
        }),
        vec_magnitude2(r@) < FX_ONE as int,
{
    SphereVolumeSampler::unit_sphere().sample_single(rng)
}

/// Draw a direction on the unit sphere.
pub fn random_on_unit_sphere(rng: &mut Rng64) -> (r: Vec3)
    ensures
        ({
            let (v, s) = spec_surface_sample(old(rng).state);
            r@ == v && final(rng).state == s
        }),
{
    sample_unit_sphere_surface(rng)
}

/// Draw a vector inside the volume of the unit sphere.
pub fn sample_unit_sphere_volume(rng: &mut Rng64) -> (r: Vec3)
    ensures
        ({
            let (v, s) = spec_volume_sample(old(rng).state, SAMPLE_ATTEMPTS as nat);
            r@ == v && final(rng).state == s
        }),
{
    SphereVolumeSampler::unit_sphere().sample_single(rng)
}

} // verus!
