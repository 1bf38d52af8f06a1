//! Triangle meshes: a vertex buffer, an index buffer, and an internal
//! bounding-volume hierarchy over the triangles.

use vstd::prelude::*;

use crate::aabb::{
    aabb_empty, aabb_in_range, spec_epsilon_expand, spec_surround, AabbV, AABB,
};
use crate::bvh::{
    handle_seq, leaf_set, spec_from_list, spec_guarded_linear_hit, spec_node_hit, wf_node,
    BoundsCollection, BvhNode,
};
use crate::fixed::{fadd, fdiv, fmul, fx_add, fx_div, fx_mul, FX_ONE};
use crate::ray::{opt_hit_view, ray_at, spec_hit_record, HitRecord, HitV, Ray, RayV};
use crate::scene::MaterialHandle;
use crate::vector::{v3_in_range, vec_cross, vec_dot, vec_normalize, vec_sub, Vec3, V3};

verus! {

/// How far a triangle's box is widened on a degenerate axis.
pub const MESH_BOUNDS_EPS: i64 = 655;

/// One mesh vertex: a position and a shading normal.
#[derive(Clone, Copy, Debug, PartialEq, Eq, Structural)]
pub struct Vertex {
    pub position: Vec3,
    pub normal: Vec3,
}

/// One triangle: three indices into the vertex buffer and a cached face
/// normal.
#[derive(Clone, Copy, Debug, PartialEq, Eq, Structural)]
pub struct Triangle {
    pub v0: u32,
    pub v1: u32,
    pub v2: u32,
    pub normal: Vec3,
}

/// The geometry of a mesh: the buffers and the material, the part of a
/// mesh the triangle hierarchy is built over.
pub struct MeshData {
    pub vertices: Vec<Vertex>,
    pub triangles: Vec<Triangle>,
    pub material: MaterialHandle,
}

/// The intersection of one triangle of a mesh with a ray, in the
/// Moller-Trumbore form. The far end of the interval is not consulted.
pub open spec fn spec_triangle_hit(m: &MeshData, h: u32, ray: RayV, tmin: int) -> Option<HitV> {
    let tri = m.triangles@[h as int];
    let v0 = m.vertices@[tri.v0 as int].position@;
    let v1 = m.vertices@[tri.v1 as int].position@;
    let v2 = m.vertices@[tri.v2 as int].position@;
    let e1 = vec_sub(v1, v0);
    let e2 = vec_sub(v2, v0);
    let hv = vec_cross(ray.direction, e2);
    let a = vec_dot(e1, hv);
    if a == 0 || (crate::fixed::fx_neg(tmin) < a && a < tmin) {
        Option::None
    } else {
        let f = fx_div(FX_ONE as int, a);
        let s = vec_sub(ray.origin, v0);
        let u = fx_mul(f, vec_dot(s, hv));
        if u < 0 || u > FX_ONE as int {
            Option::None
        } else {
            let q = vec_cross(s, e1);
            let v = fx_mul(f, vec_dot(ray.direction, q));
            if v < 0 || fx_add(u, v) > FX_ONE as int {
                Option::None
            } else {
                let t = fx_mul(f, vec_dot(e2, q));
                if t > tmin {
                    Option::Some(
                        spec_hit_record(
                            ray_at(ray, t),
                            tri.normal@,
                            t,
                            ray.direction,
                            m.material.0 as int,
                        ),
                    )
                } else {
                    Option::None
                }
            }
        }
    }
}

/// The box of one triangle: the box of its corners, widened so no axis is
/// degenerate.
pub open spec fn spec_triangle_bounds(m: &MeshData, h: u32) -> AabbV {
    let tri = m.triangles@[h as int];
    let v0 = m.vertices@[tri.v0 as int].position@;
    let v1 = m.vertices@[tri.v1 as int].position@;
    let v2 = m.vertices@[tri.v2 as int].position@;
    spec_epsilon_expand(
        spec_surround(
            AabbV { min: v0, max: v0 },
            spec_surround(AabbV { min: v1, max: v1 }, AabbV { min: v2, max: v2 }),
        ),
        MESH_BOUNDS_EPS as int,
    )
}

impl BoundsCollection for MeshData {
    /// Indices fit the vertex buffer, handles fit `u32`, and positions and
    /// face normals are representable.
    open spec fn wf(&self) -> bool {
        &&& self.triangles@.len() <= 0x1_0000_0000
        &&& forall|i: int|
            0 <= i < self.triangles@.len() ==> {
                let tri = #[trigger] self.triangles@[i];
                &&& (tri.v0 as int) < self.vertices@.len()
                &&& (tri.v1 as int) < self.vertices@.len()
                &&& (tri.v2 as int) < self.vertices@.len()
                &&& v3_in_range(tri.normal@)
            }
        &&& forall|j: int|
            0 <= j < self.vertices@.len() ==> v3_in_range(
                (#[trigger] self.vertices@[j]).position@,
            )
    }

    open spec fn num_handles(&self) -> nat {
        self.triangles@.len()
    }

    open spec fn spec_bounds(&self, handle: u32) -> AabbV {
        spec_triangle_bounds(self, handle)
    }

    open spec fn spec_hit(&self, handle: u32, ray: RayV, tmin: int, tmax: int, xi: int) -> Option<
        HitV,
    > {
        spec_triangle_hit(self, handle, ray, tmin)
    }

    fn objects(&self) -> (r: Vec<u32>) {
        let mut r: Vec<u32> = Vec::new();
        let mut i: usize = 0;
        while i < self.triangles.len()
            invariant
                i <= self.triangles@.len(),
                self.triangles@.len() <= 0x1_0000_0000,
                r@.len() == i,
                forall|k: int| 0 <= k < i ==> r@[k] == k as u32,
            decreases self.triangles@.len() - i,
        {
            r.push(i as u32);
            i = i + 1;
        }
        r
    }

    fn bounds(&self, handle: u32) -> (r: AABB) {
        let tri = self.triangles[handle as usize];
        let p0 = self.vertices[tri.v0 as usize].position;
        let p1 = self.vertices[tri.v1 as usize].position;
        let p2 = self.vertices[tri.v2 as usize].position;
        AABB::epsilon_expand(
            AABB::surround(
                AABB::from_point(p0),
                AABB::surround(AABB::from_point(p1), AABB::from_point(p2)),
            ),
            MESH_BOUNDS_EPS,
        )
    }

    proof fn lemma_bounds_in_range(&self, handle: u32) {
    }

    fn hit(&self, handle: u32, ray: &Ray, tmin: i64, tmax: i64, xi: i64) -> (r: Option<
        HitRecord,
    >) {
        let tri = self.triangles[handle as usize];
        let v0 = self.vertices[tri.v0 as usize].position;
        let v1 = self.vertices[tri.v1 as usize].position;
        let v2 = self.vertices[tri.v2 as usize].position;

        // Edges
        let e1 = v1.minus(&v0);
        let e2 = v2.minus(&v0);

        let h = ray.direction.cross(&e2);
        let a = e1.dot(&h);

        let neg_tmin = crate::fixed::fneg(tmin);
        if a == 0 || (neg_tmin < a && a < tmin) {
            return None;
        }

        let f = fdiv(FX_ONE, a);
        let s = ray.origin.minus(&v0);
        let u = fmul(f, s.dot(&h));

        if u < 0 || u > FX_ONE {
            return None;
        }

        let q = s.cross(&e1);
        let v = fmul(f, ray.direction.dot(&q));
        if v < 0 || fadd(u, v) > FX_ONE {
            return None;
        }

        let t = fmul(f, e2.dot(&q));
        if t > tmin {
            // The interpolated shading normal deviates from the cached
            // face normal at any nonzero angle, so the face normal is used.
            Some(HitRecord::new(ray.at(t), tri.normal, t, ray, self.material))
        } else {
            None
        }
    }
}

/// A triangle mesh with its aggregate bounds and its internal hierarchy.
pub struct Mesh {
    pub data: MeshData,
    pub bounds: AABB,
    pub bvh_root: BvhNode,
}

/// The box around a vertex buffer.
pub open spec fn spec_vertices_box(vs: Seq<Vertex>) -> AabbV
    decreases vs.len(),
{
    if vs.len() == 0 {
        aabb_empty()
    } else {
        spec_surround(
            spec_vertices_box(vs.drop_last()),
            AabbV { min: vs.last().position@, max: vs.last().position@ },
        )
    }
}

impl Mesh {
    /// A usable mesh: sound buffers and a well-formed internal hierarchy
    /// over exactly the triangles.
    pub open spec fn wf(&self) -> bool {
        &&& self.data.wf()
        &&& aabb_in_range(self.bounds@)
        &&& wf_node(&self.data, self.bvh_root)
        &&& leaf_set(self.bvh_root) == crate::bvh::handles_below(self.data.num_handles())
    }

    /// Assemble a mesh from plain buffers: face normals are computed per
    /// index triple, and the aggregate bounds cover every vertex. The
    /// internal hierarchy starts empty; `build_bvh` fills it.
    pub fn from_buffers(vertices: Vec<Vertex>, indices: Vec<u32>, material: MaterialHandle) -> (m:
        Mesh)
        requires
            indices@.len() / 3 <= 0x1_0000_0000,
            forall|k: int| 0 <= k < indices@.len() ==> (#[trigger] indices@[k] as int)
                < vertices@.len(),
            forall|j: int|
                0 <= j < vertices@.len() ==> v3_in_range((#[trigger] vertices@[j]).position@),
        ensures
            m.data.vertices@ == vertices@,
            m.data.material == material,
            m.data.triangles@.len() == indices@.len() / 3,
            forall|j: int|
                0 <= j < m.data.triangles@.len() ==> {
                    let tri = #[trigger] m.data.triangles@[j];
                    &&& tri.v0 == indices@[3 * j]
                    &&& tri.v1 == indices@[3 * j + 1]
                    &&& tri.v2 == indices@[3 * j + 2]
                    &&& tri.normal@ == spec_face_normal(
                        vertices@[indices@[3 * j] as int].position@,
                        vertices@[indices@[3 * j + 1] as int].position@,
                        vertices@[indices@[3 * j + 2] as int].position@,
                    )
                },
            m.bounds@ == spec_vertices_box(vertices@),
            m.bvh_root == BvhNode::Empty,
            m.data.wf(),
            aabb_in_range(m.bounds@),
    {
        proof {
            vstd::arithmetic::div_mod::lemma_fundamental_div_mod(indices@.len() as int, 3);
        }
        let mut triangles: Vec<Triangle> = Vec::new();
        let mut k: usize = 0;
        while indices.len() - k >= 3
            invariant
                k % 3 == 0,
                k <= indices@.len(),
                indices@.len() <= 0x3_0000_0002,
                indices@.len() / 3 <= 0x1_0000_0000,
                forall|i: int| 0 <= i < indices@.len() ==> (#[trigger] indices@[i] as int)
                    < vertices@.len(),
                forall|j: int|
                    0 <= j < vertices@.len() ==> v3_in_range(
                        (#[trigger] vertices@[j]).position@,
                    ),
                triangles@.len() == k / 3,
                forall|j: int|
                    0 <= j < triangles@.len() ==> {
                        let tri = #[trigger] triangles@[j];
                        &&& tri.v0 == indices@[3 * j]
                        &&& tri.v1 == indices@[3 * j + 1]
                        &&& tri.v2 == indices@[3 * j + 2]
                        &&& tri.normal@ == spec_face_normal(
                            vertices@[indices@[3 * j] as int].position@,
                            vertices@[indices@[3 * j + 1] as int].position@,
                            vertices@[indices@[3 * j + 2] as int].position@,
                        )
                    },
            decreases indices@.len() - k,
        {
            let i0 = indices[k];
            let i1 = indices[k + 1];
            let i2 = indices[k + 2];
            let p0 = vertices[i0 as usize].position;
            let p1 = vertices[i1 as usize].position;
            let p2 = vertices[i2 as usize].position;
            let e1 = p0.minus(&p1);
            let e2 = p2.minus(&p1);
            let normal = e2.cross(&e1).normalize();
            triangles.push(Triangle { v0: i0, v1: i1, v2: i2, normal });
            k = k + 3;
        }
        proof {
            assert(triangles@.len() == indices@.len() / 3);
        }

        // Calculate the aggregate bounding box
        let mut bounds = AABB::empty();
        let mut j: usize = 0;
        while j < vertices.len()
            invariant
                j <= vertices@.len(),
                bounds@ == spec_vertices_box(vertices@.subrange(0, j as int)),
                aabb_in_range(bounds@),
                forall|i: int|
                    0 <= i < vertices@.len() ==> v3_in_range(
                        (#[trigger] vertices@[i]).position@,
                    ),
            decreases vertices@.len() - j,
        {
            bounds = AABB::surround(bounds, AABB::from_point(vertices[j].position));
            j = j + 1;
            proof {
                let pre = vertices@.subrange(0, j as int);
                assert(pre.drop_last() =~= vertices@.subrange(0, j as int - 1));
                assert(pre.last() == vertices@[j as int - 1]);
            }
        }
        proof {
            assert(vertices@.subrange(0, vertices@.len() as int) =~= vertices@);
        }

        let data = MeshData { vertices, triangles, material };
        proof {
            assert(data.wf());
        }
        Mesh { data, bounds, bvh_root: BvhNode::Empty }
    }

    /// Make it possible to traverse the mesh: build the internal
    /// hierarchy over the triangles.
    pub fn build_bvh(&mut self)
        requires
            old(self).data.wf(),
            aabb_in_range(old(self).bounds@),
        ensures
            final(self).data == old(self).data,
            final(self).bounds == old(self).bounds,
            final(self).bvh_root == spec_from_list(
                &old(self).data,
                handle_seq(old(self).data.num_handles()),
            ),
            final(self).wf(),
    {
        let tree = crate::bvh::BvhTree::build(&self.data);
        self.bvh_root = tree.root;
    }

    /// Intersect a ray with the mesh through its internal hierarchy.
    pub fn hit(&self, ray: &Ray, tmin: i64, tmax: i64, xi: i64) -> (r: Option<HitRecord>)
        requires
            self.wf(),
        ensures
            opt_hit_view(r) == spec_node_hit(
                &self.data,
                self.bvh_root,
                ray@,
                tmin as int,
                tmax as int,
                xi as int,
            ),
    {
        self.bvh_root.hit(ray, tmin, tmax, xi, &self.data)
    }

    /// Intersect a ray with the mesh by scanning every triangle, keeping
    /// the nearest hit.
    pub fn hit_linear(&self, ray: &Ray, tmin: i64, tmax: i64, xi: i64) -> (r: Option<HitRecord>)
        requires
            self.data.wf(),
        ensures
            opt_hit_view(r) == spec_guarded_linear_hit(
                &self.data,
                ray@,
                tmin as int,
                tmax as int,
                xi as int,
                self.data.num_handles(),
            ),
    {
        let mut result: Option<HitRecord> = None;
        let mut closest_so_far = tmax;
        let mut i: usize = 0;
        while i < self.data.triangles.len()
            invariant
                self.data.wf(),
                i <= self.data.triangles@.len(),
                opt_hit_view(result) == spec_guarded_linear_hit(
                    &self.data,
                    ray@,
                    tmin as int,
                    tmax as int,
                    xi as int,
                    i as nat,
                ),
                closest_so_far as int == match opt_hit_view(result) {
                    Option::Some(rec) => rec.t,
                    Option::None => tmax as int,
                },
            decreases self.data.triangles@.len() - i,
        {
            if let Some(hit) = self.data.hit(i as u32, ray, tmin, closest_so_far, xi) {
                if match result {
                    Some(best) => best.t > hit.t,
                    None => true,
                } {
                    closest_so_far = hit.t;
                    result = Some(hit);
                }
            }
            i = i + 1;
        }
        result
    }

    /// The aggregate bounding box of the mesh.
    pub fn bounds(&self) -> (r: AABB)
        ensures
            r == self.bounds,
    {
        self.bounds
    }

    /// The handle of the material every triangle uses.
    pub fn material(&self) -> (r: MaterialHandle)
        ensures
            r == self.data.material,
    {
        self.data.material
    }
}

/// The cached face normal of a triangle, from the edges around its second
/// listed corner.
pub open spec fn spec_face_normal(p0: V3, p1: V3, p2: V3) -> V3 {
    vec_normalize(vec_cross(vec_sub(p2, p1), vec_sub(p0, p1)))
}

} // verus!
