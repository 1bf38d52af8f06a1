//! The scene: render settings, handle types, the closed object family,
//! and the tables that own every material and object the integrator
//! reads. The scene doubles as the collection the scene-level hierarchy
//! is built over, and this module states when the hierarchy agrees with
//! the plain linear scan.

use vstd::prelude::*;

use crate::aabb::{aabb_in_range, AabbV, AABB};
use crate::backgrounds::{background_wf, Background};
use crate::bvh::{
    bounds_ok, handle_seq, handles_below, hit_laws, hit_t, leaf_set, restrict_hit,
    spec_from_list, spec_linear_hit, spec_node_hit, wf_node, BoundsCollection, BvhTree,
};
use crate::camera::{spec_camera_valid, Camera};
use crate::fixed::{fadd, fx_add, FX_MAX, FX_ONE};
use crate::material::Material;
use crate::mesh::Mesh;
use crate::objects::{
    lemma_sphere_hit_in_interval, lemma_sphere_hit_restricts, spec_sphere_bounds, spec_sphere_hit,
    Sphere,
};
use crate::ray::{opt_hit_view, HitRecord, HitV, Ray, RayV};
use crate::volume::{spec_volume_march, volume_march, Volume};

verus! {

/// A dense index into a scene's material table. Handles are stable for the
/// lifetime of the scene; the table is append-only.
#[derive(Clone, Copy, Debug, PartialEq, Eq, Structural)]
pub struct MaterialHandle(pub usize);

/// A dense index into a scene's object table.
#[derive(Clone, Copy, Debug, PartialEq, Eq, Structural)]
pub struct ObjectHandle(pub usize);

/// How the integrator shades a hit.
#[derive(Clone, Copy, Debug, PartialEq, Eq, Structural)]
pub enum RenderMode {
    Full,
    Clay,
    Random,
    Normal,
}

/// Knobs of a single render.
#[derive(Clone, Copy, Debug, PartialEq, Eq, Structural)]
pub struct RenderSettings {
    pub samples_per_pixel: u32,
    pub max_ray_depth: u8,
    pub enable_multithreading: bool,
    pub enable_bvh_tree: bool,
    pub mode: RenderMode,
    /// Per-sample channel clamp that suppresses fireflies; `FX_MAX`
    /// disables it.
    pub clamp_indirect: i64,
}

/// Settings the renderer accepts.
pub open spec fn spec_settings_valid(s: RenderSettings) -> bool {
    &&& 1 <= s.samples_per_pixel <= 10000
    &&& 1 <= s.max_ray_depth <= 50
    &&& s.clamp_indirect >= 0
}

impl RenderSettings {
    /// Whether these settings are inside the supported ranges.
    pub fn is_valid(&self) -> (r: bool)
        ensures
            r == spec_settings_valid(*self),
    {
        1 <= self.samples_per_pixel && self.samples_per_pixel <= 10000 && 1 <= self.max_ray_depth
            && self.max_ray_depth <= 50 && self.clamp_indirect >= 0
    }
}

/// The errors a scene can report instead of aborting.
#[derive(Clone, Copy, Debug, PartialEq, Eq, Structural)]
pub enum RenderError {
    /// A camera or settings value outside its supported range.
    InvalidConfig,
    /// An asset path that could not be opened.
    AssetNotFound,
    /// An asset that could not be decoded.
    AssetMalformed,
    /// A reference to an unregistered handle.
    SceneBuildFailure,
    /// A computation that would have produced no usable value.
    ArithmeticDegeneracy,
}

/// The closed family of objects a scene can hold.
pub enum Object {
    Sphere(Sphere),
    Mesh(Mesh),
    Volume(Volume),
}

/// An object in a usable state (meshes need their internal hierarchy).
pub open spec fn object_wf(o: Object) -> bool
    decreases o,
{
    match o {
        Object::Sphere(_) => true,
        Object::Mesh(m) => m.wf(),
        Object::Volume(v) => object_wf(*v.boundary),
    }
}

/// Every material handle inside the object is below `n`.
pub open spec fn object_materials_valid(o: Object, n: int) -> bool
    decreases o,
{
    match o {
        Object::Sphere(s) => s@.material < n,
        Object::Mesh(m) => (m.data.material.0 as int) < n,
        Object::Volume(v) => object_materials_valid(*v.boundary, n),
    }
}

/// The material an object's hits carry.
pub open spec fn spec_object_material(o: Object) -> int
    decreases o,
{
    match o {
        Object::Sphere(s) => s@.material,
        Object::Mesh(m) => m.data.material.0 as int,
        Object::Volume(v) => spec_object_material(*v.boundary),
    }
}

/// The bounding box of an object.
pub open spec fn spec_object_bounds(o: Object) -> AabbV
    decreases o,
{
    match o {
        Object::Sphere(s) => spec_sphere_bounds(s@),
        Object::Mesh(m) => m.bounds@,
        Object::Volume(v) => spec_object_bounds(*v.boundary),
    }
}

/// The intersection of an object with a ray: spheres by their quadratic,
/// meshes through their internal hierarchy, and volumes by probing their
/// boundary twice and marching by the unit sample.
pub open spec fn spec_object_hit(o: Object, ray: RayV, tmin: int, tmax: int, xi: int) -> Option<
    HitV,
>
    decreases o,
{
    match o {
        Object::Sphere(s) => spec_sphere_hit(s@, ray, tmin, tmax),
        Object::Mesh(m) => spec_node_hit(&m.data, m.bvh_root, ray, tmin, tmax, xi),
        Object::Volume(v) => {
            match spec_object_hit(*v.boundary, ray, -(FX_MAX as int), FX_MAX as int, xi) {
                Option::None => Option::None,
                Option::Some(h1) => match spec_object_hit(
                    *v.boundary,
                    ray,
                    fx_add(h1.t, tmin),
                    FX_MAX as int,
                    xi,
                ) {
                    Option::None => Option::None,
                    Option::Some(h2) => spec_volume_march(
                        h1,
                        h2,
                        ray,
                        tmin,
                        tmax,
                        xi,
                        v.neg_inv_density as int,
                        spec_object_material(*v.boundary),
                    ),
                },
            }
        },
    }
}

impl Object {
    /// The material this object's hits carry.
    pub fn material(&self) -> (r: MaterialHandle)
        ensures
            r.0 as int == spec_object_material(*self),
        decreases *self,
    {
        match self {
            Object::Sphere(s) => s.material(),
            Object::Mesh(m) => m.material(),
            Object::Volume(v) => v.boundary.material(),
        }
    }

    /// The bounding box of this object.
    pub fn bounds(&self) -> (r: AABB)
        ensures
            r@ == spec_object_bounds(*self),
        decreases *self,
    {
        match self {
            Object::Sphere(s) => s.bounds(),
            Object::Mesh(m) => m.bounds(),
            Object::Volume(v) => v.boundary.bounds(),
        }
    }

    /// Intersect a ray with this object inside `[tmin, tmax]`.
    pub fn hit(&self, ray: &Ray, tmin: i64, tmax: i64, xi: i64) -> (r: Option<HitRecord>)
        requires
            object_wf(*self),
        ensures
            opt_hit_view(r) == spec_object_hit(*self, ray@, tmin as int, tmax as int, xi as int),
        decreases *self,
    {
        match self {
            Object::Sphere(s) => s.hit(ray, tmin, tmax),
            Object::Mesh(m) => m.hit(ray, tmin, tmax, xi),
            Object::Volume(v) => {
                match v.boundary.hit(ray, -FX_MAX, FX_MAX, xi) {
                    None => None,
                    Some(h1) => match v.boundary.hit(ray, fadd(h1.t, tmin), FX_MAX, xi) {
                        None => None,
                        Some(h2) => volume_march(
                            &h1,
                            &h2,
                            ray,
                            tmin,
                            tmax,
                            xi,
                            v.neg_inv_density,
                            v.boundary.material(),
                        ),
                    },
                }
            },
        }
    }
}

/// The scene: the camera, the render settings, a background, and the two
/// append-only tables of objects and materials.
pub struct Scene {
    pub camera: Camera,
    pub settings: RenderSettings,
    pub background: Background,
    pub objects: Vec<Object>,
    pub materials: Vec<Material>,
}

impl Scene {
    /// A usable scene: every object is usable, every handle it carries
    /// points into the material table, and the background can be sampled.
    pub open spec fn wf(&self) -> bool {
        &&& self.objects@.len() <= 0x1_0000_0000
        &&& forall|i: int|
            0 <= i < self.objects@.len() ==> object_wf(#[trigger] self.objects@[i])
                && object_materials_valid(self.objects@[i], self.materials@.len() as int)
        &&& background_wf(&self.background)
    }

    pub fn new(settings: RenderSettings, camera: Camera, background: Background) -> (s: Scene)
        requires
            background_wf(&background),
        ensures
            s.settings == settings,
            s.camera == camera,
            s.background == background,
            s.objects@.len() == 0,
            s.materials@.len() == 0,
            s.wf(),
    {
        Scene { camera, settings, background, objects: Vec::new(), materials: Vec::new() }
    }

    /// Append an object; the returned handle is its index forever.
    pub fn add_object(&mut self, object: Object) -> (h: ObjectHandle)
        requires
            old(self).wf(),
            old(self).objects@.len() < 0x1_0000_0000,
            object_wf(object),
            object_materials_valid(object, old(self).materials@.len() as int),
        ensures
            final(self).objects@ == old(self).objects@.push(object),
            final(self).materials == old(self).materials,
            final(self).camera == old(self).camera,
            final(self).settings == old(self).settings,
            final(self).background == old(self).background,
            h.0 == old(self).objects@.len(),
            final(self).wf(),
    {
        self.objects.push(object);
        ObjectHandle(self.objects.len() - 1)
    }

    /// The object a handle points to.
    #[inline]
    pub fn object(&self, object: ObjectHandle) -> (r: &Object)
        requires
            object.0 < self.objects@.len(),
        ensures
            *r == self.objects@[object.0 as int],
    {
        &self.objects[object.0]
    }

    /// Append a material; the returned handle is its index forever.
    pub fn add_material(&mut self, material: Material) -> (h: MaterialHandle)
        requires
            old(self).wf(),
        ensures
            final(self).materials@ == old(self).materials@.push(material),
            final(self).objects == old(self).objects,
            final(self).camera == old(self).camera,
            final(self).settings == old(self).settings,
            final(self).background == old(self).background,
            h.0 == old(self).materials@.len(),
            final(self).wf(),
    {
        proof {
            assert forall|i: int| 0 <= i < self.objects@.len() implies object_materials_valid(
                #[trigger] self.objects@[i],
                self.materials@.len() as int + 1,
            ) by {
                lemma_materials_valid_mono(
                    self.objects@[i],
                    self.materials@.len() as int,
                    self.materials@.len() as int + 1,
                );
            }
        }
        self.materials.push(material);
        MaterialHandle(self.materials.len() - 1)
    }

    /// The material a handle points to.
    #[inline]
    pub fn material(&self, material: MaterialHandle) -> (r: &Material)
        requires
            material.0 < self.materials@.len(),
        ensures
            *r == self.materials@[material.0 as int],
    {
        &self.materials[material.0]
    }

    /// Whether the camera and the settings are inside their supported
    /// ranges.
    pub fn validate(&self) -> (r: Result<(), RenderError>)
        ensures
            r is Ok <==> (spec_camera_valid(self.camera@) && spec_settings_valid(self.settings)),
    {
        if self.camera.is_valid() && self.settings.is_valid() {
            Ok(())
        } else {
            Err(RenderError::InvalidConfig)
        }
    }

    /// The linear intersection fallback: try every object, narrowing the
    /// interval to the closest parameter seen.
    pub fn hit(&self, ray: &Ray, tmin: i64, tmax: i64, xi: i64) -> (r: Option<HitRecord>)
        requires
            self.wf(),
        ensures
            opt_hit_view(r) == spec_linear_hit(
                self,
                ray@,
                tmin as int,
                tmax as int,
                xi as int,
                self.objects@.len(),
            ),
    {
        let mut result: Option<HitRecord> = None;
        let mut closest_so_far = tmax;
        let mut i: usize = 0;
        while i < self.objects.len()
            invariant
                self.wf(),
                i <= self.objects@.len(),
                opt_hit_view(result) == spec_linear_hit(
                    self,
                    ray@,
                    tmin as int,
                    tmax as int,
                    xi as int,
                    i as nat,
                ),
                closest_so_far as int == match opt_hit_view(result) {
                    Option::Some(rec) => rec.t,
                    Option::None => tmax as int,
                },
            decreases self.objects@.len() - i,
        {
            if let Some(hit) = BoundsCollection::hit(self, i as u32, ray, tmin, closest_so_far, xi)
             {
                closest_so_far = hit.t;
                result = Some(hit);
            }
            i = i + 1;
        }
        result
    }

    /// Build the scene-level hierarchy over the current objects.
    pub fn build_bvh(&self) -> (t: BvhTree)
        requires
            self.wf(),
        ensures
            t.root == spec_from_list(self, handle_seq(self.objects@.len())),
            wf_node(self, t.root),
            leaf_set(t.root) == handles_below(self.objects@.len()),
    {
        BvhTree::build(self)
    }
}

impl Default for Scene {
    /// An empty scene: a unit camera a step behind the origin, modest
    /// settings, and a light gray uniform background.
    fn default() -> (s: Scene)
        ensures
            s.objects@.len() == 0,
            s.materials@.len() == 0,
            s.wf(),
            spec_settings_valid(s.settings),
            spec_camera_valid(s.camera@),
    {
        let camera = Camera {
            lookfrom: crate::vector::Vec3 { x: 0, y: 0, z: 0 },
            lookat: crate::vector::Vec3 { x: 0, y: 0, z: -FX_ONE },
            vertical: crate::vector::Vec3 { x: 0, y: FX_ONE, z: 0 },
            vertical_fov: 90 * FX_ONE,
            aspect_ratio: FX_ONE,
        };
        proof {
            assert(crate::fixed::tdiv(65536int * 65536, 65536) == 65536) by {
                vstd::arithmetic::div_mod::lemma_div_multiples_vanish(65536int, 65536int);
            }
            assert(crate::fixed::fx_mul(FX_ONE as int, FX_ONE as int) == FX_ONE as int);
        }
        Scene {
            camera,
            settings: RenderSettings {
                samples_per_pixel: 5,
                max_ray_depth: 6,
                enable_multithreading: true,
                enable_bvh_tree: true,
                mode: RenderMode::Full,
                clamp_indirect: FX_MAX,
            },
            background: Background::Uniform(
                crate::backgrounds::UniformBackground {
                    color: crate::color::Color { r: 52429, g: 52429, b: 52429 },
                },
            ),
            objects: Vec::new(),
            materials: Vec::new(),
        }
    }
}

/// Material validity only widens as the table grows.
proof fn lemma_materials_valid_mono(o: Object, n: int, m: int)
    requires
        object_materials_valid(o, n),
        n <= m,
    ensures
        object_materials_valid(o, m),
    decreases o,
{
    match o {
        Object::Sphere(_) => {},
        Object::Mesh(_) => {},
        Object::Volume(v) => {
            lemma_materials_valid_mono(*v.boundary, n, m);
        },
    }
}

impl BoundsCollection for Scene {
    open spec fn wf(&self) -> bool {
        Scene::wf(self)
    }

    open spec fn num_handles(&self) -> nat {
        self.objects@.len()
    }

    open spec fn spec_bounds(&self, handle: u32) -> AabbV {
        spec_object_bounds(self.objects@[handle as int])
    }

    open spec fn spec_hit(&self, handle: u32, ray: RayV, tmin: int, tmax: int, xi: int) -> Option<
        HitV,
    > {
        spec_object_hit(self.objects@[handle as int], ray, tmin, tmax, xi)
    }

    fn objects(&self) -> (r: Vec<u32>) {
        let mut r: Vec<u32> = Vec::new();
        let mut i: usize = 0;
        while i < self.objects.len()
            invariant
                i <= self.objects@.len(),
                self.objects@.len() <= 0x1_0000_0000,
                r@.len() == i,
                forall|k: int| 0 <= k < i ==> r@[k] == k as u32,
            decreases self.objects@.len() - i,
        {
            r.push(i as u32);
            i = i + 1;
        }
        r
    }

    fn bounds(&self, handle: u32) -> (r: AABB) {
        self.objects[handle as usize].bounds()
    }

    proof fn lemma_bounds_in_range(&self, handle: u32) {
        lemma_object_bounds_in_range(self.objects@[handle as int]);
    }

    fn hit(&self, handle: u32, ray: &Ray, tmin: i64, tmax: i64, xi: i64) -> (r: Option<
        HitRecord,
    >) {
        self.objects[handle as usize].hit(ray, tmin, tmax, xi)
    }
}

/// Every usable object's box has representable corners.
proof fn lemma_object_bounds_in_range(o: Object)
    requires
        object_wf(o),
    ensures
        aabb_in_range(spec_object_bounds(o)),
    decreases o,
{
    match o {
        Object::Sphere(_) => {},
        Object::Mesh(_) => {},
        Object::Volume(v) => {
            lemma_object_bounds_in_range(*v.boundary);
        },
    }
}

/// The material handle of any hit an object reports is the object's own
/// material, so it is valid whenever the object's handles are.
/// A valid object's own material handle is in range.
proof fn lemma_object_material_valid(o: Object, bound: int)
    requires
        object_materials_valid(o, bound),
    ensures
        0 <= spec_object_material(o) < bound,
    decreases o,
{
    match o {
        Object::Sphere(sp) => {
            crate::objects::lemma_sphere_material_nonneg(sp);
        },
        Object::Mesh(_) => {},
        Object::Volume(v) => {
            lemma_object_material_valid(*v.boundary, bound);
        },
    }
}

#[verifier::rlimit(50)]
pub proof fn lemma_object_hit_material(
    o: Object,
    ray: RayV,
    tmin: int,
    tmax: int,
    xi: int,
    bound: int,
)
    requires
        object_wf(o),
        object_materials_valid(o, bound),
    ensures
        spec_object_hit(o, ray, tmin, tmax, xi) is Some ==> 0 <= crate::bvh::hit_material(
            spec_object_hit(o, ray, tmin, tmax, xi),
        ) < bound,
    decreases o,
{
    match o {
        Object::Sphere(sp) => {
            crate::objects::lemma_sphere_material_nonneg(sp);
            let res = crate::objects::spec_sphere_hit(sp@, ray, tmin, tmax);
            if res is Some {
                assert(res->Some_0.material == sp@.material);
            }
        },
        Object::Mesh(m) => {
            assert(crate::bvh::hit_materials_below(&m.data, ray, xi, bound));
            crate::bvh::lemma_node_hit_material(&m.data, m.bvh_root, ray, tmin, tmax, xi, bound);
        },
        Object::Volume(v) => {
            lemma_object_hit_material(*v.boundary, ray, -(FX_MAX as int), FX_MAX as int, xi, bound);
            lemma_object_material_valid(*v.boundary, bound);
        },
    }
}

/// Every hit the scene reports, through the hierarchy or the scan,
/// carries a handle into the material table.
pub proof fn lemma_scene_hit_materials(s: &Scene, ray: RayV, xi: int)
    requires
        s.wf(),
    ensures
        crate::bvh::hit_materials_below(s, ray, xi, s.materials@.len() as int),
{
    let bound = s.materials@.len() as int;
    assert forall|h: u32, tmin: int, tmax: int|
        (h as nat) < s.objects@.len() && (#[trigger] BoundsCollection::spec_hit(
            s,
            h,
            ray,
            tmin,
            tmax,
            xi,
        )) is Some implies 0 <= crate::bvh::hit_material(
        BoundsCollection::spec_hit(s, h, ray, tmin, tmax, xi),
    ) < bound by {
        lemma_object_hit_material(s.objects@[h as int], ray, tmin, tmax, xi, bound);
    }
}

/// A scene of spheres alone.
pub open spec fn spheres_only(s: &Scene) -> bool {
    forall|i: int| 0 <= i < s.objects@.len() ==> (#[trigger] s.objects@[i]) is Sphere
}

/// In a sphere scene every object obeys the two interval laws: hits lie
/// inside the query interval, and shrinking the interval restricts the
/// answer.
pub proof fn lemma_sphere_scene_laws(s: &Scene, ray: RayV, xi: int)
    requires
        spheres_only(s),
    ensures
        forall|h: u32| (h as nat) < s.objects@.len() ==> #[trigger] hit_laws(s, h, ray, xi),
{
    assert forall|h: u32| (h as nat) < s.objects@.len() implies #[trigger] hit_laws(
        s,
        h,
        ray,
        xi,
    ) by {
        let o = s.objects@[h as int];
        let sp = o->Sphere_0;
        assert forall|tmin: int, tmax: int|
            (#[trigger] BoundsCollection::spec_hit(s, h, ray, tmin, tmax, xi)) is Some implies tmin
            <= hit_t(BoundsCollection::spec_hit(s, h, ray, tmin, tmax, xi)) <= tmax by {
            lemma_sphere_hit_in_interval(sp@, ray, tmin, tmax);
        }
        assert forall|tmin: int, tmax1: int, tmax2: int| tmax2 <= tmax1 implies (
        #[trigger] BoundsCollection::spec_hit(s, h, ray, tmin, tmax2, xi)) == restrict_hit(
            #[trigger] BoundsCollection::spec_hit(s, h, ray, tmin, tmax1, xi),
            tmax2,
        ) by {
            lemma_sphere_hit_restricts(sp@, ray, tmin, tmax1, tmax2);
        }
    }
}

/// The scene-level hierarchy agrees with the linear scan on sphere
/// scenes: for any query whose hit spheres pass their slab tests, the
/// traversal and the scan agree on whether anything is hit and at which
/// parameter.
pub proof fn lemma_scene_bvh_matches_linear(
    s: &Scene,
    tree: BvhTree,
    ray: RayV,
    tmin: int,
    tmax: int,
    xi: int,
)
    requires
        s.wf(),
        spheres_only(s),
        wf_node(s, tree.root),
        leaf_set(tree.root) == handles_below(s.objects@.len()),
        bounds_ok(s, ray, tmin, tmax, xi),
    ensures
        ({
            let from_tree = spec_node_hit(s, tree.root, ray, tmin, tmax, xi);
            let from_scan = spec_linear_hit(s, ray, tmin, tmax, xi, s.objects@.len());
            &&& from_tree is Some <==> from_scan is Some
            &&& from_tree is Some ==> hit_t(from_tree) == hit_t(from_scan)
        }),
{
    lemma_sphere_scene_laws(s, ray, xi);
    crate::bvh::lemma_bvh_matches_linear(s, tree.root, ray, tmin, tmax, xi);
}

} // verus!
