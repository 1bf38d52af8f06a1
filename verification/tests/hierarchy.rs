use ray_tracing_rust::bvh::merge_optionals;
use ray_tracing_rust::color::Color;
use ray_tracing_rust::fixed::{FX_MAX, FX_ONE};
use ray_tracing_rust::material::{Lambertian, Material};
use ray_tracing_rust::mesh::{Mesh, Vertex};
use ray_tracing_rust::objects::Sphere;
use ray_tracing_rust::ray::{HitRecord, Ray};
use ray_tracing_rust::scene::{MaterialHandle, Object, Scene};
use ray_tracing_rust::vector::Vec3;

fn fx(units: i64) -> i64 {
    units * FX_ONE
}

fn gray_scene() -> Scene {
    let mut scene = Scene::default();
    let gray = scene.add_material(Material::Lambertian(Lambertian::new(Color::new(
        fx(1) / 2,
        fx(1) / 2,
        fx(1) / 2,
    ))));
    for i in 0..8i64 {
        scene.add_object(Object::Sphere(Sphere::new(
            Vec3::new(fx(3 * i), fx(i % 3), fx(-5 - 2 * i)),
            fx(1),
            gray,
        )));
    }
    scene
}

#[test]
fn merge_optionals_keeps_the_nearer_hit() {
    let ray = Ray::new(Vec3::zero(), Vec3::new(0, 0, -fx(1)));
    let near = HitRecord::new(Vec3::zero(), Vec3::new(0, 0, fx(1)), fx(2), &ray, MaterialHandle(0));
    let far = HitRecord::new(Vec3::zero(), Vec3::new(0, 0, fx(1)), fx(5), &ray, MaterialHandle(1));
    assert_eq!(merge_optionals(Some(near), Some(far)).unwrap().t, fx(2));
    assert_eq!(merge_optionals(Some(far), Some(near)).unwrap().t, fx(2));
    assert_eq!(merge_optionals(Some(near), None).unwrap().t, fx(2));
    assert_eq!(merge_optionals(None, Some(far)).unwrap().t, fx(5));
    assert!(merge_optionals(None, None).is_none());
}

// The hierarchy and the linear scan agree on the closest hit, over many
// rays and a scene whose boxes do not overlap.
#[test]
fn tree_matches_linear_scan() {
    let scene = gray_scene();
    let tree = scene.build_bvh();
    let mut checked = 0;
    // aim one ray at each sphere's center, then sweep a grid of directions
    let mut dirs = Vec::new();
    for i in 0..8i64 {
        let depth = 5 + 2 * i;
        dirs.push(Vec3::new(fx(3 * i) / depth, fx(i % 3) / depth, -fx(1)));
    }
    for ix in -10..=10i64 {
        for iy in -10..=10i64 {
            dirs.push(Vec3::new(ix * FX_ONE / 4, iy * FX_ONE / 4, -fx(1)));
        }
    }
    for dir in dirs {
        let ray = Ray::new(Vec3::zero(), dir);
        let from_tree = tree.hit(&scene, &ray, 1, FX_MAX, 0);
        let from_scan = scene.hit(&ray, 1, FX_MAX, 0);
        assert_eq!(from_tree.is_some(), from_scan.is_some());
        if let (Some(a), Some(b)) = (from_tree, from_scan) {
            assert_eq!(a.t, b.t);
            checked += 1;
        }
    }
    assert!(checked >= 8, "too few hits to be meaningful: {checked}");
}

fn grid_mesh(material: MaterialHandle) -> Mesh {
    // a 10 x 5 grid of quads at z = -4, split into 100 triangles
    let mut vertices = Vec::new();
    for gy in 0..6i64 {
        for gx in 0..11i64 {
            vertices.push(Vertex {
                position: Vec3::new(fx(gx - 5), fx(gy - 3), fx(-4)),
                normal: Vec3::new(0, 0, fx(1)),
            });
        }
    }
    let mut indices: Vec<u32> = Vec::new();
    for gy in 0..5u32 {
        for gx in 0..10u32 {
            let base = gy * 11 + gx;
            indices.extend_from_slice(&[base, base + 1, base + 11]);
            indices.extend_from_slice(&[base + 1, base + 12, base + 11]);
        }
    }
    let mut mesh = Mesh::from_buffers(vertices, indices, material);
    mesh.build_bvh();
    mesh
}

// A mesh answers the same through its internal hierarchy as through the
// plain loop over all its triangles.
#[test]
fn mesh_tree_matches_triangle_loop() {
    let mesh = grid_mesh(MaterialHandle(0));
    let mut hits = 0;
    for ix in -12..=12i64 {
        for iy in -8..=8i64 {
            let dir = Vec3::new(ix * FX_ONE / 2, iy * FX_ONE / 2, -fx(4));
            let ray = Ray::new(Vec3::zero(), dir);
            let with_tree = mesh.hit(&ray, 1, FX_MAX, 0);
            let with_loop = mesh.hit_linear(&ray, 1, FX_MAX, 0);
            assert_eq!(with_tree.is_some(), with_loop.is_some());
            if let (Some(a), Some(b)) = (with_tree, with_loop) {
                assert_eq!(a.t, b.t);
                hits += 1;
            }
        }
    }
    assert!(hits > 50, "too few hits to be meaningful: {hits}");
}

#[test]
fn mesh_bounds_cover_all_vertices() {
    let mesh = grid_mesh(MaterialHandle(0));
    let b = mesh.bounds();
    assert_eq!(b.min, Vec3::new(fx(-5), fx(-3), fx(-4)));
    assert_eq!(b.max, Vec3::new(fx(5), fx(2), fx(-4)));
}

#[test]
fn handles_are_dense_and_stable() {
    let mut scene = Scene::default();
    let m0 = scene.add_material(Material::Lambertian(Lambertian::new(Color::black())));
    let m1 = scene.add_material(Material::Lambertian(Lambertian::new(Color::black())));
    assert_eq!(m0, MaterialHandle(0));
    assert_eq!(m1, MaterialHandle(1));
    let o0 = scene.add_object(Object::Sphere(Sphere::new(Vec3::zero(), fx(1), m0)));
    let o1 = scene.add_object(Object::Sphere(Sphere::new(Vec3::zero(), fx(2), m1)));
    assert_eq!(o0.0, 0);
    assert_eq!(o1.0, 1);
    assert_eq!(scene.object(o1).bounds().max, Vec3::new(fx(2), fx(2), fx(2)));
}
