use ray_tracing_rust::aabb::AABB;
use ray_tracing_rust::fixed::{FX_MAX, FX_ONE};
use ray_tracing_rust::ray::{HitRecord, Ray};
use ray_tracing_rust::color::Color;
use ray_tracing_rust::scene::MaterialHandle;
use ray_tracing_rust::vector::{near_zero, reflect, Vec3};

fn fx(units: i64) -> i64 {
    units * FX_ONE
}

#[test]
fn dot_and_cross_products() {
    let a = Vec3::new(fx(1), fx(2), fx(3));
    let b = Vec3::new(fx(4), fx(5), fx(6));
    assert_eq!(a.dot(&b), fx(32));
    let c = a.cross(&b);
    assert_eq!(c, Vec3::new(fx(-3), fx(6), fx(-3)));
}

#[test]
fn magnitude_and_normalize() {
    let v = Vec3::new(fx(3), fx(4), 0);
    assert_eq!(v.magnitude2(), fx(25));
    assert_eq!(v.magnitude(), fx(5));
    let n = v.normalize();
    assert_eq!(n, Vec3::new(39321, 52428, 0));
    assert_eq!(Vec3::zero().normalize(), Vec3::zero());
}

#[test]
fn near_zero_is_exact_zero() {
    assert!(near_zero(&Vec3::zero()));
    assert!(!near_zero(&Vec3::new(1, 0, 0)));
}

#[test]
fn reflect_mirrors_about_the_normal() {
    let v = Vec3::new(fx(1), fx(-1), 0);
    let n = Vec3::new(0, fx(1), 0);
    assert_eq!(reflect(&v, &n), Vec3::new(fx(1), fx(1), 0));
}

#[test]
fn ray_at_walks_the_ray() {
    let r = Ray::new(Vec3::new(fx(1), 0, 0), Vec3::new(0, fx(2), 0));
    assert_eq!(r.at(fx(3)), Vec3::new(fx(1), fx(6), 0));
}

// The hit record stores a normal that opposes the incident direction,
// whichever side was struck.
#[test]
fn hit_record_normal_opposes_the_ray() {
    let ray = Ray::new(Vec3::zero(), Vec3::new(0, 0, -fx(1)));
    let outward = Vec3::new(0, 0, fx(1));
    let front = HitRecord::new(Vec3::zero(), outward, fx(1), &ray, MaterialHandle(0));
    assert!(front.front_face);
    assert_eq!(front.normal, outward);
    assert!(front.normal.dot(&ray.direction) <= 0);

    let ray_back = Ray::new(Vec3::zero(), Vec3::new(0, 0, fx(1)));
    let back = HitRecord::new(Vec3::zero(), outward, fx(1), &ray_back, MaterialHandle(0));
    assert!(!back.front_face);
    assert_eq!(back.normal, Vec3::new(0, 0, -fx(1)));
    assert!(back.normal.dot(&ray_back.direction) <= 0);
}

// surround(a, a) == a, surround is symmetric, and the empty box is its
// neutral element.
#[test]
fn surround_laws_on_values() {
    let a = AABB { min: Vec3::new(fx(-1), fx(-2), fx(-3)), max: Vec3::new(fx(1), fx(2), fx(3)) };
    let b = AABB { min: Vec3::new(fx(0), fx(-5), fx(1)), max: Vec3::new(fx(4), fx(0), fx(5)) };
    assert_eq!(AABB::surround(a, a), a);
    assert_eq!(AABB::surround(a, b), AABB::surround(b, a));
    assert_eq!(AABB::surround(a, AABB::empty()), a);
    let u = AABB::surround(a, b);
    assert_eq!(u.min, Vec3::new(fx(-1), fx(-5), fx(-3)));
    assert_eq!(u.max, Vec3::new(fx(4), fx(2), fx(5)));
}

#[test]
fn epsilon_expand_widens_flat_axes() {
    let flat = AABB { min: Vec3::new(0, 0, fx(2)), max: Vec3::new(fx(1), fx(1), fx(2)) };
    let e = AABB::epsilon_expand(flat, 655);
    assert_eq!(e.min.x, 0);
    assert_eq!(e.max.x, fx(1));
    assert_eq!(e.min.z, fx(2) - 655);
    assert_eq!(e.max.z, fx(2) + 655);
}

#[test]
fn slab_test_hits_and_misses() {
    let b = AABB { min: Vec3::new(fx(-1), fx(-1), fx(-3)), max: Vec3::new(fx(1), fx(1), fx(-1)) };
    let toward = Ray::new(Vec3::zero(), Vec3::new(0, 0, -fx(1)));
    assert!(b.hit(&toward, 1, FX_MAX));
    let away = Ray::new(Vec3::zero(), Vec3::new(0, 0, fx(1)));
    assert!(!b.hit(&away, 1, FX_MAX));
    let sideways = Ray::new(Vec3::new(fx(5), 0, 0), Vec3::new(0, 0, -fx(1)));
    assert!(!b.hit(&sideways, 1, FX_MAX));
    // an axis-parallel ray inside the slab still hits
    let parallel = Ray::new(Vec3::new(0, 0, 0), Vec3::new(0, 0, -fx(1)));
    assert!(b.hit(&parallel, 1, FX_MAX));
}

#[test]
fn vertical_grad_blends_by_height() {
    let top = Color::new(fx(1), 0, 0);
    let bottom = Color::new(0, 0, fx(1));
    let up = Ray::new(Vec3::zero(), Vec3::new(0, fx(1), 0));
    assert_eq!(up.vertical_grad(top, bottom), bottom);
    let down = Ray::new(Vec3::zero(), Vec3::new(0, -fx(1), 0));
    assert_eq!(down.vertical_grad(top, bottom), top);
}
