use ray_tracing_rust::fixed::{FX_MAX, FX_ONE};
use ray_tracing_rust::objects::Sphere;
use ray_tracing_rust::ray::Ray;
use ray_tracing_rust::scene::MaterialHandle;
use ray_tracing_rust::vector::Vec3;

fn fx(units: i64) -> i64 {
    units * FX_ONE
}

#[test]
fn ray_toward_sphere_hits_the_near_surface() {
    let s = Sphere::new(Vec3::new(0, 0, fx(-5)), fx(1), MaterialHandle(3));
    let ray = Ray::new(Vec3::zero(), Vec3::new(0, 0, -fx(1)));
    let hit = s.hit(&ray, 1, FX_MAX).expect("must hit");
    assert_eq!(hit.t, fx(4));
    assert_eq!(hit.point, Vec3::new(0, 0, fx(-4)));
    assert_eq!(hit.normal, Vec3::new(0, 0, fx(1)));
    assert!(hit.front_face);
    assert_eq!(hit.material, MaterialHandle(3));
}

// A ray at or outside the surface pointing away never hits.
#[test]
fn ray_pointing_away_misses() {
    let s = Sphere::new(Vec3::new(0, 0, fx(-5)), fx(1), MaterialHandle(0));
    let away = Ray::new(Vec3::zero(), Vec3::new(0, 0, fx(1)));
    assert!(s.hit(&away, 1, FX_MAX).is_none());
    let sideways = Ray::new(Vec3::new(fx(3), 0, 0), Vec3::new(fx(1), 0, 0));
    assert!(s.hit(&sideways, 1, FX_MAX).is_none());
}

// A ray starting inside always hits, from any direction, when the
// interval opens at zero.
#[test]
fn ray_from_inside_hits() {
    let s = Sphere::new(Vec3::new(0, 0, fx(-5)), fx(2), MaterialHandle(0));
    let dirs = [
        Vec3::new(fx(1), 0, 0),
        Vec3::new(-fx(1), 0, 0),
        Vec3::new(0, fx(1), 0),
        Vec3::new(fx(1), fx(1), fx(1)),
    ];
    for dir in dirs {
        let ray = Ray::new(Vec3::new(0, 0, fx(-5)), dir);
        let hit = s.hit(&ray, 0, FX_MAX).expect("inside rays always hit");
        assert!(!hit.front_face);
        assert!(hit.t >= 0);
    }
}

#[test]
fn missing_discriminant_means_no_hit() {
    let s = Sphere::new(Vec3::new(0, fx(10), 0), fx(1), MaterialHandle(0));
    let ray = Ray::new(Vec3::zero(), Vec3::new(fx(1), 0, 0));
    assert!(s.hit(&ray, 1, FX_MAX).is_none());
}

#[test]
fn bounds_box_the_sphere() {
    let s = Sphere::new(Vec3::new(fx(1), fx(2), fx(3)), fx(2), MaterialHandle(0));
    let b = s.bounds();
    assert_eq!(b.min, Vec3::new(-fx(1), 0, fx(1)));
    assert_eq!(b.max, Vec3::new(fx(3), fx(4), fx(5)));
}

#[test]
fn interval_narrowing_restricts_the_hit() {
    let s = Sphere::new(Vec3::new(0, 0, fx(-5)), fx(1), MaterialHandle(0));
    let ray = Ray::new(Vec3::zero(), Vec3::new(0, 0, -fx(1)));
    // full interval: near surface at t = 4
    assert_eq!(s.hit(&ray, 1, FX_MAX).unwrap().t, fx(4));
    // interval that ends before the sphere: no hit
    assert!(s.hit(&ray, 1, fx(3)).is_none());
    // interval that starts past the near surface: the far root at t = 6
    assert_eq!(s.hit(&ray, fx(5), FX_MAX).unwrap().t, fx(6));
    // interval past both roots: no hit
    assert!(s.hit(&ray, fx(7), FX_MAX).is_none());
}
