use ray_tracing_rust::color::Color;
use ray_tracing_rust::fixed::{FX_MAX, FX_ONE};
use ray_tracing_rust::material::{Dielectric, Emission, Lambertian, Material, Metal, MixMaterial};
use ray_tracing_rust::ray::{HitRecord, Ray};
use ray_tracing_rust::sample::Rng64;
use ray_tracing_rust::scene::MaterialHandle;
use ray_tracing_rust::vector::Vec3;

fn fx(units: i64) -> i64 {
    units * FX_ONE
}

fn front_hit() -> (Ray, HitRecord) {
    let ray = Ray::new(Vec3::zero(), Vec3::new(0, 0, -fx(1)));
    let hit = HitRecord::new(
        Vec3::new(0, 0, -fx(4)),
        Vec3::new(0, 0, fx(1)),
        fx(4),
        &ray,
        MaterialHandle(0),
    );
    (ray, hit)
}

#[test]
fn lambertian_keeps_its_albedo_and_scatters() {
    let albedo = Color::new(fx(1) / 2, fx(1) / 4, fx(1) / 8);
    let m = Material::Lambertian(Lambertian::new(albedo));
    let (ray, hit) = front_hit();
    let mut rng = Rng64::new(7);
    let (att, scattered) = m.scatter(&ray, &hit, &mut rng);
    assert_eq!(att, albedo);
    let scattered = scattered.expect("lambertian always scatters");
    assert_eq!(scattered.origin, hit.point);
}

#[test]
fn emission_terminates_the_path() {
    let m = Material::Emission(Emission::new(Color::new(fx(1), fx(1), 0), fx(2)));
    let (ray, hit) = front_hit();
    let mut rng = Rng64::new(7);
    let (att, scattered) = m.scatter(&ray, &hit, &mut rng);
    assert!(scattered.is_none());
    assert_eq!(att, Color::new(fx(2), fx(2), 0));
}

#[test]
fn metal_reflects_off_the_front_face() {
    let albedo = Color::new(fx(1), fx(1), fx(1));
    let m = Material::Metal(Metal::new(albedo, 0));
    // a 45 degree incoming ray reflects upward off a floor
    let ray = Ray::new(Vec3::new(-fx(1), fx(1), 0), Vec3::new(fx(1), -fx(1), 0));
    let hit = HitRecord::new(Vec3::zero(), Vec3::new(0, fx(1), 0), fx(1), &ray, MaterialHandle(0));
    let mut rng = Rng64::new(7);
    let (att, scattered) = m.scatter(&ray, &hit, &mut rng);
    assert_eq!(att, albedo);
    let dir = scattered.expect("mirror must reflect").direction;
    // reflected direction leaves the surface
    assert!(dir.dot(&hit.normal) > 0);
    assert!(dir.y > 0);
}

#[test]
fn mix_material_picks_one_side() {
    let a = Box::new(Material::Emission(Emission::new(Color::new(fx(1), 0, 0), fx(1))));
    let b = Box::new(Material::Emission(Emission::new(Color::new(0, fx(1), 0), fx(1))));
    // factor one always picks the second material
    let always_b = Material::MixMaterial(MixMaterial::new(a, b, FX_ONE));
    let (ray, hit) = front_hit();
    let mut rng = Rng64::new(9);
    let (att, _) = always_b.scatter(&ray, &hit, &mut rng);
    assert_eq!(att, Color::new(0, fx(1), 0));
}

// Schlick's approximation at normal incidence for glass: r0 = ((1-1.5)/(1+1.5))^2 = 0.04.
#[test]
fn schlick_base_reflectance_of_glass() {
    let ior = 98304;  // 1.5
    let r = Dielectric::reflectance(FX_ONE, ior);
    // 0.04 is 2621 in fixed point; rounding may lose a couple of units
    assert!((r - 2621).abs() <= 8, "reflectance was {r}");
}

// For a fixed index above one the reflectance never increases with the
// cosine.
#[test]
fn schlick_is_monotone_in_the_cosine() {
    let ior = 98304;  // 1.5
    let mut prev = Dielectric::reflectance(0, ior);
    let mut c = 0;
    while c <= FX_ONE {
        let r = Dielectric::reflectance(c, ior);
        assert!(r <= prev, "reflectance rose at cosine {c}");
        prev = r;
        c += FX_ONE / 16;
    }
}

// A grazing ray inside glass cannot refract: the scatter must be a
// reflection, staying on the inner side of the surface.
#[test]
fn dielectric_total_internal_reflection() {
    let m = Material::Dielectric(Dielectric::new(98304));  // ior 1.5
    // ray inside the glass, exiting at a grazing angle against outward normal +z
    let outward = Vec3::new(0, 0, fx(1));
    let dir = Vec3::new(58579, 0, 29290);  // about (0.894, 0, 0.447)
    let ray = Ray::new(Vec3::zero(), dir);
    let hit = HitRecord::new(Vec3::zero(), outward, fx(1), &ray, MaterialHandle(0));
    assert!(!hit.front_face);
    let mut rng = Rng64::new(11);
    let (att, scattered) = m.scatter(&ray, &hit, &mut rng);
    assert_eq!(att, Color::new(fx(1), fx(1), fx(1)));
    let scattered = scattered.expect("dielectric always scatters");
    // the scattered direction stays inside the medium
    assert!(scattered.direction.dot(&outward) < 0);
}
