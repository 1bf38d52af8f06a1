use ray_tracing_rust::color::Color;
use ray_tracing_rust::fixed::FX_ONE;
use ray_tracing_rust::sample::{
    random_in_unit_sphere, random_on_unit_sphere, random_vector, CubeSampler, Rng64,
    UnitSphereSurfaceSampler,
};

#[test]
fn generator_is_deterministic_and_in_range() {
    let mut a = Rng64::new(5);
    let mut b = Rng64::new(5);
    for _ in 0..100 {
        let x = a.next_unit();
        assert_eq!(x, b.next_unit());
        assert!((0..FX_ONE).contains(&x));
    }
    let mut c = Rng64::new(0);
    // the zero seed is replaced, so the stream still moves
    let first = c.next_unit();
    let second = c.next_unit();
    assert!(first != second || c.next_unit() != second);
}

#[test]
fn range_draws_stay_in_range() {
    let mut rng = Rng64::new(12);
    for _ in 0..100 {
        let v = rng.next_range(-3 * FX_ONE, 3 * FX_ONE);
        assert!((-3 * FX_ONE..3 * FX_ONE).contains(&v));
    }
}

#[test]
fn cube_sampler_fills_its_box() {
    let sampler = CubeSampler::from_range(-FX_ONE, FX_ONE);
    assert!(sampler.is_empty());
    let mut rng = Rng64::new(3);
    for _ in 0..50 {
        let v = sampler.sample_single(&mut rng);
        assert!((-FX_ONE..FX_ONE).contains(&v.x));
        assert!((-FX_ONE..FX_ONE).contains(&v.y));
        assert!((-FX_ONE..FX_ONE).contains(&v.z));
    }
}

#[test]
fn volume_samples_stay_inside_the_unit_sphere() {
    let mut rng = Rng64::new(8);
    for _ in 0..50 {
        let v = random_in_unit_sphere(&mut rng);
        assert!(v.magnitude2() < FX_ONE);
    }
}

#[test]
fn surface_samples_have_unit_length() {
    let mut rng = Rng64::new(21);
    let sampler = UnitSphereSurfaceSampler::default();
    for _ in 0..50 {
        let v = sampler.sample_single(&mut rng);
        let m = v.magnitude();
        assert!((m - FX_ONE).abs() <= 64, "length was {m}");
    }
    let mut rng2 = Rng64::new(22);
    let w = random_on_unit_sphere(&mut rng2);
    assert!((w.magnitude() - FX_ONE).abs() <= 64);
}

#[test]
fn random_vector_uses_the_componentwise_range() {
    let mut rng = Rng64::new(4);
    for _ in 0..50 {
        let v = random_vector(0, FX_ONE, &mut rng);
        assert!((0..FX_ONE).contains(&v.x));
        assert!((0..FX_ONE).contains(&v.y));
        assert!((0..FX_ONE).contains(&v.z));
    }
}

#[test]
fn quantization_clamps_and_scales() {
    assert_eq!(Color::new(FX_ONE / 2, 0, FX_ONE).into_raw(), [127, 0, 255, 255]);
    assert_eq!(Color::new(-FX_ONE, 2 * FX_ONE, FX_ONE / 4).into_raw(), [0, 255, 63, 255]);
    assert_eq!(Color::black().into_raw(), [0, 0, 0, 255]);
}

#[test]
fn color_arithmetic_is_componentwise() {
    let a = Color::new(FX_ONE / 2, FX_ONE / 4, FX_ONE);
    let b = Color::new(FX_ONE / 2, FX_ONE / 2, FX_ONE / 2);
    assert_eq!(a.plus(&b), Color::new(FX_ONE, 3 * FX_ONE / 4, 3 * FX_ONE / 2));
    assert_eq!(a.times(&b), Color::new(FX_ONE / 4, FX_ONE / 8, FX_ONE / 2));
    assert_eq!(a.scale(2 * FX_ONE), Color::new(FX_ONE, FX_ONE / 2, 2 * FX_ONE));
    assert_eq!(a.clamp(0, FX_ONE / 2), Color::new(FX_ONE / 2, FX_ONE / 4, FX_ONE / 2));
    assert_eq!(a.data(), [FX_ONE / 2, FX_ONE / 4, FX_ONE]);
    assert_eq!(Color::from([1, 2, 3]), Color::new(1, 2, 3));
}
