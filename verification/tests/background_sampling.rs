use ray_tracing_rust::backgrounds::{Background, GradientBackground, SkyMap, UniformBackground};
use ray_tracing_rust::color::Color;
use ray_tracing_rust::fixed::FX_ONE;
use ray_tracing_rust::ray::Ray;
use ray_tracing_rust::vector::Vec3;

fn fx(units: i64) -> i64 {
    units * FX_ONE
}

// A uniform background answers every ray with its color.
#[test]
fn uniform_background_is_constant() {
    let c = Color::new(fx(1) / 10, fx(2) / 10, fx(3) / 10);
    let b = UniformBackground::new(c);
    let dirs = [
        Vec3::new(fx(1), 0, 0),
        Vec3::new(0, fx(1), 0),
        Vec3::new(fx(-3), fx(2), fx(7)),
    ];
    for dir in dirs {
        assert_eq!(b.sample(&Ray::new(Vec3::zero(), dir)), c);
    }
}

// Straight up samples the bottom color, straight down the top color: the
// blend factor is the direction's height mapped from [-1, 1] to [0, 1].
#[test]
fn gradient_background_direction() {
    let top = Color::new(fx(1), 0, 0);
    let bottom = Color::new(0, 0, fx(1));
    let g = GradientBackground::new(top, bottom);
    let up = g.sample(&Ray::new(Vec3::zero(), Vec3::new(0, fx(1), 0)));
    assert_eq!(up, bottom);
    let down = g.sample(&Ray::new(Vec3::zero(), Vec3::new(0, -fx(1), 0)));
    assert_eq!(down, top);
    // level rays blend both colors
    let level = g.sample(&Ray::new(Vec3::zero(), Vec3::new(fx(1), 0, 0)));
    assert!(level.r > 0 && level.b > 0);
}

#[test]
fn skymap_rows_follow_the_polar_angle() {
    // two rows: the top row red, the bottom row green
    let image = vec![
        Color::new(fx(1), 0, 0),
        Color::new(fx(1), 0, 0),
        Color::new(0, fx(1), 0),
        Color::new(0, fx(1), 0),
    ];
    let sky = SkyMap::from_buffer(image, 2, 2);
    // a direction tilted upward reads one row...
    let upward = sky.sample(&Ray::new(Vec3::zero(), Vec3::new(0, 32768, -56756)));
    // ...and the mirrored downward direction reads the other
    let downward = sky.sample(&Ray::new(Vec3::zero(), Vec3::new(0, -32768, -56756)));
    assert_ne!(upward, downward);
}

#[test]
fn skymap_constant_image_is_constant() {
    let c = Color::new(fx(1) / 4, fx(1) / 2, fx(1));
    let sky = SkyMap::from_buffer(vec![c; 12], 4, 3);
    let b = Background::Sky(sky);
    let dirs = [
        Vec3::new(fx(1), 0, 0),
        Vec3::new(0, fx(1), 0),
        Vec3::new(0, -fx(1), 0),
        Vec3::new(fx(-2), fx(1), fx(5)),
        Vec3::new(fx(1), fx(-1), fx(-1)),
    ];
    for dir in dirs {
        assert_eq!(b.sample(&Ray::new(Vec3::zero(), dir)), c);
    }
}
