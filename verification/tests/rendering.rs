use ray_tracing_rust::backgrounds::{Background, GradientBackground, UniformBackground};
use ray_tracing_rust::camera::Camera;
use ray_tracing_rust::color::Color;
use ray_tracing_rust::fixed::{FX_MAX, FX_ONE};
use ray_tracing_rust::material::{Emission, Lambertian, Material};
use ray_tracing_rust::objects::Sphere;
use ray_tracing_rust::render::{render, RenderTarget};
use ray_tracing_rust::scene::{Object, RenderError, RenderMode, RenderSettings, Scene};
use ray_tracing_rust::vector::Vec3;
use ray_tracing_rust::volume::Volume;

fn fx(units: i64) -> i64 {
    units * FX_ONE
}

fn unit_camera() -> Camera {
    Camera::new(
        Vec3::zero(),
        Vec3::new(0, 0, -fx(1)),
        Vec3::new(0, fx(1), 0),
        90 * FX_ONE,
        FX_ONE,
    )
}

fn settings(spp: u32, depth: u8, mode: RenderMode, bvh: bool) -> RenderSettings {
    RenderSettings {
        samples_per_pixel: spp,
        max_ray_depth: depth,
        enable_multithreading: false,
        enable_bvh_tree: bvh,
        mode,
        clamp_indirect: FX_MAX,
    }
}

fn pixel(target: &RenderTarget, x: usize, y: usize) -> [u8; 4] {
    let i = (y * target.width + x) * 4;
    [target.data[i], target.data[i + 1], target.data[i + 2], target.data[i + 3]]
}

// One gray sphere in front of a dim uniform background, clay shading,
// one sample, depth one. Rays that miss read the background; rays that
// hit bounce once and exhaust the depth budget.
#[test]
fn single_sphere_uniform_background() {
    let mut scene = Scene::new(
        settings(1, 1, RenderMode::Clay, true),
        unit_camera(),
        Background::Uniform(UniformBackground::new(Color::new(6554, 6554, 6554))),
    );
    let gray = scene.add_material(Material::Lambertian(Lambertian::new(Color::new(
        32768, 32768, 32768,
    ))));
    scene.add_object(Object::Sphere(Sphere::new(Vec3::new(0, 0, -fx(1)), fx(1) / 2, gray)));
    assert!(scene.validate().is_ok());

    let mut target = RenderTarget::new(16, 16);
    render(&mut target, &scene, 42);

    // corner: sqrt(0.1) quantizes to 80
    let corner = pixel(&target, 0, 0);
    assert_eq!(corner, [80, 80, 80, 255]);
    // center: the clay bounce hits the depth limit and contributes black
    let center = pixel(&target, 8, 8);
    assert_eq!(center, [0, 0, 0, 255]);
}

// The same geometry in normal mode: the center pixel shows the normal
// pointing back along the view axis, mapped to (0.5, 0.5, 1.0).
#[test]
fn normal_mode_sphere() {
    let mut scene = Scene::new(
        settings(1, 1, RenderMode::Normal, true),
        unit_camera(),
        Background::Uniform(UniformBackground::new(Color::black())),
    );
    let gray = scene.add_material(Material::Lambertian(Lambertian::new(Color::black())));
    scene.add_object(Object::Sphere(Sphere::new(Vec3::new(0, 0, -fx(1)), fx(1) / 2, gray)));

    let mut target = RenderTarget::new(16, 16);
    render(&mut target, &scene, 42);

    // the shading color is about (0.5, 0.5, 1.0); the pixel pipeline then
    // applies the square-root gamma step, so the raster holds about
    // (sqrt(0.5), sqrt(0.5), 1.0), quantized to about (180, 180, 255)
    let center = pixel(&target, 8, 8);
    assert!((center[0] as i32 - 180).abs() <= 15, "r was {}", center[0]);
    assert!((center[1] as i32 - 180).abs() <= 15, "g was {}", center[1]);
    assert!(center[2] >= 248, "b was {}", center[2]);
    assert_eq!(center[3], 255);
}

// With a fixed seed, rendering is a pure function: two runs give
// byte-identical output.
#[test]
fn fixed_seed_renders_are_identical() {
    let mut scene = Scene::new(
        settings(1, 4, RenderMode::Full, true),
        unit_camera(),
        Background::Uniform(UniformBackground::new(Color::new(6554, 13107, 19661))),
    );
    let gray = scene.add_material(Material::Lambertian(Lambertian::new(Color::new(
        32768, 26214, 19661,
    ))));
    scene.add_object(Object::Sphere(Sphere::new(Vec3::new(0, 0, -fx(2)), fx(1), gray)));
    scene.add_object(Object::Sphere(Sphere::new(Vec3::new(0, -fx(40), -fx(2)), fx(38), gray)));

    let mut first = RenderTarget::new(12, 12);
    render(&mut first, &scene, 2024);
    let mut second = RenderTarget::new(12, 12);
    render(&mut second, &scene, 2024);
    assert_eq!(first.data, second.data);
}

// Two spheres with disjoint boxes: the frame rendered through the
// hierarchy equals the frame rendered by the linear scan, bit for bit.
#[test]
fn bvh_and_linear_frames_match() {
    let camera = unit_camera();
    let background = Background::Uniform(UniformBackground::new(Color::new(9830, 9830, 9830)));
    let background_again = Background::Uniform(UniformBackground::new(Color::new(9830, 9830, 9830)));
    let mut with_tree = Scene::new(settings(4, 4, RenderMode::Full, true), camera, background);
    let gray = with_tree.add_material(Material::Lambertian(Lambertian::new(Color::new(
        32768, 32768, 32768,
    ))));
    with_tree.add_object(Object::Sphere(Sphere::new(Vec3::new(-fx(1), 0, -fx(3)), fx(1), gray)));
    with_tree.add_object(Object::Sphere(Sphere::new(Vec3::new(fx(2), 0, -fx(4)), fx(1), gray)));

    let mut without_tree = Scene::new(
        settings(4, 4, RenderMode::Full, false),
        camera,
        background_again,
    );
    let gray2 = without_tree.add_material(Material::Lambertian(Lambertian::new(Color::new(
        32768, 32768, 32768,
    ))));
    without_tree.add_object(Object::Sphere(Sphere::new(Vec3::new(-fx(1), 0, -fx(3)), fx(1), gray2)));
    without_tree.add_object(Object::Sphere(Sphere::new(Vec3::new(fx(2), 0, -fx(4)), fx(1), gray2)));

    let mut a = RenderTarget::new(16, 16);
    render(&mut a, &with_tree, 77);
    let mut b = RenderTarget::new(16, 16);
    render(&mut b, &without_tree, 77);
    assert_eq!(a.data, b.data);
}

// A uniform emissive enclosure with emission c^2 renders, after the
// square-root gamma step, to floor(c * 255) in every pixel.
#[test]
fn gamma_round_trip() {
    let mut scene = Scene::new(
        settings(1, 2, RenderMode::Full, false),
        unit_camera(),
        Background::Uniform(UniformBackground::new(Color::black())),
    );
    // c = 0.5: emission is c^2 = 0.25
    let glow = scene.add_material(Material::Emission(Emission::new(
        Color::new(16384, 16384, 16384),
        FX_ONE,
    )));
    scene.add_object(Object::Sphere(Sphere::new(Vec3::zero(), fx(100), glow)));

    let mut target = RenderTarget::new(8, 8);
    render(&mut target, &scene, 5);
    for y in 0..8 {
        for x in 0..8 {
            assert_eq!(pixel(&target, x, y), [127, 127, 127, 255]);
        }
    }
}

// A one-pixel-wide gradient strip: the top row looks up and reads the
// bottom color, the lowest row looks down and reads the top color, the
// middle row blends both.
#[test]
fn gradient_background_strip() {
    let scene = Scene::new(
        settings(1, 1, RenderMode::Full, false),
        unit_camera(),
        Background::Gradient(GradientBackground::new(
            Color::new(fx(1), 0, 0),
            Color::new(0, 0, fx(1)),
        )),
    );
    let mut target = RenderTarget::new(1, 3);
    render(&mut target, &scene, 9);
    let top = pixel(&target, 0, 0);
    let middle = pixel(&target, 0, 1);
    let bottom = pixel(&target, 0, 2);
    assert!(top[2] > top[0], "top pixel should be blue-dominant: {top:?}");
    assert!(bottom[0] > bottom[2], "lowest pixel should be red-dominant: {bottom:?}");
    assert!(middle[0] > 0 && middle[2] > 0, "middle pixel should blend: {middle:?}");
}

// A medium scatters a ray that enters its boundary, at the entry point
// when the sampled distance is zero, and not at all when the sampled
// distance exceeds the crossing.
#[test]
fn volume_marches_inside_its_boundary() {
    let sphere = Sphere::new(Vec3::new(0, 0, -fx(5)), fx(1), ray_tracing_rust::scene::MaterialHandle(0));
    let volume = Object::Volume(Volume::new(Box::new(Object::Sphere(sphere)), FX_ONE));
    let ray = ray_tracing_rust::ray::Ray::new(Vec3::zero(), Vec3::new(0, 0, -fx(1)));
    // a unit sample of one gives a zero scatter distance: hit at the entry
    let at_entry = volume.hit(&ray, 1, FX_MAX, FX_ONE).expect("zero distance scatters at entry");
    assert_eq!(at_entry.t, fx(4));
    // a tiny unit sample gives a huge scatter distance: the ray passes through
    assert!(volume.hit(&ray, 1, FX_MAX, 1).is_none());
}

#[test]
fn invalid_configurations_are_rejected() {
    let mut bad_camera = Scene::default();
    bad_camera.camera = Camera::new(Vec3::zero(), Vec3::zero(), Vec3::zero(), 0, FX_ONE);
    assert_eq!(bad_camera.validate(), Err(RenderError::InvalidConfig));

    let mut bad_settings = Scene::default();
    bad_settings.settings.samples_per_pixel = 0;
    assert_eq!(bad_settings.validate(), Err(RenderError::InvalidConfig));

    assert!(Scene::default().validate().is_ok());
}
