//! The render driver: the recursive integrator, the per-pixel sample
//! loop with firefly clamping, gamma correction and quantization, and the
//! raster the result is written to.
//!
//! Every function here is an exact function of the scene, the target
//! dimensions and the seed, so two renders of the same scene with the
//! same seed produce identical bytes.

use vstd::prelude::*;

use crate::backgrounds::spec_background_sample;
use crate::bvh::{
    handle_seq, spec_from_list, spec_linear_hit, spec_node_hit, wf_node, BvhNode, BvhTree,
};
use crate::camera::{spec_get_ray, spec_ray_origin};
use crate::color::{color_add, color_clamp, color_mul, color_raw, Color, C3};
use crate::fixed::{fadd, fdiv, fmul, fsqrt, fx_add, fx_div, fx_mul, fx_sqrt, FX_MAX, FX_ONE};
use crate::material::{spec_scatter, Lambertian, Material};
use crate::ray::{HitV, Ray, RayV};
use crate::sample::{rng_step, rng_unit_of, spec_seed_state, Rng64};
use crate::scene::{RenderMode, Scene};
use crate::vector::vec_normalize;

verus! {

/// The near clip of every traced ray: one fixed-point unit.
pub const TRACE_TMIN: i64 = 1;

/// The albedo every surface gets in clay mode.
pub const CLAY_ALBEDO: i64 = 52429;

/// A raster of RGBA bytes, row-major from the top-left pixel.
pub struct RenderTarget {
    pub width: usize,
    pub height: usize,
    pub data: Vec<u8>,
    pub request_redraw: bool,
}

impl RenderTarget {
    /// A black, fully transparent raster of the given dimensions.
    pub fn new(width: usize, height: usize) -> (t: RenderTarget)
        requires
            width * height * 4 <= usize::MAX,
        ensures
            t.width == width,
            t.height == height,
            t.request_redraw == false,
            t.data@.len() == width * height * 4,
            forall|i: int| 0 <= i < t.data@.len() ==> t.data@[i] == 0,
    {
        proof {
            assert(width * height * 4 >= width * height) by (nonlinear_arith);
            assert(width * height * 4 >= 0) by (nonlinear_arith);
        }
        let total = width * height * 4;
        let mut data: Vec<u8> = Vec::new();
        let mut i: usize = 0;
        while i < total
            invariant
                i <= total,
                data@.len() == i,
                forall|k: int| 0 <= k < i ==> data@[k] == 0,
            decreases total - i,
        {
            data.push(0);
            i = i + 1;
        }
        RenderTarget { width, height, data, request_redraw: false }
    }
}

/// The root the integrator traverses: the hierarchy when one was built,
/// else nothing, which makes the scan linear.
pub open spec fn opt_tree_root(tree: Option<&BvhTree>) -> Option<BvhNode> {
    match tree {
        Option::Some(t) => Option::Some(t.root),
        Option::None => Option::None,
    }
}

/// What the world query returns: the hierarchy traversal or the linear
/// scan over all objects, over `[TRACE_TMIN, FX_MAX]`.
pub open spec fn spec_world_hit(s: &Scene, root: Option<BvhNode>, ray: RayV, xi: int) -> Option<
    HitV,
> {
    match root {
        Option::Some(n) => spec_node_hit(s, n, ray, TRACE_TMIN as int, FX_MAX as int, xi),
        Option::None => spec_linear_hit(
            s,
            ray,
            TRACE_TMIN as int,
            FX_MAX as int,
            xi,
            s.objects@.len(),
        ),
    }
}

/// The radiance one ray gathers, and the generator state after its draws:
/// black at the depth limit; the background on a miss; on a hit, the mode
/// decides between the material's own scatter law, a fixed clay surface,
/// a normal visualization, or black.
pub open spec fn spec_trace_ray(
    s: &Scene,
    root: Option<BvhNode>,
    ray: RayV,
    depth: u8,
    st: u64,
) -> (C3, u64)
    decreases s.settings.max_ray_depth as int - depth as int,
{
    if depth >= s.settings.max_ray_depth {
        (C3 { r: 0, g: 0, b: 0 }, st)
    } else {
        let st1 = rng_step(st);
        let xi = rng_unit_of(st1);
        match spec_world_hit(s, root, ray, xi) {
            Option::None => (spec_background_sample(&s.background, ray), st1),
            Option::Some(hit) => {
                match s.settings.mode {
                    RenderMode::Normal => {
                        let n = vec_normalize(hit.normal);
                        let half = FX_ONE as int / 2;
                        (
                            C3 {
                                r: fx_mul(half, fx_add(n.x, FX_ONE as int)),
                                g: fx_mul(half, fx_add(n.y, FX_ONE as int)),
                                b: fx_mul(half, fx_add(n.z, FX_ONE as int)),
                            },
                            st1,
                        )
                    },
                    RenderMode::Random => (C3 { r: 0, g: 0, b: 0 }, st1),
                    _ => {
                        let m = if s.settings.mode is Clay {
                            Material::Lambertian(
                                Lambertian {
                                    albedo: Color { r: CLAY_ALBEDO, g: CLAY_ALBEDO, b: CLAY_ALBEDO },
                                },
                            )
                        } else {
                            s.materials@[hit.material]
                        };
                        let (att, sc, st2) = spec_scatter(m, ray, hit, st1);
                        match sc {
                            Option::None => (att, st2),
                            Option::Some(scattered) => {
                                let (c, st3) = spec_trace_ray(
                                    s,
                                    root,
                                    scattered,
                                    (depth + 1) as u8,
                                    st2,
                                );
                                (color_mul(att, c), st3)
                            },
                        }
                    },
                }
            },
        }
    }
}

/// Trace one ray through the world.
pub fn trace_ray(
    scene: &Scene,
    tree: Option<&BvhTree>,
    ray: &Ray,
    depth: u8,
    rng: &mut Rng64,
) -> (c: Color)
    requires
        scene.wf(),
        match tree {
            Option::Some(t) => wf_node(scene, t.root),
            Option::None => true,
        },
    ensures
        ({
            let (col, st) = spec_trace_ray(scene, opt_tree_root(tree), ray@, depth, old(
                rng,
            ).state);
            c@ == col && final(rng).state == st
        }),
    decreases scene.settings.max_ray_depth as int - depth as int,
{
    // Base condition
    if depth >= scene.settings.max_ray_depth {
        return Color::black();
    }

    let xi = rng.next_unit();
    let world_hit = match tree {
        Some(t) => t.hit(scene, ray, TRACE_TMIN, FX_MAX, xi),
        None => scene.hit(ray, TRACE_TMIN, FX_MAX, xi),
    };

    if let Some(hit) = world_hit {
        match scene.settings.mode {
            RenderMode::Normal => {
                let n = hit.normal.normalize();
                let half = FX_ONE / 2;
                return Color::new(
                    fmul(half, fadd(n.x, FX_ONE)),
                    fmul(half, fadd(n.y, FX_ONE)),
                    fmul(half, fadd(n.z, FX_ONE)),
                );
            },
            RenderMode::Random => {
                return Color::black();
            },
            _ => {},
        }
        let clay = Material::Lambertian(
            Lambertian { albedo: Color { r: CLAY_ALBEDO, g: CLAY_ALBEDO, b: CLAY_ALBEDO } },
        );
        proof {
            crate::scene::lemma_scene_hit_materials(scene, ray@, xi as int);
            if tree is Some {
                crate::bvh::lemma_node_hit_material(
                    scene,
                    tree->Some_0.root,
                    ray@,
                    TRACE_TMIN as int,
                    FX_MAX as int,
                    xi as int,
                    scene.materials@.len() as int,
                );
            } else {
                crate::bvh::lemma_linear_hit_material(
                    scene,
                    ray@,
                    TRACE_TMIN as int,
                    FX_MAX as int,
                    xi as int,
                    scene.objects@.len(),
                    scene.materials@.len() as int,
                );
            }
        }
        let material = if matches!(scene.settings.mode, RenderMode::Clay) {
            &clay
        } else {
            scene.material(hit.material)
        };
        let (attenuation, scattered) = material.scatter(ray, &hit, rng);
        if let Some(scattered) = scattered {
            attenuation.times(&trace_ray(scene, tree, &scattered, depth + 1, rng))
        } else {
            attenuation
        }
    } else {
        scene.background.sample(ray)
    }
}

/// The clamped radiance sum of the first `n` samples of one pixel, and
/// the generator state after them. Each sample jitters the pixel
/// coordinates by fresh unit draws.
pub open spec fn spec_pixel_sum(
    s: &Scene,
    root: Option<BvhNode>,
    x: int,
    y: int,
    width: int,
    height: int,
    n: nat,
    st: u64,
) -> (C3, u64)
    decreases n,
{
    if n == 0 {
        (C3 { r: 0, g: 0, b: 0 }, st)
    } else {
        let (acc, st1) = spec_pixel_sum(s, root, x, y, width, height, (n - 1) as nat, st);
        let st2 = rng_step(st1);
        let ux = rng_unit_of(st2);
        let st3 = rng_step(st2);
        let uy = rng_unit_of(st3);
        let u = if width <= 1 {
            0
        } else {
            fx_div(fx_add(x * FX_ONE, ux), (width - 1) * FX_ONE)
        };
        let v = if height <= 1 {
            0
        } else {
            fx_div(fx_add(y * FX_ONE, uy), (height - 1) * FX_ONE)
        };
        let ray = spec_get_ray(spec_ray_origin(s.camera@), u, v);
        let (c, st4) = spec_trace_ray(s, root, ray, 0, st3);
        let clamped = color_clamp(c, 0, s.settings.clamp_indirect as int);
        (color_add(acc, clamped), st4)
    }
}

/// The four bytes one pixel quantizes to: the sample average,
/// gamma-corrected by a square root per channel.
pub open spec fn spec_render_pixel(
    s: &Scene,
    root: Option<BvhNode>,
    x: int,
    y: int,
    width: int,
    height: int,
    st: u64,
) -> Seq<u8> {
    let n = s.settings.samples_per_pixel;
    let (sum, _) = spec_pixel_sum(s, root, x, y, width, height, n as nat, st);
    let avg = if n == 0 {
        C3 { r: 0, g: 0, b: 0 }
    } else {
        C3 {
            r: fx_div(sum.r, n * FX_ONE),
            g: fx_div(sum.g, n * FX_ONE),
            b: fx_div(sum.b, n * FX_ONE),
        }
    };
    color_raw(C3 { r: fx_sqrt(avg.r), g: fx_sqrt(avg.g), b: fx_sqrt(avg.b) })
}

/// Render one pixel: sample, clamp, average, gamma-correct, quantize.
pub fn render_pixel(
    scene: &Scene,
    tree: Option<&BvhTree>,
    x: usize,
    y: usize,
    width: usize,
    height: usize,
    rng: &mut Rng64,
) -> (p: [u8; 4])
    requires
        scene.wf(),
        match tree {
            Option::Some(t) => wf_node(scene, t.root),
            Option::None => true,
        },
        x < width <= 0x10000,
        y < height <= 0x10000,
    ensures
        p@ == spec_render_pixel(
            scene,
            opt_tree_root(tree),
            x as int,
            y as int,
            width as int,
            height as int,
            old(rng).state,
        ),
{
    let samples = scene.settings.samples_per_pixel;
    let mut color = Color::black();
    let mut i: u32 = 0;
    let xf = (x as i64) * FX_ONE;
    let yf = (y as i64) * FX_ONE;
    let wf = ((width - 1) as i64) * FX_ONE;
    let hf = ((height - 1) as i64) * FX_ONE;
    while i < samples
        invariant
            scene.wf(),
            match tree {
                Option::Some(t) => wf_node(scene, t.root),
                Option::None => true,
            },
            i <= samples,
            samples == scene.settings.samples_per_pixel,
            x < width <= 0x10000,
            y < height <= 0x10000,
            xf == x * FX_ONE,
            yf == y * FX_ONE,
            wf == (width - 1) * FX_ONE,
            hf == (height - 1) * FX_ONE,
            ({
                let (acc, st) = spec_pixel_sum(
                    scene,
                    opt_tree_root(tree),
                    x as int,
                    y as int,
                    width as int,
                    height as int,
                    i as nat,
                    old(rng).state,
                );
                color@ == acc && rng.state == st
            }),
        decreases samples - i,
    {
        // UV coordinates
        let ux = rng.next_unit();
        let uy = rng.next_unit();
        let u = if width <= 1 {
            0
        } else {
            fdiv(fadd(xf, ux), wf)
        };
        let v = if height <= 1 {
            0
        } else {
            fdiv(fadd(yf, uy), hf)
        };

        // Cast ray
        let ray = scene.camera.ray_origin().get_ray(u, v);
        let ray_color = trace_ray(scene, tree, &ray, 0, rng);

        // Prevent fireflies
        let clamped = ray_color.clamp(0, scene.settings.clamp_indirect);
        color = color.plus(&clamped);
        i = i + 1;
    }

    // Apply gamma correction
    let averaged = if samples == 0 {
        Color::black()
    } else {
        let nf = (samples as i64) * FX_ONE;
        Color::new(fdiv(color.r, nf), fdiv(color.g, nf), fdiv(color.b, nf))
    };
    let corrected = Color::new(fsqrt(averaged.r), fsqrt(averaged.g), fsqrt(averaged.b));
    let raw = corrected.into_raw();
    proof {
        assert(raw@ =~= spec_render_pixel(
            scene,
            opt_tree_root(tree),
            x as int,
            y as int,
            width as int,
            height as int,
            old(rng).state,
        ));
    }
    raw
}

/// The gamma step inverts an exact emissive square: a radiance that is
/// the rescaled square of a representable channel value comes back out of
/// the square root unchanged, so a one-sample pixel of such an emitter
/// quantizes to the original channel value.
pub proof fn lemma_gamma_inverts_square(v: int)
    requires
        0 <= v,
        v * v <= FX_MAX as int * FX_ONE as int,
        v * v % (FX_ONE as int) == 0,
    ensures
        fx_sqrt(fx_mul(v, v)) == v,
{
    let one = FX_ONE as int;
    let sq = v * v;
    assert(v * v >= 0) by (nonlinear_arith)
        requires
            v >= 0,
    {}
    assert(fx_mul(v, v) == sq / one) by {
        assert(crate::fixed::tdiv(sq, one) == sq / one);
        assert(sq / one <= FX_MAX as int) by {
            vstd::arithmetic::div_mod::lemma_div_multiples_vanish(FX_MAX as int, one);
            vstd::arithmetic::div_mod::lemma_div_is_ordered(sq, FX_MAX as int * one, one);
            assert(FX_MAX as int * one == one * FX_MAX as int) by (nonlinear_arith);
        }
        vstd::arithmetic::div_mod::lemma_div_pos_is_pos(sq, one);
    }
    if v == 0 {
        vstd::arithmetic::div_mod::lemma_div_of0(one);
    } else {
        assert((sq / one) * one == sq) by {
            vstd::arithmetic::div_mod::lemma_fundamental_div_mod(sq, one);
        }
        assert(sq / one > 0) by {
            assert(v * v >= 1) by (nonlinear_arith)
                requires
                    v >= 1,
            {}
        }
        assert(v * v < (v + 1) * (v + 1)) by (nonlinear_arith)
            requires
                v >= 0,
        {}
        crate::fixed::lemma_isqrt_unique(sq, v);
    }
}

/// The generator a pixel starts with: the frame seed mixed with the pixel
/// index.
pub open spec fn spec_pixel_state(seed: u64, index: int) -> u64 {
    spec_seed_state(seed ^ (index as u64))
}

/// The raster bytes of the first `p` pixels.
pub open spec fn spec_render_data(
    s: &Scene,
    root: Option<BvhNode>,
    width: int,
    height: int,
    seed: u64,
    p: nat,
) -> Seq<u8>
    decreases p,
{
    if p == 0 {
        Seq::empty()
    } else {
        spec_render_data(s, root, width, height, seed, (p - 1) as nat) + spec_render_pixel(
            s,
            root,
            (p - 1) as int % width,
            (p - 1) as int / width,
            width,
            height,
            spec_pixel_state(seed, (p - 1) as int),
        )
    }
}

/// The raster a full render produces: a hierarchy is built over the scene
/// exactly when the settings ask for one, and every pixel is traced with
/// a generator seeded from the frame seed and its own index.
pub open spec fn spec_render(s: &Scene, width: int, height: int, seed: u64) -> Seq<u8> {
    let root = if s.settings.enable_bvh_tree {
        Option::Some(spec_from_list(s, handle_seq(s.objects@.len())))
    } else {
        Option::None
    };
    spec_render_data(s, root, width, height, seed, (width * height) as nat)
}

/// Render the scene into the target. The result is a function of the
/// scene, the target dimensions and the seed alone, so two renders with
/// equal inputs produce identical bytes.
#[verifier::rlimit(100)]
pub fn render(target: &mut RenderTarget, scene: &Scene, seed: u64)
    requires
        scene.wf(),
        1 <= old(target).width <= 0x10000,
        1 <= old(target).height <= 0x10000,
        old(target).width * old(target).height * 4 <= usize::MAX,
    ensures
        final(target).width == old(target).width,
        final(target).height == old(target).height,
        final(target).request_redraw == true,
        final(target).data@ == spec_render(
            scene,
            old(target).width as int,
            old(target).height as int,
            seed,
        ),
{
    target.request_redraw = true;

    // Build up the scene
    let tree: Option<BvhTree> = if scene.settings.enable_bvh_tree {
        Some(scene.build_bvh())
    } else {
        None
    };
    let tree_ref: Option<&BvhTree> = match &tree {
        Some(t) => Some(t),
        None => None,
    };
    let ghost root = opt_tree_root(tree_ref);

    let width = target.width;
    let height = target.height;
    proof {
        assert(width * height <= 0x10000 * 0x10000) by (nonlinear_arith)
            requires
                width <= 0x10000,
                height <= 0x10000,
        {}
        assert(width * height * 4 >= width * height) by (nonlinear_arith);
    }
    let total: usize = width * height;
    let mut data: Vec<u8> = Vec::new();
    let mut index: usize = 0;
    while index < total
        invariant
            scene.wf(),
            match tree_ref {
                Option::Some(t) => wf_node(scene, t.root),
                Option::None => true,
            },
            root == opt_tree_root(tree_ref),
            root == (if scene.settings.enable_bvh_tree {
                Option::Some(spec_from_list(scene, handle_seq(scene.objects@.len())))
            } else {
                Option::None::<BvhNode>
            }),
            index <= total,
            total == width * height,
            1 <= width <= 0x10000,
            1 <= height <= 0x10000,
            data@ == spec_render_data(
                scene,
                root,
                width as int,
                height as int,
                seed,
                index as nat,
            ),
        decreases total - index,
    {
        let mut rng = Rng64::new(seed ^ (index as u64));
        let x = index % width;
        let y = index / width;
        proof {
            assert(y < height) by (nonlinear_arith)
                requires
                    index < width * height,
                    width >= 1,
                    y == index / width,
            {}
        }
        let px = render_pixel(scene, tree_ref, x, y, width, height, &mut rng);
        data.push(px[0]);
        data.push(px[1]);
        data.push(px[2]);
        data.push(px[3]);
        proof {
            assert(px@ =~= seq![px[0], px[1], px[2], px[3]]);
            assert(data@ =~= spec_render_data(
                scene,
                root,
                width as int,
                height as int,
                seed,
                index as nat,
            ) + px@);
        }
        index = index + 1;
    }
    target.data = data;
}

} // verus!
