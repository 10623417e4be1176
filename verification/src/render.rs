//! The recursive radiance estimator and the per-pixel sampling loop.

use vstd::prelude::*;

use crate::camera::Camera;
use crate::camera::FixedCamera;
use crate::fixed::fadd;
use crate::fixed::fdiv;
use crate::fixed::fsub;
use crate::fixed::lemma_fsqrt_pos;
use crate::fixed::Fixed;
use crate::material::Material;
use crate::rt::black;
use crate::rt::black_v;
use crate::rt::lemma_world_hit_nearest;
use crate::rt::sky_blue;
use crate::rt::sky_v;
use crate::rt::white;
use crate::rt::white_v;
use crate::rt::Color;
use crate::rt::Ray;
use crate::rt::World;
use crate::sample::random_uniform;
use crate::shape::Bounds;
use crate::shape::Shape;
use crate::vec3::fx;
use crate::vec3::vadd;
use crate::vec3::vdivs;
use crate::vec3::vlen_sq;
use crate::vec3::vmul;
use crate::vec3::vnorm;
use crate::vec3::vscale;
use crate::vec3::Vec3;

verus! {

/// Lower bound of the hit interval, about 0.001: contacts nearer than
/// this are discarded to avoid a scattered ray re-hitting its own
/// surface.
pub const RAY_T_MIN: i64 = 66;

/// The analytic environment light: a blend from white at the horizon
/// (and below) to the sky color straight up, by the normalized
/// direction's y component.
pub open spec fn background_v(direction: Vec3) -> Color {
    let unit = vnorm(direction);
    let t = fdiv(fadd(unit.y@, 65536), 131072);
    vadd(vscale(white_v(), fsub(65536, t)), vscale(sky_v(), t))
}

/// The background blend meets its endpoints exactly: a unit ray
/// straight up evaluates to the sky color, and one straight down to
/// pure white.
pub proof fn lemma_background_endpoints()
    ensures
        background_v(Vec3 { x: Fixed { raw: 0 }, y: Fixed { raw: 65536 }, z: Fixed { raw: 0 } })
            == sky_v(),
        background_v(Vec3 { x: Fixed { raw: 0 }, y: Fixed { raw: -65536i64 }, z: Fixed { raw: 0 } })
            == white_v(),
{
    crate::fixed::lemma_fmul_zero(0);
    crate::fixed::lemma_fmul_zero(65536);
    crate::fixed::lemma_fmul_unit(65536, 65536);
    crate::fixed::lemma_fmul_unit(-65536, -65536);
    crate::fixed::lemma_fmul_unit(65536, 32768);
    crate::fixed::lemma_fmul_unit(65536, 45875);
    crate::fixed::lemma_tdiv_scale(0);
    crate::fixed::lemma_fdiv_one(65536);
    crate::fixed::lemma_fdiv_one(-65536);
    let up = Vec3 { x: Fixed { raw: 0 }, y: Fixed { raw: 65536 }, z: Fixed { raw: 0 } };
    let down = Vec3 { x: Fixed { raw: 0 }, y: Fixed { raw: -65536i64 }, z: Fixed { raw: 0 } };
    assert(crate::vec3::vlen_sq(up) == 65536);
    assert(crate::vec3::vlen_sq(down) == 65536);
    assert(crate::fixed::is_sqrt(65536int * 65536, 65536)) by (nonlinear_arith);
    crate::fixed::lemma_isqrt_unique(65536int * 65536, 65536);
    assert(crate::vec3::vlen(up) == 65536);
    assert(vnorm(up).y@ == 65536 && vnorm(up).x@ == 0 && vnorm(up).z@ == 0);
    assert(vnorm(down).y@ == -65536 && vnorm(down).x@ == 0 && vnorm(down).z@ == 0);
    vstd::arithmetic::div_mod::lemma_div_multiples_vanish(65536, 131072);
    assert(crate::fixed::tdiv(131072int * 65536, 131072) == 65536);
    assert(fdiv(fadd(65536, 65536), 131072) == 65536);
    vstd::arithmetic::div_mod::lemma_div_of0(131072);
    assert(crate::fixed::tdiv(0int * 65536, 131072) == 0);
    assert(fdiv(fadd(-65536, 65536), 131072) == 0);
}

/// Evaluate the background for a ray that hit nothing.
fn background(ray: Ray) -> (r: Color)
    requires
        crate::vec3::vlen(ray.direction) >= 1,
    ensures
        r == background_v(ray.direction),
{
    let unit = ray.direction.normalize();
    let one = Fixed { raw: 65536 };
    let two = Fixed { raw: 131072 };
    let t = unit.y.add(one).div(two);
    white().scale(one.sub(t)).add(sky_blue().scale(t))
}

/// What the radiance estimator may return for a ray: exactly black on
/// an exhausted budget or an untraceable direction; exactly the
/// background blend on a miss; and on a contact, whatever some
/// admissible scatter outcome dictates — black when the path is
/// absorbed, else the scatter attenuation times a recursive outcome of
/// the scattered ray with one less bounce.
#[verifier::opaque]
pub open spec fn radiance_outcome(ray: Ray, world: World, depth: u32, r: Color) -> bool
    decreases depth,
{
    if depth == 0 {
        r == black_v()
    } else if vlen_sq(ray.direction) < 1 {
        r == black_v()
    } else {
        match world.hit_spec(ray, RAY_T_MIN as int, i64::MAX as int) {
            None => r == background_v(ray.direction),
            Some(contact) => exists|outcome: Option<crate::material::RayScatter>|
                #[trigger] contact.material.scatter_ok(ray, contact, outcome) && match outcome {
                    Some(s) => exists|sub: Color|
                        radiance_outcome(s.ray, world, (depth - 1) as u32, sub) && r == vmul(
                            s.attenuation,
                            sub,
                        ),
                    None => r == black_v(),
                },
        }
    }
}

/// Estimate the radiance arriving along `ray` with a remaining bounce
/// budget of `max_depth`.
///
/// An exhausted budget returns exactly black, whatever the scene. A
/// ray that hits nothing returns exactly the background blend. A ray
/// whose direction vanishes at working precision cannot be traced and
/// contributes black. On a contact, the material scatters: absorption
/// yields black, and a scattered ray recurses with one less bounce,
/// its estimate attenuated by the scatter color — the shape of every
/// possible result is pinned by `radiance_outcome`.
pub fn ray_color(ray: Ray, world: &World, max_depth: u32) -> (r: Color)
    requires
        world.wf(),
    ensures
        radiance_outcome(ray, *world, max_depth, r),
        max_depth == 0 ==> r == black_v(),
        max_depth > 0 && vlen_sq(ray.direction) >= 1 && world.hit_spec(
            ray,
            RAY_T_MIN as int,
            i64::MAX as int,
        ) is None ==> r == background_v(ray.direction),
    decreases max_depth,
{
    proof {
        reveal(radiance_outcome);
    }
    if max_depth == 0 {
        return black();
    }
    let ls = ray.direction.length_squared();
    if ls.raw < 1 {
        return black();
    }
    proof {
        lemma_fsqrt_pos(vlen_sq(ray.direction));
    }
    let bounds = Bounds { min: Fixed { raw: RAY_T_MIN }, max: Fixed { raw: i64::MAX } };
    let hit = world.hit(ray, bounds);
    match hit {
        Some(contact) => {
            proof {
                lemma_world_hit_nearest(
                    world.shapes@,
                    ray,
                    RAY_T_MIN as int,
                    i64::MAX as int,
                    world.shapes@.len() as int,
                );
                let j = choose|i: int|
                    0 <= i < world.shapes@.len() && (#[trigger] world.shapes@[i].sphere_hit_v(
                        ray,
                        RAY_T_MIN as int,
                        i64::MAX as int,
                    )) == Some(contact);
                crate::shape::lemma_hit_material(
                    world.shapes@[j],
                    ray,
                    RAY_T_MIN as int,
                    i64::MAX as int,
                );
                assert(world.shapes@[j].wf());
            }
            let scattered = contact.material.scatter(ray, &contact);
            match scattered {
                Some(sc) => {
                    let sub = ray_color(sc.ray, world, max_depth - 1);
                    let r = sc.attenuation.mul(sub);
                    proof {
                        assert(contact.material.scatter_ok(ray, contact, Some(sc)));
                        assert(radiance_outcome(sc.ray, *world, (max_depth - 1) as u32, sub));
                        assert(r == vmul(sc.attenuation, sub));
                        assert(radiance_outcome(ray, *world, max_depth, r));
                    }
                    r
                },
                None => {
                    let r = black();
                    proof {
                        assert(contact.material.scatter_ok(ray, contact, None));
                        assert(radiance_outcome(ray, *world, max_depth, r));
                    }
                    r
                },
            }
        },
        None => background(ray),
    }
}

/// The buffer index of pixel (x, y): rows are flipped because image
/// row 0 is the top while scene-space y grows upward.
pub fn pixel_index(x: u32, y: u32, width: u32, height: u32) -> (i: usize)
    requires
        x < width,
        y < height,
        (width as int) * (height as int) <= usize::MAX,
    ensures
        i as int == ((height - 1 - y) as int) * (width as int) + (x as int),
{
    let row = (height - 1 - y) as usize;
    proof {
        assert((row as int) * (width as int) + (x as int) < (width as int) * (
        height as int)) by (nonlinear_arith)
            requires
                row as int == height - 1 - (y as int) && 0 <= x < width && 0 <= y < height,
        ;
    }
    row * (width as usize) + (x as usize)
}

/// One admissible per-sample estimate for pixel (x, y): some jitter
/// pair in [0, 1) maps the pixel to normalized screen coordinates, the
/// camera turns them into one of its rays, and the color is a radiance
/// outcome for that ray.
pub open spec fn sample_estimate(
    camera: FixedCamera,
    world: World,
    x: u32,
    y: u32,
    width: u32,
    height: u32,
    depth: u32,
    c: Color,
) -> bool {
    exists|u1: int, u2: int, ray: Ray|
        0 <= u1 < 65536 && 0 <= u2 < 65536 && #[trigger] camera.ray_ok(
            fx(fdiv(fadd((x as int) * 65536, u1), ((width - 1) as int) * 65536)),
            fx(fdiv(fadd((y as int) * 65536, u2), ((height - 1) as int) * 65536)),
            ray,
        ) && radiance_outcome(ray, world, depth, c)
}

/// Left-to-right sum of a sequence of colors.
pub open spec fn color_sum(cs: Seq<Color>) -> Color
    decreases cs.len(),
{
    if cs.len() == 0 {
        black_v()
    } else {
        vadd(color_sum(cs.drop_last()), cs.last())
    }
}

/// One admissible pixel value: the arithmetic average of `samples`
/// per-sample estimates, on the fixed-point grid.
pub open spec fn pixel_estimate(
    camera: FixedCamera,
    world: World,
    x: u32,
    y: u32,
    width: u32,
    height: u32,
    samples: u32,
    depth: u32,
    c: Color,
) -> bool {
    exists|cs: Seq<Color>|
        #![trigger color_sum(cs)]
        cs.len() == samples && (forall|i: int|
            0 <= i < cs.len() ==> sample_estimate(
                camera,
                world,
                x,
                y,
                width,
                height,
                depth,
                #[trigger] cs[i],
            )) && c == vdivs(color_sum(cs), (samples as int) * 65536)
}

/// Estimate one pixel: average `samples` radiance estimates through
/// jittered sub-pixel offsets. The result is pinned to be such an
/// average: each addend is a radiance outcome of a camera ray through
/// a jittered screen coordinate of this pixel.
pub fn render_pixel(
    camera: &FixedCamera,
    world: &World,
    x: u32,
    y: u32,
    width: u32,
    height: u32,
    samples: u32,
    max_depth: u32,
) -> (c: Color)
    requires
        world.wf(),
        width >= 2,
        height >= 2,
        x < width,
        y < height,
        samples >= 1,
    ensures
        pixel_estimate(*camera, *world, x, y, width, height, samples, max_depth, c),
{
    let px = Fixed { raw: (x as i64) * 65536 };
    let py = Fixed { raw: (y as i64) * 65536 };
    let wm1 = Fixed { raw: ((width - 1) as i64) * 65536 };
    let hm1 = Fixed { raw: ((height - 1) as i64) * 65536 };
    let mut sum = black();
    let mut s: u32 = 0;
    let ghost mut cs: Seq<Color> = Seq::empty();
    while s < samples
        invariant
            world.wf(),
            px@ == (x as int) * 65536,
            py@ == (y as int) * 65536,
            wm1@ == ((width - 1) as int) * 65536,
            hm1@ == ((height - 1) as int) * 65536,
            wm1@ >= 65536,
            hm1@ >= 65536,
            s <= samples,
            cs.len() == s as int,
            forall|i: int|
                0 <= i < cs.len() ==> sample_estimate(
                    *camera,
                    *world,
                    x,
                    y,
                    width,
                    height,
                    max_depth,
                    #[trigger] cs[i],
                ),
            sum == color_sum(cs),
        decreases samples - s,
    {
        let ru1 = random_uniform();
        let dx = px.add(ru1).div(wm1);
        let ru2 = random_uniform();
        let dy = py.add(ru2).div(hm1);
        let r = camera.get_screen_ray(dx, dy);
        let c = ray_color(r, world, max_depth);
        proof {
            assert(camera.ray_ok(
                fx(fdiv(fadd((x as int) * 65536, ru1@), ((width - 1) as int) * 65536)),
                fx(fdiv(fadd((y as int) * 65536, ru2@), ((height - 1) as int) * 65536)),
                r,
            ));
            assert(sample_estimate(*camera, *world, x, y, width, height, max_depth, c));
        }
        sum = sum.add(c);
        proof {
            let cs2 = cs.push(c);
            assert(cs2.drop_last() =~= cs);
            assert(cs2.last() == c);
            assert(color_sum(cs2) == vadd(color_sum(cs), c));
            cs = cs2;
        }
        s = s + 1;
    }
    let n = Fixed { raw: (samples as i64) * 65536 };
    let c = sum.div(n);
    proof {
        assert(cs.len() == samples && c == vdivs(color_sum(cs), (samples as int) * 65536));
        assert(pixel_estimate(*camera, *world, x, y, width, height, samples, max_depth, c));
    }
    c
}

/// Every pixel written so far holds an admissible estimate for its
/// (x, y); the buffer is filled in flipped row-major order, so exactly
/// the indices below the length are pinned.
pub open spec fn rendered_prefix(
    img: Seq<Color>,
    camera: FixedCamera,
    world: World,
    width: u32,
    height: u32,
    samples: u32,
    depth: u32,
) -> bool {
    forall|x: u32, y: u32|
        x < width && y < height && (height - 1 - y) * (width as int) + x < img.len()
            ==> pixel_estimate(
            camera,
            world,
            x,
            y,
            width,
            height,
            samples,
            depth,
            #[trigger] img[(height - 1 - y) * (width as int) + x],
        )
}

/// Render the whole grid: the result holds `width * height` colors,
/// and the color at index `(height - 1 - y) * width + x` is an
/// admissible pixel estimate for pixel (x, y) — rows are flipped
/// because image row 0 is the top while scene-space y grows upward.
pub fn render(
    camera: &FixedCamera,
    world: &World,
    width: u32,
    height: u32,
    samples: u32,
    max_depth: u32,
) -> (img: Vec<Color>)
    requires
        world.wf(),
        width >= 2,
        height >= 2,
        samples >= 1,
        (width as int) * (height as int) <= usize::MAX,
    ensures
        img@.len() == (width as int) * (height as int),
        forall|x: u32, y: u32|
            x < width && y < height ==> pixel_estimate(
                *camera,
                *world,
                x,
                y,
                width,
                height,
                samples,
                max_depth,
                #[trigger] img@[(height - 1 - y) * (width as int) + x],
            ),
{
    let mut img: Vec<Color> = Vec::new();
    let mut row: u32 = 0;
    while row < height
        invariant
            world.wf(),
            width >= 2,
            height >= 2,
            samples >= 1,
            (width as int) * (height as int) <= usize::MAX,
            row <= height,
            img@.len() == (row as int) * (width as int),
            rendered_prefix(img@, *camera, *world, width, height, samples, max_depth),
        decreases height - row,
    {
        let mut x: u32 = 0;
        while x < width
            invariant
                world.wf(),
                width >= 2,
                height >= 2,
                samples >= 1,
                (width as int) * (height as int) <= usize::MAX,
                row < height,
                x <= width,
                img@.len() == (row as int) * (width as int) + (x as int),
                rendered_prefix(img@, *camera, *world, width, height, samples, max_depth),
            decreases width - x,
        {
            proof {
                assert((row as int) * (width as int) + (x as int) < (width as int) * (
                height as int)) by (nonlinear_arith)
                    requires
                        0 <= row < height && 0 <= x < width,
                ;
            }
            let ghost snap = img@;
            let c = render_pixel(camera, world, x, height - 1 - row, width, height, samples, max_depth);
            img.push(c);
            proof {
                assert forall|x2: u32, y2: u32|
                    x2 < width && y2 < height && (height - 1 - y2) * (width as int) + x2
                        < img@.len() implies pixel_estimate(
                    *camera,
                    *world,
                    x2,
                    y2,
                    width,
                    height,
                    samples,
                    max_depth,
                    #[trigger] img@[(height - 1 - y2) * (width as int) + x2],
                ) by {
                    let idx2 = (height - 1 - y2) * (width as int) + x2;
                    if idx2 < snap.len() {
                        assert(img@[idx2] == snap[idx2]);
                        assert(pixel_estimate(
                            *camera,
                            *world,
                            x2,
                            y2,
                            width,
                            height,
                            samples,
                            max_depth,
                            snap[idx2],
                        ));
                    } else {
                        assert(height - 1 - y2 == row && x2 == x) by (nonlinear_arith)
                            requires
                                (height - 1 - y2) * (width as int) + x2 == (row as int) * (
                                width as int) + (x as int) && 0 <= x2 < width && 0 <= x < width
                                    && 0 <= height - 1 - y2 && 0 <= row,
                        ;
                        assert(y2 == height - 1 - row);
                        assert(img@[idx2] == c);
                    }
                }
            }
            x = x + 1;
        }
        proof {
            assert((row as int) * (width as int) + (width as int) == ((row + 1) as int) * (
            width as int)) by (nonlinear_arith);
        }
        row = row + 1;
    }
    proof {
        assert((height as int) * (width as int) == (width as int) * (height as int))
            by (nonlinear_arith);
        assert forall|x: u32, y: u32| x < width && y < height implies pixel_estimate(
            *camera,
            *world,
            x,
            y,
            width,
            height,
            samples,
            max_depth,
            #[trigger] img@[(height - 1 - y) * (width as int) + x],
        ) by {
            assert((height - 1 - y) * (width as int) + x < (width as int) * (
            height as int)) by (nonlinear_arith)
                requires
                    0 <= x < width && 0 <= y < height,
            ;
        }
    }
    img
}

} // verus!
