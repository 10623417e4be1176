use pathtracer::camera::Camera;
use pathtracer::camera::FixedCamera;
use pathtracer::fixed::Fixed;
use pathtracer::material::Dielectric;
use pathtracer::material::Diffuse;
use pathtracer::material::Material;
use pathtracer::material::Metal;
use pathtracer::material::SurfaceMaterial;
use pathtracer::render::pixel_index;
use pathtracer::render::ray_color;
use pathtracer::render::render;
use pathtracer::render::RAY_T_MIN;
use pathtracer::rt::Ray;
use pathtracer::rt::World;
use pathtracer::shape::Bounds;
use pathtracer::shape::RayContact;
use pathtracer::shape::Shape;
use pathtracer::shape::Sphere;
use pathtracer::vec3::Vec3;

fn fx(raw: i64) -> Fixed {
    Fixed { raw }
}

fn v3(x: i64, y: i64, z: i64) -> Vec3 {
    Vec3 { x: fx(x), y: fx(y), z: fx(z) }
}

const ONE: i64 = 65536;

fn gray() -> SurfaceMaterial {
    SurfaceMaterial::Diffuse(Diffuse { color: v3(ONE / 2, ONE / 2, ONE / 2) })
}

fn full_bounds() -> Bounds {
    Bounds { min: fx(RAY_T_MIN), max: fx(i64::MAX) }
}

#[test]
fn bounds_are_half_open() {
    let b = Bounds { min: fx(RAY_T_MIN), max: fx(2 * ONE) };
    assert!(b.contains(fx(RAY_T_MIN)));
    assert!(b.contains(fx(ONE)));
    assert!(!b.contains(fx(2 * ONE)));
    assert!(!b.contains(fx(0)));
}

#[test]
fn world_insert_keeps_every_shape() {
    let mut world = World::new();
    assert_eq!(world.shapes.len(), 0);
    world.insert(Sphere::new(v3(0, 0, 0), fx(ONE), gray()));
    world.insert(Sphere::new(Vec3::zero(), fx(2 * ONE), gray()));
    assert_eq!(world.shapes.len(), 2);
    assert_eq!(world.shapes[1].radius.raw, 2 * ONE);
}

#[test]
fn ray_evaluation() {
    let r = Ray::new(v3(ONE, 2 * ONE, 3 * ONE), v3(ONE, 0, 0));
    assert_eq!(r.at(fx(2 * ONE)), v3(3 * ONE, 2 * ONE, 3 * ONE));
    let n = Ray::new(v3(0, 0, 0), v3(0, 0, -3 * ONE)).normalize();
    assert_eq!(n.direction, v3(0, 0, -ONE));
}

#[test]
fn sphere_center_ray_hits_near_root() {
    // center 5 ahead, radius 1: the contact is at t = 5 - 1 = 4
    let s = Sphere::new(v3(0, 0, -5 * ONE), fx(ONE), gray());
    let ray = Ray::new(v3(0, 0, 0), v3(0, 0, -ONE));
    let c = s.hit(ray, full_bounds()).unwrap();
    assert_eq!(c.t.raw, 4 * ONE);
    assert_eq!(c.point, v3(0, 0, -4 * ONE));
    assert_eq!(c.normal, v3(0, 0, ONE));
    assert!(c.front_face);
}

#[test]
fn sphere_center_ray_far_root_from_inside() {
    // from the center both roots are -r and +r; only +r is in bounds
    let s = Sphere::new(v3(0, 0, 0), fx(ONE), gray());
    let ray = Ray::new(v3(0, 0, 0), v3(0, 0, -ONE));
    let c = s.hit(ray, full_bounds()).unwrap();
    assert_eq!(c.t.raw, ONE);
    assert!(!c.front_face);
    assert_eq!(c.normal, v3(0, 0, ONE));
}

#[test]
fn sphere_miss_is_none() {
    let s = Sphere::new(v3(0, 0, -5 * ONE), fx(ONE), gray());
    let ray = Ray::new(v3(0, 0, 0), v3(0, ONE, 0));
    assert!(s.hit(ray, full_bounds()).is_none());
}

#[test]
fn sphere_roots_outside_bounds_are_none() {
    // roots at 4 and 6, but the interval ends at 2: no contact, even
    // though a mathematically earlier root exists outside it
    let s = Sphere::new(v3(0, 0, -5 * ONE), fx(ONE), gray());
    let ray = Ray::new(v3(0, 0, 0), v3(0, 0, -ONE));
    let narrow = Bounds { min: fx(RAY_T_MIN), max: fx(2 * ONE) };
    assert!(s.hit(ray, narrow).is_none());
}

#[test]
fn world_returns_globally_nearest_contact() {
    let mut world = World::new();
    world.insert(Sphere::new(v3(0, 0, -5 * ONE), fx(ONE), gray()));
    world.insert(Sphere::new(
        v3(0, 0, -3 * ONE),
        fx(ONE),
        SurfaceMaterial::Metal(Metal { color: v3(ONE, ONE, ONE), fuzz: fx(0) }),
    ));
    let ray = Ray::new(v3(0, 0, 0), v3(0, 0, -ONE));
    let c = world.hit(ray, full_bounds()).unwrap();
    assert_eq!(c.t.raw, 2 * ONE);
    assert!(matches!(c.material, SurfaceMaterial::Metal(_)));
}

#[test]
fn world_tie_keeps_first_inserted() {
    let mut world = World::new();
    world.insert(Sphere::new(v3(0, 0, -5 * ONE), fx(ONE), gray()));
    world.insert(Sphere::new(
        v3(0, 0, -5 * ONE),
        fx(ONE),
        SurfaceMaterial::Dielectric(Dielectric { refraction_index: fx(98304) }),
    ));
    let ray = Ray::new(v3(0, 0, 0), v3(0, 0, -ONE));
    let c = world.hit(ray, full_bounds()).unwrap();
    assert!(matches!(c.material, SurfaceMaterial::Diffuse(_)));
}

#[test]
fn world_empty_returns_none() {
    let world = World::new();
    let ray = Ray::new(v3(0, 0, 0), v3(0, 0, -ONE));
    assert!(world.hit(ray, full_bounds()).is_none());
}

fn contact_at(point: Vec3, normal: Vec3, material: SurfaceMaterial) -> RayContact {
    RayContact { t: fx(ONE), point, normal, front_face: true, material }
}

#[test]
fn diffuse_scatter_starts_at_contact_point() {
    let color = v3(ONE / 2, ONE / 4, ONE / 8);
    let m = Diffuse { color };
    let contact = contact_at(v3(ONE, 2 * ONE, 3 * ONE), v3(0, ONE, 0), gray());
    let ray = Ray::new(v3(0, 0, 0), v3(0, -ONE, 0));
    for _ in 0..100 {
        let sc = m.scatter(ray, &contact).unwrap();
        assert_eq!(sc.ray.origin, contact.point);
        assert_eq!(sc.attenuation, color);
    }
}

#[test]
fn diffuse_from_color() {
    let color = v3(ONE, 0, ONE / 2);
    assert_eq!(Diffuse::from(color).color, color);
}

#[test]
fn metal_zero_fuzz_reflects_exactly() {
    let color = v3(ONE, ONE, ONE);
    let m = Metal { color, fuzz: fx(0) };
    let contact = contact_at(v3(0, 0, -4 * ONE), v3(0, 0, ONE), gray());
    let ray = Ray::new(v3(0, 0, 0), v3(0, 0, -ONE));
    let sc = m.scatter(ray, &contact).unwrap();
    assert_eq!(sc.ray.origin, contact.point);
    assert_eq!(sc.ray.direction, v3(0, 0, ONE));
    assert_eq!(sc.attenuation, color);
}

#[test]
fn metal_absorbs_below_horizon() {
    // the reflection points into the surface: the ray is absorbed
    let m = Metal { color: v3(ONE, ONE, ONE), fuzz: fx(0) };
    let contact = contact_at(v3(0, 0, -4 * ONE), v3(0, 0, ONE), gray());
    let ray = Ray::new(v3(0, 0, -8 * ONE), v3(0, 0, ONE));
    assert!(m.scatter(ray, &contact).is_none());
}

#[test]
fn dielectric_scatter_is_energy_conserving() {
    let m = Dielectric { refraction_index: fx(98304) };
    let contact = contact_at(v3(0, 0, -4 * ONE), v3(0, 0, ONE), gray());
    let ray = Ray::new(v3(0, 0, 0), v3(0, 0, -ONE));
    for _ in 0..100 {
        let sc = m.scatter(ray, &contact).unwrap();
        assert_eq!(sc.ray.origin, contact.point);
        // attenuation is always exactly white
        assert_eq!(sc.attenuation, v3(ONE, ONE, ONE));
    }
}

#[test]
fn radiance_depth_zero_is_black() {
    let mut world = World::new();
    world.insert(Sphere::new(v3(0, 0, -5 * ONE), fx(ONE), gray()));
    let ray = Ray::new(v3(0, 0, 0), v3(0, 0, -ONE));
    assert_eq!(ray_color(ray, &world, 0), v3(0, 0, 0));
}

#[test]
fn mirror_bounce_multiplies_attenuation() {
    // a fuzz-free mirror straight ahead: the ray reflects exactly back
    // along +z, misses everything, and picks up the horizon-background
    // blend scaled by the mirror's color
    let half = v3(ONE / 2, ONE / 2, ONE / 2);
    let mut world = World::new();
    world.insert(Sphere::new(
        v3(0, 0, -5 * ONE),
        fx(ONE),
        SurfaceMaterial::Metal(Metal { color: half, fuzz: fx(0) }),
    ));
    let ray = Ray::new(v3(0, 0, 0), v3(0, 0, -ONE));
    // the horizon background (unit y = 0) is white/2 + sky/2
    let lit = ray_color(ray, &world, 8);
    assert_eq!(lit, v3(24576, 27852, 32768));
}

#[test]
fn radiance_background_endpoints() {
    let world = World::new();
    let up = Ray::new(v3(0, 0, 0), v3(0, ONE, 0));
    // straight up: exactly the sky color
    assert_eq!(ray_color(up, &world, 8), v3(ONE / 2, 45875, ONE));
    let down = Ray::new(v3(0, 0, 0), v3(0, -ONE, 0));
    // straight down: exactly white
    assert_eq!(ray_color(down, &world, 8), v3(ONE, ONE, ONE));
}

#[test]
fn ground_scene_darkens_the_sky() {
    // a sphere of radius 1000 centered at (0, -1000, 0) stands in for
    // a ground plane; a ray dropped onto it from unit height meets it
    // at the top point of the sphere
    let mut world = World::new();
    world.insert(Sphere::new(
        v3(0, -1000 * ONE, 0),
        fx(1000 * ONE),
        SurfaceMaterial::Diffuse(Diffuse { color: v3(52428, 32768, 58982) }),
    ));
    let ray = Ray::new(v3(0, ONE, 0), v3(0, -ONE, 0));
    let c = world.hit(ray, full_bounds()).unwrap();
    assert_eq!(c.t.raw, ONE);
    assert_eq!(c.point, v3(0, 0, 0));
    let lit = ray_color(ray, &world, 5);
    let len2 = |v: Vec3| {
        let x = v.x.raw as f64 / 65536.0;
        let y = v.y.raw as f64 / 65536.0;
        let z = v.z.raw as f64 / 65536.0;
        x * x + y * y + z * z
    };
    // the background for the same direction is pure white; at least
    // one absorption-weighted bounce makes the lit color darker
    let empty = World::new();
    let bg = ray_color(ray, &empty, 5);
    assert_eq!(bg, v3(ONE, ONE, ONE));
    assert!(len2(lit) < len2(bg));
}

fn unit_camera() -> FixedCamera {
    FixedCamera::new(
        v3(0, 0, 0),
        v3(0, 0, -2 * ONE),
        v3(0, ONE, 0),
        fx(ONE),
        fx(ONE),
        fx(0),
        fx(ONE),
    )
}

#[test]
fn camera_basis_and_screen() {
    let cam = unit_camera();
    assert_eq!(cam.uvw.u, v3(ONE, 0, 0));
    assert_eq!(cam.uvw.v, v3(0, ONE, 0));
    assert_eq!(cam.uvw.w, v3(0, 0, ONE));
    assert_eq!(cam.lens_radius.raw, 0);
    assert_eq!(cam.screen.origin, v3(-ONE, -ONE, -ONE));
    assert_eq!(cam.screen.horizontal, v3(2 * ONE, 0, 0));
    assert_eq!(cam.screen.vertical, v3(0, 2 * ONE, 0));
}

#[test]
fn camera_center_ray_is_straight_ahead() {
    let cam = unit_camera();
    // with a closed aperture the ray is deterministic
    for _ in 0..10 {
        let r = cam.get_screen_ray(fx(ONE / 2), fx(ONE / 2));
        assert_eq!(r.origin, v3(0, 0, 0));
        assert_eq!(r.direction, v3(0, 0, -ONE));
    }
}

#[test]
fn camera_corner_ray() {
    let cam = unit_camera();
    let r = cam.get_screen_ray(fx(0), fx(0));
    assert_eq!(r.direction, v3(-ONE, -ONE, -ONE));
}

#[test]
fn render_fills_the_grid() {
    let cam = unit_camera();
    let world = World::new();
    let img = render(&cam, &world, 4, 4, 1, 3);
    assert_eq!(img.len(), 16);
}

#[test]
fn pixel_index_flips_rows() {
    assert_eq!(pixel_index(0, 0, 4, 4), 12);
    assert_eq!(pixel_index(3, 3, 4, 4), 3);
    assert_eq!(pixel_index(1, 2, 4, 4), 5);
}
