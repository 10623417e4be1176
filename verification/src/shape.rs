//! Hit-testing of rays against shapes.
//!
//! A [`Shape`] resolves a ray against itself within a parametric
//! interval and yields at most one nearest [`RayContact`]. The one
//! concrete shape is the [`Sphere`]; the scene aggregate implements the
//! same contract by folding over its members.

use vstd::prelude::*;

use crate::fixed::fadd;
use crate::fixed::fdiv;
use crate::fixed::fmul;
use crate::fixed::fneg;
use crate::fixed::fsqrt;
use crate::fixed::fsub;
use crate::fixed::iabs;
use crate::fixed::is_sqrt;
use crate::fixed::Fixed;
use crate::material::SurfaceMaterial;
use crate::rt::ray_at;
use crate::rt::Ray;
use crate::vec3::axis_unit;
use crate::vec3::fx;
use crate::vec3::vdot;
use crate::vec3::vlen;
use crate::vec3::vlen_sq;
use crate::vec3::vneg;
use crate::vec3::vnorm;
use crate::vec3::vscale;
use crate::vec3::vsub;
use crate::vec3::Vec3;

verus! {

/// A half-open parametric interval `[min, max)` of ray distances.
#[derive(Clone, Copy, PartialEq, Eq, Structural, Debug)]
pub struct Bounds {
    pub min: Fixed,
    pub max: Fixed,
}

impl Bounds {
    /// Whether `t` lies in the interval.
    pub fn contains(self, t: Fixed) -> (r: bool)
        ensures
            r == (self.min@ <= t@ < self.max@),
    {
        self.min.raw <= t.raw && t.raw < self.max.raw
    }
}

/// A ray-shape intersection record: parametric distance, world-space
/// point, outward-facing normal (always oriented against the incoming
/// ray), whether the ray arrived from outside, and the hit shape's
/// material.
#[derive(Clone, Copy, PartialEq, Eq, Structural, Debug)]
pub struct RayContact {
    pub t: Fixed,
    pub point: Vec3,
    pub normal: Vec3,
    pub front_face: bool,
    pub material: SurfaceMaterial,
}

/// The capability of resolving a ray to its nearest contact within a
/// parametric interval. `hit_spec` is the implementor's exact account
/// of that resolution, and `hit` returns precisely it.
pub trait Shape {
    spec fn hit_spec(&self, ray: Ray, t_min: int, t_max: int) -> Option<RayContact>;

    fn hit(&self, ray: Ray, bounds: Bounds) -> (r: Option<RayContact>)
        ensures
            r == self.hit_spec(ray, bounds.min@, bounds.max@),
    ;
}

/// A sphere of the given center and radius. A negative radius is
/// admitted (the surface is the same point set).
#[derive(Clone, Copy, PartialEq, Eq, Structural, Debug)]
pub struct Sphere {
    pub center: Vec3,
    pub radius: Fixed,
    pub material: SurfaceMaterial,
}

impl Sphere {
    /// Constructor.
    pub fn new(center: Vec3, radius: Fixed, material: SurfaceMaterial) -> (r: Sphere)
        ensures
            r == (Sphere { center, radius, material }),
    {
        Sphere { center, radius, material }
    }

    /// A sphere is well-formed when its material is.
    pub open spec fn wf(self) -> bool {
        self.material.wf()
    }

    /// The contact record at parametric distance `root`, or nothing
    /// when the point sits too close to the center to orient a normal
    /// at working precision (a degenerate contact yields no result).
    pub open spec fn contact_v(self, ray: Ray, root: int) -> Option<RayContact> {
        let point = ray_at(ray, root);
        let away = vsub(point, self.center);
        if vlen(away) < 1 {
            None
        } else {
            let outward = vnorm(away);
            let front_face = vdot(ray.direction, outward) < 0;
            Some(
                RayContact {
                    t: fx(root),
                    point,
                    normal: if front_face {
                        outward
                    } else {
                        vneg(outward)
                    },
                    front_face,
                    material: self.material,
                },
            )
        }
    }

    /// The nearest root of the ray-sphere quadratic
    /// `a t^2 + 2 half_b t + c = 0` that lies within `[t_min, t_max)`,
    /// as the fixed-point evaluation finds it: no contact when the
    /// discriminant is negative or the direction vanishes at working
    /// precision; otherwise the smaller root, or the larger root only
    /// when the smaller lies outside the interval.
    #[verifier::opaque]
    pub open spec fn sphere_hit_v(self, ray: Ray, t_min: int, t_max: int) -> Option<RayContact> {
        let otc = vsub(ray.origin, self.center);
        let a = vlen_sq(ray.direction);
        let half_b = vdot(otc, ray.direction);
        let c = fsub(vlen_sq(otc), fmul(self.radius@, self.radius@));
        let disc = fsub(fmul(half_b, half_b), fmul(a, c));
        if disc < 0 {
            None
        } else if a == 0 {
            None
        } else {
            let sqrtd = fsqrt(disc);
            let root1 = fdiv(fsub(fneg(half_b), sqrtd), a);
            if t_min <= root1 < t_max {
                self.contact_v(ray, root1)
            } else {
                let root2 = fdiv(fadd(fneg(half_b), sqrtd), a);
                if t_min <= root2 < t_max {
                    self.contact_v(ray, root2)
                } else {
                    None
                }
            }
        }
    }

    /// Build the contact for an in-bounds root.
    fn make_contact(&self, ray: Ray, root: Fixed) -> (r: Option<RayContact>)
        ensures
            r == self.contact_v(ray, root@),
    {
        let point = ray.at(root);
        let away = point.sub(self.center);
        let len = away.length();
        if len.raw < 1 {
            None
        } else {
            let outward = away.normalize();
            let front_face = ray.direction.dot(outward).raw < 0;
            Some(
                RayContact {
                    t: root,
                    point,
                    normal: if front_face {
                        outward
                    } else {
                        outward.neg()
                    },
                    front_face,
                    material: self.material,
                },
            )
        }
    }
}

/// The fixed-point discriminant of the ray-sphere quadratic, as the
/// evaluation computes it.
pub open spec fn discriminant_v(s: Sphere, ray: Ray) -> int {
    let otc = vsub(ray.origin, s.center);
    let a = vlen_sq(ray.direction);
    let half_b = vdot(otc, ray.direction);
    let c = fsub(vlen_sq(otc), fmul(s.radius@, s.radius@));
    fsub(fmul(half_b, half_b), fmul(a, c))
}

/// A negative discriminant means the ray misses the sphere entirely:
/// no contact, whatever the interval.
pub proof fn lemma_sphere_miss(s: Sphere, ray: Ray, t_min: int, t_max: int)
    requires
        discriminant_v(s, ray) < 0,
    ensures
        s.sphere_hit_v(ray, t_min, t_max) is None,
{
    reveal(Sphere::sphere_hit_v);
}

/// A radius on the 2^-8 grid squares exactly onto the 2^-16 grid.
proof fn lemma_radius_square(r: int)
    requires
        256 <= r <= 0x100000000,
        r % 256 == 0,
    ensures
        fmul(r, r) == (r / 256) * (r / 256),
        fmul(r, r) * 65536 == r * r,
        1 <= fmul(r, r) <= 0x1000000000000,
{
    let m = r / 256;
    vstd::arithmetic::div_mod::lemma_fundamental_div_mod(r, 256);
    assert(r == 256 * m);
    assert(r * r == 65536 * (m * m)) by (nonlinear_arith)
        requires
            r == 256 * m,
    ;
    vstd::arithmetic::div_mod::lemma_div_multiples_vanish(m * m, 65536);
    assert(1 <= m <= 0x1000000);
    assert(1 <= m * m <= 0x1000000000000) by (nonlinear_arith)
        requires
            1 <= m <= 0x1000000,
    ;
    assert(fmul(r, r) == m * m);
}

/// Core of the center-ray law, stated over the already-evaluated
/// fixed-point quantities so that it holds for any axis: with a unit
/// direction, a center at raw distance `d` straight ahead, and an
/// exactly-squaring radius, the quadratic's roots evaluate to exactly
/// `d - r` and `d + r`.
proof fn lemma_center_ray_core(s: Sphere, ray: Ray, d: int, t_min: int, t_max: int)
    requires
        0 < d <= 0x100000000,
        256 <= s.radius@ <= 0x100000000,
        s.radius@ % 256 == 0,
        vlen_sq(ray.direction) == 65536,
        vdot(vsub(ray.origin, s.center), ray.direction) == -d,
        vlen_sq(vsub(ray.origin, s.center)) == fmul(d, d),
        vlen_sq(vsub(ray_at(ray, d - s.radius@), s.center)) == fmul(s.radius@, s.radius@),
        vlen_sq(vsub(ray_at(ray, d + s.radius@), s.center)) == fmul(s.radius@, s.radius@),
    ensures
        ({
            let r = s.radius@;
            let hit = s.sphere_hit_v(ray, t_min, t_max);
            &&& (t_min <= d - r < t_max ==> match hit {
                Some(c) => c.t@ == d - r,
                None => false,
            })
            &&& (!(t_min <= d - r < t_max) && (t_min <= d + r < t_max) ==> match hit {
                Some(c) => c.t@ == d + r,
                None => false,
            })
            &&& (!(t_min <= d - r < t_max) && !(t_min <= d + r < t_max) ==> hit is None)
        }),
{
    reveal(Sphere::sphere_hit_v);
    let r = s.radius@;
    lemma_radius_square(r);
    let qr = fmul(r, r);
    assert(d * d == (-d) * (-d)) by (nonlinear_arith);
    assert(0 <= d * d <= 0x10000000000000000) by (nonlinear_arith)
        requires
            0 < d <= 0x100000000,
    ;
    assert(iabs(d * d) / iabs(65536) <= 0x1000000000000) by (nonlinear_arith)
        requires
            0 <= d * d <= 0x10000000000000000,
    ;
    let qd = fmul(d, d);
    assert(0 <= qd <= 0x1000000000000);
    assert(fmul(-d, -d) == qd);
    let c = fsub(qd, qr);
    assert(c == qd - qr);
    crate::fixed::lemma_fmul_unit(65536, c);
    assert(fsub(fmul(-d, -d), fmul(65536, c)) == qr);
    assert(qr * 65536 == r * r);
    assert(is_sqrt(r * r, r)) by (nonlinear_arith)
        requires
            0 < r,
    ;
    crate::fixed::lemma_isqrt_unique(r * r, r);
    assert(fsqrt(qr) == r);
    crate::fixed::lemma_fdiv_one(d - r);
    crate::fixed::lemma_fdiv_one(d + r);
    assert(fdiv(fsub(fneg(-d), r), 65536) == d - r);
    assert(fdiv(fadd(fneg(-d), r), 65536) == d + r);
    if t_min <= d - r < t_max {
        let away = vsub(ray_at(ray, d - r), s.center);
        assert(vlen(away) == r);
    } else if t_min <= d + r < t_max {
        let away = vsub(ray_at(ray, d + r), s.center);
        assert(vlen(away) == r);
    }
}

/// The parametric distances at which an axis-aligned ray through a
/// sphere's center meets the surface are exactly `d - radius` and
/// `d + radius`, where `d` is the raw distance from the ray origin to
/// the center: the nearer one is reported when the interval admits it,
/// else the farther one, else nothing. The radius must sit on the
/// 2^-8 grid so that its square is exact; the magnitude bounds keep
/// every step of the evaluation away from saturation.
pub proof fn lemma_sphere_center_ray(s: Sphere, ray: Ray, d: int, t_min: int, t_max: int)
    requires
        axis_unit(ray.direction),
        vsub(ray.origin, s.center) == vscale(ray.direction, -d),
        0 < d <= 0x100000000,
        256 <= s.radius@ <= 0x100000000,
        s.radius@ % 256 == 0,
        iabs(ray.origin.x@) <= 0x400000000000,
        iabs(ray.origin.y@) <= 0x400000000000,
        iabs(ray.origin.z@) <= 0x400000000000,
        iabs(s.center.x@) <= 0x400000000000,
        iabs(s.center.y@) <= 0x400000000000,
        iabs(s.center.z@) <= 0x400000000000,
    ensures
        ({
            let r = s.radius@;
            let hit = s.sphere_hit_v(ray, t_min, t_max);
            &&& (t_min <= d - r < t_max ==> match hit {
                Some(c) => c.t@ == d - r,
                None => false,
            })
            &&& (!(t_min <= d - r < t_max) && (t_min <= d + r < t_max) ==> match hit {
                Some(c) => c.t@ == d + r,
                None => false,
            })
            &&& (!(t_min <= d - r < t_max) && !(t_min <= d + r < t_max) ==> hit is None)
        }),
{
    let r = s.radius@;
    let otc = vsub(ray.origin, s.center);
    lemma_radius_square(r);
    let qr = fmul(r, r);
    assert(d * d == (-d) * (-d)) by (nonlinear_arith);
    crate::fixed::lemma_fmul_zero(-d);
    crate::fixed::lemma_fmul_zero(0);
    crate::fixed::lemma_fmul_zero(d - r);
    crate::fixed::lemma_fmul_zero(d + r);
    if iabs(ray.direction.x@) == 65536 && ray.direction.y@ == 0 && ray.direction.z@ == 0 {
        let sd = ray.direction.x@;
        let sgn: int = if sd > 0 { 1int } else { -1int };
        crate::fixed::lemma_fmul_unit(sd, -d);
        assert(otc.x@ == -sgn * d && otc.y@ == 0 && otc.z@ == 0);
        crate::fixed::lemma_fmul_unit(sd, sd);
        assert(vlen_sq(ray.direction) == 65536);
        crate::fixed::lemma_fmul_unit(sd, otc.x@);
        assert(vdot(otc, ray.direction) == -d);
        assert(otc.x@ * otc.x@ == d * d) by (nonlinear_arith)
            requires
                otc.x@ == -sgn * d && (sgn == 1 || sgn == -1),
        ;
        assert(vlen_sq(otc) == fmul(d, d));
        crate::fixed::lemma_fmul_unit(sd, d - r);
        crate::fixed::lemma_fmul_unit(sd, d + r);
        let p1 = ray_at(ray, d - r);
        assert(p1.x@ == ray.origin.x@ + sgn * (d - r) && p1.y@ == ray.origin.y@ && p1.z@
            == ray.origin.z@);
        let a1 = vsub(p1, s.center);
        assert(a1.x@ == -sgn * r && a1.y@ == 0 && a1.z@ == 0) by {
            assert(ray.origin.x@ - s.center.x@ == -sgn * d);
        }
        assert(a1.x@ * a1.x@ == r * r) by (nonlinear_arith)
            requires
                a1.x@ == -sgn * r && (sgn == 1 || sgn == -1),
        ;
        assert(vlen_sq(a1) == qr);
        let p2 = ray_at(ray, d + r);
        assert(p2.x@ == ray.origin.x@ + sgn * (d + r) && p2.y@ == ray.origin.y@ && p2.z@
            == ray.origin.z@);
        let a2 = vsub(p2, s.center);
        assert(a2.x@ == sgn * r && a2.y@ == 0 && a2.z@ == 0) by {
            assert(ray.origin.x@ - s.center.x@ == -sgn * d);
        }
        assert(a2.x@ * a2.x@ == r * r) by (nonlinear_arith)
            requires
                a2.x@ == sgn * r && (sgn == 1 || sgn == -1),
        ;
        assert(vlen_sq(a2) == qr);
        lemma_center_ray_core(s, ray, d, t_min, t_max);
    } else if ray.direction.x@ == 0 && iabs(ray.direction.y@) == 65536 && ray.direction.z@ == 0 {
        let sd = ray.direction.y@;
        let sgn: int = if sd > 0 { 1int } else { -1int };
        crate::fixed::lemma_fmul_unit(sd, -d);
        assert(otc.y@ == -sgn * d && otc.x@ == 0 && otc.z@ == 0);
        crate::fixed::lemma_fmul_unit(sd, sd);
        assert(vlen_sq(ray.direction) == 65536);
        crate::fixed::lemma_fmul_unit(sd, otc.y@);
        assert(vdot(otc, ray.direction) == -d);
        assert(otc.y@ * otc.y@ == d * d) by (nonlinear_arith)
            requires
                otc.y@ == -sgn * d && (sgn == 1 || sgn == -1),
        ;
        assert(vlen_sq(otc) == fmul(d, d));
        crate::fixed::lemma_fmul_unit(sd, d - r);
        crate::fixed::lemma_fmul_unit(sd, d + r);
        let p1 = ray_at(ray, d - r);
        assert(p1.y@ == ray.origin.y@ + sgn * (d - r) && p1.x@ == ray.origin.x@ && p1.z@
            == ray.origin.z@);
        let a1 = vsub(p1, s.center);
        assert(a1.y@ == -sgn * r && a1.x@ == 0 && a1.z@ == 0) by {
            assert(ray.origin.y@ - s.center.y@ == -sgn * d);
        }
        assert(a1.y@ * a1.y@ == r * r) by (nonlinear_arith)
            requires
                a1.y@ == -sgn * r && (sgn == 1 || sgn == -1),
        ;
        assert(vlen_sq(a1) == qr);
        let p2 = ray_at(ray, d + r);
        assert(p2.y@ == ray.origin.y@ + sgn * (d + r) && p2.x@ == ray.origin.x@ && p2.z@
            == ray.origin.z@);
        let a2 = vsub(p2, s.center);
        assert(a2.y@ == sgn * r && a2.x@ == 0 && a2.z@ == 0) by {
            assert(ray.origin.y@ - s.center.y@ == -sgn * d);
        }
        assert(a2.y@ * a2.y@ == r * r) by (nonlinear_arith)
            requires
                a2.y@ == sgn * r && (sgn == 1 || sgn == -1),
        ;
        assert(vlen_sq(a2) == qr);
        lemma_center_ray_core(s, ray, d, t_min, t_max);
    } else {
        let sd = ray.direction.z@;
        let sgn: int = if sd > 0 { 1int } else { -1int };
        crate::fixed::lemma_fmul_unit(sd, -d);
        assert(otc.z@ == -sgn * d && otc.x@ == 0 && otc.y@ == 0);
        crate::fixed::lemma_fmul_unit(sd, sd);
        assert(vlen_sq(ray.direction) == 65536);
        crate::fixed::lemma_fmul_unit(sd, otc.z@);
        assert(vdot(otc, ray.direction) == -d);
        assert(otc.z@ * otc.z@ == d * d) by (nonlinear_arith)
            requires
                otc.z@ == -sgn * d && (sgn == 1 || sgn == -1),
        ;
        assert(vlen_sq(otc) == fmul(d, d));
        crate::fixed::lemma_fmul_unit(sd, d - r);
        crate::fixed::lemma_fmul_unit(sd, d + r);
        let p1 = ray_at(ray, d - r);
        assert(p1.z@ == ray.origin.z@ + sgn * (d - r) && p1.x@ == ray.origin.x@ && p1.y@
            == ray.origin.y@);
        let a1 = vsub(p1, s.center);
        assert(a1.z@ == -sgn * r && a1.x@ == 0 && a1.y@ == 0) by {
            assert(ray.origin.z@ - s.center.z@ == -sgn * d);
        }
        assert(a1.z@ * a1.z@ == r * r) by (nonlinear_arith)
            requires
                a1.z@ == -sgn * r && (sgn == 1 || sgn == -1),
        ;
        assert(vlen_sq(a1) == qr);
        let p2 = ray_at(ray, d + r);
        assert(p2.z@ == ray.origin.z@ + sgn * (d + r) && p2.x@ == ray.origin.x@ && p2.y@
            == ray.origin.y@);
        let a2 = vsub(p2, s.center);
        assert(a2.z@ == sgn * r && a2.x@ == 0 && a2.y@ == 0) by {
            assert(ray.origin.z@ - s.center.z@ == -sgn * d);
        }
        assert(a2.z@ * a2.z@ == r * r) by (nonlinear_arith)
            requires
                a2.z@ == sgn * r && (sgn == 1 || sgn == -1),
        ;
        assert(vlen_sq(a2) == qr);
        lemma_center_ray_core(s, ray, d, t_min, t_max);
    }
}

/// Whatever contact a sphere yields carries that sphere's material.
pub proof fn lemma_hit_material(s: Sphere, ray: Ray, t_min: int, t_max: int)
    ensures
        match s.sphere_hit_v(ray, t_min, t_max) {
            Some(c) => c.material == s.material,
            None => true,
        },
{
    reveal(Sphere::sphere_hit_v);
}

impl Shape for Sphere {
    open spec fn hit_spec(&self, ray: Ray, t_min: int, t_max: int) -> Option<RayContact> {
        self.sphere_hit_v(ray, t_min, t_max)
    }

    fn hit(&self, ray: Ray, bounds: Bounds) -> (r: Option<RayContact>) {
        let otc = ray.origin.sub(self.center);
        let a = ray.direction.length_squared();
        let half_b = otc.dot(ray.direction);
        let c = otc.length_squared().sub(self.radius.mul(self.radius));
        let disc = half_b.mul(half_b).sub(a.mul(c));
        proof {
            reveal(Sphere::sphere_hit_v);
            assert(self.hit_spec(ray, bounds.min@, bounds.max@) == self.sphere_hit_v(
                ray,
                bounds.min@,
                bounds.max@,
            ));
            assert(otc == vsub(ray.origin, self.center));
            assert(a@ == vlen_sq(ray.direction));
            assert(half_b@ == vdot(vsub(ray.origin, self.center), ray.direction));
            assert(c@ == fsub(
                vlen_sq(vsub(ray.origin, self.center)),
                fmul(self.radius@, self.radius@),
            ));
            assert(disc@ == fsub(fmul(half_b@, half_b@), fmul(a@, c@)));
        }
        if disc.raw < 0 {
            proof {
                assert(self.sphere_hit_v(ray, bounds.min@, bounds.max@) is None);
            }
            None
        } else if a.raw == 0 {
            proof {
                assert(self.sphere_hit_v(ray, bounds.min@, bounds.max@) is None);
            }
            None
        } else {
            let sqrtd = disc.sqrt();
            let root1 = half_b.neg().sub(sqrtd).div(a);
            proof {
                assert(root1@ == fdiv(fsub(fneg(half_b@), fsqrt(disc@)), a@));
            }
            if bounds.contains(root1) {
                proof {
                    assert(self.sphere_hit_v(ray, bounds.min@, bounds.max@) == self.contact_v(
                        ray,
                        root1@,
                    ));
                }
                self.make_contact(ray, root1)
            } else {
                let root2 = half_b.neg().add(sqrtd).div(a);
                proof {
                    assert(root2@ == fdiv(fadd(fneg(half_b@), fsqrt(disc@)), a@));
                }
                if bounds.contains(root2) {
                    proof {
                        assert(self.sphere_hit_v(ray, bounds.min@, bounds.max@) == self.contact_v(
                            ray,
                            root2@,
                        ));
                    }
                    self.make_contact(ray, root2)
                } else {
                    proof {
                        assert(self.sphere_hit_v(ray, bounds.min@, bounds.max@) is None);
                    }
                    None
                }
            }
        }
    }
}

} // verus!
