//! Random sampling of directions and offsets.
//!
//! The only source of randomness is a uniform 16-bit draw from the
//! thread-local generator; everything built on top of it is verified.
//! Each sampler is stateless, and its contract says of the result
//! exactly what holds for every possible draw.

use vstd::prelude::*;

use crate::fixed::iabs;
use crate::fixed::Fixed;
use crate::vec3::vdot;
use crate::vec3::vlen;
use crate::vec3::vlen_sq;
use crate::vec3::vneg;
use crate::vec3::vnorm;
use crate::vec3::vscale;
use crate::vec3::Vec3;

verus! {

/// Relies on rand::random::<u16>: one uniform draw from the
/// thread-local generator. Nothing is assumed of the value beyond its
/// type's range.
#[verifier::external_body]
fn random_u16() -> u16 {
    rand::random::<u16>()
}

/// A vector whose components each came from one draw mapped to
/// [-1, 1) by `2 u - 1`.
pub open spec fn cube_sample(v: Vec3) -> bool {
    &&& -65536 <= v.x@ <= 65534
    &&& -65536 <= v.y@ <= 65534
    &&& -65536 <= v.z@ <= 65534
}

/// The result of normalizing a cube sample that was long enough to
/// keep its direction at working precision.
pub open spec fn unit_sample(r: Vec3) -> bool {
    exists|v: Vec3| cube_sample(v) && vlen_sq(v) >= 16384 && r == vnorm(v)
}

/// A unit sample scaled by a uniform factor in [0, 1): a point inside
/// the unit sphere whose magnitude is uniform.
pub open spec fn sphere_sample(r: Vec3) -> bool {
    exists|d: Vec3, s: int| unit_sample(d) && 0 <= s < 65536 && r == vscale(d, s)
}

/// A sphere sample kept as drawn if it leaves the surface on the side
/// of `normal`, and negated otherwise.
pub open spec fn hemisphere_sample(r: Vec3, normal: Vec3) -> bool {
    exists|s: Vec3|
        sphere_sample(s) && ((vdot(s, normal) > 0 && r == s) || (vdot(s, normal) <= 0 && r == vneg(
            s,
        )))
}

/// One normalized component is near the unit interval: with the
/// rejection floor, the normalizing magnitude is at least 0.5 and
/// never smaller than the component's own magnitude by more than one
/// raw unit, so the quotient exceeds 1.0 by at most two raw units.
proof fn lemma_unit_comp(c: int, ls: int, len: int)
    requires
        -65536 <= c <= 65534,
        16384 <= ls,
        crate::fixed::fmul(c, c) <= ls,
        crate::fixed::is_sqrt(ls * 65536, len),
    ensures
        iabs(crate::fixed::fdiv(c, len)) <= 65538,
{
    let a = iabs(c);
    assert(a == c || a == -c);
    assert(c * c == a * a) by (nonlinear_arith)
        requires
            a == c || a == -c,
    ;
    assert(len >= 32768) by (nonlinear_arith)
        requires
            16384 <= ls && 0 <= len && ls * 65536 < (len + 1) * (len + 1),
    ;
    crate::fixed::lemma_tdiv_bound(c * 65536, len);
    let m = iabs(c * 65536);
    assert(c * 65536 == a * 65536 || c * 65536 == -(a * 65536)) by (nonlinear_arith)
        requires
            a == c || a == -c,
    ;
    assert(m == a * 65536);
    if a <= 32768 {
        assert(m <= 65538 * len) by (nonlinear_arith)
            requires
                m == a * 65536 && 0 <= a <= 32768 && len >= 32768,
        ;
    } else {
        assert(c * c >= 0) by (nonlinear_arith);
        let q = (c * c) / 65536;
        assert(crate::fixed::tdiv(c * c, 65536) == q);
        crate::fixed::lemma_tdiv_bound(c * c, 65536);
        assert(iabs(crate::fixed::tdiv(c * c, 65536)) <= iabs(c * c));
        assert(q >= 0) by (nonlinear_arith)
            requires
                c * c >= 0 && q == (c * c) / 65536,
        ;
        assert(a * a <= 4294967296) by (nonlinear_arith)
            requires
                0 <= a <= 65536,
        ;
        assert(q <= 4294967296);
        assert(crate::fixed::fmul(c, c) == q);
        vstd::arithmetic::div_mod::lemma_fundamental_div_mod(c * c, 65536);
        assert(a * a < 65536 * q + 65536) by (nonlinear_arith)
            requires
                a * a == c * c && c * c == 65536 * ((c * c) / 65536) + (c * c) % 65536 && 0 <= (c
                    * c) % 65536 < 65536 && q == (c * c) / 65536,
        ;
        assert(a * a < ls * 65536 + 65536) by (nonlinear_arith)
            requires
                a * a < 65536 * q + 65536 && q <= ls,
        ;
        assert((a - 1) * (a - 1) < (len + 1) * (len + 1)) by (nonlinear_arith)
            requires
                a * a < ls * 65536 + 65536 && ls * 65536 < (len + 1) * (len + 1) && a >= 32769,
        ;
        assert(len >= a - 1) by (nonlinear_arith)
            requires
                (a - 1) * (a - 1) < (len + 1) * (len + 1) && a >= 1 && len >= 0,
        ;
        assert(m <= 65538 * len) by (nonlinear_arith)
            requires
                m == a * 65536 && len >= a - 1 && len >= 32768,
        ;
    }
    assert(m / len <= 65538) by (nonlinear_arith)
        requires
            0 <= m <= 65538 * len && len >= 1,
    ;
}

/// A unit sample's components stay within two raw units of the unit
/// interval: the statable fixed-point form of "the sampled direction
/// has magnitude one" (the exact unit magnitude does not survive
/// truncation).
pub proof fn lemma_unit_sample_near_unit(r: Vec3)
    requires
        unit_sample(r),
    ensures
        iabs(r.x@) <= 65538,
        iabs(r.y@) <= 65538,
        iabs(r.z@) <= 65538,
{
    let v = choose|v: Vec3| cube_sample(v) && vlen_sq(v) >= 16384 && r == vnorm(v);
    crate::fixed::lemma_fsqrt_pos(vlen_sq(v));
    let ls = vlen_sq(v);
    let len = vlen(v);
    crate::vec3::lemma_fmul_sq_nonneg(v.x@);
    crate::vec3::lemma_fmul_sq_nonneg(v.y@);
    crate::vec3::lemma_fmul_sq_nonneg(v.z@);
    assert(crate::fixed::fmul(v.x@, v.x@) <= 65537 && crate::fixed::fmul(v.y@, v.y@) <= 65537
        && crate::fixed::fmul(v.z@, v.z@) <= 65537) by {
        lemma_cube_comp_sq(v.x@);
        lemma_cube_comp_sq(v.y@);
        lemma_cube_comp_sq(v.z@);
    }
    lemma_unit_comp(v.x@, ls, len);
    lemma_unit_comp(v.y@, ls, len);
    lemma_unit_comp(v.z@, ls, len);
}

/// The truncated square of a cube-sample component is at most one.
proof fn lemma_cube_comp_sq(c: int)
    requires
        -65536 <= c <= 65534,
    ensures
        crate::fixed::fmul(c, c) <= 65537,
{
    crate::fixed::lemma_tdiv_bound(c * c, 65536);
    assert(iabs(c * c) <= 65536 * 65536) by (nonlinear_arith)
        requires
            -65536 <= c <= 65534,
    ;
    assert(iabs(c * c) / 65536 <= 65536) by (nonlinear_arith)
        requires
            0 <= iabs(c * c) <= 65536 * 65536,
    ;
}

/// A sphere sample keeps the near-unit component bound: the uniform
/// scaling by a factor below one only shrinks.
pub proof fn lemma_sphere_sample_bounded(s: Vec3)
    requires
        sphere_sample(s),
    ensures
        iabs(s.x@) <= 65538,
        iabs(s.y@) <= 65538,
        iabs(s.z@) <= 65538,
{
    let (d, u) = choose|d: Vec3, u: int| unit_sample(d) && 0 <= u < 65536 && s == vscale(d, u);
    lemma_unit_sample_near_unit(d);
    lemma_scale_component(d.x@, u);
    lemma_scale_component(d.y@, u);
    lemma_scale_component(d.z@, u);
}

/// Scaling by a factor below one never grows a component.
proof fn lemma_scale_component(c: int, u: int)
    requires
        iabs(c) <= 65538,
        0 <= u < 65536,
    ensures
        iabs(crate::fixed::fmul(c, u)) <= 65538,
{
    crate::fixed::lemma_tdiv_bound(c * u, 65536);
    assert(iabs(c * u) <= 65538 * 65536) by (nonlinear_arith)
        requires
            iabs(c) <= 65538 && 0 <= u < 65536,
    ;
    assert(iabs(c * u) / 65536 <= 65538) by (nonlinear_arith)
        requires
            0 <= iabs(c * u) <= 65538 * 65536,
    ;
}

/// A hemisphere sample keeps the near-unit component bound: the
/// possible negation is exact at these magnitudes.
pub proof fn lemma_hemisphere_sample_bounded(r: Vec3, normal: Vec3)
    requires
        hemisphere_sample(r, normal),
    ensures
        iabs(r.x@) <= 65538,
        iabs(r.y@) <= 65538,
        iabs(r.z@) <= 65538,
{
    let s = choose|s: Vec3|
        sphere_sample(s) && ((vdot(s, normal) > 0 && r == s) || (vdot(s, normal) <= 0 && r == vneg(
            s,
        )));
    lemma_sphere_sample_bounded(s);
}

/// A disk sample stays in the xy plane and keeps the near-unit
/// component bound of the unit sample it came from.
pub proof fn lemma_disk_sample_bounded(r: Vec3)
    requires
        disk_sample(r),
    ensures
        r.z@ == 0,
        iabs(r.x@) <= 65538,
        iabs(r.y@) <= 65538,
{
    let d = choose|d: Vec3| unit_sample(d) && r.x == d.x && r.y == d.y;
    lemma_unit_sample_near_unit(d);
}

/// A unit sample with its z component dropped to the xy plane.
pub open spec fn disk_sample(r: Vec3) -> bool {
    &&& r.z@ == 0
    &&& exists|d: Vec3| unit_sample(d) && r.x == d.x && r.y == d.y
}

/// Uniform scalar in [0, 1).
pub fn random_uniform() -> (r: Fixed)
    ensures
        0 <= r@ < 65536,
{
    let u: u16 = random_u16();
    Fixed { raw: u as i64 }
}

/// One component of a cube sample.
fn random_signed_unit() -> (r: Fixed)
    ensures
        -65536 <= r@ <= 65534,
{
    let u: u16 = random_u16();
    Fixed { raw: 2 * (u as i64) - 65536 }
}

impl Vec3 {
    /// Vector with components randomized in [0, 1).
    pub fn random() -> (r: Vec3)
        ensures
            0 <= r.x@ < 65536,
            0 <= r.y@ < 65536,
            0 <= r.z@ < 65536,
    {
        let x: u16 = random_u16();
        let y: u16 = random_u16();
        let z: u16 = random_u16();
        Vec3 {
            x: Fixed { raw: x as i64 },
            y: Fixed { raw: y as i64 },
            z: Fixed { raw: z as i64 },
        }
    }

    /// Random unit vector: a cube sample, redrawn by rejection until
    /// its magnitude is at least one half, then normalized. After many
    /// fruitless draws (all but impossible) the x axis stands in; it
    /// too is the normalization of an admissible sample. Each component
    /// stays within two raw units of the unit interval.
    pub fn random_unit() -> (r: Vec3)
        ensures
            unit_sample(r),
            iabs(r.x@) <= 65538 && iabs(r.y@) <= 65538 && iabs(r.z@) <= 65538,
    {
        let mut i: u32 = 0;
        while i < 32
            invariant
                true,
            decreases 32 - i,
        {
            let v = Vec3 {
                x: random_signed_unit(),
                y: random_signed_unit(),
                z: random_signed_unit(),
            };
            let ls = v.length_squared();
            if ls.raw >= 16384 {
                proof {
                    crate::fixed::lemma_isqrt_exists(vlen_sq(v) * 65536);
                    assert(vlen(v) >= 1);
                }
                let u = v.normalize();
                proof {
                    assert(cube_sample(v) && vlen_sq(v) >= 16384 && u == vnorm(v));
                    lemma_unit_sample_near_unit(u);
                }
                return u;
            }
            i = i + 1;
        }
        let v = Vec3 { x: Fixed { raw: 32768 }, y: Fixed { raw: 0 }, z: Fixed { raw: 0 } };
        proof {
            vstd::arithmetic::div_mod::lemma_div_multiples_vanish(16384, 65536);
            assert(65536 * 16384 == 1073741824int);
            assert(crate::fixed::tdiv(1073741824, 65536) == 16384);
            assert(vlen_sq(v) == 16384);
            crate::fixed::lemma_isqrt_exists(vlen_sq(v) * 65536);
            assert(vlen(v) >= 1);
        }
        let u = v.normalize();
        proof {
            assert(cube_sample(v) && vlen_sq(v) >= 16384 && u == vnorm(v));
            lemma_unit_sample_near_unit(u);
        }
        u
    }

    /// Random point in the unit sphere: a random direction scaled by a
    /// uniform factor in [0, 1). Each component stays within two raw
    /// units of the unit interval.
    pub fn random_unit_sphere() -> (r: Vec3)
        ensures
            sphere_sample(r),
            iabs(r.x@) <= 65538 && iabs(r.y@) <= 65538 && iabs(r.z@) <= 65538,
    {
        let d = Vec3::random_unit();
        let u: u16 = random_u16();
        let s = Fixed { raw: u as i64 };
        let r = d.scale(s);
        proof {
            assert(unit_sample(d) && 0 <= s@ < 65536 && r == vscale(d, s@));
            lemma_sphere_sample_bounded(r);
        }
        r
    }

    /// Random point in the hemisphere on the side of the given normal:
    /// for any normal far enough from saturation, the sample's dot
    /// product with it is nonnegative, and each component stays within
    /// two raw units of the unit interval.
    pub fn random_in_hemisphere(normal: Vec3) -> (r: Vec3)
        ensures
            hemisphere_sample(r, normal),
            iabs(r.x@) <= 65538 && iabs(r.y@) <= 65538 && iabs(r.z@) <= 65538,
            iabs(normal.x@) <= 0x10000000000 && iabs(normal.y@) <= 0x10000000000 && iabs(
                normal.z@,
            ) <= 0x10000000000 ==> vdot(r, normal) >= 0,
    {
        let s = Vec3::random_unit_sphere();
        let d = s.dot(normal);
        if d.raw > 0 {
            proof {
                assert(hemisphere_sample(s, normal));
                lemma_hemisphere_sample_bounded(s, normal);
            }
            s
        } else {
            let r = s.neg();
            proof {
                lemma_sphere_sample_bounded(s);
                assert(hemisphere_sample(r, normal));
                lemma_hemisphere_sample_bounded(r, normal);
                if iabs(normal.x@) <= 0x10000000000 && iabs(normal.y@) <= 0x10000000000 && iabs(
                    normal.z@,
                ) <= 0x10000000000 {
                    crate::vec3::lemma_vdot_neg(s, normal);
                }
            }
            r
        }
    }

    /// Random point in a unit disk in the xy plane: z is exactly zero
    /// and the other components stay within two raw units of the unit
    /// interval.
    pub fn random_in_xy_unit_disk() -> (r: Vec3)
        ensures
            disk_sample(r),
            iabs(r.x@) <= 65538 && iabs(r.y@) <= 65538,
    {
        let v = Vec3::random_unit();
        let r = Vec3 { x: v.x, y: v.y, z: Fixed { raw: 0 } };
        proof {
            assert(unit_sample(v) && r.x == v.x && r.y == v.y);
            lemma_disk_sample_bounded(r);
        }
        r
    }
}

} // verus!
