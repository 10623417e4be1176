//! 3-component vectors over fixed-point scalars, used both as spatial
//! vectors and as linear RGB colors.
//!
//! Each operation returns a new value and its contract gives the exact
//! raw components through the `v*` spec functions, which mirror the
//! saturating fixed-point arithmetic of [`crate::fixed`].

use vstd::arithmetic::div_mod::lemma_fundamental_div_mod;
use vstd::arithmetic::div_mod::lemma_fundamental_div_mod_converse_mod;
use vstd::prelude::*;

use crate::fixed::clip;
use crate::fixed::fadd;
use crate::fixed::fdiv;
use crate::fixed::fmul;
use crate::fixed::fneg;
use crate::fixed::fsqrt;
use crate::fixed::fsub;
use crate::fixed::iabs;
use crate::fixed::tdiv;
use crate::fixed::Fixed;
use crate::fixed::SCALE;

verus! {

/// A vector of three fixed-point components.
#[derive(Clone, Copy, PartialEq, Eq, Structural, Debug)]
pub struct Vec3 {
    pub x: Fixed,
    pub y: Fixed,
    pub z: Fixed,
}

/// The fixed-point scalar with the given (already saturated) raw value.
pub open spec fn fx(v: int) -> Fixed {
    Fixed { raw: clip(v) as i64 }
}

/// The zero vector.
pub open spec fn vzero() -> Vec3 {
    Vec3 { x: Fixed { raw: 0 }, y: Fixed { raw: 0 }, z: Fixed { raw: 0 } }
}

/// Componentwise sum.
pub open spec fn vadd(a: Vec3, b: Vec3) -> Vec3 {
    Vec3 { x: fx(fadd(a.x@, b.x@)), y: fx(fadd(a.y@, b.y@)), z: fx(fadd(a.z@, b.z@)) }
}

/// Componentwise difference.
pub open spec fn vsub(a: Vec3, b: Vec3) -> Vec3 {
    Vec3 { x: fx(fsub(a.x@, b.x@)), y: fx(fsub(a.y@, b.y@)), z: fx(fsub(a.z@, b.z@)) }
}

/// Componentwise product.
pub open spec fn vmul(a: Vec3, b: Vec3) -> Vec3 {
    Vec3 { x: fx(fmul(a.x@, b.x@)), y: fx(fmul(a.y@, b.y@)), z: fx(fmul(a.z@, b.z@)) }
}

/// Product with a scalar of raw value `s`.
pub open spec fn vscale(a: Vec3, s: int) -> Vec3 {
    Vec3 { x: fx(fmul(a.x@, s)), y: fx(fmul(a.y@, s)), z: fx(fmul(a.z@, s)) }
}

/// Quotient by a scalar of raw value `s`.
pub open spec fn vdivs(a: Vec3, s: int) -> Vec3 {
    Vec3 { x: fx(fdiv(a.x@, s)), y: fx(fdiv(a.y@, s)), z: fx(fdiv(a.z@, s)) }
}

/// Componentwise negation.
pub open spec fn vneg(a: Vec3) -> Vec3 {
    Vec3 { x: fx(fneg(a.x@)), y: fx(fneg(a.y@)), z: fx(fneg(a.z@)) }
}

/// Raw value of the dot product, summed left to right.
pub open spec fn vdot(a: Vec3, b: Vec3) -> int {
    fadd(fadd(fmul(a.x@, b.x@), fmul(a.y@, b.y@)), fmul(a.z@, b.z@))
}

/// Cross product.
pub open spec fn vcross(a: Vec3, b: Vec3) -> Vec3 {
    Vec3 {
        x: fx(fsub(fmul(a.y@, b.z@), fmul(a.z@, b.y@))),
        y: fx(fsub(fmul(a.z@, b.x@), fmul(a.x@, b.z@))),
        z: fx(fsub(fmul(a.x@, b.y@), fmul(a.y@, b.x@))),
    }
}

/// Raw value of the squared magnitude.
pub open spec fn vlen_sq(a: Vec3) -> int {
    vdot(a, a)
}

/// Raw value of the magnitude.
pub open spec fn vlen(a: Vec3) -> int {
    fsqrt(vlen_sq(a))
}

/// The normalized vector: each component divided by the magnitude.
pub open spec fn vnorm(a: Vec3) -> Vec3 {
    vdivs(a, vlen(a))
}

/// Reflection of `v` against a surface of normal `n`:
/// `v - 2 (v . n) n`, with the doubling computed as a sum.
pub open spec fn vreflect(v: Vec3, n: Vec3) -> Vec3 {
    vsub(v, vscale(n, fadd(vdot(v, n), vdot(v, n))))
}

/// A unit vector along one coordinate axis, in either orientation.
pub open spec fn axis_unit(n: Vec3) -> bool {
    ||| (iabs(n.x@) == 65536 && n.y@ == 0 && n.z@ == 0)
    ||| (n.x@ == 0 && iabs(n.y@) == 65536 && n.z@ == 0)
    ||| (n.x@ == 0 && n.y@ == 0 && iabs(n.z@) == 65536)
}

/// Reflecting a vector orthogonal to the normal (at working precision)
/// returns it unchanged: the correction term `2 (v . n) n` vanishes
/// exactly.
pub proof fn lemma_reflect_orthogonal(v: Vec3, n: Vec3)
    requires
        vdot(v, n) == 0,
    ensures
        vreflect(v, n) == v,
{
    crate::fixed::lemma_fmul_zero(n.x@);
    crate::fixed::lemma_fmul_zero(n.y@);
    crate::fixed::lemma_fmul_zero(n.z@);
    assert(vscale(n, fadd(vdot(v, n), vdot(v, n))) == vzero());
    assert(vreflect(v, n) == v);
}

/// Reflecting a vector that lies along an axis-aligned unit normal
/// returns exactly its negation.
pub proof fn lemma_reflect_along_axis(n: Vec3, k: int)
    requires
        axis_unit(n),
        -0x2000000000000000 <= k <= 0x2000000000000000,
    ensures
        vreflect(vscale(n, k), n) == vneg(vscale(n, k)),
{
    crate::fixed::lemma_fmul_zero(k);
    crate::fixed::lemma_fmul_zero(k + k);
    crate::fixed::lemma_fmul_zero(0);
    let v = vscale(n, k);
    if iabs(n.x@) == 65536 && n.y@ == 0 && n.z@ == 0 {
        crate::fixed::lemma_fmul_unit(n.x@, k);
        crate::fixed::lemma_fmul_unit(n.x@, v.x@);
        assert(vdot(v, n) == k);
        crate::fixed::lemma_fmul_unit(n.x@, fadd(k, k));
        assert(vreflect(v, n) == vneg(v));
    } else if n.x@ == 0 && iabs(n.y@) == 65536 && n.z@ == 0 {
        crate::fixed::lemma_fmul_unit(n.y@, k);
        crate::fixed::lemma_fmul_unit(n.y@, v.y@);
        assert(vdot(v, n) == k);
        crate::fixed::lemma_fmul_unit(n.y@, fadd(k, k));
        assert(vreflect(v, n) == vneg(v));
    } else {
        crate::fixed::lemma_fmul_unit(n.z@, k);
        crate::fixed::lemma_fmul_unit(n.z@, v.z@);
        assert(vdot(v, n) == k);
        crate::fixed::lemma_fmul_unit(n.z@, fadd(k, k));
        assert(vreflect(v, n) == vneg(v));
    }
}

/// One product term of a dot product flips sign exactly with its left
/// factor, within the stated magnitudes.
proof fn lemma_fmul_neg_left(a: int, b: int)
    requires
        iabs(a) <= 0x200000000,
        iabs(b) <= 0x10000000000,
    ensures
        fneg(a) == -a,
        fmul(-a, b) == -fmul(a, b),
        iabs(fmul(a, b)) <= 0x200000000000000,
{
    assert((-a) * b == -(a * b)) by (nonlinear_arith);
    assert(iabs(a * b) <= 0x2000000000000000000) by (nonlinear_arith)
        requires
            iabs(a) <= 0x200000000 && iabs(b) <= 0x10000000000,
    ;
    crate::fixed::lemma_tdiv_neg(a * b, 65536);
    crate::fixed::lemma_tdiv_bound(a * b, 65536);
    assert(iabs(a * b) / 65536 <= 0x200000000000000) by (nonlinear_arith)
        requires
            0 <= iabs(a * b) <= 0x2000000000000000000,
    ;
}

/// Negating a vector flips the sign of its dot product exactly, as
/// long as every component is far enough from saturation.
pub proof fn lemma_vdot_neg(a: Vec3, b: Vec3)
    requires
        iabs(a.x@) <= 0x200000000,
        iabs(a.y@) <= 0x200000000,
        iabs(a.z@) <= 0x200000000,
        iabs(b.x@) <= 0x10000000000,
        iabs(b.y@) <= 0x10000000000,
        iabs(b.z@) <= 0x10000000000,
    ensures
        vdot(vneg(a), b) == -vdot(a, b),
{
    lemma_fmul_neg_left(a.x@, b.x@);
    lemma_fmul_neg_left(a.y@, b.y@);
    lemma_fmul_neg_left(a.z@, b.z@);
}

/// Refraction of `v` at a surface of normal `n` by Snell's law, with
/// the cosine clamped at one to guard truncation overshoot at grazing
/// angles: the perpendicular part is `ratio (v + cos n)` and the
/// parallel part points back along the normal by the residual length.
pub open spec fn vrefract(v: Vec3, n: Vec3, ratio: int) -> Vec3 {
    let c0 = vdot(vneg(v), n);
    let c = if c0 > 65536 {
        65536int
    } else {
        c0
    };
    let perp = vscale(vadd(v, vscale(n, c)), ratio);
    let par = vscale(n, fneg(fsqrt(clip(iabs(fsub(65536, vlen_sq(perp)))))));
    vadd(perp, par)
}

/// One output channel: the component scaled by 255.99, truncated to an
/// integer and wrapped to eight bits.
pub open spec fn rgb8_of(c: int) -> int {
    tdiv(c * 25599, 6553600) % 256
}

/// A quotient of nonnegative integers is nonnegative and no larger
/// than its dividend.
proof fn lemma_div_nonneg(p: int, d: int)
    requires
        p >= 0,
        d >= 1,
    ensures
        0 <= p / d <= p,
{
    assert(0 <= p / d <= p) by (nonlinear_arith)
        requires
            p >= 0 && d >= 1,
    ;
}

/// A square never truncates or saturates below zero.
pub proof fn lemma_fmul_sq_nonneg(a: int)
    ensures
        0 <= fmul(a, a) <= i64::MAX,
{
    assert(a * a >= 0) by (nonlinear_arith);
    lemma_div_nonneg(a * a, SCALE as int);
}

/// The squared magnitude of any vector is nonnegative.
pub proof fn lemma_vlen_sq_nonneg(a: Vec3)
    ensures
        0 <= vlen_sq(a) <= i64::MAX,
{
    lemma_fmul_sq_nonneg(a.x@);
    lemma_fmul_sq_nonneg(a.y@);
    lemma_fmul_sq_nonneg(a.z@);
}

impl Vec3 {
    /// Constructor.
    pub fn new(x: Fixed, y: Fixed, z: Fixed) -> (r: Vec3)
        ensures
            r == (Vec3 { x, y, z }),
    {
        Vec3 { x, y, z }
    }

    /// The zero vector.
    pub fn zero() -> (r: Vec3)
        ensures
            r.x@ == 0 && r.y@ == 0 && r.z@ == 0,
    {
        Vec3 { x: Fixed { raw: 0 }, y: Fixed { raw: 0 }, z: Fixed { raw: 0 } }
    }

    /// Componentwise sum.
    pub fn add(self, o: Vec3) -> (r: Vec3)
        ensures
            r == vadd(self, o),
    {
        Vec3 { x: self.x.add(o.x), y: self.y.add(o.y), z: self.z.add(o.z) }
    }

    /// Componentwise difference.
    pub fn sub(self, o: Vec3) -> (r: Vec3)
        ensures
            r == vsub(self, o),
    {
        Vec3 { x: self.x.sub(o.x), y: self.y.sub(o.y), z: self.z.sub(o.z) }
    }

    /// Componentwise product.
    pub fn mul(self, o: Vec3) -> (r: Vec3)
        ensures
            r == vmul(self, o),
    {
        Vec3 { x: self.x.mul(o.x), y: self.y.mul(o.y), z: self.z.mul(o.z) }
    }

    /// Product with a scalar.
    pub fn scale(self, s: Fixed) -> (r: Vec3)
        ensures
            r == vscale(self, s@),
    {
        Vec3 { x: self.x.mul(s), y: self.y.mul(s), z: self.z.mul(s) }
    }

    /// Quotient by a scalar.
    pub fn div(self, s: Fixed) -> (r: Vec3)
        requires
            s@ != 0,
        ensures
            r == vdivs(self, s@),
    {
        Vec3 { x: self.x.div(s), y: self.y.div(s), z: self.z.div(s) }
    }

    /// Componentwise negation.
    pub fn neg(self) -> (r: Vec3)
        ensures
            r == vneg(self),
    {
        Vec3 { x: self.x.neg(), y: self.y.neg(), z: self.z.neg() }
    }

    /// Dot product.
    pub fn dot(self, o: Vec3) -> (r: Fixed)
        ensures
            r@ == vdot(self, o),
    {
        self.x.mul(o.x).add(self.y.mul(o.y)).add(self.z.mul(o.z))
    }

    /// Cross product.
    pub fn cross(self, o: Vec3) -> (r: Vec3)
        ensures
            r == vcross(self, o),
    {
        Vec3 {
            x: self.y.mul(o.z).sub(self.z.mul(o.y)),
            y: self.z.mul(o.x).sub(self.x.mul(o.z)),
            z: self.x.mul(o.y).sub(self.y.mul(o.x)),
        }
    }

    /// Squared magnitude.
    pub fn length_squared(self) -> (r: Fixed)
        ensures
            r@ == vlen_sq(self),
            r@ >= 0,
    {
        proof {
            lemma_vlen_sq_nonneg(self);
        }
        self.dot(self)
    }

    /// Magnitude.
    pub fn length(self) -> (r: Fixed)
        ensures
            r@ == vlen(self),
            r@ >= 0,
    {
        self.length_squared().sqrt()
    }

    /// The normalized vector. A magnitude of zero on the 2^-16 grid
    /// leaves the direction undefined, so callers must rule it out.
    pub fn normalize(self) -> (r: Vec3)
        requires
            vlen(self) >= 1,
        ensures
            r == vnorm(self),
    {
        let len = self.length();
        self.div(len)
    }

    /// True when every component is zero at working precision: a
    /// magnitude below one raw unit (2^-16) counts as zero.
    pub fn is_zero(self) -> (r: bool)
        ensures
            r == (self.x@ == 0 && self.y@ == 0 && self.z@ == 0),
    {
        self.x.raw == 0 && self.y.raw == 0 && self.z.raw == 0
    }

    /// Reflect against a surface with the given normal.
    pub fn reflect(self, normal: Vec3) -> (r: Vec3)
        ensures
            r == vreflect(self, normal),
    {
        let d = self.dot(normal);
        self.sub(normal.scale(d.add(d)))
    }

    /// Refract on a surface with the given normal and index ratio.
    pub fn refract(self, normal: Vec3, etai_over_etat: Fixed) -> (r: Vec3)
        ensures
            r == vrefract(self, normal, etai_over_etat@),
    {
        let c0 = self.neg().dot(normal);
        let cos_theta = if c0.raw > 65536 {
            Fixed { raw: 65536 }
        } else {
            c0
        };
        let perp = self.add(normal.scale(cos_theta)).scale(etai_over_etat);
        let w = Fixed { raw: 65536 }.sub(perp.length_squared()).abs();
        let parallel = normal.scale(w.sqrt().neg());
        perp.add(parallel)
    }

    /// Componentwise square root.
    pub fn sqrt(self) -> (r: Vec3)
        requires
            self.x@ >= 0,
            self.y@ >= 0,
            self.z@ >= 0,
        ensures
            r == (Vec3 { x: fx(fsqrt(self.x@)), y: fx(fsqrt(self.y@)), z: fx(fsqrt(self.z@)) }),
    {
        let r = Vec3 { x: self.x.sqrt(), y: self.y.sqrt(), z: self.z.sqrt() };
        proof {
            crate::fixed::lemma_isqrt_exists(self.x@ * (SCALE as int));
            crate::fixed::lemma_isqrt_exists(self.y@ * (SCALE as int));
            crate::fixed::lemma_isqrt_exists(self.z@ * (SCALE as int));
        }
        r
    }

    /// Maps [0.0, 1.0] to [0, 255]: scale by 255.99 and truncate to
    /// eight bits. Values above 1.0 wrap rather than clamp.
    pub fn into_rgb8_array(self) -> (r: [u8; 3])
        ensures
            r[0] as int == rgb8_of(self.x@),
            r[1] as int == rgb8_of(self.y@),
            r[2] as int == rgb8_of(self.z@),
    {
        [rgb8_channel(self.x), rgb8_channel(self.y), rgb8_channel(self.z)]
    }
}

/// One channel of the 8-bit conversion.
fn rgb8_channel(c: Fixed) -> (r: u8)
    ensures
        r as int == rgb8_of(c@),
{
    let p: i128 = (c.raw as i128) * 25599;
    let neg: bool = p < 0;
    let m: u128 = if p < 0 {
        (-p) as u128
    } else {
        p as u128
    };
    let q: u128 = m / 6553600;
    let rem: u128 = q % 256;
    proof {
        assert(m as int == iabs(p as int));
        assert(q as int == iabs(p as int) / 6553600);
        if neg {
            assert(tdiv(p as int, 6553600) == -(q as int));
        } else {
            assert(tdiv(p as int, 6553600) == q as int);
        }
        let k = tdiv(p as int, 6553600);
        lemma_fundamental_div_mod(q as int, 256);
        let qd = (q as int) / 256;
        if neg {
            if rem == 0 {
                lemma_fundamental_div_mod_converse_mod(k, 256, -qd, 0);
            } else {
                lemma_fundamental_div_mod_converse_mod(k, 256, -qd - 1, 256 - (rem as int));
            }
        } else {
            lemma_fundamental_div_mod_converse_mod(k, 256, qd, rem as int);
        }
    }
    if neg {
        if rem == 0 {
            0u8
        } else {
            (256 - rem) as u8
        }
    } else {
        rem as u8
    }
}

} // verus!
