//! Q47.16 fixed-point scalars.
//!
//! A [`Fixed`] holds a real value as `raw / SCALE` with `raw: i64` and
//! `SCALE = 2^16`. Products and quotients truncate toward zero at the
//! 2^-16 grid, and every operation saturates at the `i64` range instead
//! of overflowing, so all operations are total. The view of a `Fixed` is
//! its raw integer, and each operation's contract states the exact raw
//! result through the spec functions below.

use vstd::prelude::*;

verus! {

/// Number of raw units per 1.0.
pub const SCALE: i64 = 65536;

/// A fixed-point scalar worth `raw / SCALE`.
#[derive(Clone, Copy, PartialEq, Eq, Structural, Debug)]
pub struct Fixed {
    pub raw: i64,
}

impl View for Fixed {
    type V = int;

    open spec fn view(&self) -> int {
        self.raw as int
    }
}

/// Magnitude of an integer.
pub open spec fn iabs(v: int) -> int {
    if v < 0 {
        -v
    } else {
        v
    }
}

/// Saturation at the i64 range.
pub open spec fn clip(v: int) -> int {
    if v > i64::MAX {
        i64::MAX as int
    } else if v < i64::MIN {
        i64::MIN as int
    } else {
        v
    }
}

/// Division truncating toward zero, as the machine performs it.
pub open spec fn tdiv(p: int, d: int) -> int
    recommends
        d != 0,
{
    if (p < 0) == (d < 0) {
        iabs(p) / iabs(d)
    } else {
        -(iabs(p) / iabs(d))
    }
}

/// Raw result of a saturating fixed-point sum.
pub open spec fn fadd(a: int, b: int) -> int {
    clip(a + b)
}

/// Raw result of a saturating fixed-point difference.
pub open spec fn fsub(a: int, b: int) -> int {
    clip(a - b)
}

/// Raw result of a saturating fixed-point negation.
pub open spec fn fneg(a: int) -> int {
    clip(-a)
}

/// Raw result of a saturating fixed-point product: the wide product
/// truncated back to the 2^-16 grid.
pub open spec fn fmul(a: int, b: int) -> int {
    clip(tdiv(a * b, SCALE as int))
}

/// Raw result of a saturating fixed-point quotient.
pub open spec fn fdiv(a: int, b: int) -> int
    recommends
        b != 0,
{
    clip(tdiv(a * (SCALE as int), b))
}

/// `r` is the integer square root of `n`.
pub open spec fn is_sqrt(n: int, r: int) -> bool {
    &&& 0 <= r
    &&& r * r <= n
    &&& n < (r + 1) * (r + 1)
}

/// The integer square root.
pub open spec fn isqrt(n: int) -> int {
    choose|r: int| is_sqrt(n, r)
}

/// Raw result of a fixed-point square root: because the value is
/// `raw / SCALE`, the root's raw form is the integer root of
/// `raw * SCALE`.
pub open spec fn fsqrt(a: int) -> int
    recommends
        a >= 0,
{
    isqrt(a * (SCALE as int))
}

/// Every nonnegative integer has an integer square root.
pub proof fn lemma_isqrt_exists(n: int)
    requires
        n >= 0,
    ensures
        is_sqrt(n, isqrt(n)),
    decreases n,
{
    if n == 0 {
        assert(is_sqrt(0, 0));
    } else {
        lemma_isqrt_exists(n - 1);
        let r = isqrt(n - 1);
        if (r + 1) * (r + 1) <= n {
            assert(n - 1 < (r + 1) * (r + 1));
            assert(n == (r + 1) * (r + 1));
            assert((r + 1 + 1) * (r + 1 + 1) > n) by (nonlinear_arith)
                requires
                    r >= 0 && n == (r + 1) * (r + 1),
            ;
            assert(is_sqrt(n, r + 1));
        } else {
            assert(is_sqrt(n, r));
        }
    }
}

/// The integer square root is unique.
pub proof fn lemma_isqrt_unique(n: int, r: int)
    requires
        is_sqrt(n, r),
    ensures
        r == isqrt(n),
{
    lemma_isqrt_exists(n);
    let q = isqrt(n);
    assert(r == q) by (nonlinear_arith)
        requires
            0 <= r && r * r <= n < (r + 1) * (r + 1) && 0 <= q && q * q <= n < (q + 1) * (q + 1),
    ;
}

/// Scaling by zero yields exactly zero.
pub proof fn lemma_fmul_zero(a: int)
    ensures
        fmul(a, 0) == 0,
        fmul(0, a) == 0,
{
    assert(a * 0 == 0) by (nonlinear_arith);
    assert(0 * a == 0) by (nonlinear_arith);
    assert(iabs(0) / iabs(SCALE as int) == 0) by (nonlinear_arith);
}

/// Truncating division undoes scaling by the grid: the product with
/// SCALE divided by SCALE is exact.
pub proof fn lemma_tdiv_scale(k: int)
    ensures
        tdiv(65536 * k, 65536) == k,
        tdiv(k * 65536, 65536) == k,
{
    assert(k * 65536 == 65536 * k) by (nonlinear_arith);
    if k >= 0 {
        vstd::arithmetic::div_mod::lemma_div_multiples_vanish(k, 65536);
        assert(iabs(65536 * k) == 65536 * k) by (nonlinear_arith)
            requires
                k >= 0,
        ;
    } else {
        vstd::arithmetic::div_mod::lemma_div_multiples_vanish(-k, 65536);
        assert(iabs(65536 * k) == 65536 * (-k)) by (nonlinear_arith)
            requires
                k < 0,
        ;
    }
}

/// A product with a unit scalar (raw magnitude SCALE) is exact: it
/// only carries or flips the sign.
pub proof fn lemma_fmul_unit(s: int, k: int)
    requires
        iabs(s) == SCALE,
        -0x4000000000000000 <= k <= 0x4000000000000000,
    ensures
        fmul(s, k) == (if s > 0 {
            k
        } else {
            -k
        }),
        fmul(k, s) == (if s > 0 {
            k
        } else {
            -k
        }),
{
    assert(s * k == k * s) by (nonlinear_arith);
    if s > 0 {
        assert(s * k == 65536 * k) by (nonlinear_arith)
            requires
                s == 65536,
        ;
        lemma_tdiv_scale(k);
    } else {
        assert(s * k == 65536 * (-k)) by (nonlinear_arith)
            requires
                s == -65536,
        ;
        lemma_tdiv_scale(-k);
    }
}

/// A quotient by the unit scalar is exact.
pub proof fn lemma_fdiv_one(k: int)
    requires
        -0x4000000000000000 <= k <= 0x4000000000000000,
    ensures
        fdiv(k, 65536) == k,
{
    lemma_tdiv_scale(k);
}

/// Truncating division is odd in its dividend.
pub proof fn lemma_tdiv_neg(p: int, d: int)
    requires
        d != 0,
    ensures
        tdiv(-p, d) == -tdiv(p, d),
{
    if p == 0 {
        vstd::arithmetic::div_mod::lemma_div_of0(iabs(d));
    }
}

/// The magnitude of a truncated quotient is the quotient of the
/// magnitudes, and never exceeds the dividend's magnitude.
pub proof fn lemma_tdiv_bound(p: int, d: int)
    requires
        d != 0,
    ensures
        iabs(tdiv(p, d)) == iabs(p) / iabs(d),
        iabs(tdiv(p, d)) <= iabs(p),
{
    assert(0 <= iabs(p) / iabs(d) <= iabs(p)) by (nonlinear_arith)
        requires
            iabs(p) >= 0 && iabs(d) >= 1,
    ;
}

/// A value of at least one raw unit keeps a positive square root.
pub proof fn lemma_fsqrt_pos(a: int)
    requires
        a >= 1,
    ensures
        fsqrt(a) >= 1,
        is_sqrt(a * (SCALE as int), fsqrt(a)),
{
    lemma_isqrt_exists(a * (SCALE as int));
    if isqrt(a * (SCALE as int)) < 1 {
        assert(a * (SCALE as int) < 1);
        assert(false);
    }
}

/// Clamp a wide intermediate back to the i64 range.
fn clamp_i128(s: i128) -> (r: i64)
    ensures
        r as int == clip(s as int),
{
    if s > i64::MAX as i128 {
        i64::MAX
    } else if s < i64::MIN as i128 {
        i64::MIN
    } else {
        s as i64
    }
}

/// Magnitude of a wide intermediate.
fn abs_i128(x: i128) -> (r: u128)
    requires
        x > i128::MIN,
    ensures
        r as int == iabs(x as int),
{
    if x < 0 {
        (-x) as u128
    } else {
        x as u128
    }
}

/// Reattach a sign to an unsigned magnitude, saturating.
fn signed_clamped(neg: bool, q: u128) -> (r: i64)
    ensures
        r as int == clip(
            if neg {
                -(q as int)
            } else {
                q as int
            },
        ),
{
    if neg {
        if q >= 9223372036854775808u128 {
            i64::MIN
        } else {
            -(q as i64)
        }
    } else {
        if q > i64::MAX as u128 {
            i64::MAX
        } else {
            q as i64
        }
    }
}

/// Integer square root by bisection; callers bound `n` so the root
/// fits well under 2^40.
fn isqrt_u128(n: u128) -> (r: u128)
    requires
        n < 1208925819614629174706176u128,  // 2^80
    ensures
        is_sqrt(n as int, r as int),
{
    let mut lo: u128 = 0;
    let mut hi: u128 = 1099511627776u128;  // 2^40
    assert(hi * hi == 1208925819614629174706176) by (nonlinear_arith)
        requires
            hi == 1099511627776u128,
    ;
    while lo + 1 < hi
        invariant
            lo < hi,
            hi <= 1099511627776u128,
            (lo as int) * (lo as int) <= n as int,
            (n as int) < (hi as int) * (hi as int),
        decreases hi - lo,
    {
        let mid: u128 = lo + (hi - lo) / 2;
        assert(lo < mid < hi);
        assert(mid * mid < 1208925819614629174706177) by (nonlinear_arith)
            requires
                mid < 1099511627776u128,
        ;
        if mid * mid <= n {
            lo = mid;
        } else {
            hi = mid;
        }
    }
    lo
}

impl Fixed {
    /// The scalar 0.
    pub fn zero() -> (r: Fixed)
        ensures
            r@ == 0,
    {
        Fixed { raw: 0 }
    }

    /// The scalar 1.
    pub fn one() -> (r: Fixed)
        ensures
            r@ == SCALE,
    {
        Fixed { raw: SCALE }
    }

    /// The scalar `i`, for any integer that the raw range can carry.
    pub fn from_int(i: i64) -> (r: Fixed)
        requires
            i64::MIN <= i * (SCALE as int) <= i64::MAX,
        ensures
            r@ == i * (SCALE as int),
    {
        Fixed { raw: i * SCALE }
    }

    /// Saturating sum.
    pub fn add(self, o: Fixed) -> (r: Fixed)
        ensures
            r@ == fadd(self@, o@),
    {
        let s: i128 = self.raw as i128 + o.raw as i128;
        Fixed { raw: clamp_i128(s) }
    }

    /// Saturating difference.
    pub fn sub(self, o: Fixed) -> (r: Fixed)
        ensures
            r@ == fsub(self@, o@),
    {
        let s: i128 = self.raw as i128 - o.raw as i128;
        Fixed { raw: clamp_i128(s) }
    }

    /// Saturating negation.
    pub fn neg(self) -> (r: Fixed)
        ensures
            r@ == fneg(self@),
    {
        if self.raw == i64::MIN {
            Fixed { raw: i64::MAX }
        } else {
            Fixed { raw: -self.raw }
        }
    }

    /// Magnitude, saturating at `i64::MAX`.
    pub fn abs(self) -> (r: Fixed)
        ensures
            r@ == clip(iabs(self@)),
    {
        if self.raw == i64::MIN {
            Fixed { raw: i64::MAX }
        } else if self.raw < 0 {
            Fixed { raw: -self.raw }
        } else {
            self
        }
    }

    /// Saturating product, truncated toward zero at the 2^-16 grid.
    pub fn mul(self, o: Fixed) -> (r: Fixed)
        ensures
            r@ == fmul(self@, o@),
    {
        let a: i128 = self.raw as i128;
        let b: i128 = o.raw as i128;
        assert(-170141183460469231731687303715884105727i128 < a * b
            < 170141183460469231731687303715884105727i128) by (nonlinear_arith)
            requires
                -9223372036854775808i128 <= a <= 9223372036854775807i128
                    && -9223372036854775808i128 <= b <= 9223372036854775807i128,
        ;
        let p: i128 = a * b;
        let neg: bool = p < 0;
        let m: u128 = abs_i128(p);
        let q: u128 = m / 65536;
        assert(q as int == iabs(p as int) / (SCALE as int));
        Fixed { raw: signed_clamped(neg, q) }
    }

    /// Saturating quotient, truncated toward zero at the 2^-16 grid.
    pub fn div(self, o: Fixed) -> (r: Fixed)
        requires
            o@ != 0,
        ensures
            r@ == fdiv(self@, o@),
    {
        let p: i128 = (self.raw as i128) * 65536;
        let neg: bool = (p < 0) != (o.raw < 0);
        let m: u128 = abs_i128(p);
        let d: u128 = abs_i128(o.raw as i128);
        let q: u128 = m / d;
        Fixed { raw: signed_clamped(neg, q) }
    }

    /// Fixed-point square root, exact on the 2^-16 grid.
    pub fn sqrt(self) -> (r: Fixed)
        requires
            self@ >= 0,
        ensures
            r@ == fsqrt(self@),
            r@ >= 0,
    {
        let n: u128 = (self.raw as u128) * 65536;
        let root: u128 = isqrt_u128(n);
        proof {
            lemma_isqrt_unique(n as int, root as int);
            assert((root as int) * (root as int) <= n as int);
            assert(root < 1099511627776u128) by (nonlinear_arith)
                requires
                    0 <= root as int && (root as int) * (root as int) <= n as int && (n as int)
                        < 1208925819614629174706176,
            ;
        }
        Fixed { raw: root as i64 }
    }

    /// Exact comparison.
    pub fn lt(self, o: Fixed) -> (r: bool)
        ensures
            r == (self@ < o@),
    {
        self.raw < o.raw
    }

    /// Exact comparison.
    pub fn le(self, o: Fixed) -> (r: bool)
        ensures
            r == (self@ <= o@),
    {
        self.raw <= o.raw
    }
}

} // verus!
