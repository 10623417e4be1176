use pathtracer::fixed::Fixed;
use pathtracer::vec3::Vec3;

fn fx(raw: i64) -> Fixed {
    Fixed { raw }
}

fn v3(x: i64, y: i64, z: i64) -> Vec3 {
    Vec3 { x: fx(x), y: fx(y), z: fx(z) }
}

const ONE: i64 = 65536;

#[test]
fn fixed_constructors_and_order() {
    assert_eq!(Fixed::zero().raw, 0);
    assert_eq!(Fixed::one().raw, ONE);
    assert_eq!(Fixed::from_int(-3).raw, -3 * ONE);
    assert!(fx(1).lt(fx(2)));
    assert!(!fx(2).lt(fx(2)));
    assert!(fx(2).le(fx(2)));
    assert_eq!(fx(5).abs().raw, 5);
    assert_eq!(fx(-5).abs().raw, 5);
}

#[test]
fn fixed_add_sub_neg() {
    assert_eq!(fx(ONE).add(fx(ONE)).raw, 2 * ONE);
    assert_eq!(fx(3 * ONE).sub(fx(ONE)).raw, 2 * ONE);
    assert_eq!(fx(5).neg().raw, -5);
    // saturation instead of overflow
    assert_eq!(fx(i64::MAX).add(fx(1)).raw, i64::MAX);
    assert_eq!(fx(i64::MIN).sub(fx(1)).raw, i64::MIN);
    assert_eq!(fx(i64::MIN).neg().raw, i64::MAX);
}

#[test]
fn fixed_mul_div() {
    // 1.5 * 2.0 == 3.0 exactly on the grid
    assert_eq!(fx(98304).mul(fx(131072)).raw, 196608);
    // 3.0 / 2.0 == 1.5
    assert_eq!(fx(196608).div(fx(131072)).raw, 98304);
    // truncation toward zero on both signs
    assert_eq!(fx(1).mul(fx(1)).raw, 0);
    assert_eq!(fx(-3).div(fx(2 * ONE)).raw, -1);
    assert_eq!(fx(ONE).div(fx(3 * ONE)).raw, 21845);
}

#[test]
fn fixed_sqrt_exact_and_floor() {
    assert_eq!(fx(4 * ONE).sqrt().raw, 2 * ONE);
    assert_eq!(fx(0).sqrt().raw, 0);
    // sqrt(2) floors to the grid: floor(sqrt(2) * 65536) == 92681
    assert_eq!(fx(2 * ONE).sqrt().raw, 92681);
}

#[test]
fn vector_componentwise_ops() {
    assert_eq!(Vec3::new(fx(1), fx(2), fx(3)), v3(1, 2, 3));
    assert_eq!(Vec3::zero(), v3(0, 0, 0));
    let a = v3(ONE, 2 * ONE, 3 * ONE);
    let b = v3(4 * ONE, 5 * ONE, 6 * ONE);
    assert_eq!(a.add(b), v3(5 * ONE, 7 * ONE, 9 * ONE));
    assert_eq!(b.sub(a), v3(3 * ONE, 3 * ONE, 3 * ONE));
    assert_eq!(a.mul(b), v3(4 * ONE, 10 * ONE, 18 * ONE));
    assert_eq!(a.scale(fx(2 * ONE)), v3(2 * ONE, 4 * ONE, 6 * ONE));
    assert_eq!(a.neg(), v3(-ONE, -2 * ONE, -3 * ONE));
    assert_eq!(b.div(fx(2 * ONE)), v3(2 * ONE, 163840, 3 * ONE));
    assert_eq!(a.dot(b).raw, 32 * ONE);
}

#[test]
fn vector_cross_product() {
    let x = v3(ONE, 0, 0);
    let y = v3(0, ONE, 0);
    let z = v3(0, 0, ONE);
    assert_eq!(x.cross(y), z);
    assert_eq!(y.cross(z), x);
    assert_eq!(y.cross(x), z.neg());
}

#[test]
fn vector_length_and_normalize() {
    let a = v3(3 * ONE, 4 * ONE, 0);
    assert_eq!(a.length_squared().raw, 25 * ONE);
    assert_eq!(a.length().raw, 5 * ONE);
    assert_eq!(v3(3 * ONE, 0, 0).normalize(), v3(ONE, 0, 0));
    assert_eq!(v3(0, -7 * ONE, 0).normalize(), v3(0, -ONE, 0));
}

#[test]
fn vector_is_zero() {
    assert!(v3(0, 0, 0).is_zero());
    assert!(!v3(1, 0, 0).is_zero());
}

#[test]
fn reflect_along_normal_negates() {
    let n = v3(ONE, 0, 0);
    let v = v3(3 * ONE, 0, 0);
    assert_eq!(v.reflect(n), v.neg());
    let down = v3(0, -2 * ONE, 0);
    assert_eq!(down.reflect(v3(0, ONE, 0)), v3(0, 2 * ONE, 0));
}

#[test]
fn reflect_orthogonal_unchanged() {
    let n = v3(ONE, 0, 0);
    let v = v3(0, 2 * ONE, 5 * ONE);
    assert_eq!(v.dot(n).raw, 0);
    assert_eq!(v.reflect(n), v);
}

#[test]
fn refract_straight_through() {
    // head-on at equal indices: the ray continues along its direction
    let v = v3(0, 0, -ONE);
    let n = v3(0, 0, ONE);
    assert_eq!(v.refract(n, fx(ONE)), v);
}

#[test]
fn rgb8_conversion_truncates_and_wraps() {
    // 1.0 -> 255, 0.5 -> 127, 2.0 -> truncates to 511 and wraps to 255
    let c = v3(ONE, ONE / 2, 2 * ONE);
    assert_eq!(c.into_rgb8_array(), [255, 127, 255]);
    // a negative channel wraps through two's complement: -127 -> 129
    let d = v3(-ONE / 2, 0, ONE);
    assert_eq!(d.into_rgb8_array(), [129, 0, 255]);
}

#[test]
fn componentwise_sqrt() {
    let c = v3(4 * ONE, ONE, 0);
    assert_eq!(c.sqrt(), v3(2 * ONE, ONE, 0));
}

#[test]
fn random_vectors_in_range() {
    for _ in 0..1000 {
        let v = Vec3::random();
        assert!(0 <= v.x.raw && v.x.raw < ONE);
        assert!(0 <= v.y.raw && v.y.raw < ONE);
        assert!(0 <= v.z.raw && v.z.raw < ONE);
    }
}

#[test]
fn random_unit_magnitude() {
    for _ in 0..1000 {
        let v = Vec3::random_unit();
        let len = (v.x.raw as f64 / 65536.0).hypot(v.y.raw as f64 / 65536.0).hypot(
            v.z.raw as f64 / 65536.0,
        );
        assert!((len - 1.0).abs() < 0.01);
    }
}

#[test]
fn random_disk_stays_in_plane() {
    for _ in 0..1000 {
        let v = Vec3::random_in_xy_unit_disk();
        assert_eq!(v.z.raw, 0);
    }
}

#[test]
fn random_hemisphere_faces_normal() {
    let n = v3(0, ONE, 0);
    for _ in 0..1000 {
        let v = Vec3::random_in_hemisphere(n);
        assert!(v.dot(n).raw >= 0);
    }
}

#[test]
fn random_unit_distribution() {
    let mut vecs = vec![];
    for _ in 0..100000 {
        vecs.push(Vec3::random_unit_sphere());
    }
    let mut sum = 0f64;
    let mut vx = 0f64;
    let mut vy = 0f64;
    let mut vz = 0f64;
    for vec in vecs {
        let x = vec.x.raw as f64 / 65536.0;
        let y = vec.y.raw as f64 / 65536.0;
        let z = vec.z.raw as f64 / 65536.0;
        sum += (x * x + y * y + z * z).sqrt();
        vx += x;
        vy += y;
        vz += z;
    }
    let average = sum / 100000.0;
    let vx = vx / 100000.0;
    let vy = vy / 100000.0;
    let vz = vz / 100000.0;
    // average length should be 0.5
    assert!(0.49 <= average && average <= 0.51);
    // average x, y, and z should be 0
    let e = 0.01;
    assert!(-e <= vx && vx <= e);
    assert!(-e <= vy && vy <= e);
    assert!(-e <= vz && vz <= e);
}
