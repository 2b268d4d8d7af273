use pathtrace::fx::{fx_add, fx_div, fx_mul, fx_sqrt, fx_sub, SCALE};
use pathtrace::vec3::Vec3;

#[test]
fn fx_basics() {
    assert_eq!(fx_add(SCALE, SCALE), 2 * SCALE);
    assert_eq!(fx_sub(SCALE, 3 * SCALE), -2 * SCALE);
    // 1.5 * 2 == 3
    assert_eq!(fx_mul(98304, 131072), 196608);
    // 3 / 2 == 1.5
    assert_eq!(fx_div(196608, 131072), 98304);
    // products and quotients round toward zero
    assert_eq!(fx_mul(1, 1), 0);
    assert_eq!(fx_mul(-3, 32768), -1);
    // saturation instead of overflow, symmetric in both directions
    assert_eq!(fx_mul(i64::MAX, i64::MAX), i64::MAX);
    assert_eq!(fx_mul(i64::MAX, i64::MIN), -i64::MAX);
    assert_eq!(fx_add(i64::MAX, i64::MAX), i64::MAX);
    assert_eq!(fx_add(-i64::MAX, -i64::MAX), -i64::MAX);
}

#[test]
fn fx_sqrt_exact_and_floor() {
    // sqrt(4) == 2, sqrt(0.25) == 0.5
    assert_eq!(fx_sqrt(4 * SCALE), 2 * SCALE);
    assert_eq!(fx_sqrt(16384), 32768);
    assert_eq!(fx_sqrt(0), 0);
    assert_eq!(fx_sqrt(-SCALE), 0);
    // sqrt(2) floor: isqrt(2 * 65536^2) == 92681
    assert_eq!(fx_sqrt(2 * SCALE), 92681);
}

#[test]
fn vector_arithmetic() {
    let a = Vec3::new(SCALE, 2 * SCALE, -SCALE);
    let b = Vec3::new(3 * SCALE, -SCALE, 2 * SCALE);
    assert_eq!(a.add(b), Vec3::new(4 * SCALE, SCALE, SCALE));
    assert_eq!(a.sub(b), Vec3::new(-2 * SCALE, 3 * SCALE, -3 * SCALE));
    assert_eq!(a.mul(b), Vec3::new(3 * SCALE, -2 * SCALE, -2 * SCALE));
    assert_eq!(a.scale(2 * SCALE), Vec3::new(2 * SCALE, 4 * SCALE, -2 * SCALE));
    assert_eq!(a.div_s(2 * SCALE), Vec3::new(32768, SCALE, -32768));
    assert_eq!(a.neg(), Vec3::new(-SCALE, -2 * SCALE, SCALE));
    assert_eq!(Vec3::unit(7).x(), 7);
    assert_eq!(a.r(), a.x());
    assert_eq!(a.g(), a.y());
    assert_eq!(a.b(), a.z());
}

#[test]
fn three_four_five_length() {
    let v = Vec3::new(3 * SCALE, 4 * SCALE, 0);
    assert_eq!(v.squared_length(), 25 * SCALE);
    assert_eq!(v.length(), 5 * SCALE);
    let u = Vec3::unit_vector(v);
    // 3/5 and 4/5 exactly
    assert_eq!(u, Vec3::new(39321, 52428, 0));
}

#[test]
fn unit_vector_of_unit_vector_has_unit_length() {
    for v in [
        Vec3::new(SCALE, 0, 0),
        Vec3::new(0, SCALE, 0),
        Vec3::new(0, 0, -SCALE),
    ] {
        let u = Vec3::unit_vector(v);
        assert_eq!(u, v);
        assert_eq!(u.length(), SCALE);
    }
}

#[test]
fn make_unit_vector_matches() {
    let v = Vec3::new(0, -2 * SCALE, 0);
    assert_eq!(v.make_unit_vector(), Vec3::new(0, -SCALE, 0));
    assert_eq!(Vec3::unit_or_zero(Vec3::new(0, 0, 0)), Vec3::new(0, 0, 0));
}

#[test]
fn cross_product_orthogonality() {
    // components on the fixed-point grid, so every product is exact
    let v = Vec3::new(256, 512, 768);
    let w = Vec3::new(1024, 1280, 1536);
    let c = v.cross(&w);
    assert_eq!(c, Vec3::new(-3, 6, -3));
    assert_eq!(Vec3::dot(&v, &c), 0);
    assert_eq!(Vec3::dot(&w, &c), 0);
    let c2 = Vec3::new(2 * SCALE, 0, 0).cross(&Vec3::new(0, 3 * SCALE, 0));
    assert_eq!(c2, Vec3::new(0, 0, 6 * SCALE));
}

#[test]
fn cross_product_antisymmetry() {
    let v = Vec3::new(3 * SCALE, -5 * SCALE, 7 * SCALE);
    let w = Vec3::new(-2 * SCALE, 4 * SCALE, 11 * SCALE);
    assert_eq!(v.cross(&w), w.cross(&v).neg());
    assert_eq!(v.cross(&v), Vec3::new(0, 0, 0));
    // the identity survives saturation: one side clamps to the negative
    // rail, the other to the negated positive rail, and they agree
    let big = Vec3::new(0, 1 << 40, 0);
    let other = Vec3::new(1 << 40, 0, 0);
    assert_eq!(big.cross(&other), other.cross(&big).neg());
}

#[test]
fn component_sqrt_for_gamma() {
    let v = Vec3::new(4 * SCALE, 16384, 0).sqrt();
    assert_eq!(v, Vec3::new(2 * SCALE, 32768, 0));
    // negative channels clamp to zero
    assert_eq!(Vec3::new(-SCALE, SCALE, 0).sqrt(), Vec3::new(0, SCALE, 0));
}
