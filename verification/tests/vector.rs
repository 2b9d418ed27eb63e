use vec3math::fixed::Fixed;
use vec3math::vector::{scale, Vec3};

/// One raw unit is 1/10000, so a tolerance of 0.0001 is one raw unit.
fn approx(a: Fixed, b: Fixed, tol_raw: i64) -> bool {
    (a.raw - b.raw).abs() <= tol_raw
}

fn approx_vec3(expected: Vec3, actual: Vec3, tol_raw: i64) -> bool {
    approx(expected.x, actual.x, tol_raw) && approx(expected.y, actual.y, tol_raw)
        && approx(expected.z, actual.z, tol_raw)
}

fn from_ints(x: i64, y: i64, z: i64) -> Vec3 {
    Vec3::new(Fixed::from_int(x), Fixed::from_int(y), Fixed::from_int(z))
}

#[test]
fn addition() {
    let vector1 = from_ints(1, 2, 3);
    let vector2 = from_ints(4, 5, 6);
    let result = vector1.add(vector2);
    let expected = from_ints(5, 7, 9);
    assert!(approx_vec3(expected, result, 1));
}

#[test]
fn substraction() {
    let vector1 = from_ints(1, 2, 3);
    let vector2 = from_ints(4, 5, 6);
    let result = vector1.subtract(vector2);
    let expected = from_ints(-3, -3, -3);
    assert!(approx_vec3(expected, result, 1));
}

#[test]
fn negation() {
    let vector1 = from_ints(1, 2, 3);
    let result = vector1.negate();
    let expected = from_ints(-1, -2, -3);
    assert!(approx_vec3(expected, result, 1));
}

#[test]
fn multiplication() {
    let vector1 = from_ints(1, 2, 3);
    let result1 = scale(Fixed::from_int(5), vector1);
    let expected = from_ints(5, 10, 15);
    assert!(approx_vec3(expected, result1, 1));

    let result2 = vector1.scale(Fixed::from_int(5));
    assert!(approx_vec3(expected, result2, 1));
}

#[test]
fn hadamard_product() {
    let vector1 = from_ints(1, 2, 3);
    let vector2 = from_ints(4, 5, 6);

    let result = vector1.hadamard(vector2);
    let expected = from_ints(4, 10, 18);
    assert!(approx_vec3(expected, result, 1));
}

#[test]
fn division() {
    let vector = Vec3::new(Fixed::from_int(12), Fixed::from_scaled(135000), Fixed::from_int(15));
    let divisor = Fixed::from_int(3);
    let result = vector.divide(divisor);
    let expected = Vec3::new(Fixed::from_int(4), Fixed::from_scaled(45000), Fixed::from_int(5));
    assert!(approx_vec3(expected, result, 1));
}

#[test]
fn length() {
    let vector = from_ints(3, 4, 5);
    let result = vector.length();
    // |result - 7.07168| <= 0.001, in units of 1/100000
    assert!((result.raw * 10 - 707168).abs() <= 100);
}

#[test]
fn length_squared() {
    let vector = from_ints(3, 4, 5);
    let result = vector.length_squared();
    assert!(approx(Fixed::from_int(50), result, 10));
}

#[test]
fn dot() {
    let vector1 = from_ints(1, 2, 3);
    let vector2 = from_ints(1, 5, 7);
    let result = vector1.dot(vector2);
    assert!(approx(Fixed::from_int(32), result, 10));
}

#[test]
fn cross() {
    let vector1 = from_ints(1, 2, 3);
    let vector2 = from_ints(1, 5, 7);
    let result = vector1.cross(vector2);
    let expected = from_ints(-1, -4, 3);
    assert!(approx_vec3(expected, result, 1));
}

#[test]
fn to_rgb() {
    let vector = from_ints(-1, 2, 300);
    let result = vector.to_rgb();
    let expected = (0u8, 2u8, 255u8);
    assert_eq!(expected, result);
}

#[test]
fn add_negate_gives_zero() {
    let a = Vec3::new(Fixed::from_scaled(15000), Fixed::from_int(-2), Fixed::from_scaled(32500));
    let result = a.add(a.negate());
    assert_eq!(result, from_ints(0, 0, 0));
}

#[test]
fn addition_commutes() {
    let a = Vec3::new(Fixed::from_scaled(15000), Fixed::from_int(-2), Fixed::from_scaled(32500));
    let b = from_ints(4, 5, 6);
    assert_eq!(a.add(b), b.add(a));
}

#[test]
fn subtraction_is_addition_of_negation() {
    let a = Vec3::new(Fixed::from_scaled(15000), Fixed::from_int(-2), Fixed::from_scaled(32500));
    let b = Vec3::new(Fixed::from_int(4), Fixed::from_scaled(-55000), Fixed::from_int(6));
    assert_eq!(a.subtract(b), a.add(b.negate()));
}

#[test]
fn scaling_commutes() {
    let a = Vec3::new(Fixed::from_scaled(15000), Fixed::from_int(-2), Fixed::from_scaled(3));
    let k = Fixed::from_scaled(25000);
    assert_eq!(scale(k, a), a.scale(k));
}

#[test]
fn cross_anti_commutes() {
    let a = from_ints(1, 2, 3);
    let b = from_ints(1, 5, 7);
    assert_eq!(a.cross(b), b.cross(a).negate());
    assert_eq!(a.cross(b), from_ints(-1, -4, 3));
}

#[test]
fn length_squared_near_square_of_length() {
    let a = from_ints(3, 4, 5);
    let l: i128 = a.length().raw as i128;
    let q: i128 = a.length_squared().raw as i128;
    // l is the floor square root of q * 10000, so its square undershoots
    // by at most 2 * l.
    assert!(l * l <= q * 10000);
    assert!(q * 10000 - l * l <= 2 * l);
}

#[test]
fn division_truncates_toward_zero() {
    let third = Fixed::from_int(1).divide(Fixed::from_int(3));
    assert_eq!(third.raw, 3333);
    let negative_third = Fixed::from_int(-1).divide(Fixed::from_int(3));
    assert_eq!(negative_third.raw, -3333);
    let v = from_ints(1, 2, 3).divide(Fixed::from_int(-2));
    assert_eq!(v, Vec3::new(Fixed::from_scaled(-5000), Fixed::from_int(-1),
        Fixed::from_scaled(-15000)));
}

#[test]
fn color_boundaries() {
    let v = Vec3::new(Fixed::from_scaled(2549999), Fixed::from_scaled(2550001),
        Fixed::from_scaled(-1));
    assert_eq!(v.to_rgb(), (254u8, 255u8, 0u8));
    let w = Vec3::new(Fixed::from_int(255), Fixed::from_scaled(9999), Fixed::from_int(0));
    assert_eq!(w.to_rgb(), (255u8, 0u8, 0u8));
}
