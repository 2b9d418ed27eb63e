use vec3math::fixed::Fixed;
use vec3math::vector::Vec3;

fn from_ints(x: i64, y: i64, z: i64) -> Vec3 {
    Vec3::new(Fixed::from_int(x), Fixed::from_int(y), Fixed::from_int(z))
}

#[test]
fn sum_displays_as_its_components() {
    let a = from_ints(1, 2, 3);
    let b = from_ints(4, 5, 6);
    assert_eq!(a.add(b).to_display_string(), "(5, 7, 9)");
}

#[test]
fn difference_displays_with_signs() {
    let a = from_ints(1, 2, 3);
    let b = from_ints(4, 5, 6);
    assert_eq!(a.subtract(b).to_display_string(), "(-3, -3, -3)");
}

#[test]
fn fractions_display_without_trailing_zeros() {
    let v = Vec3::new(Fixed::from_int(12), Fixed::from_scaled(135000), Fixed::from_int(15));
    let q = v.divide(Fixed::from_int(3));
    assert_eq!(q.to_display_string(), "(4, 4.5, 5)");
}

#[test]
fn scalar_display_covers_signs_and_fractions() {
    assert_eq!(Fixed::from_int(0).to_display_string(), "0");
    assert_eq!(Fixed::from_scaled(2500).to_display_string(), "0.25");
    assert_eq!(Fixed::from_scaled(-2500).to_display_string(), "-0.25");
    assert_eq!(Fixed::from_scaled(1).to_display_string(), "0.0001");
    assert_eq!(Fixed::from_scaled(-102030).to_display_string(), "-10.203");
    assert_eq!(Fixed::from_int(1234567).to_display_string(), "1234567");
}
