use orbital_sim::orbitals::{
    allowed_orbitals, orbital_to_name, phase_sign, shape, wrap_angle, Shape, FULL_TURN,
};
use orbital_sim::single::Sign;

#[test]
fn every_offered_orbital_has_its_name() {
    let names: Vec<&str> = allowed_orbitals().into_iter().map(orbital_to_name).collect();
    assert_eq!(names, vec!["[-]", "1s", "2s", "2p", "3s", "3p", "3d"]);
}

#[test]
fn unknown_quantum_numbers_have_no_name() {
    assert_eq!(orbital_to_name((4, 0)), "");
    assert_eq!(orbital_to_name((1, 1)), "");
    assert_eq!(orbital_to_name((0, 1)), "");
    assert_eq!(orbital_to_name((255, 255)), "");
}

#[test]
fn shapes_follow_the_quantum_numbers() {
    assert_eq!(shape((1, 0), 0), Some(Shape::OneS));
    assert_eq!(shape((2, 0), 3), Some(Shape::TwoS));
    assert_eq!(shape((2, 1), -1), Some(Shape::TwoP));
    assert_eq!(shape((3, 0), 0), Some(Shape::ThreeS));
    assert_eq!(shape((3, 1), 0), Some(Shape::ThreeP));
    assert_eq!(shape((3, 2), 0), Some(Shape::ThreeDAxial));
    assert_eq!(shape((3, 2), 1), Some(Shape::ThreeDLobed));
    assert_eq!(shape((3, 2), -2), Some(Shape::ThreeDLobed));
}

#[test]
fn the_placeholder_and_unknown_pairs_have_no_shape() {
    assert_eq!(shape((0, 0), 0), None);
    assert_eq!(shape((4, 2), 0), None);
    assert_eq!(shape((2, 2), 0), None);
}

#[test]
fn phase_flag_gives_the_sign() {
    assert_eq!(phase_sign(true), Sign::Positive);
    assert_eq!(phase_sign(false), Sign::Negative);
}

#[test]
fn wrap_angle_brings_angles_into_one_turn() {
    assert_eq!(FULL_TURN, 360_000);
    assert_eq!(wrap_angle(0), 0);
    assert_eq!(wrap_angle(90_000), 90_000);
    assert_eq!(wrap_angle(359_999), 359_999);
    assert_eq!(wrap_angle(360_000), 0);
    assert_eq!(wrap_angle(450_500), 90_500);
    assert_eq!(wrap_angle(-1), 359_999);
    assert_eq!(wrap_angle(-90_000), 270_000);
    assert_eq!(wrap_angle(-360_000), 0);
    assert_eq!(wrap_angle(-720_001), 359_999);
    assert_eq!(wrap_angle(i32::MAX), 2_147_483_647 % 360_000);
    assert_eq!(wrap_angle(i32::MIN), 360_000 - (2_147_483_648i64 % 360_000) as i32);
}

#[test]
fn wrapping_twice_is_wrapping_once() {
    for angle in [i32::MIN, -1_000_000, -360_000, -359_999, -1, 0, 1, 180_000, 360_000, 7_654_321, i32::MAX] {
        let once = wrap_angle(angle);
        assert!((0..360_000).contains(&once));
        assert_eq!(wrap_angle(once), once);
        assert_eq!((i64::from(angle) - i64::from(once)).rem_euclid(360_000), 0);
    }
}
