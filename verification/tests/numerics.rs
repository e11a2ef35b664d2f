//! Fixed-point numerics: angles, trigonometry, square roots, unit
//! scaling, and the small configuration types.

use dragknife_repath::angle;
use dragknife_repath::math;
use dragknife_repath::types::DragknifeConfig;
use dragknife_repath::types::GCodeAxis;
use dragknife_repath::types::GCodePlane;
use dragknife_repath::types::GCodeState;
use dragknife_repath::types::GCodeUnit;
use dragknife_repath::types::LiftConfig;
use dragknife_repath::vec3::Vec3;

const H: i64 = 3_141_592;
const Q: i64 = 1_570_796;
const ONE: i64 = 1_000_000;

#[test]
fn signed_angle_is_normalized_into_a_half_open_half_turn() {
    assert_eq!(angle::signed_angle(0, Q), -Q);
    assert_eq!(angle::signed_angle(Q, 0), Q);
    assert_eq!(angle::signed_angle(H, 0), -H);
    assert_eq!(angle::signed_angle(0, 0), 0);
    for &a in &[-13_000_000i64, -H, -1, 0, 1, Q, H, 13_000_000] {
        for &b in &[-7_000_000i64, -Q, 0, 3, H] {
            let d = angle::signed_angle(a, b);
            assert!(-H <= d && d < H, "delta {d} out of range");
            // A full turn on either side changes nothing.
            assert_eq!(angle::signed_angle(a + 2 * H, b), d);
            assert_eq!(angle::signed_angle(a, b + 2 * H), d);
        }
    }
}

#[test]
fn sine_and_cosine_are_exact_at_quarter_turns() {
    assert_eq!(angle::sin_fp(0), 0);
    assert_eq!(angle::sin_fp(Q), ONE);
    assert_eq!(angle::sin_fp(H), 0);
    assert_eq!(angle::sin_fp(-Q), -ONE);
    assert_eq!(angle::cos_fp(0), ONE);
    assert_eq!(angle::cos_fp(Q), 0);
    assert_eq!(angle::cos_fp(H), -ONE);
    assert_eq!(angle::cos_fp(-Q), 0);
    for &a in &[-H, -Q / 3, 0, 123_456, Q, H, 2 * H + 17] {
        assert!(angle::sin_fp(a).abs() <= ONE);
        assert!(angle::cos_fp(a).abs() <= ONE);
    }
}

#[test]
fn polar_angle_is_exact_on_axes_and_diagonals() {
    assert_eq!(angle::atan2_fp(0, 5_000_000), 0);
    assert_eq!(angle::atan2_fp(5_000_000, 0), Q);
    assert_eq!(angle::atan2_fp(0, -5_000_000), H);
    assert_eq!(angle::atan2_fp(-5_000_000, 0), -Q);
    assert_eq!(angle::atan2_fp(7_000_000, 7_000_000), 785_398);
    assert_eq!(angle::atan2_fp(-7_000_000, 7_000_000), -785_398);
}

#[test]
fn integer_square_root_brackets_its_argument() {
    assert_eq!(math::isqrt(0), 0);
    assert_eq!(math::isqrt(15), 3);
    assert_eq!(math::isqrt(16), 4);
    assert_eq!(math::isqrt(1_000_000_000_000), 1_000_000);
    let r = math::isqrt(2_000_000_000_000_000_000_000_000);
    assert!(r as u128 * r as u128 <= 2_000_000_000_000_000_000_000_000);
    assert!((r as u128 + 1) * (r as u128 + 1) > 2_000_000_000_000_000_000_000_000);
}

#[test]
fn truncating_division_rounds_toward_zero() {
    assert_eq!(math::mul_div(7, 254, 100), 17);
    assert_eq!(math::mul_div(-7, 254, 100), -17);
    assert_eq!(math::mul_div(50, 254, 100), 127);
    assert_eq!(math::sat_pos(math::MAX_POS + 5), math::MAX_POS);
    assert_eq!(math::sat_pos(-math::MAX_POS - 5), -math::MAX_POS);
    assert_eq!(math::sat_pos(123), 123);
}

#[test]
fn vector_magnitude_and_normalization() {
    let v = Vec3::new(3_000_000, 4_000_000, 0);
    assert_eq!(v.magnitude(), 5_000_000);
    let n = v.normalized();
    assert_eq!((n.x, n.y, n.z), (600_000, 800_000, 0));
    assert_eq!(Vec3::zero().normalized(), Vec3::zero());
    let u = Vec3::unit_angle(0, &GCodePlane::XY);
    assert_eq!((u.x, u.y, u.z), (ONE, 0, 0));
    let u = Vec3::unit_angle(Q, &GCodePlane::XY);
    assert_eq!((u.x, u.y, u.z), (0, ONE, 0));
    let u = Vec3::unit_angle(Q, &GCodePlane::ZX);
    assert_eq!((u.x, u.y, u.z), (ONE, 0, 0));
}

#[test]
fn plane_axes_and_letter_names() {
    assert_eq!(GCodePlane::XY.axis_1().main_name(), 'X');
    assert_eq!(GCodePlane::XY.axis_2().main_name(), 'Y');
    assert_eq!(GCodePlane::XY.axis_3().main_name(), 'Z');
    assert_eq!(GCodePlane::ZX.axis_1().main_name(), 'Z');
    assert_eq!(GCodePlane::ZX.axis_2().main_name(), 'X');
    assert_eq!(GCodePlane::ZX.axis_3().main_name(), 'Y');
    assert_eq!(GCodePlane::YZ.axis_1().main_name(), 'Y');
    assert_eq!(GCodePlane::YZ.axis_2().main_name(), 'Z');
    assert_eq!(GCodePlane::YZ.axis_3().main_name(), 'X');
    assert_eq!(GCodeAxis::X.center_name(), 'I');
    assert_eq!(GCodeAxis::Y.center_name(), 'J');
    assert_eq!(GCodeAxis::Z.center_name(), 'K');
    assert_eq!(GCodeAxis::X.rotation_name(), 'A');
    assert_eq!(GCodeAxis::Y.rotation_name(), 'B');
    assert_eq!(GCodeAxis::Z.rotation_name(), 'C');
}

#[test]
fn unit_factor_scales_values_both_ways() {
    let mm = GCodeState::default();
    assert_eq!(mm.unit_factor(), 100);
    assert_eq!(mm.scale(5_000_000), 5_000_000);
    assert_eq!(mm.unscale(5_000_000), 5_000_000);
    let inches = GCodeState { unit: GCodeUnit::Inches, ..GCodeState::default() };
    assert_eq!(inches.unit_factor(), 254);
    assert_eq!(inches.scale(1_000_000), 2_540_000);
    assert_eq!(inches.unscale(2_540_000), 1_000_000);
}

#[test]
fn default_modal_state() {
    let st = GCodeState::default();
    assert_eq!(st.unit, GCodeUnit::Millimeters);
    assert_eq!(st.plane, GCodePlane::XY);
    assert_eq!(st.feedrate, 3_000_000_000);
}

#[test]
fn lift_policy_computes_heights() {
    let abs = LiftConfig::AbsoluteHeight(7_000_000);
    let rel = LiftConfig::RelativeHeight(2_000_000);
    assert_eq!(abs.calcute_height(3_000_000), 7_000_000);
    assert_eq!(rel.calcute_height(3_000_000), 5_000_000);
    let mut lc = LiftConfig::RelativeHeight(1_000_000);
    *lc.get_height_mut() = 4_000_000;
    assert_eq!(lc, LiftConfig::RelativeHeight(4_000_000));
    assert_eq!(LiftConfig::default(), LiftConfig::RelativeHeight(1_000_000));
}

#[test]
fn config_constructor_keeps_its_fields() {
    let cfg = DragknifeConfig::new(350_000, LiftConfig::AbsoluteHeight(5_000_000), 174_533, 300_000_000);
    assert_eq!(cfg.knife_offset, 350_000);
    assert_eq!(cfg.lift_config, LiftConfig::AbsoluteHeight(5_000_000));
    assert_eq!(cfg.sharp_angle_threshold, 174_533);
    assert_eq!(cfg.swivel_feedrate, 300_000_000);
}
