use entangled::math::{narrow, wide_product, Scalar, Transform, Vector, HALF, ONE, PI};

fn s(raw: i64) -> Scalar {
    Scalar::from_raw(raw)
}

#[test]
fn whole_numbers_are_millions_of_steps() {
    assert_eq!(Scalar::from_int(5).raw(), 5_000_000);
    assert_eq!(Scalar::from_int(-3).raw(), -3_000_000);
    assert_eq!(Scalar::from_int(0), Scalar::zero());
    assert_eq!(ONE, 1_000_000);
    assert_eq!(HALF * 2, ONE);
    assert_eq!(PI, 3_141_593);
}

#[test]
fn sums_stop_at_the_bounds() {
    assert_eq!(s(1_500_000).sat_add(s(2_250_000)), s(3_750_000));
    assert_eq!(s(i64::MAX).sat_add(s(1)), s(i64::MAX));
    assert_eq!(s(i64::MIN).sat_add(s(-1)), s(i64::MIN));
    assert_eq!(s(i64::MAX).sat_add(s(i64::MIN)), s(-1));
}

#[test]
fn products_are_truncated_toward_zero() {
    // 1.5 * 2.5 = 3.75
    assert_eq!(s(1_500_000).sat_mul(s(2_500_000)), s(3_750_000));
    // 0.000001 * 0.9 = 0.0000009, which is dropped
    assert_eq!(s(1).sat_mul(s(900_000)), s(0));
    assert_eq!(s(-1).sat_mul(s(900_000)), s(0));
    // 0.000003 * 0.5 = 0.0000015 -> 0.000001, on both sides of zero
    assert_eq!(s(3).sat_mul(s(500_000)), s(1));
    assert_eq!(s(-3).sat_mul(s(500_000)), s(-1));
    assert_eq!(s(3).sat_mul(s(-500_000)), s(-1));
}

#[test]
fn products_stop_at_the_bounds() {
    assert_eq!(s(i64::MAX).sat_mul(s(2 * ONE)), s(i64::MAX));
    assert_eq!(s(i64::MAX).sat_mul(s(-2 * ONE)), s(i64::MIN));
    assert_eq!(s(i64::MIN).sat_mul(s(i64::MIN)), s(i64::MAX));
    assert_eq!(s(i64::MIN).sat_mul(s(-ONE)), s(i64::MAX));
}

#[test]
fn quotients_are_truncated_toward_zero() {
    assert_eq!(s(5_000_000).div_int(10), s(500_000));
    assert_eq!(s(7).div_int(2), s(3));
    assert_eq!(s(-7).div_int(2), s(-3));
    assert_eq!(s(i64::MIN).div_int(1), s(i64::MIN));
}

#[test]
fn rounding_goes_to_the_nearest_whole_number() {
    assert_eq!(s(1_499_999).round(), s(1_000_000));
    assert_eq!(s(1_500_000).round(), s(2_000_000));
    assert_eq!(s(-1_499_999).round(), s(-1_000_000));
    assert_eq!(s(-1_500_000).round(), s(-2_000_000));
    assert_eq!(s(499_999).round(), s(0));
    assert_eq!(s(-499_999).round(), s(0));
    assert_eq!(s(10_000_000).round(), s(10_000_000));
}

#[test]
fn rounding_stops_at_the_bounds() {
    assert_eq!(s(i64::MAX).round(), s(i64::MAX));
    assert_eq!(s(i64::MIN).round(), s(i64::MIN));
}

#[test]
fn magnitude_of_the_least_number_stops_at_the_upper_bound() {
    assert_eq!(s(-5).abs(), s(5));
    assert_eq!(s(5).abs(), s(5));
    assert_eq!(s(i64::MIN).abs(), s(i64::MAX));
}

#[test]
fn max_picks_the_larger() {
    assert_eq!(s(2).max(s(3)), s(3));
    assert_eq!(s(-2).max(s(-3)), s(-2));
}

#[test]
fn narrowing_stops_at_the_bounds() {
    assert_eq!(narrow(i64::MAX as i128 + 1), i64::MAX);
    assert_eq!(narrow(i64::MIN as i128 - 1), i64::MIN);
    assert_eq!(narrow(-42), -42);
    assert_eq!(wide_product(i64::MIN, i64::MIN), (i64::MIN as i128) * (i64::MIN as i128));
}

#[test]
fn a_fresh_transform_is_not_stretched() {
    let at = Vector::new(s(3), s(4));
    let t = Transform::from_translation(at);
    assert_eq!(t.translation, at);
    assert_eq!(t.scale, Vector::new(s(ONE), s(ONE)));
    assert_eq!(Vector::zero(), Vector::new(s(0), s(0)));
}
