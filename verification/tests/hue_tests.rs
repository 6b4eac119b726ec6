use iro::hue::{atan2_deg, cos_milli, hue_diff, hue_dist, pull_toward, rotate_hue, sin_milli};

#[test]
fn wraparound_difference_is_twenty_not_340() {
    assert_eq!(hue_diff(350, 10), -20);
    assert_eq!(hue_diff(10, 350), 20);
    assert_eq!(hue_dist(350, 10), 20);
    assert_eq!(hue_dist(10, 350), 20);
}

#[test]
fn difference_is_normalized_into_half_open_window() {
    assert_eq!(hue_diff(0, 180), 180);
    assert_eq!(hue_diff(180, 0), 180);
    assert_eq!(hue_diff(90, 90), 0);
    assert_eq!(hue_diff(0, 359), 1);
    assert_eq!(hue_diff(359, 0), -1);
}

#[test]
fn rotation_wraps_both_ways() {
    assert_eq!(rotate_hue(350, 20), 10);
    assert_eq!(rotate_hue(10, -20), 350);
    assert_eq!(rotate_hue(0, 360), 0);
    assert_eq!(rotate_hue(180, -360), 180);
}

#[test]
fn pull_moves_the_short_way() {
    // from 350 toward 10 the short way is +20 degrees; half of it is +10
    assert_eq!(pull_toward(350, 10, 50), 0);
    // from 10 toward 350 the short way is -20 degrees
    assert_eq!(pull_toward(10, 350, 50), 0);
    assert_eq!(pull_toward(100, 100, 40), 100);
    assert_eq!(pull_toward(0, 180, 100), 180);
}

#[test]
fn sine_and_cosine_fixed_points() {
    assert_eq!(sin_milli(0), 0);
    assert_eq!(sin_milli(90), 1000);
    assert_eq!(sin_milli(30), 500);
    assert_eq!(sin_milli(270), -1000);
    assert_eq!(cos_milli(0), 1000);
    assert_eq!(cos_milli(180), -1000);
}

#[test]
fn arctangent_quadrants() {
    assert_eq!(atan2_deg(0, 1000), 0);
    assert_eq!(atan2_deg(1000, 0), 90);
    assert_eq!(atan2_deg(1000, 1000), 44);
    assert_eq!(atan2_deg(-1000, 0), 270);
    assert_eq!(atan2_deg(-5, 1000), 0);
    assert_eq!(atan2_deg(0, -1000), 180);
}
