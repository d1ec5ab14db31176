//! The crossing-length approximation tests on concrete distances.

use ltc_decoder::threshold_cross_detector::ThresholdCross;
use ltc_decoder::threshold_cross_detector::ThresholdCrossState;

#[test]
fn test_testing() {}

#[test]
fn bit_decoder_test_is_approx_half() {
    assert!(ThresholdCrossState::is_approx_half(100, 200));
    assert!(ThresholdCrossState::is_approx_half(80, 200));
    assert!(ThresholdCrossState::is_approx_half(120, 200));
    assert!(!ThresholdCrossState::is_approx_half(150, 200));
    assert!(!ThresholdCrossState::is_approx_half(50, 200));

    assert!(ThresholdCrossState::is_approx_half(11, 25));
    assert!(ThresholdCrossState::is_approx_half(12, 23));
}

#[test]
fn bit_decoder_test_is_approx_double() {
    assert!(ThresholdCrossState::is_approx_double(200, 100));
    assert!(ThresholdCrossState::is_approx_double(200, 80));
    assert!(ThresholdCrossState::is_approx_double(200, 120));
    assert!(!ThresholdCrossState::is_approx_double(200, 150));
    assert!(!ThresholdCrossState::is_approx_double(200, 50));
}

#[test]
fn threshold_cross_detector_test_is_approx_half() {
    assert!(ThresholdCrossState::is_approx_half(100, 200));
    assert!(ThresholdCrossState::is_approx_half(80, 200));
    assert!(ThresholdCrossState::is_approx_half(120, 200));
    assert!(!ThresholdCrossState::is_approx_half(150, 200));
    assert!(!ThresholdCrossState::is_approx_half(50, 200));

    assert!(ThresholdCrossState::is_approx_half(11, 25));
    assert!(ThresholdCrossState::is_approx_half(12, 23));
}

#[test]
fn threshold_cross_detector_test_is_approx_double() {
    assert!(ThresholdCrossState::is_approx_double(200, 100));
    assert!(ThresholdCrossState::is_approx_double(200, 80));
    assert!(ThresholdCrossState::is_approx_double(200, 120));
    assert!(!ThresholdCrossState::is_approx_double(200, 150));
    assert!(!ThresholdCrossState::is_approx_double(200, 50));
}

#[test]
fn test_is_approx_same_bounds() {
    assert!(ThresholdCrossState::is_approx_same(100, 100));
    assert!(ThresholdCrossState::is_approx_same(80, 100));
    assert!(ThresholdCrossState::is_approx_same(125, 100));
    assert!(!ThresholdCrossState::is_approx_same(79, 100));
    assert!(!ThresholdCrossState::is_approx_same(126, 100));
}

#[test]
fn test_from_cross_size_learns_lengths() {
    let mut s = ThresholdCrossState::new();
    // the first distance is held as the unknown length
    assert_eq!(s.from_cross_size(24), ThresholdCross::NoCross);
    // a repeat of it learns nothing
    assert_eq!(s.from_cross_size(25), ThresholdCross::NoCross);
    // half of it fixes both lengths and reads as a short crossing
    assert_eq!(s.from_cross_size(12), ThresholdCross::Short);
    // from now on distances are read against the learned lengths
    assert_eq!(s.from_cross_size(23), ThresholdCross::Long);
    assert_eq!(s.from_cross_size(11), ThresholdCross::Short);
    assert_eq!(s.from_cross_size(17), ThresholdCross::Invalid);
}
