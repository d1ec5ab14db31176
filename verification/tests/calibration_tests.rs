//! Amplitude calibration behavior over concrete sample windows.

use ltc_decoder::sample_bounds::SampleBounds;

#[test]
fn bit_decoder_test_recalculate_threshold() {
    let mut b = SampleBounds::<i32>::new();
    b.max_value = 12;
    b.min_value = -8;
    b.recalculate_threshold();
    assert_eq!(b.threshold, 2);
}

#[test]
fn bit_decoder_test_recalculate() {
    let mut b = SampleBounds::<i32>::new();
    assert!(!b.valid);
    let mut samples = [0; 255];
    samples[102] = 234;
    samples[23] = -1;
    for sample in samples {
        b.push_sample(sample);
    }
    assert_eq!(b.max_value, 234);
    assert_eq!(b.min_value, -1);
    assert_eq!(b.threshold, 117);
    assert!(b.valid)
}

#[test]
fn sample_bounds_test_recalculate_threshold() {
    let mut b = SampleBounds::<i32>::new();
    b.max_value = 12;
    b.min_value = -8;
    b.recalculate_threshold();
    assert_eq!(b.threshold, 2);
}

#[test]
fn sample_bounds_test_recalculate() {
    let mut b = SampleBounds::<i32>::new();
    assert!(!b.valid);
    let mut samples = [0; 255];
    samples[102] = 234;
    samples[23] = -1;
    for sample in samples {
        b.push_sample(sample);
    }
    assert_eq!(b.max_value, 234);
    assert_eq!(b.min_value, -1);
    assert_eq!(b.threshold, 117);
    assert!(b.valid)
}

#[test]
fn test_calibration_window_extrema() {
    // Any full window of 255 samples leaves the bounds at the window's
    // exact extrema and the threshold at their midpoint.
    let mut b = SampleBounds::<i16>::new();
    let mut samples = [50i16; 255];
    samples[0] = -300;
    samples[254] = 701;
    samples[77] = 700;
    for sample in samples {
        b.push_sample(sample);
    }
    assert!(b.valid);
    assert_eq!(b.min_value, -300);
    assert_eq!(b.max_value, 701);
    // 701 / 2 + (-300) / 2, both rounded toward zero
    assert_eq!(b.threshold, 200);
}

#[test]
fn test_classification_before_first_window() {
    // The first 254 pushes cannot classify; the 255th can.
    let mut b = SampleBounds::<i32>::new();
    for i in 0..254 {
        let level = if i % 2 == 0 { 100 } else { -100 };
        assert_eq!(b.is_high(level), None);
    }
    let r = b.is_high(100);
    assert_eq!(r, Some(true));
    assert_eq!(b.is_high(-100), Some(false));
    // ties resolve to low: the threshold itself is not high
    assert_eq!(b.is_high(b.threshold), Some(false));
}

#[test]
fn test_invalidate_clears_calibration() {
    let mut b = SampleBounds::<i32>::new();
    for _ in 0..255 {
        b.push_sample(5);
    }
    assert!(b.valid);
    b.invalidate();
    assert!(!b.valid);
    assert_eq!(b.threshold, 0);
    assert_eq!(b.max_value, 0);
    assert_eq!(b.min_value, 0);
}
