//! The frame register, the bit-field codec and the timecode model on
//! concrete values.

use ltc_decoder::ltc_frame::LtcFrame;
use ltc_decoder::ltc_frame_data::LtcFrameData;
use ltc_decoder::sample::Sample;
use ltc_decoder::sample_rater::{
    max_sample_count_for_bit, max_sample_count_for_halfbit, min_sample_count_for_bit,
    min_sample_count_for_halfbit,
};
use ltc_decoder::zero_detector::ZeroDetector;
use ltc_decoder::{FramesPerSecond, TimecodeFrame};

#[test]
fn test_shift_bit() {
    let mut f = LtcFrame::new_raw(
        0b_1000_0000_0010_0010,
        0b_1000_0000_0000_0101_0000_0011_0000_1000_0000_0001_0000_0100_0000_0010_0000_1001,
    );
    f.shift_bit(true);
    assert_eq!(
        f,
        LtcFrame::new_raw(
            0b_000_0000_0010_0010_1,
            0b_000_0000_0000_0101_0000_0011_0000_1000_0000_0001_0000_0100_0000_0010_0000_1001_1,
        )
    );
    f.shift_bit(true);
    assert_eq!(
        f,
        LtcFrame::new_raw(
            0b_00_0000_0010_0010_10,
            0b_00_0000_0000_0101_0000_0011_0000_1000_0000_0001_0000_0100_0000_0010_0000_1001_11,
        )
    );
    f.shift_bit(false);
    assert_eq!(
        f,
        LtcFrame::new_raw(
            0b_0_0000_0010_0010_100,
            0b_0_0000_0000_0101_0000_0011_0000_1000_0000_0001_0000_0100_0000_0010_0000_1001_110,
        )
    );
}

#[test]
fn test_shift_register_fifo_pattern() {
    // Eighty alternating bits starting with a one: the sync register ends
    // holding the sixteen oldest pushed bits, the payload register the 64
    // youngest, each register filled like a fixed-width queue.
    let mut f = LtcFrame::new_empty();
    for k in 0..80 {
        f.shift_bit(k % 2 == 0);
    }
    // raw bit 0 of each register is the newest bit, so the alternating
    // stream that starts with a one ends with zeroes in both bit 0 slots
    assert_eq!(f, LtcFrame::new_raw(0xaaaa, 0xaaaa_aaaa_aaaa_aaaa));
}

#[test]
fn test_field_codec_round_trip_digits() {
    // Every in-range digit pair survives encode plus decode exactly.
    for f in 0u8..40 {
        let mut d = LtcFrameData::new_empty();
        d.set_frames(f);
        assert_eq!(d.get_frames(), f);
    }
    for s in 0u8..80 {
        let mut d = LtcFrameData::new_empty();
        d.set_seconds(s);
        assert_eq!(d.get_seconds(), s);
    }
    for m in 0u8..80 {
        let mut d = LtcFrameData::new_empty();
        d.set_minutes(m);
        assert_eq!(d.get_minutes(), m);
    }
    for h in 0u8..40 {
        let mut d = LtcFrameData::new_empty();
        d.set_hours(h);
        assert_eq!(d.get_hours(), h);
    }
}

#[test]
fn test_field_codec_round_trip_combined() {
    // The sixteen fields do not disturb one another.
    let mut d = LtcFrameData::new_empty();
    d.set_hours(23);
    d.set_minutes(59);
    d.set_seconds(47);
    d.set_frames(12);
    for i in 0..8 {
        d.set_user_nibble(i, (i as u8) + 5);
    }
    assert_eq!(d.get_hours(), 23);
    assert_eq!(d.get_minutes(), 59);
    assert_eq!(d.get_seconds(), 47);
    assert_eq!(d.get_frames(), 12);
    for i in 0..8 {
        assert_eq!(d.get_user_nibble(i), (i as u8) + 5);
    }
}

#[test]
fn test_field_codec_truncates_wide_tens() {
    // A tens digit wider than its field is truncated by the field width:
    // 99 frames keep units 9 and tens 9 mod 4.
    let mut d = LtcFrameData::new_empty();
    d.set_frames(99);
    assert_eq!(d.get_frames(), 19);
    let mut d2 = LtcFrameData::new_empty();
    d2.set_hours(99);
    assert_eq!(d2.get_hours(), 19);
    let mut d3 = LtcFrameData::new_empty();
    d3.set_seconds(99);
    assert_eq!(d3.get_seconds(), 19);
    let mut d4 = LtcFrameData::new_empty();
    d4.set_user_nibble(3, 0x37);
    assert_eq!(d4.get_user_nibble(3), 0x7);
}

#[test]
fn test_frame_recognition_repeated() {
    // A sync word followed by 64 payload bits is recognized once per
    // repetition, each time handing out exactly that payload.
    let mut payload = LtcFrameData::new_empty();
    payload.set_hours(1);
    payload.set_minutes(2);
    payload.set_seconds(3);
    payload.set_frames(4);
    payload.set_user_nibble(0, 0xb);
    let sync_bits: [u8; 16] = [0, 0, 1, 1, 1, 1, 1, 1, 1, 1, 1, 1, 1, 1, 0, 1];
    let mut stream: Vec<bool> = Vec::new();
    for _ in 0..3 {
        for b in sync_bits {
            stream.push(b == 1);
        }
        for i in 0..64 {
            stream.push(payload.get_field(i, 1) == 1);
        }
    }
    let mut f = LtcFrame::new_empty();
    let mut events = Vec::new();
    for bit in stream {
        f.shift_bit(bit);
        if let Some((data, _count)) = f.get_data() {
            events.push(data);
        }
    }
    assert_eq!(events.len(), 3);
    for e in events {
        assert_eq!(e, payload);
    }
}

#[test]
fn test_get_data_only_on_sync() {
    let with_sync = LtcFrame::new_raw(0x3ffd, 0x1234_5678_9abc_def0);
    match with_sync.get_data() {
        Some((payload, count)) => {
            assert_eq!(payload, LtcFrameData::new_raw(0x1234_5678_9abc_def0));
            assert_eq!(count, 0);
        }
        None => panic!("sync word must hand the payload out"),
    }
    let without_sync = LtcFrame::new_raw(0x3ffc, 0x1234_5678_9abc_def0);
    assert!(without_sync.get_data().is_none());
}

#[test]
fn test_frame_rate_classification_boundaries() {
    // Payload durations at each nominal rate and one percent off classify
    // correctly; three percent off no longer matches the band.
    let rate = 44100;
    // 25 fps: nominal 0.032 s = 1411 samples
    assert_eq!(
        FramesPerSecond::from_frame_duration_without_syncword(1411, rate),
        FramesPerSecond::TwentyFive
    );
    assert_eq!(
        FramesPerSecond::from_frame_duration_without_syncword(1397, rate),
        FramesPerSecond::TwentyFive
    );
    assert_eq!(
        FramesPerSecond::from_frame_duration_without_syncword(1425, rate),
        FramesPerSecond::TwentyFive
    );
    assert_eq!(
        FramesPerSecond::from_frame_duration_without_syncword(1369, rate),
        FramesPerSecond::Unknown
    );
    // 24 fps: nominal 1/30 s = 1470 samples
    assert_eq!(
        FramesPerSecond::from_frame_duration_without_syncword(1470, rate),
        FramesPerSecond::TwentyFour
    );
    assert_eq!(
        FramesPerSecond::from_frame_duration_without_syncword(1455, rate),
        FramesPerSecond::TwentyFour
    );
    assert_eq!(
        FramesPerSecond::from_frame_duration_without_syncword(1484, rate),
        FramesPerSecond::TwentyFour
    );
    assert_eq!(
        FramesPerSecond::from_frame_duration_without_syncword(1514, rate),
        FramesPerSecond::Unknown
    );
    // 30 fps: nominal 4/150 s = 1176 samples
    assert_eq!(
        FramesPerSecond::from_frame_duration_without_syncword(1176, rate),
        FramesPerSecond::Thirty
    );
    assert_eq!(
        FramesPerSecond::from_frame_duration_without_syncword(1164, rate),
        FramesPerSecond::Thirty
    );
    assert_eq!(
        FramesPerSecond::from_frame_duration_without_syncword(1187, rate),
        FramesPerSecond::Thirty
    );
    assert_eq!(
        FramesPerSecond::from_frame_duration_without_syncword(1140, rate),
        FramesPerSecond::Unknown
    );
    assert_eq!(
        FramesPerSecond::from_frame_duration_without_syncword(1211, rate),
        FramesPerSecond::Unknown
    );
    // a duration far from every band
    assert_eq!(
        FramesPerSecond::from_frame_duration_without_syncword(0, rate),
        FramesPerSecond::Unknown
    );
}

#[test]
fn test_add_frame_rollovers() {
    let mut t = TimecodeFrame::new(0, 59, 59, 24, FramesPerSecond::TwentyFive);
    t.add_frame();
    assert_eq!(t, TimecodeFrame::new(1, 0, 0, 0, FramesPerSecond::TwentyFive));

    let mut t24 = TimecodeFrame::new(3, 10, 5, 23, FramesPerSecond::TwentyFour);
    t24.add_frame();
    assert_eq!(t24, TimecodeFrame::new(3, 10, 6, 0, FramesPerSecond::TwentyFour));

    let mut t30 = TimecodeFrame::new(0, 0, 0, 28, FramesPerSecond::Thirty);
    t30.add_frame();
    assert_eq!(t30, TimecodeFrame::new(0, 0, 0, 29, FramesPerSecond::Thirty));
    t30.add_frame();
    assert_eq!(t30, TimecodeFrame::new(0, 0, 1, 0, FramesPerSecond::Thirty));

    // under an unknown rate the frames digit only counts up
    let mut tu = TimecodeFrame::new(0, 0, 0, 40, FramesPerSecond::Unknown);
    tu.add_frame();
    assert_eq!(tu, TimecodeFrame::new(0, 0, 0, 41, FramesPerSecond::Unknown));
}

#[test]
fn test_new_without_user_bits() {
    let t = TimecodeFrame::new_without_user_bits(1, 2, 3, 4);
    assert_eq!(t.hours, 1);
    assert_eq!(t.minutes, 2);
    assert_eq!(t.seconds, 3);
    assert_eq!(t.frames, 4);
    assert_eq!(t.frames_per_second, FramesPerSecond::Unknown);
    assert_eq!(t.frame_units_user_bits, 0);
    assert_eq!(t.hour_tens_user_bits, 0);
}

#[test]
fn test_sample_trait() {
    check_sample(0i8);
    check_sample(0i16);
    check_sample(0i32);
    check_sample(0i64);
    check_sample(0u8);
    check_sample(0u16);
    check_sample(0u32);
    check_sample(0u64);
}

fn check_sample<T: Sample + PartialEq + std::fmt::Debug>(zero_val: T) {
    assert_eq!(T::zero(), zero_val);
    assert!(zero_val.le(zero_val));
    assert!(!zero_val.lt(zero_val));
    assert_eq!(T::from_wide(zero_val.to_wide()), Some(zero_val));
}

#[test]
fn test_sample_from_wide_ranges() {
    assert_eq!(<i8 as Sample>::from_wide(127), Some(127i8));
    assert_eq!(<i8 as Sample>::from_wide(128), None);
    assert_eq!(<i8 as Sample>::from_wide(-128), Some(-128i8));
    assert_eq!(<i8 as Sample>::from_wide(-129), None);
    assert_eq!(<u16 as Sample>::from_wide(65535), Some(65535u16));
    assert_eq!(<u16 as Sample>::from_wide(65536), None);
    assert_eq!(<u16 as Sample>::from_wide(-1), None);
}

#[test]
fn test_timing_bounds_per_rate() {
    assert_eq!(min_sample_count_for_bit(44100), 15);
    assert_eq!(max_sample_count_for_bit(44100), 25);
    assert_eq!(min_sample_count_for_halfbit(44100), 6);
    assert_eq!(max_sample_count_for_halfbit(44100), 13);
    assert_eq!(min_sample_count_for_bit(48000), 17);
    assert_eq!(max_sample_count_for_bit(48000), 27);
    assert_eq!(min_sample_count_for_halfbit(48000), 7);
    assert_eq!(max_sample_count_for_halfbit(48000), 14);
}

#[test]
fn test_zero_detector_heartbeat() {
    // at 48 kHz a run must last 17 to 27 samples to count as a zero bit
    let mut z = ZeroDetector::new(48000);
    for _ in 0..24 {
        assert!(!z.is_end_of_zero(true));
    }
    assert!(z.is_end_of_zero(false));
    // a run that is too short only resets the search
    let mut z2 = ZeroDetector::new(48000);
    for _ in 0..10 {
        assert!(!z2.is_end_of_zero(true));
    }
    assert!(!z2.is_end_of_zero(false));
    // a run that lasts too long is abandoned without a signal
    let mut z3 = ZeroDetector::new(48000);
    for _ in 0..40 {
        assert!(!z3.is_end_of_zero(true));
    }
}

#[test]
fn test_sample_received_counts_payload_duration() {
    // the counter rests while the register shows a frame is about to
    // start, and counts raw samples otherwise
    let mut waiting = LtcFrame::new_raw(0x3ffd, 0x0000_0000_0000_3ffd);
    for _ in 0..5 {
        waiting.sample_received();
    }
    match waiting.get_data() {
        Some((_, count)) => assert_eq!(count, 0),
        None => panic!("sync word must hand the payload out"),
    }
    let mut counting = LtcFrame::new_raw(0x3ffd, 0x1234_5678_9abc_def0);
    for _ in 0..5 {
        counting.sample_received();
    }
    match counting.get_data() {
        Some((_, count)) => assert_eq!(count, 5),
        None => panic!("sync word must hand the payload out"),
    }
}
