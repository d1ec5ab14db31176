//! Whole-pipeline scenarios on synthetic biphase-mark sample streams.

use ltc_decoder::bit_decoder::{BitDecoder, BitVal};
use ltc_decoder::threshold_cross_detector::BitDecoder as CrossingDecoder;
use ltc_decoder::ltc_decoder::LtcDecoder;
use ltc_decoder::ltc_frame_data::LtcFrameData;
use ltc_decoder::{FramesPerSecond, TimecodeFrame};

/// Encodes a bit sequence as a biphase-mark square wave at 48 kHz and
/// 2000 bit/s: exactly 24 samples per bit, a transition at every bit
/// boundary and one more in the middle of every "1".
fn encode_biphase_48k(bits: &[bool], amp: i32) -> Vec<i32> {
    let mut out = Vec::new();
    let mut level = false;
    for &bit in bits {
        level = !level;
        for i in 0..24 {
            if bit && i == 12 {
                level = !level;
            }
            out.push(if level { amp } else { -amp });
        }
    }
    out
}

/// The stream a decoder can be expected to reproduce: a tail of the
/// encoded bits, since calibration and lock consume the first few.
fn assert_is_tail(decoded: &[bool], encoded: &[bool], at_least: usize) {
    assert!(decoded.len() >= at_least, "decoded only {} bits", decoded.len());
    assert!(decoded.len() <= encoded.len());
    let offset = encoded.len() - decoded.len();
    assert_eq!(&encoded[offset..], decoded);
}

#[test]
fn test_biphase_decodes_bit_sequence() {
    // A clean stream decodes to exactly the encoded bit sequence, from
    // the point where the decoder has calibrated and locked on.
    let mut bits = vec![false; 14];
    let pattern = [
        true, false, true, true, false, false, true, false, true, true, true, false, false,
        false, true, false, true, false, false, true, true, true, true, false, true, false,
    ];
    bits.extend_from_slice(&pattern);
    // a terminator bit whose leading transition completes the last bit
    let mut stream_bits = bits.clone();
    stream_bits.push(false);
    let samples = encode_biphase_48k(&stream_bits, 10000);
    let mut decoder = BitDecoder::<i32>::new(48000);
    let mut decoded: Vec<bool> = Vec::new();
    for s in samples {
        match decoder.get_bit(s) {
            BitVal::True => decoded.push(true),
            BitVal::False => decoded.push(false),
            BitVal::NoBit => {}
            BitVal::Invalid => panic!("clean stream must not look illegal"),
        }
    }
    assert_is_tail(&decoded, &bits, pattern.len());
}

#[test]
fn test_biphase_recovers_after_illegal_transition() {
    // One illegal short transition forces a resynchronization gap, after
    // which decoding resumes correctly on the clean remainder.
    let mut bits = vec![false; 14];
    let head = [true, false, true, true, false, false, true, false];
    bits.extend_from_slice(&head);
    let corrupt_at = bits.len();
    // enough zeroes after the glitch for recalibration and a new lock,
    // then a recognizable pattern
    bits.extend_from_slice(&[false; 16]);
    let tail_pattern = [
        true, true, false, true, false, false, true, true, false, false, true, false, true,
    ];
    bits.extend_from_slice(&tail_pattern);
    let mut stream_bits = bits.clone();
    stream_bits.push(false);
    let mut samples = encode_biphase_48k(&stream_bits, 10000);
    // poke a short spurious pulse into the middle of a zero bit
    let glitch = corrupt_at * 24 + 10;
    for sample in samples.iter_mut().skip(glitch).take(3) {
        *sample = -*sample;
    }
    let mut decoder = BitDecoder::<i32>::new(48000);
    let mut saw_invalid = false;
    let mut decoded_after: Vec<bool> = Vec::new();
    for s in samples {
        match decoder.get_bit(s) {
            BitVal::True => decoded_after.push(true),
            BitVal::False => decoded_after.push(false),
            BitVal::NoBit => {}
            BitVal::Invalid => {
                saw_invalid = true;
                decoded_after.clear();
            }
        }
    }
    assert!(saw_invalid, "the spurious pulse must be flagged illegal");
    assert_is_tail(&decoded_after, &bits, tail_pattern.len());
}

/// Appends the 80 bits of one LTC frame — 64 payload bits for the given
/// timecode, then the sync word — to a bit stream.
fn push_frame_bits(bits: &mut Vec<bool>, t: &TimecodeFrame) {
    let mut payload = LtcFrameData::new_empty();
    payload.set_frames(t.frames);
    payload.set_seconds(t.seconds);
    payload.set_minutes(t.minutes);
    payload.set_hours(t.hours);
    for i in 0..64 {
        bits.push(payload.get_field(i, 1) == 1);
    }
    let sync: [u8; 16] = [0, 0, 1, 1, 1, 1, 1, 1, 1, 1, 1, 1, 1, 1, 0, 1];
    for b in sync {
        bits.push(b == 1);
    }
}

/// Encodes a bit sequence as biphase mark at 44.1 kHz and 2000 bit/s:
/// 22.05 samples per bit on average, with boundaries laid on the exact
/// rational grid as a real audio recording would have them.
fn encode_biphase_44k1(bits: &[bool], amp: i32) -> Vec<i32> {
    let mut out = Vec::new();
    let mut level = false;
    for (g, &bit) in bits.iter().enumerate() {
        let start = g * 441 / 20;
        let end = (g + 1) * 441 / 20;
        let mid = (2 * g + 1) * 441 / 40;
        level = !level;
        for pos in start..end {
            if bit && pos == mid {
                level = !level;
            }
            out.push(if level { amp } else { -amp });
        }
    }
    out
}

#[test]
fn test_end_to_end_two_minutes_25fps() {
    // Two minutes of 25 fps timecode from 00:10:00:00: the decoder locks
    // during the first frame, reports 00:10:00:01 first, every further
    // frame advances the previous one by exactly one, and the stream ends
    // on 00:12:01:00.
    let first_expected = TimecodeFrame::new(0, 10, 0, 1, FramesPerSecond::TwentyFive);
    let last_expected = TimecodeFrame::new(0, 12, 1, 0, FramesPerSecond::TwentyFive);
    let mut bits: Vec<bool> = Vec::new();
    let mut t = TimecodeFrame::new(0, 10, 0, 0, FramesPerSecond::TwentyFive);
    loop {
        push_frame_bits(&mut bits, &t);
        if t == last_expected {
            break;
        }
        t.add_frame();
    }
    let samples = encode_biphase_44k1(&bits, 12000);
    let mut decoder = LtcDecoder::<i32>::new(44100);
    let mut expected = first_expected;
    let mut count = 0usize;
    let mut last_seen = None;
    for s in samples {
        if let Some(tc) = decoder.get_timecode_frame(s) {
            assert_eq!(tc, expected);
            last_seen = Some(tc);
            expected.add_frame();
            count += 1;
        }
    }
    assert_eq!(last_seen, Some(last_expected));
    // every frame after the first encoded one was reported
    assert_eq!(count, 25 * 121);
}

#[test]
fn test_end_to_end_16bit_samples() {
    // The pipeline is generic over the sample width; a short 25 fps run
    // with 16-bit samples decodes the same way.
    let mut bits: Vec<bool> = Vec::new();
    let mut t = TimecodeFrame::new(7, 0, 59, 23, FramesPerSecond::TwentyFive);
    for _ in 0..4 {
        push_frame_bits(&mut bits, &t);
        t.add_frame();
    }
    let samples: Vec<i16> = encode_biphase_44k1(&bits, 9000)
        .into_iter()
        .map(|s| s as i16)
        .collect();
    let mut decoder = LtcDecoder::<i16>::new(44100);
    let mut seen: Vec<TimecodeFrame> = Vec::new();
    for s in samples {
        if let Some(tc) = decoder.get_timecode_frame(s) {
            seen.push(tc);
        }
    }
    assert_eq!(
        seen,
        vec![
            TimecodeFrame::new(7, 0, 59, 24, FramesPerSecond::TwentyFive),
            TimecodeFrame::new(7, 1, 0, 0, FramesPerSecond::TwentyFive),
            TimecodeFrame::new(7, 1, 0, 1, FramesPerSecond::TwentyFive),
        ]
    );
}

#[test]
fn test_crossing_decoder_decodes_bit_sequence() {
    // The crossing-length strategy decodes the same clean stream: it
    // learns the half and full lengths from the first "1", falls into
    // step at the next "0", and reproduces the bits from there on.
    let mut bits = vec![false; 15];
    bits.push(true);
    let pattern = [
        false, true, true, false, false, true, false, true, true, true, false, false, true,
        false, false, true, true, false,
    ];
    bits.extend_from_slice(&pattern);
    let mut stream_bits = bits.clone();
    stream_bits.push(false);
    let samples = encode_biphase_48k(&stream_bits, 8000);
    let mut decoder = CrossingDecoder::<i32>::new();
    let mut decoded: Vec<bool> = Vec::new();
    for s in samples {
        match decoder.get_bit(s) {
            BitVal::True => decoded.push(true),
            BitVal::False => decoded.push(false),
            BitVal::NoBit => {}
            BitVal::Invalid => panic!("clean stream must not look illegal"),
        }
    }
    assert_is_tail(&decoded, &bits, pattern.len());
}
