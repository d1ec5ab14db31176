//! Decoder for SMPTE/EBU linear timecode (LTC) carried as an audio signal.
//!
//! Samples are pushed one at a time; the library calibrates the signal
//! amplitude, locks onto the bit grid of the biphase-mark code, shifts the
//! decoded bits through an 80-bit register and emits a timecode frame each
//! time the 16-bit sync word is recognized.

use vstd::prelude::*;

pub mod bit_decoder;
pub mod ltc_decoder;
pub mod ltc_frame;
pub mod ltc_frame_data;
pub mod sample;
pub mod sample_bounds;
pub mod sample_rater;
pub mod threshold_cross_detector;
pub mod zero_detector;

verus! {

/// A timecode value decoded from one complete LTC frame: the four digit
/// pairs, the rate classification estimated from the frame's duration, and
/// the eight 4-bit user-data nibbles carried beside the digits.
#[derive(Clone, Copy, PartialEq, Eq, Structural, Debug)]
pub struct TimecodeFrame {
    pub hours: u8,
    pub minutes: u8,
    pub seconds: u8,
    pub frames: u8,
    pub frames_per_second: FramesPerSecond,
    pub frame_units_user_bits: u8,
    pub frame_tens_user_bits: u8,
    pub second_units_user_bits: u8,
    pub second_tens_user_bits: u8,
    pub minute_units_user_bits: u8,
    pub minute_tens_user_bits: u8,
    pub hour_units_user_bits: u8,
    pub hour_tens_user_bits: u8,
}

/// Frame-rate classification derived from the observed duration of one
/// frame's payload bits.
#[derive(Clone, Copy, PartialEq, Eq, Structural, Debug)]
pub enum FramesPerSecond {
    Unknown,
    TwentyFour,
    TwentyFive,
    Thirty,
}

/// Number of frames per second under a known classification; `add_frame`
/// uses it as the rollover modulus of the frames digit pair.
pub open spec fn fps_modulus(fps: FramesPerSecond) -> Option<int> {
    match fps {
        FramesPerSecond::Unknown => Option::None,
        FramesPerSecond::TwentyFour => Option::Some(24int),
        FramesPerSecond::TwentyFive => Option::Some(25int),
        FramesPerSecond::Thirty => Option::Some(30int),
    }
}

/// Whether adding one frame to `t` reaches the rollover modulus of its rate.
pub open spec fn tf_rolls(t: TimecodeFrame) -> bool {
    match fps_modulus(t.frames_per_second) {
        Option::Some(m) => t.frames + 1 >= m,
        Option::None => false,
    }
}

/// Seconds value after the frames digit has been advanced, before its own
/// rollover is applied.
pub open spec fn tf_next_seconds(t: TimecodeFrame) -> int {
    if tf_rolls(t) {
        t.seconds + 1
    } else {
        t.seconds as int
    }
}

/// Minutes value after the seconds rollover, before its own rollover.
pub open spec fn tf_next_minutes(t: TimecodeFrame) -> int {
    if tf_next_seconds(t) > 59 {
        t.minutes + 1
    } else {
        t.minutes as int
    }
}

/// Hours value after the minutes rollover; hours carry no modulus of their
/// own.
pub open spec fn tf_next_hours(t: TimecodeFrame) -> int {
    if tf_next_minutes(t) > 59 {
        t.hours + 1
    } else {
        t.hours as int
    }
}

impl TimecodeFrame {
    /// Builds a frame from its four digit pairs and rate classification,
    /// with all user-data nibbles zero.
    pub fn new(
        hours: u8,
        minutes: u8,
        seconds: u8,
        frames: u8,
        frames_per_second: FramesPerSecond,
    ) -> (r: Self)
        ensures
            r.hours == hours,
            r.minutes == minutes,
            r.seconds == seconds,
            r.frames == frames,
            r.frames_per_second == frames_per_second,
            r.frame_units_user_bits == 0,
            r.frame_tens_user_bits == 0,
            r.second_units_user_bits == 0,
            r.second_tens_user_bits == 0,
            r.minute_units_user_bits == 0,
            r.minute_tens_user_bits == 0,
            r.hour_units_user_bits == 0,
            r.hour_tens_user_bits == 0,
    {
        TimecodeFrame {
            hours,
            minutes,
            seconds,
            frames,
            frames_per_second,
            frame_units_user_bits: 0,
            frame_tens_user_bits: 0,
            second_units_user_bits: 0,
            second_tens_user_bits: 0,
            minute_units_user_bits: 0,
            minute_tens_user_bits: 0,
            hour_units_user_bits: 0,
            hour_tens_user_bits: 0,
        }
    }

    /// Builds a frame whose rate is still unknown and whose user-data
    /// nibbles are zero.
    pub fn new_without_user_bits(hours: u8, minutes: u8, seconds: u8, frames: u8) -> (r: Self)
        ensures
            r.hours == hours,
            r.minutes == minutes,
            r.seconds == seconds,
            r.frames == frames,
            r.frames_per_second == FramesPerSecond::Unknown,
            r.frame_units_user_bits == 0,
            r.frame_tens_user_bits == 0,
            r.second_units_user_bits == 0,
            r.second_tens_user_bits == 0,
            r.minute_units_user_bits == 0,
            r.minute_tens_user_bits == 0,
            r.hour_units_user_bits == 0,
            r.hour_tens_user_bits == 0,
    {
        TimecodeFrame::new(hours, minutes, seconds, frames, FramesPerSecond::Unknown)
    }

    /// Advances the timecode by one frame, carrying frames into seconds and
    /// seconds into minutes with modulus 60, and minutes into hours. Under
    /// an `Unknown` rate the frames digit only counts up.
    pub fn add_frame(&mut self)
        requires
            old(self).frames < 255,
            tf_next_seconds(*old(self)) <= 255,
            tf_next_minutes(*old(self)) <= 255,
            tf_next_hours(*old(self)) <= 255,
        ensures
            final(self).frames == if tf_rolls(*old(self)) {
                0int
            } else {
                old(self).frames + 1
            },
            final(self).seconds == if tf_next_seconds(*old(self)) > 59 {
                0int
            } else {
                tf_next_seconds(*old(self))
            },
            final(self).minutes == if tf_next_minutes(*old(self)) > 59 {
                0int
            } else {
                tf_next_minutes(*old(self))
            },
            final(self).hours == tf_next_hours(*old(self)),
            final(self).frames_per_second == old(self).frames_per_second,
            final(self).frame_units_user_bits == old(self).frame_units_user_bits,
            final(self).frame_tens_user_bits == old(self).frame_tens_user_bits,
            final(self).second_units_user_bits == old(self).second_units_user_bits,
            final(self).second_tens_user_bits == old(self).second_tens_user_bits,
            final(self).minute_units_user_bits == old(self).minute_units_user_bits,
            final(self).minute_tens_user_bits == old(self).minute_tens_user_bits,
            final(self).hour_units_user_bits == old(self).hour_units_user_bits,
            final(self).hour_tens_user_bits == old(self).hour_tens_user_bits,
    {
        self.frames = self.frames + 1;
        match self.frames_per_second {
            FramesPerSecond::Unknown => {},
            FramesPerSecond::TwentyFour => {
                if self.frames >= 24 {
                    self.frames = 0;
                    self.seconds = self.seconds + 1;
                }
            },
            FramesPerSecond::TwentyFive => {
                if self.frames >= 25 {
                    self.frames = 0;
                    self.seconds = self.seconds + 1;
                }
            },
            FramesPerSecond::Thirty => {
                if self.frames >= 30 {
                    self.frames = 0;
                    self.seconds = self.seconds + 1;
                }
            },
        }
        if self.seconds > 59 {
            self.seconds = 0;
            self.minutes = self.minutes + 1;
        }
        if self.minutes > 59 {
            self.minutes = 0;
            self.hours = self.hours + 1;
        }
    }
}

/// Whether `sample_count` samples at `sample_rate` Hz last between 98% and
/// 102% of the duration of one frame's 64 payload bits at `fps` frames per
/// second. That nominal duration is `64 / (80 * fps)` seconds, so the band
/// `0.98 * 4 / (5 * fps) < count / rate < 1.02 * 4 / (5 * fps)` is, cleared
/// of fractions, `392 * rate < 500 * fps * count < 408 * rate`.
pub open spec fn in_duration_band(sample_count: int, sample_rate: int, fps: int) -> bool {
    392 * sample_rate < 500 * fps * sample_count && 500 * fps * sample_count < 408 * sample_rate
}

/// The classification `from_frame_duration_without_syncword` returns.
pub open spec fn spec_frames_per_second(sample_count: int, sample_rate: int) -> FramesPerSecond {
    if in_duration_band(sample_count, sample_rate, 24) {
        FramesPerSecond::TwentyFour
    } else if in_duration_band(sample_count, sample_rate, 25) {
        FramesPerSecond::TwentyFive
    } else if in_duration_band(sample_count, sample_rate, 30) {
        FramesPerSecond::Thirty
    } else {
        FramesPerSecond::Unknown
    }
}

/// No duration lies in two of the three tolerance bands at once, so the
/// classification does not depend on the order the bands are tried in.
/// Each neighbouring pair of bands has a gap: the upper edge of the
/// faster rate's band sits below the lower edge of the slower one's.
pub proof fn lemma_duration_bands_disjoint(sample_count: int, sample_rate: int)
    requires
        sample_rate >= 0,
    ensures
        !(in_duration_band(sample_count, sample_rate, 24) && in_duration_band(
            sample_count,
            sample_rate,
            25,
        )),
        !(in_duration_band(sample_count, sample_rate, 24) && in_duration_band(
            sample_count,
            sample_rate,
            30,
        )),
        !(in_duration_band(sample_count, sample_rate, 25) && in_duration_band(
            sample_count,
            sample_rate,
            30,
        )),
{
    let c = sample_count;
    let r = sample_rate;
    assert(392 * r < 500 * 24 * c && 500 * 25 * c < 408 * r ==> false) by (nonlinear_arith)
        requires
            r >= 0,
    ;
    assert(392 * r < 500 * 24 * c && 500 * 30 * c < 408 * r ==> false) by (nonlinear_arith)
        requires
            r >= 0,
    ;
    assert(392 * r < 500 * 25 * c && 500 * 30 * c < 408 * r ==> false) by (nonlinear_arith)
        requires
            r >= 0,
    ;
}

impl FramesPerSecond {
    /// Classifies the observed duration of one frame's payload bits — given
    /// as a sample count at a known sample rate — against the three nominal
    /// payload durations with a 2% tolerance band on each side. A duration
    /// matching none of the bands classifies as `Unknown`.
    pub fn from_frame_duration_without_syncword(sample_count: usize, sample_rate: u32) -> (r:
        FramesPerSecond)
        ensures
            r == spec_frames_per_second(sample_count as int, sample_rate as int),
    {
        if Self::is_in_duration_band(sample_count, sample_rate, 24) {
            FramesPerSecond::TwentyFour
        } else if Self::is_in_duration_band(sample_count, sample_rate, 25) {
            FramesPerSecond::TwentyFive
        } else if Self::is_in_duration_band(sample_count, sample_rate, 30) {
            FramesPerSecond::Thirty
        } else {
            FramesPerSecond::Unknown
        }
    }

    /// One tolerance-band test of `from_frame_duration_without_syncword`,
    /// evaluated in 128-bit arithmetic so that no product can overflow.
    pub fn is_in_duration_band(sample_count: usize, sample_rate: u32, fps: u32) -> (r: bool)
        requires
            fps <= 30,
        ensures
            r == in_duration_band(sample_count as int, sample_rate as int, fps as int),
    {
        let factor: u128 = 500u128 * (fps as u128);
        assert((factor as int) * (sample_count as int) <= 15000 * 0xffff_ffff_ffff_ffffu64)
            by (nonlinear_arith)
            requires
                factor <= 15000,
                sample_count <= 0xffff_ffff_ffff_ffffu64,
        ;
        let scaled: u128 = factor * (sample_count as u128);
        let low: u128 = 392u128 * (sample_rate as u128);
        let high: u128 = 408u128 * (sample_rate as u128);
        low < scaled && scaled < high
    }
}


} // verus!
