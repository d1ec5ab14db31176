//! The whole decoding pipeline: one raw sample in, at most one timecode
//! frame out. The bit decoder turns calibrated level transitions into
//! bits, the frame assembler shifts them through the 80-bit register, and
//! a completed frame is decoded into digits and classified by its
//! duration.

use vstd::prelude::*;
use crate::bit_decoder::{bit_invalidated, bit_step, bit_view_wf, BitDecoder, BitDecoderView, BitVal};
use crate::ltc_frame::{
    frame_after_sample, frame_after_shift, frame_cleared, LtcFrame, LtcFrameView,
};
use crate::ltc_frame_data::{
    lemma_seq_val_bound, spec_frames, spec_hours, spec_minutes, spec_seconds, sync_pattern,
};
use crate::sample::Sample;
use crate::sample_rater::{spec_max_half_count, spec_min_half_count};
use crate::{spec_frames_per_second, FramesPerSecond, TimecodeFrame};

verus! {

/// The ghost image of a whole decoder: the frame assembler, the bit
/// decoder, and the sample rate the timing constants were derived from.
#[verifier::ext_equal]
pub ghost struct LtcDecoderView {
    pub frame: LtcFrameView,
    pub bit: BitDecoderView,
    pub rate: int,
}

/// The timecode value a completed frame's payload bits decode to, with
/// the rate classification of the observed payload duration.
pub open spec fn frame_timecode(data: Seq<bool>, count: nat, rate: int) -> TimecodeFrame {
    TimecodeFrame {
        hours: spec_hours(data) as u8,
        minutes: spec_minutes(data) as u8,
        seconds: spec_seconds(data) as u8,
        frames: spec_frames(data) as u8,
        frames_per_second: spec_frames_per_second(count as int, rate),
        frame_units_user_bits: 0,
        frame_tens_user_bits: 0,
        second_units_user_bits: 0,
        second_tens_user_bits: 0,
        minute_units_user_bits: 0,
        minute_tens_user_bits: 0,
        hour_units_user_bits: 0,
        hour_tens_user_bits: 0,
    }
}

/// One step of the whole decoder on a raw sample. The frame assembler
/// counts the sample first; the sample then runs through the bit decoder.
/// An illegal transition resets frame registers and bit decoder alike. A
/// completed bit is shifted into the register, and the step emits a
/// timecode exactly when that shift leaves the sync word in the sync
/// register.
pub open spec fn decoder_step(v: LtcDecoderView, s: int) -> (LtcDecoderView, Option<
    TimecodeFrame,
>) {
    let f1 = frame_after_sample(v.frame);
    let stepped = bit_step(v.bit, s);
    match stepped.1 {
        BitVal::NoBit => (LtcDecoderView { frame: f1, bit: stepped.0, ..v }, Option::None),
        BitVal::Invalid => (
            LtcDecoderView { frame: frame_cleared(), bit: bit_invalidated(stepped.0), ..v },
            Option::None,
        ),
        BitVal::True => decoder_emit(v, f1, stepped.0, true),
        BitVal::False => decoder_emit(v, f1, stepped.0, false),
    }
}

/// The tail of a decoder step once a bit has completed: shift it in and
/// emit the assembled frame if the sync register now holds the sync word.
pub open spec fn decoder_emit(
    v: LtcDecoderView,
    f1: LtcFrameView,
    bit: BitDecoderView,
    value: bool,
) -> (LtcDecoderView, Option<TimecodeFrame>) {
    let f2 = frame_after_shift(f1, value);
    let out = LtcDecoderView { frame: f2, bit, ..v };
    if f2.sync == sync_pattern() {
        (out, Option::Some(frame_timecode(f2.data, f2.count, v.rate)))
    } else {
        (out, Option::None)
    }
}

/// Decodes linear timecode from a stream of raw audio samples.
pub struct LtcDecoder<T: Sample> {
    ltc_frame: LtcFrame,
    bit_decoder: BitDecoder<T>,
    sampling_rate: u32,
}

impl<T: Sample> View for LtcDecoder<T> {
    type V = LtcDecoderView;

    closed spec fn view(&self) -> LtcDecoderView {
        LtcDecoderView {
            frame: self.ltc_frame@,
            bit: self.bit_decoder@,
            rate: self.sampling_rate as int,
        }
    }
}

impl<T: Sample> LtcDecoder<T> {
    /// The structural invariant: the bit decoder's own invariant.
    pub open spec fn wf(self) -> bool {
        bit_view_wf(self@.bit)
    }

    /// A decoder for the given sample rate; the rate must let a half bit
    /// last at least two samples, which every common audio rate does.
    pub fn new(sampling_rate: u32) -> (r: Self)
        requires
            sampling_rate >= 9861,
        ensures
            r.wf(),
            r@.rate == sampling_rate as int,
            r@.frame == crate::ltc_frame::frame_cleared(),
            !r@.bit.in_sync,
            !r@.bit.bounds.valid,
            r@.bit.min_half == spec_min_half_count(sampling_rate as int),
            r@.bit.max_half == spec_max_half_count(sampling_rate as int),
    {
        let r = LtcDecoder {
            ltc_frame: LtcFrame::new_empty(),
            bit_decoder: BitDecoder::new(sampling_rate),
            sampling_rate,
        };
        proof {
            assert(r@.frame =~= crate::ltc_frame::frame_cleared());
        }
        r
    }

    /// Pushes one received audio sample; from time to time a completed
    /// timecode frame is returned.
    pub fn get_timecode_frame(&mut self, sample: T) -> (r: Option<TimecodeFrame>)
        requires
            old(self).wf(),
        ensures
            final(self).wf(),
            final(self)@ =~= decoder_step(old(self)@, sample.sample_int()).0,
            r == decoder_step(old(self)@, sample.sample_int()).1,
    {
        self.ltc_frame.sample_received();
        match self.bit_decoder.get_bit(sample) {
            BitVal::NoBit => {
                return Option::None;
            },
            BitVal::Invalid => {
                self.invalidate();
                return Option::None;
            },
            BitVal::True => {
                self.ltc_frame.shift_bit(true);
            },
            BitVal::False => {
                self.ltc_frame.shift_bit(false);
            },
        }
        if let Option::Some((data, samples_for_frame)) = self.ltc_frame.get_data() {
            proof {
                lemma_seq_val_bound(data@.subrange(0, 4));
                lemma_seq_val_bound(data@.subrange(8, 10));
                lemma_seq_val_bound(data@.subrange(16, 20));
                lemma_seq_val_bound(data@.subrange(24, 27));
                lemma_seq_val_bound(data@.subrange(32, 36));
                lemma_seq_val_bound(data@.subrange(40, 43));
                lemma_seq_val_bound(data@.subrange(48, 52));
                lemma_seq_val_bound(data@.subrange(56, 58));
                vstd::arithmetic::power2::lemma2_to64();
            }
            Option::Some(data.make_ltc_frame(samples_for_frame, self.sampling_rate))
        } else {
            Option::None
        }
    }

    /// Resets the frame registers and the bit decoder after unexpected
    /// data, so that decoding resynchronizes on the heartbeat.
    fn invalidate(&mut self)
        requires
            crate::bit_decoder::bit_consts_wf(old(self)@.bit),
        ensures
            final(self).wf(),
            final(self)@ =~= (LtcDecoderView {
                frame: frame_cleared(),
                bit: bit_invalidated(old(self)@.bit),
                ..old(self)@
            }),
    {
        self.ltc_frame.invalidate();
        self.bit_decoder.invalidate();
    }
}



} // verus!
