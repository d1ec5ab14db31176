//! An alternative bit-recovery strategy that measures the spacing of
//! threshold crossings instead of enforcing legality windows: the time
//! between two crossings is a half bit or a full bit, and a decoder on
//! top pairs half bits into ones and reads full bits as zeroes.

use vstd::prelude::*;
use crate::bit_decoder::BitVal;
use crate::sample::Sample;
use crate::sample_bounds::{
    bounds_after_invalidate, bounds_after_push, bounds_classify, bounds_view_wf, BoundsView,
    SampleBounds,
};

verus! {

/// The saturation cap of the crossing counter: far beyond any real
/// crossing distance, and small enough that the approximation tests
/// cannot overflow.
pub const COUNT_CAP: usize = usize::MAX / 5;

/// What one sample revealed about threshold crossings.
#[derive(Clone, Copy, PartialEq, Eq, Structural, Debug)]
pub enum ThresholdCross {
    /// No crossing ended on this sample.
    NoCross,
    /// A crossing at a distance that fits neither a half nor a full bit.
    Invalid,
    /// A crossing after half a bit: one half of a "1".
    Short,
    /// A crossing after a full bit: a "0".
    Long,
}

/// The ghost image of the crossing-length tracker.
#[verifier::ext_equal]
pub ghost struct CrossStateView {
    pub valid: bool,
    pub unknown_size: int,
    pub half_size: int,
    pub full_size: int,
}

/// Whether `check` is roughly half of `comp`: strictly between a third
/// and two thirds of it.
pub open spec fn approx_half(check: int, comp: int) -> bool {
    comp / 3 < check && check < comp * 2 / 3
}

/// Whether `check` is roughly double `comp`.
pub open spec fn approx_double(check: int, comp: int) -> bool {
    approx_half(comp, check)
}

/// Whether `check` is roughly the same as `comp`: within a fifth of it on
/// either side.
pub open spec fn approx_same(check: int, comp: int) -> bool {
    comp * 4 / 5 <= check && check <= comp * 5 / 4
}

/// A tracker state after a reset: lengths forgotten.
pub open spec fn cross_state_cleared() -> CrossStateView {
    CrossStateView { valid: false, unknown_size: 0, half_size: 0, full_size: 0 }
}

/// One step of the tracker on an observed crossing distance. Until both a
/// half and a full length are known, the first distance is held as
/// unknown, a repeat of it learns nothing, and a distance near half or
/// double of it fixes both lengths at once. Once valid, a distance is
/// read against the two known lengths.
pub open spec fn cross_step(v: CrossStateView, size: int) -> (CrossStateView, ThresholdCross) {
    if !v.valid {
        if v.unknown_size == 0 {
            (CrossStateView { unknown_size: size, ..v }, ThresholdCross::NoCross)
        } else if approx_same(v.unknown_size, size) {
            (v, ThresholdCross::NoCross)
        } else if approx_half(size, v.unknown_size) {
            (
                CrossStateView { half_size: size, full_size: v.unknown_size, valid: true, ..v },
                ThresholdCross::Short,
            )
        } else if approx_double(size, v.unknown_size) {
            (
                CrossStateView { half_size: v.unknown_size, full_size: size, valid: true, ..v },
                ThresholdCross::Long,
            )
        } else {
            (v, ThresholdCross::Invalid)
        }
    } else {
        if approx_same(size, v.full_size) {
            (v, ThresholdCross::Long)
        } else if approx_same(size, v.half_size) {
            (v, ThresholdCross::Short)
        } else {
            (v, ThresholdCross::Invalid)
        }
    }
}

/// Learns how many samples a half bit and a full bit last, and rates
/// every further crossing distance against those lengths.
pub struct ThresholdCrossState {
    valid: bool,
    unknown_size: usize,
    half_size: usize,
    full_size: usize,
}

impl View for ThresholdCrossState {
    type V = CrossStateView;

    closed spec fn view(&self) -> CrossStateView {
        CrossStateView {
            valid: self.valid,
            unknown_size: self.unknown_size as int,
            half_size: self.half_size as int,
            full_size: self.full_size as int,
        }
    }
}

/// The structural invariant of a tracker state: all remembered lengths
/// under the counter cap, so the approximation tests cannot overflow.
pub open spec fn cross_state_wf(v: CrossStateView) -> bool {
    &&& 0 <= v.unknown_size <= COUNT_CAP as int
    &&& 0 <= v.half_size <= COUNT_CAP as int
    &&& 0 <= v.full_size <= COUNT_CAP as int
}

impl ThresholdCrossState {
    /// A fresh tracker that knows no lengths yet.
    pub fn new() -> (r: Self)
        ensures
            r@ =~= cross_state_cleared(),
            cross_state_wf(r@),
    {
        ThresholdCrossState { valid: false, unknown_size: 0, half_size: 0, full_size: 0 }
    }

    /// Rates one observed crossing distance and learns from it while the
    /// lengths are still unknown.
    pub fn from_cross_size(&mut self, size: usize) -> (r: ThresholdCross)
        requires
            cross_state_wf(old(self)@),
            size <= COUNT_CAP,
        ensures
            cross_state_wf(final(self)@),
            final(self)@ =~= cross_step(old(self)@, size as int).0,
            r == cross_step(old(self)@, size as int).1,
    {
        if !self.valid {
            if self.unknown_size == 0 {
                self.unknown_size = size;
                return ThresholdCross::NoCross;
            }
            if Self::is_approx_same(self.unknown_size, size) {
                return ThresholdCross::NoCross;
            }
            if Self::is_approx_half(size, self.unknown_size) {
                self.half_size = size;
                self.full_size = self.unknown_size;
                self.valid = true;
                return ThresholdCross::Short;
            }
            if Self::is_approx_double(size, self.unknown_size) {
                self.half_size = self.unknown_size;
                self.full_size = size;
                self.valid = true;
                return ThresholdCross::Long;
            }
            return ThresholdCross::Invalid;
        }
        if Self::is_approx_same(size, self.full_size) {
            return ThresholdCross::Long;
        }
        if Self::is_approx_same(size, self.half_size) {
            return ThresholdCross::Short;
        }
        ThresholdCross::Invalid
    }

    /// Forgets the learned lengths; they are measured afresh before the
    /// tracker rates crossings again.
    pub fn invalidate(&mut self)
        ensures
            cross_state_wf(final(self)@),
            final(self)@ =~= cross_state_cleared(),
    {
        self.unknown_size = 0;
        self.valid = false;
        self.half_size = 0;
        self.full_size = 0;
    }

    /// Whether a distance is roughly half of a compared one.
    pub fn is_approx_half(check: usize, comp: usize) -> (r: bool)
        requires
            comp <= COUNT_CAP,
        ensures
            r == approx_half(check as int, comp as int),
    {
        let low = comp / 3;
        let high = (comp * 2) / 3;
        check > low && check < high
    }

    /// Whether a distance is roughly double a compared one.
    pub fn is_approx_double(check: usize, comp: usize) -> (r: bool)
        requires
            check <= COUNT_CAP,
        ensures
            r == approx_double(check as int, comp as int),
    {
        Self::is_approx_half(comp, check)
    }

    /// Whether a distance is roughly the same as a compared one.
    pub fn is_approx_same(check: usize, comp: usize) -> (r: bool)
        requires
            comp <= COUNT_CAP,
        ensures
            r == approx_same(check as int, comp as int),
    {
        let low = (comp * 4) / 5;
        let high = (comp * 5) / 4;
        check >= low && check <= high
    }
}

/// The ghost image of a crossing detector: the calibrator, whether a
/// crossing has been seen to count from, the last level (unset until the
/// first classified sample), the samples counted since the last crossing,
/// and the length tracker.
#[verifier::ext_equal]
pub ghost struct CrossDetectorView {
    pub bounds: BoundsView,
    pub counting: bool,
    pub level: Option<bool>,
    pub count: int,
    pub state: CrossStateView,
}

/// A detector state after it resets itself.
pub open spec fn detector_invalidated(v: CrossDetectorView) -> CrossDetectorView {
    CrossDetectorView {
        bounds: bounds_after_invalidate(v.bounds),
        counting: false,
        level: Option::None,
        count: 0,
        state: cross_state_cleared(),
    }
}

/// One step of the crossing detector on a raw sample: calibrate it, then
/// count samples between level changes and hand each finished distance to
/// the length tracker. While the calibrator cannot classify yet, the
/// detector only waits; resetting here would restart the calibration
/// window and starve it forever.
pub open spec fn detector_step(v: CrossDetectorView, s: int) -> (CrossDetectorView, ThresholdCross) {
    let pushed = bounds_after_push(v.bounds, s);
    let vb = CrossDetectorView { bounds: pushed, ..v };
    match bounds_classify(pushed, s) {
        Option::None => (vb, ThresholdCross::NoCross),
        Option::Some(level) => {
            if vb.level is None {
                (CrossDetectorView { level: Option::Some(level), ..vb }, ThresholdCross::NoCross)
            } else {
                let changed = vb.level != Option::Some(level);
                let moved = CrossDetectorView { level: Option::Some(level), ..vb };
                if !moved.counting {
                    if changed {
                        (
                            CrossDetectorView { counting: true, count: 0, ..moved },
                            ThresholdCross::NoCross,
                        )
                    } else {
                        (moved, ThresholdCross::NoCross)
                    }
                } else {
                    let grown = if moved.count < COUNT_CAP as int {
                        moved.count + 1
                    } else {
                        moved.count
                    };
                    if changed {
                        let stepped = cross_step(moved.state, grown);
                        (
                            CrossDetectorView { count: 0, state: stepped.0, ..moved },
                            stepped.1,
                        )
                    } else {
                        (CrossDetectorView { count: grown, ..moved }, ThresholdCross::NoCross)
                    }
                }
            }
        },
    }
}

/// Takes audio samples one after another and reports when the distance
/// between two threshold crossings amounts to a half bit or a full bit.
pub struct ThresholdCrossDetector<T: Sample> {
    sample_bounds: SampleBounds<T>,
    counting: bool,
    is_high: Option<bool>,
    count: usize,
    state: ThresholdCrossState,
}

impl<T: Sample> View for ThresholdCrossDetector<T> {
    type V = CrossDetectorView;

    closed spec fn view(&self) -> CrossDetectorView {
        CrossDetectorView {
            bounds: self.sample_bounds@,
            counting: self.counting,
            level: self.is_high,
            count: self.count as int,
            state: self.state@,
        }
    }
}

/// The structural invariant of a crossing detector state.
pub open spec fn detector_wf(v: CrossDetectorView) -> bool {
    bounds_view_wf(v.bounds) && 0 <= v.count <= COUNT_CAP as int && cross_state_wf(v.state)
}

impl<T: Sample> ThresholdCrossDetector<T> {
    /// A fresh detector: uncalibrated, no crossing seen yet.
    pub fn new() -> (r: Self)
        ensures
            detector_wf(r@),
            !r@.counting,
            r@.level is None,
            r@.count == 0,
            r@.state =~= cross_state_cleared(),
            !r@.bounds.valid,
            r@.bounds.received == 0,
    {
        ThresholdCrossDetector {
            sample_bounds: SampleBounds::new(),
            counting: false,
            is_high: Option::None,
            count: 0,
            state: ThresholdCrossState::new(),
        }
    }

    /// Pushes one raw sample and reports a finished crossing distance, if
    /// this sample finished one.
    pub fn crosses(&mut self, sample: T) -> (r: ThresholdCross)
        requires
            detector_wf(old(self)@),
        ensures
            detector_wf(final(self)@),
            final(self)@ =~= detector_step(old(self)@, sample.sample_int()).0,
            r == detector_step(old(self)@, sample.sample_int()).1,
    {
        match self.sample_bounds.is_high(sample) {
            Option::Some(is_high) => {
                if self.is_high.is_none() {
                    self.is_high = Option::Some(is_high);
                    return ThresholdCross::NoCross;
                }
                let changed = match self.is_high {
                    Option::Some(prev) => prev != is_high,
                    Option::None => false,
                };
                if changed {
                    self.is_high = Option::Some(is_high);
                }
                proof {
                    assert(self.is_high == Option::Some(is_high));
                }
                if !self.counting {
                    if changed {
                        self.counting = true;
                        self.count = 0;
                    }
                    return ThresholdCross::NoCross;
                }
                if self.count < COUNT_CAP {
                    self.count = self.count + 1;
                }
                if changed {
                    let count = self.count;
                    self.count = 0;
                    return self.state.from_cross_size(count);
                }
                ThresholdCross::NoCross
            },
            Option::None => ThresholdCross::NoCross,
        }
    }

    /// Resets the whole detector after unexpected data.
    fn invalidate(&mut self)
        requires
            bounds_view_wf(old(self)@.bounds),
        ensures
            detector_wf(final(self)@),
            final(self)@ =~= detector_invalidated(old(self)@),
    {
        self.counting = false;
        self.is_high = Option::None;
        self.count = 0;
        self.sample_bounds.invalidate();
        self.state.invalidate();
    }
}

/// The pairing state of the crossing-based bit decoder.
#[derive(Clone, Copy, PartialEq, Eq, Structural, Debug)]
pub enum BitDecoderState {
    /// Waiting for a full bit to get in step with the bit grid.
    OutOfSync,
    /// A bit just completed; a half or a full bit may follow.
    BitCompleted,
    /// One half bit received; only its second half may follow.
    HalfBitReceived,
}

/// The ghost image of the crossing-based bit decoder.
#[verifier::ext_equal]
pub ghost struct CrossBitView {
    pub detector: CrossDetectorView,
    pub state: BitDecoderState,
}

/// One step of the crossing-based bit decoder: rate the sample's crossing
/// distance, then pair half bits into ones and read full bits as zeroes.
/// A full bit while half a bit is pending is illegal.
pub open spec fn cross_bit_step(v: CrossBitView, s: int) -> (CrossBitView, BitVal) {
    let stepped = detector_step(v.detector, s);
    let v1 = CrossBitView { detector: stepped.0, ..v };
    match stepped.1 {
        ThresholdCross::NoCross => (v1, BitVal::NoBit),
        ThresholdCross::Invalid => (v1, BitVal::Invalid),
        ThresholdCross::Short => {
            match v.state {
                BitDecoderState::OutOfSync => (v1, BitVal::NoBit),
                BitDecoderState::BitCompleted => (
                    CrossBitView { state: BitDecoderState::HalfBitReceived, ..v1 },
                    BitVal::NoBit,
                ),
                BitDecoderState::HalfBitReceived => (
                    CrossBitView { state: BitDecoderState::BitCompleted, ..v1 },
                    BitVal::True,
                ),
            }
        },
        ThresholdCross::Long => {
            match v.state {
                BitDecoderState::OutOfSync => (
                    CrossBitView { state: BitDecoderState::BitCompleted, ..v1 },
                    BitVal::False,
                ),
                BitDecoderState::BitCompleted => (v1, BitVal::False),
                BitDecoderState::HalfBitReceived => (v1, BitVal::Invalid),
            }
        },
    }
}

/// Reads sample by sample through the crossing detector and emits decoded
/// zeroes and ones.
pub struct BitDecoder<T: Sample> {
    threshold_cross_detector: ThresholdCrossDetector<T>,
    state: BitDecoderState,
}

impl<T: Sample> View for BitDecoder<T> {
    type V = CrossBitView;

    closed spec fn view(&self) -> CrossBitView {
        CrossBitView { detector: self.threshold_cross_detector@, state: self.state }
    }
}

impl<T: Sample> BitDecoder<T> {
    /// The structural invariant: the detector's own invariant.
    pub open spec fn wf(self) -> bool {
        detector_wf(self@.detector)
    }

    /// A fresh decoder, out of step with the bit grid.
    pub fn new() -> (r: Self)
        ensures
            r.wf(),
            r@.state == BitDecoderState::OutOfSync,
            !r@.detector.counting,
            r@.detector.level is None,
    {
        BitDecoder {
            threshold_cross_detector: ThresholdCrossDetector::new(),
            state: BitDecoderState::OutOfSync,
        }
    }

    /// Resets the decoder after the caller saw an illegal crossing.
    pub fn invalidate(&mut self)
        requires
            bounds_view_wf(old(self)@.detector.bounds),
        ensures
            final(self).wf(),
            final(self)@ =~= (CrossBitView {
                detector: detector_invalidated(old(self)@.detector),
                state: BitDecoderState::OutOfSync,
            }),
    {
        self.state = BitDecoderState::OutOfSync;
        self.threshold_cross_detector.invalidate();
    }

    /// Pushes one raw sample and reports whether it completed a bit or
    /// revealed an illegal crossing; after the latter the caller must
    /// call `invalidate`.
    pub fn get_bit(&mut self, sample: T) -> (r: BitVal)
        requires
            old(self).wf(),
        ensures
            final(self).wf(),
            final(self)@ =~= cross_bit_step(old(self)@, sample.sample_int()).0,
            r == cross_bit_step(old(self)@, sample.sample_int()).1,
    {
        match self.threshold_cross_detector.crosses(sample) {
            ThresholdCross::NoCross => BitVal::NoBit,
            ThresholdCross::Invalid => BitVal::Invalid,
            ThresholdCross::Short => {
                match self.state {
                    BitDecoderState::OutOfSync => BitVal::NoBit,
                    BitDecoderState::BitCompleted => {
                        self.state = BitDecoderState::HalfBitReceived;
                        BitVal::NoBit
                    },
                    BitDecoderState::HalfBitReceived => {
                        self.state = BitDecoderState::BitCompleted;
                        BitVal::True
                    },
                }
            },
            ThresholdCross::Long => {
                match self.state {
                    BitDecoderState::OutOfSync => {
                        self.state = BitDecoderState::BitCompleted;
                        BitVal::False
                    },
                    BitDecoderState::BitCompleted => BitVal::False,
                    BitDecoderState::HalfBitReceived => BitVal::Invalid,
                }
            },
        }
    }
}

} // verus!
