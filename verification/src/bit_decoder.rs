//! Biphase-mark demodulation, one sample at a time: a "1" is two
//! half-bit-length level segments with a transition in the middle of the
//! bit, a "0" a single full-bit-length segment. The decoder enforces
//! legality windows for where a transition may fall, so a spurious edge
//! forces a full resynchronization instead of being read as data.

use vstd::prelude::*;
use crate::sample::Sample;
use crate::sample_bounds::{
    bounds_after_invalidate, bounds_after_push, bounds_classify, bounds_view_wf, BoundsView,
    SampleBounds,
};
use crate::sample_rater::{
    max_sample_count_for_bit, max_sample_count_for_halfbit, min_sample_count_for_bit,
    min_sample_count_for_halfbit, spec_max_bit_count, spec_max_half_count, spec_min_bit_count,
    spec_min_half_count,
};
use crate::zero_detector::{zero_step, zero_view_wf, ZeroDetector, ZeroView};

verus! {

/// What the decoder reports for one pushed sample.
#[derive(Clone, Copy, PartialEq, Eq, Structural, Debug)]
pub enum BitVal {
    /// No bit completed on this sample.
    NoBit,
    /// An illegal transition or a timeout: the decoder has reset itself
    /// and the caller must reset everything that depends on its lock.
    Invalid,
    /// A completed bit of value one.
    True,
    /// A completed bit of value zero.
    False,
}

/// What may legally happen on the current sample, given how deep into the
/// bit the decoder is.
#[derive(Clone, Copy, PartialEq, Eq, Structural, Debug)]
pub enum ExpectedEvents {
    /// No transition is legal here.
    MustBeSteady,
    /// A transition here is the mid-bit transition of a "1".
    CanChangeInMiddle,
    /// A transition here is the bit boundary.
    CanChangeInEnd,
    /// The bit boundary should have come already; the lock is stale.
    Overdue,
}

/// The ghost image of a bit decoder: the four timing bounds, the
/// calibrator and zero-detector states, and the within-bit tracking.
#[verifier::ext_equal]
pub ghost struct BitDecoderView {
    pub min_bit: int,
    pub max_bit: int,
    pub min_half: int,
    pub max_half: int,
    pub bounds: BoundsView,
    pub zero: ZeroView,
    pub in_sync: bool,
    pub count: int,
    pub level: bool,
    pub mid: bool,
}

/// The timing constants and component invariants of a decoder state: what
/// survives even in the middle of a step, before the within-bit counter
/// is settled again.
pub open spec fn bit_consts_wf(v: BitDecoderView) -> bool {
    &&& bounds_view_wf(v.bounds)
    &&& zero_view_wf(v.zero)
    &&& v.max_bit < usize::MAX as int
    &&& v.min_half <= v.max_half
    &&& v.max_half <= v.max_bit
    &&& v.min_bit <= v.max_bit + 1
}

/// The structural invariant of a decoder state: the constants, and a
/// within-bit counter that never outgrows the largest bit duration.
pub open spec fn bit_view_wf(v: BitDecoderView) -> bool {
    bit_consts_wf(v) && 0 <= v.count <= v.max_bit
}

/// The event the decoder expects for its current within-bit sample count.
pub open spec fn spec_expected_event(v: BitDecoderView) -> ExpectedEvents {
    if v.count < v.min_half {
        ExpectedEvents::MustBeSteady
    } else if v.count <= v.max_half {
        if v.mid {
            ExpectedEvents::MustBeSteady
        } else {
            ExpectedEvents::CanChangeInMiddle
        }
    } else if v.count < v.min_bit {
        ExpectedEvents::MustBeSteady
    } else if v.count <= v.max_bit {
        ExpectedEvents::CanChangeInEnd
    } else {
        ExpectedEvents::Overdue
    }
}

/// A decoder state after it invalidates itself: calibrator and zero
/// detector reset, lock lost, within-bit tracking cleared. The last seen
/// level is deliberately kept; it carries no synchronization state.
pub open spec fn bit_invalidated(v: BitDecoderView) -> BitDecoderView {
    BitDecoderView {
        bounds: bounds_after_invalidate(v.bounds),
        zero: ZeroView { count: 0, ..v.zero },
        in_sync: false,
        count: 0,
        mid: false,
        ..v
    }
}

/// One step of the locked decoder on a classified level: count the sample
/// into the current bit, then resolve the observed (non-)transition
/// against the legal event for this depth.
pub open spec fn step_locked(v: BitDecoderView, level: bool) -> (BitDecoderView, BitVal) {
    let grown = v.count + 1;
    let changed = level != v.level;
    let v1 = BitDecoderView { count: grown, level, ..v };
    match spec_expected_event(v1) {
        ExpectedEvents::MustBeSteady => {
            if changed {
                (bit_invalidated(v1), BitVal::Invalid)
            } else {
                (v1, BitVal::NoBit)
            }
        },
        ExpectedEvents::CanChangeInMiddle => {
            if changed {
                (BitDecoderView { mid: true, ..v1 }, BitVal::NoBit)
            } else {
                (v1, BitVal::NoBit)
            }
        },
        ExpectedEvents::CanChangeInEnd => {
            if changed {
                (
                    BitDecoderView { count: 0, mid: false, ..v1 },
                    if v.mid {
                        BitVal::True
                    } else {
                        BitVal::False
                    },
                )
            } else {
                (v1, BitVal::NoBit)
            }
        },
        ExpectedEvents::Overdue => (bit_invalidated(v1), BitVal::Invalid),
    }
}

/// One step of the decoder on a classified level: while unlocked, the
/// level feeds the zero detector, and on its heartbeat the decoder locks
/// and treats this sample as the first of a fresh bit.
pub open spec fn handle_level(v: BitDecoderView, level: bool) -> (BitDecoderView, BitVal) {
    if !v.in_sync {
        let z = zero_step(v.zero, level);
        if !z.1 {
            (BitDecoderView { zero: z.0, ..v }, BitVal::NoBit)
        } else {
            step_locked(
                BitDecoderView {
                    zero: z.0,
                    in_sync: true,
                    count: 0,
                    mid: false,
                    level,
                    ..v
                },
                level,
            )
        }
    } else {
        step_locked(v, level)
    }
}

/// One step of the decoder on a raw sample: the sample first feeds the
/// calibrator, and only a classified level reaches the bit logic.
pub open spec fn bit_step(v: BitDecoderView, s: int) -> (BitDecoderView, BitVal) {
    let pushed = bounds_after_push(v.bounds, s);
    let vb = BitDecoderView { bounds: pushed, ..v };
    match bounds_classify(pushed, s) {
        Option::None => (vb, BitVal::NoBit),
        Option::Some(level) => handle_level(vb, level),
    }
}

/// Reads sample by sample, finds the heartbeat of the bit grid, and emits
/// decoded zeroes and ones.
pub struct BitDecoder<T: Sample> {
    min_number_of_samples_per_bit: usize,
    max_number_of_samples_per_bit: usize,
    min_number_of_samples_per_half_bit: usize,
    max_number_of_samples_per_half_bit: usize,
    sample_bounds: SampleBounds<T>,
    zero_detector: ZeroDetector,
    heartbeat_in_sync: bool,
    sample_count_in_bit: usize,
    is_high: bool,
    has_change_in_middle_bit: bool,
}

impl<T: Sample> View for BitDecoder<T> {
    type V = BitDecoderView;

    closed spec fn view(&self) -> BitDecoderView {
        BitDecoderView {
            min_bit: self.min_number_of_samples_per_bit as int,
            max_bit: self.max_number_of_samples_per_bit as int,
            min_half: self.min_number_of_samples_per_half_bit as int,
            max_half: self.max_number_of_samples_per_half_bit as int,
            bounds: self.sample_bounds@,
            zero: self.zero_detector@,
            in_sync: self.heartbeat_in_sync,
            count: self.sample_count_in_bit as int,
            level: self.is_high,
            mid: self.has_change_in_middle_bit,
        }
    }
}

impl<T: Sample> BitDecoder<T> {
    /// The structural invariant: the component invariants, and bounds on
    /// the timing constants that keep the within-bit counter from
    /// overflowing.
    pub open spec fn wf(self) -> bool {
        bit_view_wf(self@)
    }

    /// A decoder for the given sample rate; the rate must let a half bit
    /// last at least two samples.
    pub fn new(sample_rate: u32) -> (r: Self)
        requires
            sample_rate >= 9861,
        ensures
            r.wf(),
            r@.min_bit == spec_min_bit_count(sample_rate as int),
            r@.max_bit == spec_max_bit_count(sample_rate as int),
            r@.min_half == spec_min_half_count(sample_rate as int),
            r@.max_half == spec_max_half_count(sample_rate as int),
            !r@.bounds.valid,
            r@.bounds.received == 0,
            r@.bounds.cursor == 0,
            r@.bounds.window =~= Seq::new(255, |i: int| 0int),
            r@.zero.count == 0,
            r@.zero.min_count == spec_min_bit_count(sample_rate as int),
            r@.zero.max_count == spec_max_bit_count(sample_rate as int),
            !r@.in_sync,
            r@.count == 0,
            !r@.level,
            !r@.mid,
    {
        proof {
            vstd::arithmetic::div_mod::lemma_div_is_ordered(
                sample_rate as int * 1217,
                sample_rate as int * 1592,
                3000000,
            );
            vstd::arithmetic::div_mod::lemma_div_is_ordered_by_denominator(
                sample_rate as int * 1592,
                3000000,
                6000000,
            );
        }
        BitDecoder {
            max_number_of_samples_per_bit: max_sample_count_for_bit(sample_rate),
            min_number_of_samples_per_bit: min_sample_count_for_bit(sample_rate),
            max_number_of_samples_per_half_bit: max_sample_count_for_halfbit(sample_rate),
            min_number_of_samples_per_half_bit: min_sample_count_for_halfbit(sample_rate),
            sample_bounds: SampleBounds::new(),
            zero_detector: ZeroDetector::new(sample_rate),
            heartbeat_in_sync: false,
            sample_count_in_bit: 0,
            is_high: false,
            has_change_in_middle_bit: false,
        }
    }

    /// Resets everything that depends on synchronization: calibration
    /// history, zero detector and the within-bit tracking. Decoding
    /// restarts from the next samples.
    pub fn invalidate(&mut self)
        requires
            bit_consts_wf(old(self)@),
        ensures
            final(self).wf(),
            final(self)@ =~= bit_invalidated(old(self)@),
    {
        self.sample_bounds.invalidate();
        self.zero_detector.invalidate();
        self.heartbeat_in_sync = false;
        self.sample_count_in_bit = 0;
        self.has_change_in_middle_bit = false;
    }

    /// Pushes one raw sample and reports whether it completed a bit,
    /// completed nothing, or revealed an illegal transition (after which
    /// the decoder has already reset itself).
    pub fn get_bit(&mut self, sample: T) -> (r: BitVal)
        requires
            old(self).wf(),
        ensures
            final(self).wf(),
            final(self)@ =~= bit_step(old(self)@, sample.sample_int()).0,
            r == bit_step(old(self)@, sample.sample_int()).1,
    {
        match self.sample_bounds.is_high(sample) {
            Option::None => BitVal::NoBit,
            Option::Some(is_high) => self.handle_received_level(is_high),
        }
    }

    /// Handles a sample already classified as high or low.
    fn handle_received_level(&mut self, is_high: bool) -> (r: BitVal)
        requires
            old(self).wf(),
        ensures
            final(self).wf(),
            final(self)@ =~= handle_level(old(self)@, is_high).0,
            r == handle_level(old(self)@, is_high).1,
    {
        if !self.heartbeat_in_sync {
            if !self.zero_detector.is_end_of_zero(is_high) {
                return BitVal::NoBit;
            }
            self.heartbeat_in_sync = true;
            self.reset_to_start_of_bit();
            self.is_high = is_high;
        }
        self.sample_count_in_bit = self.sample_count_in_bit + 1;
        let state_changed = self.is_state_change(is_high);
        match self.next_expected_event() {
            ExpectedEvents::MustBeSteady => {
                if state_changed {
                    self.invalidate();
                    BitVal::Invalid
                } else {
                    BitVal::NoBit
                }
            },
            ExpectedEvents::CanChangeInMiddle => {
                if state_changed {
                    self.has_change_in_middle_bit = true;
                }
                BitVal::NoBit
            },
            ExpectedEvents::CanChangeInEnd => {
                if state_changed {
                    let bit = self.has_change_in_middle_bit;
                    self.reset_to_start_of_bit();
                    if bit {
                        BitVal::True
                    } else {
                        BitVal::False
                    }
                } else {
                    BitVal::NoBit
                }
            },
            ExpectedEvents::Overdue => {
                self.invalidate();
                BitVal::Invalid
            },
        }
    }

    /// Prepares the next sample to be counted as the first of a new bit.
    fn reset_to_start_of_bit(&mut self)
        ensures
            final(self)@ =~= (BitDecoderView { count: 0, mid: false, ..old(self)@ }),
    {
        self.sample_count_in_bit = 0;
        self.has_change_in_middle_bit = false;
    }

    /// Whether the level differs from the previous sample's; records the
    /// new level either way.
    fn is_state_change(&mut self, is_high: bool) -> (r: bool)
        ensures
            r == (old(self)@.level != is_high),
            final(self)@ =~= (BitDecoderView { level: is_high, ..old(self)@ }),
    {
        if self.is_high != is_high {
            self.is_high = is_high;
            true
        } else {
            false
        }
    }

    /// The event the decoder expects for the current within-bit count.
    fn next_expected_event(&self) -> (r: ExpectedEvents)
        ensures
            r == spec_expected_event(self@),
    {
        if self.sample_count_in_bit < self.min_number_of_samples_per_half_bit {
            return ExpectedEvents::MustBeSteady;
        }
        if self.sample_count_in_bit <= self.max_number_of_samples_per_half_bit {
            if self.has_change_in_middle_bit {
                return ExpectedEvents::MustBeSteady;
            }
            return ExpectedEvents::CanChangeInMiddle;
        }
        if self.sample_count_in_bit < self.min_number_of_samples_per_bit {
            return ExpectedEvents::MustBeSteady;
        }
        if self.sample_count_in_bit <= self.max_number_of_samples_per_bit {
            return ExpectedEvents::CanChangeInEnd;
        }
        ExpectedEvents::Overdue
    }
}

} // verus!
