//! Acquisition of the bit-grid heartbeat: in biphase-mark LTC a zero bit
//! is the one element with no mid-bit transition, so a run of samples at
//! one level lasting a full bit duration reliably marks a bit boundary.
//! This detector finds the first such boundary; it claims nothing about
//! bit values.

use vstd::prelude::*;
use crate::sample_rater::{
    max_sample_count_for_bit, min_sample_count_for_bit, spec_max_bit_count, spec_min_bit_count,
};

verus! {

/// The ghost image of a zero detector: its two run-length bounds, the
/// level of the last sample, and the samples counted since the last level
/// change (or reset).
#[verifier::ext_equal]
pub ghost struct ZeroView {
    pub min_count: int,
    pub max_count: int,
    pub is_high: bool,
    pub count: int,
}

/// One step of the zero detector on a classified level, returning the new
/// state and whether this sample ends a zero-bit-length run. The first
/// sample after a reset only records the level. A level change ends the
/// run: it signals lock exactly when the run length, this sample
/// included, lies within the full-bit bounds. Without a change the run
/// simply grows, and is abandoned once it outlasts the largest possible
/// bit.
pub open spec fn zero_step(v: ZeroView, level: bool) -> (ZeroView, bool) {
    if v.count == 0 {
        (ZeroView { is_high: level, count: 1, ..v }, false)
    } else {
        let grown = v.count + 1;
        if level != v.is_high {
            if v.min_count <= grown <= v.max_count {
                (ZeroView { is_high: level, count: 0, ..v }, true)
            } else {
                (ZeroView { is_high: level, count: 0, ..v }, false)
            }
        } else if grown > v.max_count {
            (ZeroView { count: 0, ..v }, false)
        } else {
            (ZeroView { count: grown, ..v }, false)
        }
    }
}

/// The structural invariant of a zero-detector state: the run counter
/// never outgrows the upper bit bound, which itself leaves room to count
/// one more sample.
pub open spec fn zero_view_wf(v: ZeroView) -> bool {
    0 <= v.count <= v.max_count && 1 <= v.max_count && v.max_count < usize::MAX as int
}

/// Watches classified levels for a steady run of one full bit duration.
pub struct ZeroDetector {
    min_sample_count: usize,
    max_sample_count: usize,
    is_high: bool,
    sample_count: usize,
}

impl View for ZeroDetector {
    type V = ZeroView;

    closed spec fn view(&self) -> ZeroView {
        ZeroView {
            min_count: self.min_sample_count as int,
            max_count: self.max_sample_count as int,
            is_high: self.is_high,
            count: self.sample_count as int,
        }
    }
}

impl ZeroDetector {
    /// The structural invariant: the run counter never outgrows the upper
    /// bit bound, which itself leaves room to count one more sample.
    pub open spec fn wf(self) -> bool {
        zero_view_wf(self@)
    }

    /// A detector for the given sample rate; the rate must let a full bit
    /// last at least two samples.
    pub fn new(sample_rate: u32) -> (r: Self)
        requires
            sample_rate >= 4932,
        ensures
            r.wf(),
            r@.min_count == spec_min_bit_count(sample_rate as int),
            r@.max_count == spec_max_bit_count(sample_rate as int),
            !r@.is_high,
            r@.count == 0,
    {
        let min_sample_count = min_sample_count_for_bit(sample_rate);
        let max_sample_count = max_sample_count_for_bit(sample_rate);
        ZeroDetector { min_sample_count, max_sample_count, is_high: false, sample_count: 0 }
    }

    /// Feeds one classified level; answers true exactly when this sample
    /// is the trailing edge of a run whose length lies within the
    /// full-bit bounds — the end of a zero bit, the decoder's heartbeat.
    pub fn is_end_of_zero(&mut self, is_high: bool) -> (r: bool)
        requires
            old(self).wf(),
        ensures
            final(self).wf(),
            final(self)@ =~= zero_step(old(self)@, is_high).0,
            r == zero_step(old(self)@, is_high).1,
    {
        if self.sample_count == 0 {
            self.is_high = is_high;
            self.sample_count = 1;
            return false;
        }
        self.sample_count = self.sample_count + 1;
        if self.is_state_change(is_high) {
            if self.sample_count >= self.min_sample_count && self.sample_count
                <= self.max_sample_count {
                self.invalidate();
                return true;
            }
            self.invalidate();
            return false;
        }
        if self.sample_count > self.max_sample_count {
            self.invalidate();
        }
        false
    }

    /// Whether the level differs from the previous sample's; records the
    /// new level either way.
    fn is_state_change(&mut self, is_high: bool) -> (r: bool)
        ensures
            final(self).wf() == old(self).wf(),
            r == (old(self)@.is_high != is_high),
            final(self)@ =~= (ZeroView { is_high, ..old(self)@ }),
    {
        if self.is_high != is_high {
            self.is_high = is_high;
            return true;
        }
        false
    }

    /// Restarts the search for a boundary.
    pub fn invalidate(&mut self)
        ensures
            old(self).wf() ==> final(self).wf(),
            final(self)@ =~= (ZeroView { count: 0, ..old(self)@ }),
    {
        self.sample_count = 0;
    }
}

} // verus!
