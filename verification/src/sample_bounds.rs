//! Amplitude calibration: a ring of the last 255 samples from which the
//! decoder derives what "high" and "low" mean for the incoming signal.
//!
//! The bounds and the threshold between them are recomputed once every 255
//! pushed samples, not continuously, so the cost per sample stays constant
//! while the window still follows slow gain drift.

use vstd::prelude::*;
use crate::sample::Sample;

verus! {

/// The ghost image of a calibrator: its flag and three levels as plain
/// integers, the ring contents, the ring cursor and the push counter.
#[verifier::ext_equal]
pub ghost struct BoundsView {
    pub valid: bool,
    pub min: int,
    pub max: int,
    pub threshold: int,
    pub window: Seq<int>,
    pub cursor: int,
    pub received: int,
}

/// Integer halving that rounds toward zero, as the wide-integer midpoint
/// computation performs it.
pub open spec fn div2_toward_zero(v: int) -> int {
    if v >= 0 {
        v / 2
    } else {
        -((-v) / 2)
    }
}

/// The threshold the calibrator derives from its bounds: half of each
/// bound, each halved before the sum so that the sum cannot overflow the
/// sample type.
pub open spec fn bounds_threshold(min: int, max: int) -> int {
    div2_toward_zero(max) + div2_toward_zero(min)
}

/// A calibrator state after recalculation: the bounds become the extrema
/// of the window, the threshold their midpoint, and the state is valid.
pub open spec fn bounds_after_recalc(v: BoundsView) -> BoundsView {
    BoundsView {
        valid: true,
        min: v.window.min(),
        max: v.window.max(),
        threshold: bounds_threshold(v.window.min(), v.window.max()),
        ..v
    }
}

/// A calibrator state after one sample is pushed: the sample overwrites
/// the ring slot under the cursor, and the 255th push since the last
/// recalculation (or invalidation) triggers a fresh recalculation.
pub open spec fn bounds_after_push(v: BoundsView, s: int) -> BoundsView {
    let moved = BoundsView {
        window: v.window.update(v.cursor, s),
        cursor: if v.cursor + 1 == 255 {
            0int
        } else {
            v.cursor + 1
        },
        ..v
    };
    if v.received == 254 {
        bounds_after_recalc(BoundsView { received: 0, ..moved })
    } else {
        BoundsView { received: v.received + 1, ..moved }
    }
}

/// A calibrator state after a reset: levels zeroed, flag cleared, push
/// counter restarted; the ring contents stay, they are overwritten before
/// the next recalculation.
pub open spec fn bounds_after_invalidate(v: BoundsView) -> BoundsView {
    BoundsView { valid: false, min: 0, max: 0, threshold: 0, received: 0, ..v }
}

/// What classification a calibrator state gives a sample: unknown while
/// the state is invalid, otherwise high exactly when the sample exceeds
/// the threshold, with ties counting as low.
pub open spec fn bounds_classify(v: BoundsView, s: int) -> Option<bool> {
    if !v.valid {
        Option::None
    } else {
        Option::Some(v.threshold < s)
    }
}

/// A calibrator state after a whole sequence of samples is pushed, first
/// element first.
pub open spec fn bounds_push_fold(v: BoundsView, s: Seq<int>) -> BoundsView
    decreases s.len(),
{
    if s.len() == 0 {
        v
    } else {
        bounds_push_fold(bounds_after_push(v, s[0]), s.skip(1))
    }
}

/// Halving toward zero is monotone.
proof fn lemma_div2_monotone(a: int, b: int)
    requires
        a <= b,
    ensures
        div2_toward_zero(a) <= div2_toward_zero(b),
{
    if a >= 0 {
        vstd::arithmetic::div_mod::lemma_div_is_ordered(a, b, 2);
    } else if b < 0 {
        vstd::arithmetic::div_mod::lemma_div_is_ordered(-b, -a, 2);
    } else {
        vstd::arithmetic::div_mod::lemma_div_is_ordered(0, -a, 2);
        vstd::arithmetic::div_mod::lemma_div_is_ordered(0, b, 2);
    }
}

/// Twice the toward-zero half of a value stays on the value's side of it.
proof fn lemma_div2_bounds(v: int)
    ensures
        v >= 0 ==> 2 * div2_toward_zero(v) <= v,
        v < 0 ==> 2 * div2_toward_zero(v) >= v,
{
    if v >= 0 {
        vstd::arithmetic::div_mod::lemma_fundamental_div_mod(v, 2);
        vstd::arithmetic::div_mod::lemma_mod_bound(v, 2);
    } else {
        vstd::arithmetic::div_mod::lemma_fundamental_div_mod(-v, 2);
        vstd::arithmetic::div_mod::lemma_mod_bound(-v, 2);
    }
}

/// The threshold of two bounds inside a sample type's range lies inside
/// that range itself.
proof fn lemma_threshold_in_range(lo: int, hi: int, min: int, max: int)
    requires
        lo <= 0 <= hi,
        lo <= min <= hi,
        lo <= max <= hi,
    ensures
        lo <= bounds_threshold(min, max) <= hi,
{
    lemma_div2_monotone(min, hi);
    lemma_div2_monotone(max, hi);
    lemma_div2_monotone(lo, min);
    lemma_div2_monotone(lo, max);
    lemma_div2_bounds(hi);
    lemma_div2_bounds(lo);
}

/// The structural invariant of a calibrator state: a full ring of 255
/// slots, the cursor inside it, and the push counter below its wrap
/// point.
pub open spec fn bounds_view_wf(v: BoundsView) -> bool {
    v.window.len() == 255 && 0 <= v.cursor < 255 && 0 <= v.received <= 254
}

/// Calibration state over the last 255 samples: the ring of history, the
/// extrema of the last examined window, and the threshold that separates
/// high from low.
pub struct SampleBounds<T: Sample> {
    /// Whether the bounds and threshold describe a full window.
    pub valid: bool,
    /// The largest sample of the last examined window.
    pub max_value: T,
    /// The smallest sample of the last examined window.
    pub min_value: T,
    /// The level strictly above which a sample counts as high.
    pub threshold: T,
    history: Vec<T>,
    cursor: usize,
    received_count: u8,
}

impl<T: Sample> View for SampleBounds<T> {
    type V = BoundsView;

    closed spec fn view(&self) -> BoundsView {
        BoundsView {
            valid: self.valid,
            min: self.min_value.sample_int(),
            max: self.max_value.sample_int(),
            threshold: self.threshold.sample_int(),
            window: self.history@.map_values(|t: T| t.sample_int()),
            cursor: self.cursor as int,
            received: self.received_count as int,
        }
    }
}

impl<T: Sample> SampleBounds<T> {
    /// The structural invariant: a full ring of 255 slots, the cursor
    /// inside it, and the push counter below its wrap point.
    pub open spec fn wf(self) -> bool {
        bounds_view_wf(self@)
    }

    /// A fresh calibrator: invalid, all levels zero, an all-zero history.
    pub fn new() -> (r: SampleBounds<T>)
        ensures
            r.wf(),
            !r@.valid,
            r@.min == 0,
            r@.max == 0,
            r@.threshold == 0,
            r@.window =~= Seq::new(255, |i: int| 0int),
            r@.cursor == 0,
            r@.received == 0,
    {
        let mut history: Vec<T> = Vec::new();
        let mut i: usize = 0;
        while i < 255
            invariant
                i <= 255,
                history@.len() == i,
                forall|k: int| 0 <= k < i ==> history@[k].sample_int() == 0,
            decreases 255 - i,
        {
            history.push(T::zero());
            i = i + 1;
        }
        let r = SampleBounds {
            valid: false,
            max_value: T::zero(),
            min_value: T::zero(),
            threshold: T::zero(),
            history,
            cursor: 0,
            received_count: 0,
        };
        proof {
            assert(r@.window =~= Seq::new(255, |i: int| 0int));
        }
        r
    }

    /// Records one sample in the ring; every 255th push since the last
    /// recalculation (or reset) recomputes bounds and threshold from the
    /// full window.
    pub fn push_sample(&mut self, sample: T)
        requires
            old(self).wf(),
        ensures
            final(self).wf(),
            final(self)@ =~= bounds_after_push(old(self)@, sample.sample_int()),
    {
        let ghost pre = self@;
        self.history.set(self.cursor, sample);
        self.cursor = if self.cursor + 1 == 255 {
            0
        } else {
            self.cursor + 1
        };
        proof {
            assert(self@.window =~= pre.window.update(pre.cursor, sample.sample_int()));
        }
        if self.received_count == 254 {
            self.received_count = 0;
            self.recalculate();
        } else {
            self.received_count = self.received_count + 1;
        }
    }

    /// Recomputes the bounds as the extrema of the current window and the
    /// threshold as their midpoint, and marks the state valid.
    pub fn recalculate(&mut self)
        requires
            old(self).wf(),
        ensures
            final(self).wf(),
            final(self)@ =~= bounds_after_recalc(old(self)@),
    {
        let mut min_val: T = self.history[0];
        let mut max_val: T = self.history[0];
        proof {
            assert(self@.window[0] == self.history@[0].sample_int());
        }
        let mut i: usize = 1;
        while i < self.history.len()
            invariant
                old(self).wf(),
                *self == *old(self),
                1 <= i <= 255,
                forall|k: int| 0 <= k < i ==> min_val.sample_int() <= self@.window[k],
                forall|k: int| 0 <= k < i ==> self@.window[k] <= max_val.sample_int(),
                exists|k: int| 0 <= k < i && min_val.sample_int() == self@.window[k],
                exists|k: int| 0 <= k < i && max_val.sample_int() == self@.window[k],
            decreases 255 - i,
        {
            let cur = self.history[i];
            proof {
                assert(self@.window[i as int] == self.history@[i as int].sample_int());
            }
            if cur.lt(min_val) {
                min_val = cur;
            }
            if max_val.lt(cur) {
                max_val = cur;
            }
            i = i + 1;
        }
        proof {
            self@.window.min_ensures();
            self@.window.max_ensures();
            let m = self@.window.min();
            let x = self@.window.max();
            let k0 = choose|k: int| 0 <= k < 255 && min_val.sample_int() == self@.window[k];
            assert(self@.window.contains(self@.window[k0]));
            let k1 = choose|k: int| 0 <= k < 255 && max_val.sample_int() == self@.window[k];
            assert(self@.window.contains(self@.window[k1]));
            let km = choose|j: int| 0 <= j < 255 && self@.window[j] == m;
            let kx = choose|j: int| 0 <= j < 255 && self@.window[j] == x;
            assert(min_val.sample_int() == m);
            assert(max_val.sample_int() == x);
        }
        self.min_value = min_val;
        self.max_value = max_val;
        self.recalculate_threshold();
    }

    /// Recomputes the threshold as the midpoint of the stored bounds,
    /// formed in wide arithmetic as the sum of their halves, and marks the
    /// state valid. Halving each bound first keeps the midpoint inside the
    /// sample type's range, so narrowing back always succeeds.
    pub fn recalculate_threshold(&mut self)
        ensures
            final(self).wf() == old(self).wf(),
            final(self)@ =~= (BoundsView {
                valid: true,
                threshold: bounds_threshold(old(self)@.min, old(self)@.max),
                ..old(self)@
            }),
    {
        proof {
            self.min_value.lemma_in_range();
            self.max_value.lemma_in_range();
        }
        let min_wide = self.min_value.to_wide();
        let max_wide = self.max_value.to_wide();
        let max_half: i128 = max_wide / 2;
        let min_half: i128 = min_wide / 2;
        proof {
            lemma_threshold_in_range(
                T::min_int(),
                T::max_int(),
                self@.min,
                self@.max,
            );
        }
        let average = T::from_wide(max_half + min_half);
        match average {
            Option::Some(t) => {
                self.valid = true;
                self.threshold = t;
            },
            Option::None => {
                // Unreachable for any type whose values all fit the wide
                // integer, as `lemma_threshold_in_range` shows.
                self.valid = false;
            },
        }
    }

    /// Classifies a sample as high or low after recording it; answers
    /// `None` while no full window has been examined since the last reset.
    pub fn is_high(&mut self, sample: T) -> (r: Option<bool>)
        requires
            old(self).wf(),
        ensures
            final(self).wf(),
            final(self)@ =~= bounds_after_push(old(self)@, sample.sample_int()),
            r == bounds_classify(final(self)@, sample.sample_int()),
    {
        self.push_sample(sample);
        if !self.valid {
            Option::None
        } else {
            Option::Some(self.threshold.lt(sample))
        }
    }

    /// Resets levels, flag and push counter after unexpected input; the
    /// ring contents need no clearing, they are overwritten before the
    /// next recalculation.
    pub fn invalidate(&mut self)
        ensures
            old(self).wf() ==> final(self).wf(),
            final(self)@ =~= bounds_after_invalidate(old(self)@),
    {
        self.threshold = T::zero();
        self.max_value = T::zero();
        self.min_value = T::zero();
        self.valid = false;
        self.received_count = 0;
    }
}

/// Folding a push of one more sample onto a fold of earlier samples is the
/// fold of the longer sequence.
proof fn lemma_bounds_fold_snoc(v: BoundsView, s: Seq<int>, x: int)
    ensures
        bounds_push_fold(v, s.push(x)) == bounds_after_push(bounds_push_fold(v, s), x),
    decreases s.len(),
{
    if s.len() == 0 {
        assert(s.push(x).len() == 1);
        assert(s.push(x).skip(1) =~= Seq::<int>::empty());
        assert(s.push(x)[0] == x);
        assert(bounds_push_fold(v, s.push(x)) == bounds_push_fold(
            bounds_after_push(v, x),
            s.push(x).skip(1),
        ));
        assert(bounds_push_fold(bounds_after_push(v, x), Seq::<int>::empty()) == bounds_after_push(
            v,
            x,
        ));
        assert(bounds_push_fold(v, s) == v);
    } else {
        assert(s.push(x).len() == s.len() + 1);
        assert(s.push(x)[0] == s[0]);
        assert(s.push(x).skip(1) =~= s.skip(1).push(x));
        assert(bounds_push_fold(v, s.push(x)) == bounds_push_fold(
            bounds_after_push(v, s[0]),
            s.skip(1).push(x),
        ));
        lemma_bounds_fold_snoc(bounds_after_push(v, s[0]), s.skip(1), x);
        assert(bounds_push_fold(v, s) == bounds_push_fold(bounds_after_push(v, s[0]), s.skip(1)));
    }
}

/// After `k` pushes with no recalculation due, the ring holds the pushed
/// samples at the cursor positions they went to, and everything except
/// ring and cursor and counter is untouched.
proof fn lemma_bounds_push_run(v0: BoundsView, samples: Seq<int>, k: int)
    requires
        v0.window.len() == 255,
        0 <= v0.cursor < 255,
        v0.received == 0,
        0 <= k <= 254,
        k <= samples.len(),
    ensures
        ({
            let vk = bounds_push_fold(v0, samples.take(k));
            &&& vk.window.len() == 255
            &&& vk.cursor == (v0.cursor + k) % 255
            &&& vk.received == k
            &&& vk.valid == v0.valid
            &&& vk.min == v0.min
            &&& vk.max == v0.max
            &&& vk.threshold == v0.threshold
            &&& forall|j: int| 0 <= j < k ==> vk.window[(v0.cursor + j) % 255] == samples[j]
        }),
    decreases k,
{
    if k == 0 {
        assert(samples.take(0) =~= Seq::<int>::empty());
    } else {
        lemma_bounds_push_run(v0, samples, k - 1);
        let prev = bounds_push_fold(v0, samples.take(k - 1));
        assert(samples.take(k) =~= samples.take(k - 1).push(samples[k - 1]));
        lemma_bounds_fold_snoc(v0, samples.take(k - 1), samples[k - 1]);
        let vk = bounds_after_push(prev, samples[k - 1]);
        assert(prev.cursor == (v0.cursor + (k - 1)) % 255);
        assert(0 <= prev.cursor < 255);
        assert forall|j: int| 0 <= j < k implies vk.window[(v0.cursor + j) % 255] == samples[j]
        by {
            if j < k - 1 {
                assert((v0.cursor + j) % 255 != (v0.cursor + (k - 1)) % 255);
            }
        }
    }
}

/// Calibration over one full window: starting from a fresh counter,
/// pushing any 255 samples leaves the bounds at exactly the extrema of
/// those 255 samples, the threshold at their midpoint, and the state
/// valid.
pub proof fn lemma_calibration_window(v0: BoundsView, samples: Seq<int>)
    requires
        v0.window.len() == 255,
        0 <= v0.cursor < 255,
        v0.received == 0,
        samples.len() == 255,
    ensures
        ({
            let v1 = bounds_push_fold(v0, samples);
            &&& v1.valid
            &&& v1.min == samples.min()
            &&& v1.max == samples.max()
            &&& v1.threshold == bounds_threshold(samples.min(), samples.max())
        }),
{
    lemma_bounds_push_run(v0, samples, 254);
    let prev = bounds_push_fold(v0, samples.take(254));
    assert(samples.take(255) =~= samples);
    assert(samples =~= samples.take(254).push(samples[254]));
    lemma_bounds_fold_snoc(v0, samples.take(254), samples[254]);
    let v1 = bounds_push_fold(v0, samples);
    assert(v1 == bounds_after_push(prev, samples[254]));
    let w = prev.window.update(prev.cursor, samples[254]);
    assert forall|j: int| 0 <= j < 255 implies w[(v0.cursor + j) % 255] == samples[j] by {
        if j < 254 {
            assert((v0.cursor + j) % 255 != (v0.cursor + 254) % 255);
        }
    }
    assert(v1.min == w.min() && v1.max == w.max());
    lemma_rearranged_extrema(w, samples, v0.cursor);
}

/// Two sequences of length 255 relatate by rotation share their extrema.
proof fn lemma_rearranged_extrema(w: Seq<int>, samples: Seq<int>, c0: int)
    requires
        w.len() == 255,
        samples.len() == 255,
        0 <= c0 < 255,
        forall|j: int| 0 <= j < 255 ==> w[(c0 + j) % 255] == samples[j],
    ensures
        w.min() == samples.min(),
        w.max() == samples.max(),
{
    w.min_ensures();
    w.max_ensures();
    samples.min_ensures();
    samples.max_ensures();
    // every element of w appears in samples and vice versa
    assert forall|p: int| 0 <= p < 255 implies samples.min() <= w[p] && w[p] <= samples.max() by {
        let j = if p >= c0 {
            p - c0
        } else {
            p - c0 + 255
        };
        assert((c0 + j) % 255 == p);
        assert(w[p] == samples[j]);
    }
    let km = choose|i: int| 0 <= i < w.len() && w[i] == w.min();
    assert(samples.min() <= w.min());
    let kx = choose|i: int| 0 <= i < w.len() && w[i] == w.max();
    assert(w.max() <= samples.max());
    let jm = choose|i: int| 0 <= i < samples.len() && samples[i] == samples.min();
    assert(w[(c0 + jm) % 255] == samples.min());
    assert(w.min() <= samples.min());
    let jx = choose|i: int| 0 <= i < samples.len() && samples[i] == samples.max();
    assert(w[(c0 + jx) % 255] == samples.max());
    assert(w.max() >= samples.max());
}

} // verus!
