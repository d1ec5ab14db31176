//! The 80-bit shift register of the frame assembler: a 64-bit payload
//! register and the 16-bit sync register that trails it, shifted in
//! lock-step on every decoded bit, plus the sample counter that measures
//! how long one frame's payload bits lasted.

use vstd::prelude::*;
use intbits::Bits;
use crate::ltc_frame_data::{
    half_sync_in, ltc_bits, sync_bits, sync_pattern, u16_bit, LtcFrameData,
};

verus! {

broadcast use crate::ltc_frame_data::lemma_data_view_len;

/// Relies on intbits' `Bits::set_bit` for `u16`: replaces `v` by
/// `v & !(1 << i) | (bit as u16) << i`.
#[verifier::external_body]
fn u16_with_bit(v: u16, i: u32, bit: bool) -> (r: u16)
    requires
        i < 16,
    ensures
        r == (v & !(1u16 << (i as u16))) | ((if bit {
            1u16
        } else {
            0u16
        }) << (i as u16)),
{
    let mut out = v;
    out.set_bit(i, bit);
    out
}

/// Setting one raw bit of a 16-bit word leaves every other bit unchanged.
proof fn lemma_u16_with_bit(v: u16, i: u16, bit: bool, k: u16)
    by (bit_vector)
    requires
        i < 16,
        k < 16,
    ensures
        u16_bit(
            (v & !(1u16 << i)) | ((if bit {
                1u16
            } else {
                0u16
            }) << i),
            k,
        ) == if k == i {
            bit
        } else {
            u16_bit(v, k)
        },
{
}

/// Shifting a 16-bit word left by one moves every raw bit up and clears
/// raw bit 0.
proof fn lemma_u16_shift_one(v: u16, k: u16)
    by (bit_vector)
    requires
        k < 16,
    ensures
        u16_bit(v << 1u16, k) == if k == 0 {
            false
        } else {
            u16_bit(v, (k - 1) as u16)
        },
{
}

/// The all-zero 16-bit word has no bit set.
proof fn lemma_u16_zero_bit(k: u16)
    by (bit_vector)
    requires
        k < 16,
    ensures
        !u16_bit(0u16, k),
{
}

/// Two 16-bit words that agree on every bit are equal.
proof fn lemma_u16_bits_inj(a: u16, b: u16)
    by (bit_vector)
    requires
        u16_bit(a, 0) == u16_bit(b, 0),
        u16_bit(a, 1) == u16_bit(b, 1),
        u16_bit(a, 2) == u16_bit(b, 2),
        u16_bit(a, 3) == u16_bit(b, 3),
        u16_bit(a, 4) == u16_bit(b, 4),
        u16_bit(a, 5) == u16_bit(b, 5),
        u16_bit(a, 6) == u16_bit(b, 6),
        u16_bit(a, 7) == u16_bit(b, 7),
        u16_bit(a, 8) == u16_bit(b, 8),
        u16_bit(a, 9) == u16_bit(b, 9),
        u16_bit(a, 10) == u16_bit(b, 10),
        u16_bit(a, 11) == u16_bit(b, 11),
        u16_bit(a, 12) == u16_bit(b, 12),
        u16_bit(a, 13) == u16_bit(b, 13),
        u16_bit(a, 14) == u16_bit(b, 14),
        u16_bit(a, 15) == u16_bit(b, 15),
    ensures
        a == b,
{
}

/// The ghost image of a frame register: both shift registers as bit
/// sequences in transmission order, and the payload-duration counter.
#[verifier::ext_equal]
pub ghost struct LtcFrameView {
    pub sync: Seq<bool>,
    pub data: Seq<bool>,
    pub count: nat,
}

/// The whole 80-bit register in transmission order, oldest bit first: the
/// sync register holds the bits that arrived longest ago.
pub open spec fn reg_bits(v: LtcFrameView) -> Seq<bool> {
    v.sync + v.data
}

/// An 80-bit register, as a bit sequence, after one more bit is shifted
/// in: the oldest bit falls out and the new bit is appended at the young
/// end.
pub open spec fn shift_once(r: Seq<bool>, bit: bool) -> Seq<bool> {
    r.skip(1).push(bit)
}

/// An 80-bit register after a whole sequence of bits is shifted in, first
/// element first.
pub open spec fn shift_fold(r: Seq<bool>, s: Seq<bool>) -> Seq<bool>
    decreases s.len(),
{
    if s.len() == 0 {
        r
    } else {
        shift_fold(shift_once(r, s[0]), s.skip(1))
    }
}

/// The register behaves as a fixed-width queue: after any bit sequence is
/// shifted in, it holds the last 80 bits of "previous contents, then the
/// new bits", in arrival order.
pub proof fn lemma_register_fifo(r: Seq<bool>, s: Seq<bool>)
    requires
        r.len() == 80,
    ensures
        shift_fold(r, s) =~= (r + s).skip(s.len() as int),
    decreases s.len(),
{
    if s.len() > 0 {
        lemma_register_fifo(shift_once(r, s[0]), s.skip(1));
        assert(shift_once(r, s[0]) + s.skip(1) =~= (r + s).skip(1));
        assert((r + s).skip(1).skip(s.len() - 1) =~= (r + s).skip(s.len() as int));
    }
}

/// Frame recognition: however the register started out, shifting in a sync
/// word followed by 64 payload bits leaves the sync register holding
/// exactly the sync word and the payload register holding exactly those 64
/// bits.
pub proof fn lemma_frame_recognition(r0: Seq<bool>, payload: Seq<bool>)
    requires
        r0.len() == 80,
        payload.len() == 64,
    ensures
        shift_fold(r0, sync_pattern() + payload).subrange(0, 16) =~= sync_pattern(),
        shift_fold(r0, sync_pattern() + payload).subrange(16, 80) =~= payload,
{
    lemma_register_fifo(r0, sync_pattern() + payload);
    assert(shift_fold(r0, sync_pattern() + payload) =~= sync_pattern() + payload);
}

/// A frame register state after one raw sample is observed: while the
/// payload register shows that the next bit starts a frame's payload the
/// counter rests at zero, otherwise it counts the sample, saturating
/// rather than wrapping.
pub open spec fn frame_after_sample(v: LtcFrameView) -> LtcFrameView {
    LtcFrameView {
        count: if half_sync_in(v.data) {
            0nat
        } else if v.count < usize::MAX as nat {
            v.count + 1
        } else {
            v.count
        },
        ..v
    }
}

/// A frame register state after one decoded bit is shifted in.
pub open spec fn frame_after_shift(v: LtcFrameView, bit: bool) -> LtcFrameView {
    LtcFrameView { data: shift_once(v.data, bit), sync: shift_once(v.sync, v.data[0]), ..v }
}

/// A frame register state after invalidation: both registers and the
/// counter zeroed.
pub open spec fn frame_cleared() -> LtcFrameView {
    LtcFrameView {
        sync: Seq::new(16, |i: int| false),
        data: Seq::new(64, |i: int| false),
        count: 0,
    }
}

/// The frame assembler's state: the live 80-bit register and the count of
/// raw samples observed since the payload bits of the current frame began.
#[derive(Clone, Copy, PartialEq, Eq, Structural, Debug)]
pub struct LtcFrame {
    sync_word: u16,
    data: LtcFrameData,
    frame_data_sample_count: usize,
}

impl View for LtcFrame {
    type V = LtcFrameView;

    closed spec fn view(&self) -> LtcFrameView {
        LtcFrameView {
            sync: sync_bits(self.sync_word),
            data: self.data@,
            count: self.frame_data_sample_count as nat,
        }
    }
}

impl LtcFrame {
    /// An empty assembler: both registers zero, the counter zero.
    pub fn new_empty() -> (r: Self)
        ensures
            r@.sync =~= Seq::new(16, |i: int| false),
            r@.data =~= Seq::new(64, |i: int| false),
            r@.count == 0,
    {
        let r = LtcFrame { sync_word: 0, data: LtcFrameData::new_empty(), frame_data_sample_count: 0 };
        proof {
            assert forall|i: int| 0 <= i < 16 implies !r@.sync[i] by {
                lemma_u16_zero_bit((15 - i) as u16);
            }
        }
        r
    }

    /// An assembler whose registers hold the given raw words, counter zero.
    pub fn new_raw(sync_word: u16, data: u64) -> (r: Self)
        ensures
            r@.sync == sync_bits(sync_word),
            r@.data == ltc_bits(data),
            r@.count == 0,
    {
        LtcFrame { sync_word, data: LtcFrameData::new_raw(data), frame_data_sample_count: 0 }
    }

    /// Zeroes both registers and the sample counter after unexpected
    /// input.
    pub fn invalidate(&mut self)
        ensures
            final(self)@ =~= frame_cleared(),
    {
        self.data.invalidate();
        self.sync_word = 0;
        self.frame_data_sample_count = 0;
        proof {
            assert forall|i: int| 0 <= i < 16 implies !self@.sync[i] by {
                lemma_u16_zero_bit((15 - i) as u16);
            }
        }
    }

    /// Shifts one decoded bit into the 80-bit register: the bit leaving
    /// the payload register's old end enters the sync register, whose own
    /// oldest bit falls out. The sample counter is untouched.
    pub fn shift_bit(&mut self, bit: bool)
        ensures
            final(self)@ =~= frame_after_shift(old(self)@, bit),
            reg_bits(final(self)@) =~= shift_once(reg_bits(old(self)@), bit),
    {
        let overflow_bit = self.data.shift_bit_with_overflow(bit);
        let ghost prev = self.sync_word;
        let shifted = self.sync_word << 1u32;
        self.sync_word = u16_with_bit(shifted, 0, overflow_bit);
        proof {
            assert forall|i: int| 0 <= i < 16 implies self@.sync[i] == shift_once(
                old(self)@.sync,
                old(self)@.data[0],
            )[i] by {
                assert((prev << 1u32) == (prev << 1u16)) by (bit_vector);
                lemma_u16_with_bit(prev << 1u16, 0, overflow_bit, (15 - i) as u16);
                if i < 15 {
                    lemma_u16_shift_one(prev, (15 - i) as u16);
                }
            }
            assert(self@.sync =~= shift_once(old(self)@.sync, old(self)@.data[0]));
            assert forall|i: int| 0 <= i < 80 implies reg_bits(self@)[i] == shift_once(
                reg_bits(old(self)@),
                bit,
            )[i] by {
                let prior = reg_bits(old(self)@);
                if i < 15 {
                    assert(reg_bits(self@)[i] == old(self)@.sync[i + 1]);
                    assert(shift_once(prior, bit)[i] == prior[i + 1]);
                } else if i == 15 {
                    assert(reg_bits(self@)[i] == old(self)@.data[0]);
                    assert(shift_once(prior, bit)[i] == prior[16]);
                } else if i < 79 {
                    assert(reg_bits(self@)[i] == self@.data[i - 16]);
                    assert(self@.data[i - 16] == old(self)@.data[i - 15]);
                    assert(shift_once(prior, bit)[i] == prior[i + 1]);
                    assert(prior[i + 1] == old(self)@.data[i - 15]);
                } else {
                    assert(reg_bits(self@)[i] == self@.data[63]);
                    assert(self@.data[63] == bit);
                }
            }
        }
    }

    /// Whether the sync register holds exactly the sync word, which is the
    /// moment the payload register holds one complete frame.
    pub fn data_valid(&self) -> (r: bool)
        ensures
            r == (self@.sync == sync_pattern()),
    {
        let r = self.sync_word == 0x3ffd;
        proof {
            if self.sync_word == 0x3ffd {
                assert(self@.sync =~= sync_pattern());
            }
            if self@.sync == sync_pattern() {
                assert(self@.sync[15] == sync_pattern()[15]);
                assert(self@.sync[14] == sync_pattern()[14]);
                assert(self@.sync[13] == sync_pattern()[13]);
                assert(self@.sync[12] == sync_pattern()[12]);
                assert(self@.sync[11] == sync_pattern()[11]);
                assert(self@.sync[10] == sync_pattern()[10]);
                assert(self@.sync[9] == sync_pattern()[9]);
                assert(self@.sync[8] == sync_pattern()[8]);
                assert(self@.sync[7] == sync_pattern()[7]);
                assert(self@.sync[6] == sync_pattern()[6]);
                assert(self@.sync[5] == sync_pattern()[5]);
                assert(self@.sync[4] == sync_pattern()[4]);
                assert(self@.sync[3] == sync_pattern()[3]);
                assert(self@.sync[2] == sync_pattern()[2]);
                assert(self@.sync[1] == sync_pattern()[1]);
                assert(self@.sync[0] == sync_pattern()[0]);
                lemma_u16_bits_inj(self.sync_word, 0x3ffd);
            }
        }
        r
    }

    /// Called once per raw audio sample: counts how long the current
    /// frame's payload bits have lasted. While the payload register shows
    /// that the next bit starts a frame's payload, the counter rests at
    /// zero; it then counts every sample until the frame completes, and
    /// saturates rather than wrap on an endless wait.
    pub fn sample_received(&mut self)
        ensures
            final(self)@ =~= frame_after_sample(old(self)@),
    {
        proof {
            crate::ltc_frame_data::lemma_half_sync_view(self.data);
        }
        if self.data.next_bit_is_start_of_frame() {
            self.frame_data_sample_count = 0;
        } else if self.frame_data_sample_count < usize::MAX {
            self.frame_data_sample_count = self.frame_data_sample_count + 1;
        }
    }

    /// Hands out a copy of the payload register and the sample count
    /// exactly when the sync register holds the sync word; the live
    /// register keeps shifting afterwards.
    pub fn get_data(&self) -> (r: Option<(LtcFrameData, usize)>)
        ensures
            r is Some <==> self@.sync == sync_pattern(),
            match r {
                Option::Some((payload, count)) => payload@ == self@.data && count as nat
                    == self@.count,
                Option::None => true,
            },
    {
        if self.data_valid() {
            Option::Some((self.data, self.frame_data_sample_count))
        } else {
            Option::None
        }
    }
}

} // verus!
