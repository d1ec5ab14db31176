//! The 64-bit payload register of an LTC frame and the fixed bit-field
//! layout that maps it to timecode digits and user-data nibbles.
//!
//! Bits arrive serially and are shifted in at the low end of the register,
//! so the bit transmitted first ends up at the highest raw position. All
//! contracts therefore speak of the register through `view`, the sequence
//! of its 64 bits in transmission order.

use vstd::arithmetic::div_mod::lemma_mod_breakdown;
use vstd::arithmetic::power2::{lemma2_to64, lemma_pow2_adds, lemma_pow2_pos, pow2};
use vstd::bits::{
    lemma_low_bits_mask_values, lemma_u8_low_bits_mask_is_mod, lemma_u8_shl_is_mul,
    lemma_u8_shr_is_div,
};
use vstd::prelude::*;
use intbits::Bits;

verus! {

/// Raw bit `i` of a 64-bit word.
pub open spec fn u64_bit(v: u64, i: u64) -> bool {
    (v >> i) & 1 == 1
}

/// Raw bit `i` of a 16-bit word.
pub open spec fn u16_bit(v: u16, i: u16) -> bool {
    (v >> i) & 1 == 1
}

/// Raw bit `i` of an 8-bit word.
pub open spec fn u8_bit(v: u8, i: u8) -> bool {
    (v >> i) & 1 == 1
}

/// The 64 bits of a payload register in transmission order: element 0 is
/// the oldest bit (raw bit 63), element 63 the bit shifted in last (raw
/// bit 0).
pub open spec fn ltc_bits(v: u64) -> Seq<bool> {
    Seq::new(64, |i: int| u64_bit(v, (63 - i) as u64))
}

/// The value of a bit sequence read little-endian: element 0 is the least
/// significant bit.
pub open spec fn seq_val(s: Seq<bool>) -> nat
    decreases s.len(),
{
    if s.len() == 0 {
        0
    } else {
        (if s[0] {
            1nat
        } else {
            0nat
        }) + 2 * seq_val(s.skip(1))
    }
}

/// Relies on intbits' `Bits::bit` for `u64`: returns `v >> i & 1 != 0`.
#[verifier::external_body]
fn u64_get_bit(v: u64, i: u32) -> (r: bool)
    requires
        i < 64,
    ensures
        r == u64_bit(v, i as u64),
{
    v.bit(i)
}

/// Relies on intbits' `Bits::set_bit` for `u64`: replaces `v` by
/// `v & !(1 << i) | (bit as u64) << i`.
#[verifier::external_body]
fn u64_with_bit(v: u64, i: u32, bit: bool) -> (r: u64)
    requires
        i < 64,
    ensures
        r == (v & !(1u64 << (i as u64))) | ((if bit {
            1u64
        } else {
            0u64
        }) << (i as u64)),
{
    let mut out = v;
    out.set_bit(i, bit);
    out
}

/// Setting one raw bit leaves every other raw bit unchanged.
proof fn lemma_u64_with_bit(v: u64, i: u64, bit: bool, k: u64)
    by (bit_vector)
    requires
        i < 64,
        k < 64,
    ensures
        u64_bit(
            (v & !(1u64 << i)) | ((if bit {
                1u64
            } else {
                0u64
            }) << i),
            k,
        ) == if k == i {
            bit
        } else {
            u64_bit(v, k)
        },
{
}

/// Shifting left by one moves every raw bit up and clears raw bit 0.
proof fn lemma_u64_shift_one(v: u64, k: u64)
    by (bit_vector)
    requires
        k < 64,
    ensures
        u64_bit(v << 1u64, k) == if k == 0 {
            false
        } else {
            u64_bit(v, (k - 1) as u64)
        },
{
}

/// The all-zero word has no bit set.
proof fn lemma_u64_zero_bit(k: u64)
    by (bit_vector)
    requires
        k < 64,
    ensures
        !u64_bit(0u64, k),
{
}

/// A bit sequence is bounded by two to the power of its length.
pub proof fn lemma_seq_val_bound(s: Seq<bool>)
    ensures
        seq_val(s) < pow2(s.len()),
    decreases s.len(),
{
    if s.len() == 0 {
        lemma2_to64();
    } else {
        lemma_seq_val_bound(s.skip(1));
        lemma_pow2_adds(1, (s.len() - 1) as nat);
        lemma2_to64();
    }
}

/// Appending a bit adds its weight at the top of the value.
pub proof fn lemma_seq_val_push(s: Seq<bool>, b: bool)
    ensures
        seq_val(s.push(b)) == seq_val(s) + (if b {
            1nat
        } else {
            0nat
        }) * pow2(s.len()),
    decreases s.len(),
{
    if s.len() == 0 {
        assert(s.push(b) =~= seq![b]);
        assert(seq![b].skip(1) =~= Seq::<bool>::empty());
        lemma2_to64();
        assert(seq_val(Seq::<bool>::empty()) == 0);
        assert(seq_val(s) == 0);
        assert(seq_val(seq![b]) == (if b {
            1nat
        } else {
            0nat
        }));
        assert(pow2(s.len()) == 1);
    } else {
        assert(s.push(b).len() == s.len() + 1);
        assert(s.push(b)[0] == s[0]);
        assert(s.push(b).skip(1) =~= s.skip(1).push(b));
        lemma_seq_val_push(s.skip(1), b);
        lemma_pow2_adds(1, (s.len() - 1) as nat);
        lemma2_to64();
        let w = (if b {
            1nat
        } else {
            0nat
        });
        assert(pow2(s.len()) == 2 * pow2((s.len() - 1) as nat));
        assert(seq_val(s.push(b)) == seq_val(s) + 2 * (w * pow2((s.len() - 1) as nat)));
        assert(2 * (w * pow2((s.len() - 1) as nat)) == w * (2 * pow2((s.len() - 1) as nat)))
            by (nonlinear_arith);
    }
}

/// A sequence whose bits are the low bits of `value` reads back as `value`
/// reduced by the field width.
proof fn lemma_seq_val_of_u8_bits(value: u8, s: Seq<bool>)
    requires
        s.len() <= 8,
        forall|k: int| 0 <= k < s.len() ==> s[k] == u8_bit(value, k as u8),
    ensures
        seq_val(s) == (value as nat) % pow2(s.len()),
    decreases s.len(),
{
    lemma_low_bits_mask_values();
    lemma2_to64();
    if s.len() == 0 {
        assert((value as nat) % 1 == 0) by (nonlinear_arith);
    } else {
        let half = value >> 1u8;
        assert forall|k: int| 0 <= k < s.skip(1).len() implies s.skip(1)[k] == u8_bit(
            half,
            k as u8,
        ) by {
            let ku = k as u8;
            assert(((value >> 1u8) >> ku) & 1 == (value >> ((ku + 1) as u8)) & 1) by (bit_vector)
                requires
                    ku < 7,
            ;
        }
        lemma_seq_val_of_u8_bits(half, s.skip(1));
        lemma_u8_shr_is_div(value, 1);
        lemma_u8_low_bits_mask_is_mod(value, 1);
        assert(u8_bit(value, 0) == ((value as nat) % 2 == 1)) by {
            assert(value >> 0u8 == value) by (bit_vector);
        }
        lemma_mod_breakdown(value as int, 2, pow2((s.len() - 1) as nat) as int);
        lemma_pow2_adds(1, (s.len() - 1) as nat);
        lemma_pow2_pos((s.len() - 1) as nat);
    }
}

/// Field codec round-trip: a two-digit value split as units `v % 10` and
/// tens `v / 10`, written through a tens field that keeps the tens digit
/// modulo `tens_mod`, reads back as exactly the value whenever its tens
/// digit fits the field. Together with the digit setters' and getters'
/// contracts this says that encoding any representable timecode digit
/// pair and decoding it returns the original value.
pub proof fn lemma_field_codec_round_trip(v: u8, tens_mod: int)
    requires
        tens_mod > 0,
        (v as int) / 10 < tens_mod,
    ensures
        (v as int) % 10 + 10 * (((v as int) / 10) % tens_mod) == v,
{
    vstd::arithmetic::div_mod::lemma_fundamental_div_mod(v as int, 10);
    vstd::arithmetic::div_mod::lemma_small_mod(((v as int) / 10) as nat, tens_mod as nat);
}

/// The frames digit pair encoded in a payload bit sequence: a four-bit
/// units field and a two-bit tens field.
pub open spec fn spec_frames(s: Seq<bool>) -> nat {
    seq_val(s.subrange(0, 4)) + 10 * seq_val(s.subrange(8, 10))
}

/// The seconds digit pair: a four-bit units field and a three-bit tens
/// field.
pub open spec fn spec_seconds(s: Seq<bool>) -> nat {
    seq_val(s.subrange(16, 20)) + 10 * seq_val(s.subrange(24, 27))
}

/// The minutes digit pair: a four-bit units field and a three-bit tens
/// field.
pub open spec fn spec_minutes(s: Seq<bool>) -> nat {
    seq_val(s.subrange(32, 36)) + 10 * seq_val(s.subrange(40, 43))
}

/// The hours digit pair: a four-bit units field and a two-bit tens field.
pub open spec fn spec_hours(s: Seq<bool>) -> nat {
    seq_val(s.subrange(48, 52)) + 10 * seq_val(s.subrange(56, 58))
}

/// User-data nibble `i` of a payload bit sequence; nibble `i` occupies the
/// four bits starting at position `4 + 8 * i`.
pub open spec fn spec_user_nibble(s: Seq<bool>, i: int) -> nat {
    seq_val(s.subrange(4 + 8 * i, 8 + 8 * i))
}

/// Whether the sixteen bits that arrived most recently are exactly the LTC
/// sync word. The newest bits sit in the low raw bits of the register, with
/// the newest of all at raw bit 0, so this compares the low 16 raw bits
/// against the sync constant.
pub open spec fn spec_half_sync(v: u64) -> bool {
    v & 0xffff == 0x3ffd
}

/// The sixteen bits of a sync register in transmission order: element 0 is
/// the oldest bit (raw bit 15), element 15 the bit shifted in last.
pub open spec fn sync_bits(v: u16) -> Seq<bool> {
    Seq::new(16, |i: int| u16_bit(v, (15 - i) as u16))
}

/// The fixed LTC sync word, as a bit sequence in transmission order.
pub open spec fn sync_pattern() -> Seq<bool> {
    sync_bits(0x3ffd)
}

/// Whether the newest sixteen bits of a payload bit sequence — its last
/// sixteen elements in transmission order — are the sync word.
pub open spec fn half_sync_in(data: Seq<bool>) -> bool {
    data.subrange(48, 64) == sync_pattern()
}

/// When the low sixteen raw bits equal the sync constant, each of them
/// matches the corresponding bit of the constant.
proof fn lemma_half_sync_bit_fwd(v: u64, k: u64)
    by (bit_vector)
    requires
        k < 16,
        v & 0xffff == 0x3ffd,
    ensures
        u64_bit(v, k) == u16_bit(0x3ffd, k as u16),
{
}

/// When each of the low sixteen raw bits matches the corresponding bit of
/// the sync constant, the masked comparison holds too.
proof fn lemma_half_sync_bits_to_mask(v: u64)
    by (bit_vector)
    requires
        u64_bit(v, 0) == u16_bit(0x3ffd, 0),
        u64_bit(v, 1) == u16_bit(0x3ffd, 1),
        u64_bit(v, 2) == u16_bit(0x3ffd, 2),
        u64_bit(v, 3) == u16_bit(0x3ffd, 3),
        u64_bit(v, 4) == u16_bit(0x3ffd, 4),
        u64_bit(v, 5) == u16_bit(0x3ffd, 5),
        u64_bit(v, 6) == u16_bit(0x3ffd, 6),
        u64_bit(v, 7) == u16_bit(0x3ffd, 7),
        u64_bit(v, 8) == u16_bit(0x3ffd, 8),
        u64_bit(v, 9) == u16_bit(0x3ffd, 9),
        u64_bit(v, 10) == u16_bit(0x3ffd, 10),
        u64_bit(v, 11) == u16_bit(0x3ffd, 11),
        u64_bit(v, 12) == u16_bit(0x3ffd, 12),
        u64_bit(v, 13) == u16_bit(0x3ffd, 13),
        u64_bit(v, 14) == u16_bit(0x3ffd, 14),
        u64_bit(v, 15) == u16_bit(0x3ffd, 15),
    ensures
        v & 0xffff == 0x3ffd,
{
}

/// `spec_half_sync` on the raw register says exactly that the view's
/// newest sixteen bits are the sync word.
pub proof fn lemma_half_sync_view(d: LtcFrameData)
    ensures
        spec_half_sync(d.raw()) == half_sync_in(d@),
{
    let v = d.raw();
    if spec_half_sync(v) {
        assert forall|j: int| 0 <= j < 16 implies d@.subrange(48, 64)[j] == sync_pattern()[j] by {
            lemma_half_sync_bit_fwd(v, (15 - j) as u64);
        }
        assert(d@.subrange(48, 64) =~= sync_pattern());
    }
    if half_sync_in(d@) {
        assert(u64_bit(v, 0) == u16_bit(0x3ffd, 0)) by {
            assert(d@.subrange(48, 64)[15] == sync_pattern()[15]);
        }
        assert(u64_bit(v, 1) == u16_bit(0x3ffd, 1)) by {
            assert(d@.subrange(48, 64)[14] == sync_pattern()[14]);
        }
        assert(u64_bit(v, 2) == u16_bit(0x3ffd, 2)) by {
            assert(d@.subrange(48, 64)[13] == sync_pattern()[13]);
        }
        assert(u64_bit(v, 3) == u16_bit(0x3ffd, 3)) by {
            assert(d@.subrange(48, 64)[12] == sync_pattern()[12]);
        }
        assert(u64_bit(v, 4) == u16_bit(0x3ffd, 4)) by {
            assert(d@.subrange(48, 64)[11] == sync_pattern()[11]);
        }
        assert(u64_bit(v, 5) == u16_bit(0x3ffd, 5)) by {
            assert(d@.subrange(48, 64)[10] == sync_pattern()[10]);
        }
        assert(u64_bit(v, 6) == u16_bit(0x3ffd, 6)) by {
            assert(d@.subrange(48, 64)[9] == sync_pattern()[9]);
        }
        assert(u64_bit(v, 7) == u16_bit(0x3ffd, 7)) by {
            assert(d@.subrange(48, 64)[8] == sync_pattern()[8]);
        }
        assert(u64_bit(v, 8) == u16_bit(0x3ffd, 8)) by {
            assert(d@.subrange(48, 64)[7] == sync_pattern()[7]);
        }
        assert(u64_bit(v, 9) == u16_bit(0x3ffd, 9)) by {
            assert(d@.subrange(48, 64)[6] == sync_pattern()[6]);
        }
        assert(u64_bit(v, 10) == u16_bit(0x3ffd, 10)) by {
            assert(d@.subrange(48, 64)[5] == sync_pattern()[5]);
        }
        assert(u64_bit(v, 11) == u16_bit(0x3ffd, 11)) by {
            assert(d@.subrange(48, 64)[4] == sync_pattern()[4]);
        }
        assert(u64_bit(v, 12) == u16_bit(0x3ffd, 12)) by {
            assert(d@.subrange(48, 64)[3] == sync_pattern()[3]);
        }
        assert(u64_bit(v, 13) == u16_bit(0x3ffd, 13)) by {
            assert(d@.subrange(48, 64)[2] == sync_pattern()[2]);
        }
        assert(u64_bit(v, 14) == u16_bit(0x3ffd, 14)) by {
            assert(d@.subrange(48, 64)[1] == sync_pattern()[1]);
        }
        assert(u64_bit(v, 15) == u16_bit(0x3ffd, 15)) by {
            assert(d@.subrange(48, 64)[0] == sync_pattern()[0]);
        }
        lemma_half_sync_bits_to_mask(v);
    }
}

/// Holds the 64 payload bits of an LTC frame, without the sync word.
#[derive(Clone, Copy, PartialEq, Eq, Structural, Debug)]
pub struct LtcFrameData {
    data: u64,
}

impl View for LtcFrameData {
    type V = Seq<bool>;

    /// The register's bits in transmission order.
    closed spec fn view(&self) -> Seq<bool> {
        ltc_bits(self.data)
    }
}

/// The view of a payload register always has exactly 64 bits.
pub broadcast proof fn lemma_data_view_len(d: LtcFrameData)
    ensures
        (#[trigger] d@).len() == 64,
{
}

impl LtcFrameData {
    /// The raw register value; transmission-order bit `i` is raw bit
    /// `63 - i`.
    pub closed spec fn raw(self) -> u64 {
        self.data
    }

    /// An empty register, every bit zero.
    pub fn new_empty() -> (r: Self)
        ensures
            r@ =~= Seq::new(64, |i: int| false),
            r.raw() == 0,
    {
        let r = LtcFrameData { data: 0 };
        proof {
            assert forall|i: int| 0 <= i < 64 implies !r@[i] by {
                lemma_u64_zero_bit((63 - i) as u64);
            }
        }
        r
    }

    /// A register holding the given raw value.
    pub fn new_raw(data: u64) -> (r: Self)
        ensures
            r.raw() == data,
            r@ == ltc_bits(data),
    {
        LtcFrameData { data }
    }

    /// Zeroes the register after unexpected input.
    pub fn invalidate(&mut self)
        ensures
            final(self)@ =~= Seq::new(64, |i: int| false),
            final(self).raw() == 0,
    {
        self.data = 0;
        proof {
            assert forall|i: int| 0 <= i < 64 implies !self@[i] by {
                lemma_u64_zero_bit((63 - i) as u64);
            }
        }
    }

    /// Shifts `bit` in as the newest bit; every other bit moves one place
    /// toward the old end, and the oldest bit is handed back so the caller
    /// can push it into the sync register.
    pub fn shift_bit_with_overflow(&mut self, bit: bool) -> (overflow: bool)
        ensures
            final(self)@ =~= old(self)@.skip(1).push(bit),
            overflow == old(self)@[0],
    {
        let overflow = u64_get_bit(self.data, 63);
        let shifted = self.data << 1u32;
        self.data = u64_with_bit(shifted, 0, bit);
        proof {
            let prev = old(self).data;
            assert forall|i: int| 0 <= i < 64 implies self@[i] == old(self)@.skip(1).push(bit)[i]
            by {
                assert((prev << 1u32) == (prev << 1u64)) by (bit_vector);
                lemma_u64_with_bit(prev << 1u64, 0, bit, (63 - i) as u64);
                if i < 63 {
                    lemma_u64_shift_one(prev, (63 - i) as u64);
                }
            }
        }
        overflow
    }

    /// The value of the `width` transmission-order bits starting at
    /// `start`, read little-endian as the LTC layout prescribes.
    pub fn get_field(&self, start: u32, width: u32) -> (r: u8)
        requires
            start + width <= 64,
            width <= 8,
        ensures
            r == seq_val(self@.subrange(start as int, start as int + width as int)),
    {
        let mut r: u8 = 0;
        let mut j: u32 = 0;
        proof {
            assert(self@.subrange(start as int, start as int) =~= Seq::<bool>::empty());
        }
        while j < width
            invariant
                j <= width,
                width <= 8,
                start + width <= 64,
                r == seq_val(self@.subrange(start as int, start as int + j as int)),
            decreases width - j,
        {
            proof {
                lemma_seq_val_bound(self@.subrange(start as int, start as int + j as int));
                lemma2_to64();
                lemma_u8_shl_is_mul(1, j as u8);
                if j < 7 {
                    vstd::arithmetic::power2::lemma_pow2_strictly_increases(j as nat, 7);
                }
            }
            let weight: u8 = 1u8 << j;
            let bit = u64_get_bit(self.data, 63 - (start + j));
            proof {
                let sub = self@.subrange(start as int, start as int + j as int);
                assert(self@.subrange(start as int, start as int + j + 1) =~= sub.push(
                    self@[start as int + j as int],
                ));
                lemma_seq_val_push(sub, self@[start as int + j as int]);
            }
            if bit {
                r = r + weight;
            }
            j = j + 1;
        }
        r
    }

    /// Writes the low `width` bits of `value` into the transmission-order
    /// bits starting at `start`; every bit outside the field keeps its
    /// value, and a `value` too wide for the field is silently truncated.
    pub fn set_field(&mut self, start: u32, width: u32, value: u8)
        requires
            start + width <= 64,
            width <= 8,
        ensures
            seq_val(final(self)@.subrange(start as int, start as int + width as int)) == (
            value as nat) % pow2(width as nat),
            forall|i: int|
                0 <= i < 64 && !(start <= i < start + width) ==> final(self)@[i] == old(self)@[i],
    {
        let mut j: u32 = 0;
        while j < width
            invariant
                j <= width,
                width <= 8,
                start + width <= 64,
                forall|k: int| 0 <= k < j ==> self@[start + k] == u8_bit(value, #[trigger] (k as u8)),
                forall|i: int|
                    0 <= i < 64 && !(start <= i < start + j) ==> self@[i] == old(self)@[i],
            decreases width - j,
        {
            let bit = ((value >> (j as u8)) & 1) == 1;
            let raw = 63 - (start + j);
            let ghost before = self@;
            let ghost prev = self.data;
            self.data = u64_with_bit(self.data, raw, bit);
            proof {
                assert(u8_bit(value, j as u8) == bit);
                assert forall|i: int| 0 <= i < 64 implies self@[i] == (if i == start + j {
                    bit
                } else {
                    before[i]
                }) by {
                    lemma_u64_with_bit(prev, raw as u64, bit, (63 - i) as u64);
                }
            }
            j = j + 1;
        }
        proof {
            let sub = self@.subrange(start as int, start as int + width as int);
            lemma_seq_val_of_u8_bits(value, sub);
        }
    }

    /// Reads the frames digit pair: units plus ten times the tens field.
    pub fn get_frames(&self) -> (r: u8)
        ensures
            r == spec_frames(self@),
    {
        proof {
            lemma_seq_val_bound(self@.subrange(0, 4));
            lemma_seq_val_bound(self@.subrange(8, 10));
            lemma2_to64();
        }
        let units = self.get_field(0, 4);
        let tens = self.get_field(8, 2);
        units + 10 * tens
    }

    /// Reads the seconds digit pair.
    pub fn get_seconds(&self) -> (r: u8)
        ensures
            r == spec_seconds(self@),
    {
        proof {
            lemma_seq_val_bound(self@.subrange(16, 20));
            lemma_seq_val_bound(self@.subrange(24, 27));
            lemma2_to64();
        }
        let units = self.get_field(16, 4);
        let tens = self.get_field(24, 3);
        units + 10 * tens
    }

    /// Reads the minutes digit pair.
    pub fn get_minutes(&self) -> (r: u8)
        ensures
            r == spec_minutes(self@),
    {
        proof {
            lemma_seq_val_bound(self@.subrange(32, 36));
            lemma_seq_val_bound(self@.subrange(40, 43));
            lemma2_to64();
        }
        let units = self.get_field(32, 4);
        let tens = self.get_field(40, 3);
        units + 10 * tens
    }

    /// Reads the hours digit pair.
    pub fn get_hours(&self) -> (r: u8)
        ensures
            r == spec_hours(self@),
    {
        proof {
            lemma_seq_val_bound(self@.subrange(48, 52));
            lemma_seq_val_bound(self@.subrange(56, 58));
            lemma2_to64();
        }
        let units = self.get_field(48, 4);
        let tens = self.get_field(56, 2);
        units + 10 * tens
    }

    /// Reads user-data nibble `i`.
    pub fn get_user_nibble(&self, i: u32) -> (r: u8)
        requires
            i < 8,
        ensures
            r == spec_user_nibble(self@, i as int),
    {
        self.get_field(4 + 8 * i, 4)
    }

    /// Writes the frames digit pair, split as units `v % 10` and tens
    /// `v / 10`; a tens digit above the two-bit field width is truncated.
    pub fn set_frames(&mut self, v: u8)
        ensures
            spec_frames(final(self)@) == (v as int) % 10 + 10 * (((v as int) / 10) % 4),
            forall|i: int|
                0 <= i < 64 && !(0 <= i < 4) && !(8 <= i < 10) ==> final(self)@[i] == old(
                    self,
                )@[i],
    {
        proof {
            lemma2_to64();
        }
        self.set_field(0, 4, v % 10);
        let ghost after_units = self@;
        self.set_field(8, 2, v / 10);
        proof {
            assert(self@.subrange(0, 4) =~= after_units.subrange(0, 4));
        }
    }

    /// Writes the seconds digit pair; tens wider than three bits truncate.
    pub fn set_seconds(&mut self, v: u8)
        ensures
            spec_seconds(final(self)@) == (v as int) % 10 + 10 * (((v as int) / 10) % 8),
            forall|i: int|
                0 <= i < 64 && !(16 <= i < 20) && !(24 <= i < 27) ==> final(self)@[i] == old(
                    self,
                )@[i],
    {
        proof {
            lemma2_to64();
        }
        self.set_field(16, 4, v % 10);
        let ghost after_units = self@;
        self.set_field(24, 3, v / 10);
        proof {
            assert(self@.subrange(16, 20) =~= after_units.subrange(16, 20));
        }
    }

    /// Writes the minutes digit pair; tens wider than three bits truncate.
    pub fn set_minutes(&mut self, v: u8)
        ensures
            spec_minutes(final(self)@) == (v as int) % 10 + 10 * (((v as int) / 10) % 8),
            forall|i: int|
                0 <= i < 64 && !(32 <= i < 36) && !(40 <= i < 43) ==> final(self)@[i] == old(
                    self,
                )@[i],
    {
        proof {
            lemma2_to64();
        }
        self.set_field(32, 4, v % 10);
        let ghost after_units = self@;
        self.set_field(40, 3, v / 10);
        proof {
            assert(self@.subrange(32, 36) =~= after_units.subrange(32, 36));
        }
    }

    /// Writes the hours digit pair; tens wider than two bits truncate.
    pub fn set_hours(&mut self, v: u8)
        ensures
            spec_hours(final(self)@) == (v as int) % 10 + 10 * (((v as int) / 10) % 4),
            forall|i: int|
                0 <= i < 64 && !(48 <= i < 52) && !(56 <= i < 58) ==> final(self)@[i] == old(
                    self,
                )@[i],
    {
        proof {
            lemma2_to64();
        }
        self.set_field(48, 4, v % 10);
        let ghost after_units = self@;
        self.set_field(56, 2, v / 10);
        proof {
            assert(self@.subrange(48, 52) =~= after_units.subrange(48, 52));
        }
    }

    /// Writes user-data nibble `i`; values above four bits truncate.
    pub fn set_user_nibble(&mut self, i: u32, v: u8)
        requires
            i < 8,
        ensures
            spec_user_nibble(final(self)@, i as int) == (v as nat) % 16,
            forall|j: int|
                0 <= j < 64 && !(4 + 8 * i <= j < 8 + 8 * i) ==> final(self)@[j] == old(
                    self,
                )@[j],
    {
        proof {
            lemma2_to64();
        }
        self.set_field(4 + 8 * i, 4, v);
    }

    /// Builds the timecode value a completed frame carries: the four digit
    /// pairs decoded from the payload and the frame-rate classification of
    /// the observed payload duration. User-data nibbles are not carried
    /// over into the timecode value.
    pub fn make_ltc_frame(&self, sample_count: usize, sample_rate: u32) -> (r:
        crate::TimecodeFrame)
        ensures
            r.hours == spec_hours(self@),
            r.minutes == spec_minutes(self@),
            r.seconds == spec_seconds(self@),
            r.frames == spec_frames(self@),
            r.frames_per_second == crate::spec_frames_per_second(
                sample_count as int,
                sample_rate as int,
            ),
            r.frame_units_user_bits == 0,
            r.frame_tens_user_bits == 0,
            r.second_units_user_bits == 0,
            r.second_tens_user_bits == 0,
            r.minute_units_user_bits == 0,
            r.minute_tens_user_bits == 0,
            r.hour_units_user_bits == 0,
            r.hour_tens_user_bits == 0,
    {
        crate::TimecodeFrame::new(
            self.get_hours(),
            self.get_minutes(),
            self.get_seconds(),
            self.get_frames(),
            crate::FramesPerSecond::from_frame_duration_without_syncword(
                sample_count,
                sample_rate,
            ),
        )
    }

    /// Whether the sixteen most recent bits form the sync word, which means
    /// the next bit to arrive is the first payload bit of a frame.
    pub fn next_bit_is_start_of_frame(&self) -> (r: bool)
        ensures
            r == spec_half_sync(self.raw()),
    {
        (self.data & 0xffff) == 0x3ffd
    }
}

} // verus!
