//! The capability a sample type must offer the decoder: a zero value, a
//! total order, and exact conversion to and from a wide signed integer so
//! that the calibrator can form midpoints without overflow.
//!
//! The decoder is generic over this trait and the eight fixed-width
//! integer widths an audio source may deliver all implement it.

use vstd::prelude::*;

verus! {

/// An audio sample value: a fixed-width integer of at most 64 bits.
pub trait Sample: Sized + Copy {
    /// The sample's value as a mathematical integer.
    spec fn sample_int(self) -> int;

    /// The smallest value of the sample type.
    spec fn min_int() -> int;

    /// The largest value of the sample type.
    spec fn max_int() -> int;

    /// Every value lies in the type's range, zero is representable, and
    /// the range fits comfortably inside a 128-bit signed integer.
    proof fn lemma_in_range(self)
        ensures
            Self::min_int() <= self.sample_int() <= Self::max_int(),
            Self::min_int() <= 0 <= Self::max_int(),
            -0x8000_0000_0000_0000 <= Self::min_int(),
            Self::max_int() <= 0xffff_ffff_ffff_ffff,
    ;

    /// The zero sample.
    fn zero() -> (r: Self)
        ensures
            r.sample_int() == 0,
    ;

    /// Total order: less than or equal.
    fn le(self, other: Self) -> (r: bool)
        ensures
            r == (self.sample_int() <= other.sample_int()),
    ;

    /// Total order: strictly less than.
    fn lt(self, other: Self) -> (r: bool)
        ensures
            r == (self.sample_int() < other.sample_int()),
    ;

    /// Exact widening into a 128-bit signed integer.
    fn to_wide(self) -> (r: i128)
        ensures
            r as int == self.sample_int(),
    ;

    /// Exact narrowing from a 128-bit signed integer; answers `None`
    /// exactly when the value does not fit the sample type.
    fn from_wide(v: i128) -> (r: Option<Self>)
        ensures
            match r {
                Option::Some(s) => Self::min_int() <= v as int <= Self::max_int()
                    && s.sample_int() == v as int,
                Option::None => !(Self::min_int() <= v as int <= Self::max_int()),
            },
    ;
}

impl Sample for i8 {
    open spec fn sample_int(self) -> int {
        self as int
    }

    open spec fn min_int() -> int {
        i8::MIN as int
    }

    open spec fn max_int() -> int {
        i8::MAX as int
    }

    proof fn lemma_in_range(self) {
    }

    fn zero() -> (r: Self) {
        0
    }

    fn le(self, other: Self) -> (r: bool) {
        self <= other
    }

    fn lt(self, other: Self) -> (r: bool) {
        self < other
    }

    fn to_wide(self) -> (r: i128) {
        self as i128
    }

    fn from_wide(v: i128) -> (r: Option<Self>) {
        if v >= i8::MIN as i128 && v <= i8::MAX as i128 {
            Option::Some(v as i8)
        } else {
            Option::None
        }
    }
}

impl Sample for i16 {
    open spec fn sample_int(self) -> int {
        self as int
    }

    open spec fn min_int() -> int {
        i16::MIN as int
    }

    open spec fn max_int() -> int {
        i16::MAX as int
    }

    proof fn lemma_in_range(self) {
    }

    fn zero() -> (r: Self) {
        0
    }

    fn le(self, other: Self) -> (r: bool) {
        self <= other
    }

    fn lt(self, other: Self) -> (r: bool) {
        self < other
    }

    fn to_wide(self) -> (r: i128) {
        self as i128
    }

    fn from_wide(v: i128) -> (r: Option<Self>) {
        if v >= i16::MIN as i128 && v <= i16::MAX as i128 {
            Option::Some(v as i16)
        } else {
            Option::None
        }
    }
}

impl Sample for i32 {
    open spec fn sample_int(self) -> int {
        self as int
    }

    open spec fn min_int() -> int {
        i32::MIN as int
    }

    open spec fn max_int() -> int {
        i32::MAX as int
    }

    proof fn lemma_in_range(self) {
    }

    fn zero() -> (r: Self) {
        0
    }

    fn le(self, other: Self) -> (r: bool) {
        self <= other
    }

    fn lt(self, other: Self) -> (r: bool) {
        self < other
    }

    fn to_wide(self) -> (r: i128) {
        self as i128
    }

    fn from_wide(v: i128) -> (r: Option<Self>) {
        if v >= i32::MIN as i128 && v <= i32::MAX as i128 {
            Option::Some(v as i32)
        } else {
            Option::None
        }
    }
}

impl Sample for i64 {
    open spec fn sample_int(self) -> int {
        self as int
    }

    open spec fn min_int() -> int {
        i64::MIN as int
    }

    open spec fn max_int() -> int {
        i64::MAX as int
    }

    proof fn lemma_in_range(self) {
    }

    fn zero() -> (r: Self) {
        0
    }

    fn le(self, other: Self) -> (r: bool) {
        self <= other
    }

    fn lt(self, other: Self) -> (r: bool) {
        self < other
    }

    fn to_wide(self) -> (r: i128) {
        self as i128
    }

    fn from_wide(v: i128) -> (r: Option<Self>) {
        if v >= i64::MIN as i128 && v <= i64::MAX as i128 {
            Option::Some(v as i64)
        } else {
            Option::None
        }
    }
}

impl Sample for u8 {
    open spec fn sample_int(self) -> int {
        self as int
    }

    open spec fn min_int() -> int {
        u8::MIN as int
    }

    open spec fn max_int() -> int {
        u8::MAX as int
    }

    proof fn lemma_in_range(self) {
    }

    fn zero() -> (r: Self) {
        0
    }

    fn le(self, other: Self) -> (r: bool) {
        self <= other
    }

    fn lt(self, other: Self) -> (r: bool) {
        self < other
    }

    fn to_wide(self) -> (r: i128) {
        self as i128
    }

    fn from_wide(v: i128) -> (r: Option<Self>) {
        if v >= u8::MIN as i128 && v <= u8::MAX as i128 {
            Option::Some(v as u8)
        } else {
            Option::None
        }
    }
}

impl Sample for u16 {
    open spec fn sample_int(self) -> int {
        self as int
    }

    open spec fn min_int() -> int {
        u16::MIN as int
    }

    open spec fn max_int() -> int {
        u16::MAX as int
    }

    proof fn lemma_in_range(self) {
    }

    fn zero() -> (r: Self) {
        0
    }

    fn le(self, other: Self) -> (r: bool) {
        self <= other
    }

    fn lt(self, other: Self) -> (r: bool) {
        self < other
    }

    fn to_wide(self) -> (r: i128) {
        self as i128
    }

    fn from_wide(v: i128) -> (r: Option<Self>) {
        if v >= u16::MIN as i128 && v <= u16::MAX as i128 {
            Option::Some(v as u16)
        } else {
            Option::None
        }
    }
}

impl Sample for u32 {
    open spec fn sample_int(self) -> int {
        self as int
    }

    open spec fn min_int() -> int {
        u32::MIN as int
    }

    open spec fn max_int() -> int {
        u32::MAX as int
    }

    proof fn lemma_in_range(self) {
    }

    fn zero() -> (r: Self) {
        0
    }

    fn le(self, other: Self) -> (r: bool) {
        self <= other
    }

    fn lt(self, other: Self) -> (r: bool) {
        self < other
    }

    fn to_wide(self) -> (r: i128) {
        self as i128
    }

    fn from_wide(v: i128) -> (r: Option<Self>) {
        if v >= u32::MIN as i128 && v <= u32::MAX as i128 {
            Option::Some(v as u32)
        } else {
            Option::None
        }
    }
}

impl Sample for u64 {
    open spec fn sample_int(self) -> int {
        self as int
    }

    open spec fn min_int() -> int {
        u64::MIN as int
    }

    open spec fn max_int() -> int {
        u64::MAX as int
    }

    proof fn lemma_in_range(self) {
    }

    fn zero() -> (r: Self) {
        0
    }

    fn le(self, other: Self) -> (r: bool) {
        self <= other
    }

    fn lt(self, other: Self) -> (r: bool) {
        self < other
    }

    fn to_wide(self) -> (r: i128) {
        self as i128
    }

    fn from_wide(v: i128) -> (r: Option<Self>) {
        if v >= u64::MIN as i128 && v <= u64::MAX as i128 {
            Option::Some(v as u64)
        } else {
            Option::None
        }
    }
}

} // verus!
