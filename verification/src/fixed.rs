//! Signed fixed-point numbers with 24 fractional bits.

use vstd::prelude::*;
use crate::arith::{
    clamp_i32, clamp_to_i32, div_round, lemma_mul_bounds, lemma_round_div_bounds, round_div,
};

verus! {

/// The raw value of 1.0.
pub const FIXED_ONE: i32 = 16777216;

/// A number `raw / 2^24`, covering `[-128, 128)` in steps of `2^-24`.
#[derive(Clone, Copy, Debug, PartialEq, Eq, Structural)]
pub struct Fixed {
    pub raw: i32,
}

/// The number of raw units in 1.0, as a mathematical integer.
pub open spec fn scale() -> int {
    16777216
}

/// The raw value nearest to `num / den`, limited to the range of [`Fixed`].
/// Meaningful for `den != 0`.
pub open spec fn ratio_raw(num: int, den: int) -> int {
    if den > 0 {
        clamp_i32(round_div(num * scale(), den))
    } else {
        clamp_i32(round_div(-num * scale(), -den))
    }
}

/// The device coordinate nearest to the normalized coordinate `v` on an axis
/// of `extent` pixels: `v * extent`, halves rounded away from zero.
pub open spec fn device_coord(v: Fixed, extent: int) -> int {
    round_div(v.raw * extent, scale())
}

impl Fixed {
    /// The device coordinate of this normalized coordinate on an axis of
    /// `extent` pixels.
    pub fn to_device(self, extent: u32) -> (c: i64)
        ensures
            c == device_coord(self, extent as int),
            -0x80_0000_0000 <= c <= 0x80_0000_0000,
    {
        proof {
            lemma_mul_bounds(self.raw as int, extent as int, 0x8000_0000, 0xffff_ffff);
            lemma_round_div_bounds(self.raw * extent, scale(), -0x80_0000_0000, 0x80_0000_0000);
        }
        div_round(self.raw as i128 * extent as i128, 16777216) as i64
    }

    /// The number with the given raw value.
    pub fn from_raw(raw: i32) -> (f: Fixed)
        ensures
            f.raw == raw,
    {
        Fixed { raw }
    }

    /// The fixed-point number nearest to `num / den`, halves rounded away
    /// from zero and values beyond the range limited to its ends. `None` when
    /// `den` is zero.
    pub fn from_ratio(num: i64, den: i64) -> (f: Option<Fixed>)
        ensures
            den == 0 <==> f is None,
            f matches Some(v) ==> v.raw == ratio_raw(num as int, den as int),
    {
        if den == 0 {
            return None;
        }
        let n: i128 = (num as i128) * 16777216;
        let d: i128 = den as i128;
        let q = if d > 0 {
            div_round(n, d)
        } else {
            div_round(-n, -d)
        };
        Some(Fixed { raw: clamp_to_i32(q) })
    }

    /// The sum, limited to the range of [`Fixed`].
    pub fn saturating_add(self, other: Fixed) -> (f: Fixed)
        ensures
            f.raw == clamp_i32(self.raw + other.raw),
    {
        Fixed { raw: clamp_to_i32(self.raw as i128 + other.raw as i128) }
    }

    /// The difference, limited to the range of [`Fixed`].
    pub fn saturating_sub(self, other: Fixed) -> (f: Fixed)
        ensures
            f.raw == clamp_i32(self.raw - other.raw),
    {
        Fixed { raw: clamp_to_i32(self.raw as i128 - other.raw as i128) }
    }
}

} // verus!
