//! Small color helpers for the presentation layer: an 8-bit RGB triple
//! packed into a `u32`, and a wrapper with a fixed-point brightness
//! adjustment.

use crate::fixed::{div_tz, div_tz_i128, UNIT};
use vstd::arithmetic::mul::lemma_mul_nonnegative;
use vstd::prelude::*;

verus! {

/// An 8-bit-per-channel color.
#[derive(Debug, Clone, Copy, PartialEq, Eq, Structural)]
pub struct RGB(pub u8, pub u8, pub u8);

impl RGB {
    /// Packs the three channels into one `u32`: red in bits 16 to 23,
    /// green in bits 8 to 15, blue in bits 0 to 7.
    pub fn to_u32(&self) -> (r: u32)
        ensures
            r == self.0 * 0x1_0000 + self.1 * 0x100 + self.2,
    {
        self.0 as u32 * 0x1_0000 + self.1 as u32 * 0x100 + self.2 as u32
    }
}

/// An RGB color with named channels, as the terminal layer consumes it.
#[derive(Debug, Clone, Copy, PartialEq, Eq, Structural)]
pub struct ColorWrapper {
    pub r: u8,
    pub g: u8,
    pub b: u8,
}

/// One channel scaled by a fixed-point factor and capped at 254.
pub open spec fn lighten_channel(ch: int, factor: int) -> int {
    let scaled = div_tz(ch * factor, UNIT as int);
    if scaled > 254 {
        254
    } else {
        scaled
    }
}

impl ColorWrapper {
    /// Builds a color from its three channels.
    pub fn rgb(r: u8, g: u8, b: u8) -> (c: Self)
        ensures
            c.r == r,
            c.g == g,
            c.b == b,
    {
        Self { r, g, b }
    }

    /// Scales every channel by a fixed-point factor ([`UNIT`] leaves the
    /// color unchanged, larger factors brighten) and caps each channel
    /// at 254.
    pub fn lighten(&self, factor: i64) -> (c: Self)
        requires
            0 <= factor,
        ensures
            c.r == lighten_channel(self.r as int, factor as int),
            c.g == lighten_channel(self.g as int, factor as int),
            c.b == lighten_channel(self.b as int, factor as int),
    {
        Self {
            r: Self::lighten_one(self.r, factor),
            g: Self::lighten_one(self.g, factor),
            b: Self::lighten_one(self.b, factor),
        }
    }

    /// Scales one channel by a fixed-point factor, capping at 254.
    fn lighten_one(ch: u8, factor: i64) -> (r: u8)
        requires
            0 <= factor,
        ensures
            r == lighten_channel(ch as int, factor as int),
    {
        proof {
            crate::fixed::lemma_mul_bounds(ch as int, factor as int, 255, 0x7fff_ffff_ffff_ffff);
            lemma_mul_nonnegative(ch as int, factor as int);
            crate::fixed::lemma_div_le(ch as int * factor as int, UNIT as int);
        }
        let scaled: i128 = div_tz_i128(ch as i128 * factor as i128, UNIT as i128);
        if scaled > 254 {
            254
        } else {
            scaled as u8
        }
    }
}

} // verus!
