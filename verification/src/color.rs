//! Discrete colors and per-pixel sample accumulation. Averaged samples
//! are gamma-corrected by a square root and quantized: each channel is
//! clamped just below one and scaled to an eight-bit value.

use vstd::prelude::*;

use crate::fx::{add_raw, div_raw, mul_raw, sqrt_raw, Fx, SCALE};
use crate::vec::{v3_add, Vec3};

verus! {

/// The fixed-point rendering of the clamp ceiling, just below one.
pub const CLAMP_TOP: i64 = 65470;

/// An eight-bit color.
#[derive(Clone, Copy, Debug, PartialEq, Eq, Structural)]
pub struct Color {
    pub r: u8,
    pub g: u8,
    pub b: u8,
}

impl Color {
    /// Build a color from its channels.
    pub fn new(r: u8, g: u8, b: u8) -> (c: Color)
        ensures
            c == (Color { r, g, b }),
    {
        Color { r, g, b }
    }

    /// The red channel.
    pub fn r(&self) -> (v: u8)
        ensures
            v == self.r,
    {
        self.r
    }

    /// The green channel.
    pub fn g(&self) -> (v: u8)
        ensures
            v == self.g,
    {
        self.g
    }

    /// The blue channel.
    pub fn b(&self) -> (v: u8)
        ensures
            v == self.b,
    {
        self.b
    }
}

/// A running sum of color samples for one pixel.
pub struct Samples {
    pub vector: Vec3,
    pub num_samples: u16,
}

impl Default for Samples {
    /// An empty accumulator.
    fn default() -> (r: Samples)
        ensures
            r.vector == (Vec3 { x: Fx { raw: 0 }, y: Fx { raw: 0 }, z: Fx { raw: 0 } }),
            r.num_samples == 0,
    {
        Samples {
            vector: Vec3 { x: Fx { raw: 0 }, y: Fx { raw: 0 }, z: Fx { raw: 0 } },
            num_samples: 0,
        }
    }
}

/// Clamp a raw channel value into `[0, CLAMP_TOP]`.
pub open spec fn clamp_raw(x: int) -> int {
    if x < 0 {
        0
    } else if x > CLAMP_TOP {
        CLAMP_TOP as int
    } else {
        x
    }
}

/// Quantize one averaged, gamma-corrected channel: clamp it just below
/// one and keep the top eight fractional bits.
pub open spec fn quantize_raw(x: int) -> int {
    clamp_raw(x) / 256
}

/// The gamma-corrected average of one channel of a sample sum (a negative
/// average roots to zero).
pub open spec fn channel_of_sum(sum: int, n: int) -> int {
    let avg = mul_raw(div_raw(1, n), sum);
    if avg >= 0 {
        sqrt_raw(avg)
    } else {
        0
    }
}

/// The color a sample sum quantizes to: per channel, the square root of
/// the average, clamped and scaled to eight bits.
pub open spec fn samples_color(vector: Vec3, n: int) -> Color {
    Color {
        r: quantize_raw(channel_of_sum(vector.x.raw as int, n)) as u8,
        g: quantize_raw(channel_of_sum(vector.y.raw as int, n)) as u8,
        b: quantize_raw(channel_of_sum(vector.z.raw as int, n)) as u8,
    }
}

/// Quantizing never leaves the eight-bit range.
pub proof fn lemma_quantize_range(x: int)
    ensures
        0 <= quantize_raw(x) <= 255,
{
}

impl Samples {
    /// Add one sample to the running sum.
    pub fn add_sample(&mut self, sample: Vec3)
        requires
            old(self).num_samples < u16::MAX,
        ensures
            final(self).vector == v3_add(old(self).vector, sample),
            final(self).num_samples == old(self).num_samples + 1,
    {
        self.vector = self.vector.add(sample);
        self.num_samples = self.num_samples + 1;
    }

    /// Average, gamma-correct and quantize the accumulated samples.
    pub fn into_color(self) -> (c: Color)
        ensures
            c == samples_color(self.vector, self.num_samples as int),
    {
        let scale = Fx::from_ratio(1, self.num_samples as i64);
        let r = scale.mul(self.vector.x()).sqrt();
        let g = scale.mul(self.vector.y()).sqrt();
        let b = scale.mul(self.vector.z()).sqrt();
        proof {
            crate::fx::lemma_sqrt_floor((scale.raw as int) * (self.vector.x.raw as int));
            crate::fx::lemma_sqrt_floor((scale.raw as int) * (self.vector.y.raw as int));
            crate::fx::lemma_sqrt_floor((scale.raw as int) * (self.vector.z.raw as int));
        }
        Color { r: quantize(r), g: quantize(g), b: quantize(b) }
    }
}

/// Quantize one nonnegative gamma-corrected channel.
fn quantize(x: Fx) -> (r: u8)
    requires
        x.raw >= 0,
    ensures
        r == quantize_raw(x.raw as int),
{
    let c: i64 = if x.raw > CLAMP_TOP {
        CLAMP_TOP
    } else {
        x.raw
    };
    ((c as u64) / 256) as u8
}

} // verus!
