//! Procedural textures: a constant color, and two checker patterns. The
//! checker follows the sign of a product of sines: each factor is
//! negative exactly when its value spans an odd count of half turns away
//! from zero, counting one extra flip for a negative value, since the
//! sine is odd; the half turn is the fixed-point rendering of pi.

use vstd::prelude::*;

use crate::fx::{div_raw, iabs, mul_raw, Fx, SCALE};
use crate::vec::Vec3;

verus! {

/// The fixed-point rendering of pi, in raw units.
pub const PI_RAW: i64 = 205887;

/// A procedural color lookup: constant, or one of two checker patterns
/// (the first keyed on the hit point, the second on surface coordinates).
#[derive(Clone, Copy, Debug)]
pub enum TextureType {
    Constant(Vec3),
    JankChecker(Fx, Vec3, Vec3),
    Checker(Fx, Vec3, Vec3),
}

/// Every channel of a color lies in the unit interval.
pub open spec fn color01(c: Vec3) -> bool {
    &&& 0 <= c.x.raw <= SCALE
    &&& 0 <= c.y.raw <= SCALE
    &&& 0 <= c.z.raw <= SCALE
}

/// The texture's stored colors all lie in the unit interval.
pub open spec fn tex_wf(t: TextureType) -> bool {
    match t {
        TextureType::Constant(c) => color01(c),
        TextureType::JankChecker(_, odd, even) => color01(odd) && color01(even),
        TextureType::Checker(_, odd, even) => color01(odd) && color01(even),
    }
}

/// How many half turns the value's magnitude spans.
pub open spec fn half_turns(y: int) -> int {
    iabs(y) / (PI_RAW as int)
}

/// How many sign flips one sine factor contributes: one per half turn of
/// the magnitude, and one more for a negative value, the sine being odd.
pub open spec fn sine_flips(y: int) -> int {
    half_turns(y) + if y < 0 {
        1int
    } else {
        0int
    }
}

/// Whether a product of sines over the given scaled values is negative:
/// an odd count of sign flips across the factors.
pub open spec fn sines_negative3(a: int, b: int, c: int) -> bool {
    (sine_flips(a) + sine_flips(b) + sine_flips(c)) % 2 == 1
}

/// The two-factor form.
pub open spec fn sines_negative2(a: int, b: int) -> bool {
    (sine_flips(a) + sine_flips(b)) % 2 == 1
}

/// The color a texture yields at surface coordinates `(u, v)` and point `p`.
pub open spec fn tex_value(t: TextureType, u: Fx, v: Fx, p: Vec3) -> Vec3 {
    match t {
        TextureType::Constant(color) => color,
        TextureType::JankChecker(size, odd, even) => {
            if sines_negative3(
                mul_raw(size.raw as int, p.x.raw as int),
                mul_raw(size.raw as int, p.y.raw as int),
                mul_raw(size.raw as int, p.z.raw as int),
            ) {
                odd
            } else {
                even
            }
        },
        TextureType::Checker(size, odd, even) => {
            if sines_negative2(
                div_raw(u.raw as int, size.raw as int),
                div_raw(v.raw as int, size.raw as int),
            ) {
                odd
            } else {
                even
            }
        },
    }
}

/// Count one factor's sign flips, exactly as `sine_flips` states.
fn sine_flips_exec(y: Fx) -> (r: u64)
    ensures
        r == sine_flips(y.raw as int),
{
    let m: u64 = if y.raw >= 0 {
        y.raw as u64
    } else {
        ((-(y.raw as i128)) as u128) as u64
    };
    let extra: u64 = if y.raw < 0 {
        1
    } else {
        0
    };
    m / (PI_RAW as u64) + extra
}

impl TextureType {
    /// The color at surface coordinates `(u, v)` and point `p`.
    pub fn value(&self, u: Fx, v: Fx, p: &Vec3) -> (r: Vec3)
        ensures
            r == tex_value(*self, u, v, *p),
            tex_wf(*self) ==> color01(r),
    {
        match *self {
            TextureType::Constant(color) => color,
            TextureType::JankChecker(size, odd, even) => {
                let a = sine_flips_exec(size.mul(p.x()));
                let b = sine_flips_exec(size.mul(p.y()));
                let c = sine_flips_exec(size.mul(p.z()));
                let total: u64 = a % 2 + b % 2 + c % 2;
                if total % 2 == 1 {
                    odd
                } else {
                    even
                }
            },
            TextureType::Checker(size, odd, even) => {
                let a = sine_flips_exec(u.div(size));
                let b = sine_flips_exec(v.div(size));
                let total: u64 = a % 2 + b % 2;
                if total % 2 == 1 {
                    odd
                } else {
                    even
                }
            },
        }
    }
}

} // verus!
