//! A signed binary fixed-point scalar with sixteen fractional bits.
//!
//! A value is stored as `raw`, and stands for the real number `raw / 65536`.
//! Every operation computes exactly in wide integers and then saturates to
//! the rails `-MAXR ..= MAXR`, so the rails act as signed infinities: a
//! division by zero yields the rail of the numerator's sign, as the slab
//! test of the bounding boxes expects. Multiplication and division truncate
//! toward zero, and the square root rounds down; each operation's contract
//! states its result exactly as an integer function of the operands' raw
//! values.

use vstd::prelude::*;

verus! {

/// Raw units per whole unit: the fixed-point scale.
pub const SCALE: i64 = 65536;

/// The saturation rail: no raw value leaves `-MAXR ..= MAXR`.
pub const MAXR: i64 = 0x4000_0000_0000_0000;

/// The fixed-point scalar: stands for `raw / 65536`.
#[derive(Clone, Copy, Debug, PartialEq, Eq, Structural)]
pub struct Fx {
    pub raw: i64,
}

/// Absolute value of a mathematical integer.
pub open spec fn iabs(a: int) -> int {
    if a >= 0 {
        a
    } else {
        -a
    }
}

/// Clamp an exact result to the rails.
pub open spec fn sat(a: int) -> int {
    if a > MAXR {
        MAXR as int
    } else if a < -(MAXR as int) {
        -(MAXR as int)
    } else {
        a
    }
}

/// Division truncating toward zero (meaningful for `b != 0`).
pub open spec fn sdiv(a: int, b: int) -> int {
    if (a >= 0) == (b >= 0) {
        iabs(a) / iabs(b)
    } else {
        -(iabs(a) / iabs(b))
    }
}

/// Raw value of a saturated fixed-point sum.
pub open spec fn add_raw(a: int, b: int) -> int {
    sat(a + b)
}

/// Raw value of a saturated fixed-point difference.
pub open spec fn sub_raw(a: int, b: int) -> int {
    sat(a - b)
}

/// Raw value of the fixed-point product of two raw values.
pub open spec fn mul_raw(a: int, b: int) -> int {
    sat(sdiv(a * b, SCALE as int))
}

/// Raw value of the fixed-point quotient of two raw values; a zero divisor
/// saturates to the rail of the numerator's sign, like a float infinity.
pub open spec fn div_raw(a: int, b: int) -> int {
    if b == 0 {
        if a > 0 {
            MAXR as int
        } else if a < 0 {
            -(MAXR as int)
        } else {
            0
        }
    } else {
        sat(sdiv(a * (SCALE as int), b))
    }
}

/// The greatest `r >= 0` with `r * r <= n` (0 for nonpositive `n`).
pub open spec fn sqrt_floor(n: int) -> int
    decreases n,
{
    if n <= 0 {
        0
    } else {
        let r = sqrt_floor(n - 1);
        if (r + 1) * (r + 1) <= n {
            r + 1
        } else {
            r
        }
    }
}

/// Raw value of the fixed-point square root of a nonnegative raw value.
pub open spec fn sqrt_raw(a: int) -> int {
    sqrt_floor(a * (SCALE as int))
}

/// `sqrt_floor(n)` brackets `n` between consecutive squares.
pub proof fn lemma_sqrt_floor(n: int)
    ensures
        sqrt_floor(n) >= 0,
        sqrt_floor(n) * sqrt_floor(n) <= iabs(n),
        n >= 0 ==> n < (sqrt_floor(n) + 1) * (sqrt_floor(n) + 1),
        n > 0 ==> sqrt_floor(n) <= n,
    decreases n,
{
    if n <= 0 {
    } else {
        lemma_sqrt_floor(n - 1);
        let r = sqrt_floor(n - 1);
        assert(sqrt_floor(n) == if (r + 1) * (r + 1) <= n { r + 1 } else { r });
        if (r + 1) * (r + 1) <= n {
            assert((r + 1) * (r + 1) < (r + 2) * (r + 2)) by (nonlinear_arith)
                requires r >= 0,
            ;
        }
    }
}

/// A nonnegative value bracketed between the consecutive squares around `n`
/// is `sqrt_floor(n)`: the bracketing determines the root uniquely.
pub proof fn lemma_sqrt_floor_unique(n: int, r: int)
    requires
        n >= 0,
        r >= 0,
        r * r <= n,
        n < (r + 1) * (r + 1),
    ensures
        r == sqrt_floor(n),
{
    lemma_sqrt_floor(n);
    let s = sqrt_floor(n);
    if r < s {
        assert((r + 1) * (r + 1) <= s * s) by (nonlinear_arith)
            requires 0 <= r, r < s,
        ;
    }
    if s < r {
        assert((s + 1) * (s + 1) <= r * r) by (nonlinear_arith)
            requires 0 <= s, s < r,
        ;
    }
}

/// The magnitude of a product is the product of the magnitudes.
pub proof fn lemma_abs_mul(a: int, b: int)
    ensures
        iabs(a * b) == iabs(a) * iabs(b),
{
    assert(iabs(a * b) == iabs(a) * iabs(b)) by (nonlinear_arith);
}

/// Componentwise magnitude bounds bound the product's magnitude.
pub proof fn lemma_mul_le(a: int, b: int, ma: int, mb: int)
    requires
        iabs(a) <= ma,
        iabs(b) <= mb,
    ensures
        iabs(a * b) <= ma * mb,
{
    lemma_abs_mul(a, b);
    assert(iabs(a) * iabs(b) <= ma * mb) by (nonlinear_arith)
        requires 0 <= iabs(a) <= ma, 0 <= iabs(b) <= mb,
    ;
}

/// The magnitude of a truncating quotient shrinks with the numerator and
/// grows no faster than the divisor allows.
pub proof fn lemma_sdiv_bound(a: int, b: int, m: int)
    requires
        b != 0,
        iabs(a) <= iabs(b) * m,
        m >= 0,
    ensures
        iabs(sdiv(a, b)) <= m,
{
    let q = iabs(a) / iabs(b);
    assert(q <= m) by (nonlinear_arith)
        requires
            iabs(b) >= 1,
            iabs(a) >= 0,
            m >= 0,
            iabs(a) <= iabs(b) * m,
            q == iabs(a) / iabs(b),
    ;
}

/// Truncating division by a positive divisor is monotone in the
/// numerator.
pub proof fn lemma_sdiv_monotone(x: int, y: int, b: int)
    requires
        x <= y,
        b > 0,
    ensures
        sdiv(x, b) <= sdiv(y, b),
{
    if x >= 0 {
        assert(iabs(x) / b <= iabs(y) / b) by (nonlinear_arith)
            requires 0 <= x <= y, b > 0, iabs(x) == x, iabs(y) == y,
        ;
    } else if y < 0 {
        assert(iabs(y) / b <= iabs(x) / b) by (nonlinear_arith)
            requires x <= y < 0, b > 0, iabs(x) == -x, iabs(y) == -y,
        ;
    } else {
        assert(iabs(x) / b >= 0 && iabs(y) / b >= 0) by (nonlinear_arith)
            requires b > 0, iabs(x) >= 0, iabs(y) >= 0,
        ;
    }
}

/// The scaled quotient is monotone in the numerator whenever the divisor
/// is not negative (a zero divisor saturates by sign, which is monotone
/// too).
pub proof fn lemma_div_raw_monotone(x: int, y: int, b: int)
    requires
        x <= y,
        b >= 0,
    ensures
        div_raw(x, b) <= div_raw(y, b),
{
    if b == 0 {
    } else {
        assert(x * (SCALE as int) <= y * (SCALE as int)) by (nonlinear_arith)
            requires x <= y,
        ;
        lemma_sdiv_monotone(x * (SCALE as int), y * (SCALE as int), b);
    }
}

impl Fx {
    /// The zero value.
    pub fn zero() -> (r: Fx)
        ensures
            r.raw == 0,
    {
        Fx { raw: 0 }
    }

    /// The value one.
    pub fn one() -> (r: Fx)
        ensures
            r.raw == SCALE,
    {
        Fx { raw: SCALE }
    }

    /// The whole number `n` (saturated when out of range).
    pub fn from_int(n: i64) -> (r: Fx)
        ensures
            r.raw == sat(n * (SCALE as int)),
    {
        proof {
            lemma_mul_le(n as int, SCALE as int, 0x8000_0000_0000_0000, SCALE as int);
        }
        let p: i128 = (n as i128) * (SCALE as i128);
        Fx { raw: sat_i128(p) }
    }

    /// The ratio `num / den`, truncated toward zero.
    pub fn from_ratio(num: i64, den: i64) -> (r: Fx)
        ensures
            r.raw == div_raw(num as int, den as int),
    {
        Fx { raw: num }.div(Fx { raw: den })
    }

    /// Saturated sum.
    pub fn add(self, o: Fx) -> (r: Fx)
        ensures
            r.raw == add_raw(self.raw as int, o.raw as int),
    {
        let s: i128 = (self.raw as i128) + (o.raw as i128);
        Fx { raw: sat_i128(s) }
    }

    /// Saturated difference.
    pub fn sub(self, o: Fx) -> (r: Fx)
        ensures
            r.raw == sub_raw(self.raw as int, o.raw as int),
    {
        let s: i128 = (self.raw as i128) - (o.raw as i128);
        Fx { raw: sat_i128(s) }
    }

    /// Saturated negation.
    pub fn neg(self) -> (r: Fx)
        ensures
            r.raw == sat(-(self.raw as int)),
    {
        let s: i128 = -(self.raw as i128);
        Fx { raw: sat_i128(s) }
    }

    /// Fixed-point product, truncated toward zero and saturated.
    pub fn mul(self, o: Fx) -> (r: Fx)
        ensures
            r.raw == mul_raw(self.raw as int, o.raw as int),
    {
        proof {
            lemma_abs_mul(self.raw as int, o.raw as int);
            lemma_mul_le(
                self.raw as int,
                o.raw as int,
                0x8000_0000_0000_0000,
                0x8000_0000_0000_0000,
            );
        }
        let p: i128 = (self.raw as i128) * (o.raw as i128);
        let m: u128 = if p >= 0 {
            p as u128
        } else {
            (-p) as u128
        };
        let q: u128 = m / (SCALE as u128);
        proof {
            assert(q * (SCALE as int) <= m && q >= 0) by (nonlinear_arith)
                requires q == m as int / (SCALE as int), m >= 0,
            ;
        }
        if p >= 0 {
            Fx { raw: sat_u128_pos(q) }
        } else {
            let w: i64 = sat_u128_pos(q);
            Fx { raw: -w }
        }
    }

    /// Fixed-point quotient, truncated toward zero and saturated; dividing
    /// by zero yields the rail of the numerator's sign.
    pub fn div(self, o: Fx) -> (r: Fx)
        ensures
            r.raw == div_raw(self.raw as int, o.raw as int),
    {
        if o.raw == 0 {
            if self.raw > 0 {
                return Fx { raw: MAXR };
            } else if self.raw < 0 {
                return Fx { raw: -MAXR };
            } else {
                return Fx { raw: 0 };
            }
        }
        proof {
            lemma_abs_mul(self.raw as int, SCALE as int);
        }
        let num: i128 = (self.raw as i128) * (SCALE as i128);
        let na: u128 = if num >= 0 {
            num as u128
        } else {
            (-num) as u128
        };
        let ba: u128 = if o.raw >= 0 {
            o.raw as u128
        } else {
            (-(o.raw as i128)) as u128
        };
        let q: u128 = na / ba;
        proof {
            assert(q * ba <= na && q >= 0) by (nonlinear_arith)
                requires q == na as int / (ba as int), na >= 0, ba >= 1,
            ;
            assert(q <= na) by (nonlinear_arith)
                requires q * ba <= na, ba >= 1, q >= 0,
            ;
        }
        if (self.raw >= 0) == (o.raw >= 0) {
            Fx { raw: sat_u128_pos(q) }
        } else {
            let w: i64 = sat_u128_pos(q);
            Fx { raw: -w }
        }
    }

    /// Square root, rounded down (zero on a nonpositive argument).
    pub fn sqrt(self) -> (r: Fx)
        ensures
            r.raw == if self.raw >= 0 { sqrt_raw(self.raw as int) } else { 0 },
            r.raw >= 0,
    {
        if self.raw <= 0 {
            proof {
                if self.raw == 0 {
                    lemma_sqrt_floor_unique(0, 0);
                }
            }
            return Fx { raw: 0 };
        }
        let n: u128 = (self.raw as u128) * (SCALE as u128);
        let mut lo: u128 = 0;
        let mut hi: u128 = 0x400_0000_0000;
        proof {
            assert((0x400_0000_0000 as int) * (0x400_0000_0000 as int) > n) by (nonlinear_arith)
                requires n <= (i64::MAX as int) * (SCALE as int),
            ;
        }
        while hi - lo > 1
            invariant
                0 <= lo < hi,
                lo * lo <= n,
                n < hi * hi,
                hi <= 0x400_0000_0000,
            decreases hi - lo,
        {
            let mid: u128 = lo + (hi - lo) / 2;
            proof {
                assert(lo < mid < hi);
                assert(mid * mid < 0x1_0000_0000_0000_0000_0000_0000) by (nonlinear_arith)
                    requires mid < 0x400_0000_0000,
                ;
            }
            if mid * mid <= n {
                lo = mid;
            } else {
                hi = mid;
            }
        }
        proof {
            lemma_sqrt_floor_unique(n as int, lo as int);
        }
        Fx { raw: lo as i64 }
    }

    /// The magnitude, saturated.
    pub fn abs(self) -> (r: Fx)
        ensures
            r.raw == sat(iabs(self.raw as int)),
    {
        let m: i128 = if self.raw >= 0 {
            self.raw as i128
        } else {
            -(self.raw as i128)
        };
        Fx { raw: sat_i128(m) }
    }

    /// The smaller of two values.
    pub fn min(self, o: Fx) -> (r: Fx)
        ensures
            r.raw == if self.raw <= o.raw { self.raw } else { o.raw },
    {
        if self.raw <= o.raw {
            self
        } else {
            o
        }
    }

    /// The larger of two values.
    pub fn max(self, o: Fx) -> (r: Fx)
        ensures
            r.raw == if self.raw >= o.raw { self.raw } else { o.raw },
    {
        if self.raw >= o.raw {
            self
        } else {
            o
        }
    }
}

/// Clamp an exact wide result to the rails.
fn sat_i128(a: i128) -> (r: i64)
    ensures
        r == sat(a as int),
{
    if a > (MAXR as i128) {
        MAXR
    } else if a < -(MAXR as i128) {
        -MAXR
    } else {
        a as i64
    }
}

/// Clamp a nonnegative wide result to the upper rail.
fn sat_u128_pos(a: u128) -> (r: i64)
    ensures
        r == sat(a as int),
{
    if a > (MAXR as u128) {
        MAXR
    } else {
        a as i64
    }
}

} // verus!
