//! Three-component fixed-point vectors, used alike for points, directions
//! and colors. Each executable operation is pinned to a spec twin that
//! states its result exactly, component by component.

use vstd::prelude::*;

use crate::fx::{
    add_raw, div_raw, iabs, lemma_sqrt_floor, mul_raw, sat, sdiv, sqrt_raw, sub_raw, Fx, MAXR,
    SCALE,
};
use crate::rng::rand_below;

verus! {

/// A vector of three fixed-point components.
#[derive(Clone, Copy, Debug, PartialEq, Eq, Structural)]
pub struct Vec3 {
    pub x: Fx,
    pub y: Fx,
    pub z: Fx,
}

/// Componentwise saturated sum.
pub open spec fn v3_add(a: Vec3, b: Vec3) -> Vec3 {
    Vec3 {
        x: Fx { raw: add_raw(a.x.raw as int, b.x.raw as int) as i64 },
        y: Fx { raw: add_raw(a.y.raw as int, b.y.raw as int) as i64 },
        z: Fx { raw: add_raw(a.z.raw as int, b.z.raw as int) as i64 },
    }
}

/// Componentwise saturated difference.
pub open spec fn v3_sub(a: Vec3, b: Vec3) -> Vec3 {
    Vec3 {
        x: Fx { raw: sub_raw(a.x.raw as int, b.x.raw as int) as i64 },
        y: Fx { raw: sub_raw(a.y.raw as int, b.y.raw as int) as i64 },
        z: Fx { raw: sub_raw(a.z.raw as int, b.z.raw as int) as i64 },
    }
}

/// Componentwise (Hadamard) product.
pub open spec fn v3_mul(a: Vec3, b: Vec3) -> Vec3 {
    Vec3 {
        x: Fx { raw: mul_raw(a.x.raw as int, b.x.raw as int) as i64 },
        y: Fx { raw: mul_raw(a.y.raw as int, b.y.raw as int) as i64 },
        z: Fx { raw: mul_raw(a.z.raw as int, b.z.raw as int) as i64 },
    }
}

/// Scaling by a fixed-point scalar.
pub open spec fn v3_scale(a: Vec3, s: Fx) -> Vec3 {
    Vec3 {
        x: Fx { raw: mul_raw(a.x.raw as int, s.raw as int) as i64 },
        y: Fx { raw: mul_raw(a.y.raw as int, s.raw as int) as i64 },
        z: Fx { raw: mul_raw(a.z.raw as int, s.raw as int) as i64 },
    }
}

/// Componentwise division by a scalar.
pub open spec fn v3_div_s(a: Vec3, s: Fx) -> Vec3 {
    Vec3 {
        x: Fx { raw: div_raw(a.x.raw as int, s.raw as int) as i64 },
        y: Fx { raw: div_raw(a.y.raw as int, s.raw as int) as i64 },
        z: Fx { raw: div_raw(a.z.raw as int, s.raw as int) as i64 },
    }
}

/// Componentwise saturated negation.
pub open spec fn v3_neg(a: Vec3) -> Vec3 {
    Vec3 {
        x: Fx { raw: sat(-(a.x.raw as int)) as i64 },
        y: Fx { raw: sat(-(a.y.raw as int)) as i64 },
        z: Fx { raw: sat(-(a.z.raw as int)) as i64 },
    }
}

/// Raw value of the dot product, left to right.
pub open spec fn v3_dot(a: Vec3, b: Vec3) -> int {
    add_raw(
        add_raw(mul_raw(a.x.raw as int, b.x.raw as int), mul_raw(a.y.raw as int, b.y.raw as int)),
        mul_raw(a.z.raw as int, b.z.raw as int),
    )
}

/// The cross product.
pub open spec fn v3_cross(u: Vec3, v: Vec3) -> Vec3 {
    Vec3 {
        x: Fx {
            raw: sub_raw(
                mul_raw(u.y.raw as int, v.z.raw as int),
                mul_raw(u.z.raw as int, v.y.raw as int),
            ) as i64,
        },
        y: Fx {
            raw: sub_raw(
                mul_raw(u.z.raw as int, v.x.raw as int),
                mul_raw(u.x.raw as int, v.z.raw as int),
            ) as i64,
        },
        z: Fx {
            raw: sub_raw(
                mul_raw(u.x.raw as int, v.y.raw as int),
                mul_raw(u.y.raw as int, v.x.raw as int),
            ) as i64,
        },
    }
}

/// Raw value of the length: the rounded-down root of the dot square.
pub open spec fn v3_len(a: Vec3) -> int {
    sqrt_raw(v3_dot(a, a))
}

/// The normalized vector: each component divided by the length (the zero
/// vector maps to itself, through the zero-quotient convention).
pub open spec fn v3_unit(a: Vec3) -> Vec3 {
    v3_div_s(a, Fx { raw: v3_len(a) as i64 })
}

/// Mirror reflection about a normal: `v - 2 (v . n) n`.
pub open spec fn v3_reflect(v: Vec3, n: Vec3) -> Vec3 {
    v3_sub(v, v3_scale(n, Fx { raw: mul_raw(2 * (SCALE as int), v3_dot(v, n)) as i64 }))
}

/// Refraction of a unit direction by Snell's law: the transmitted
/// direction split into its parallel and perpendicular parts.
pub open spec fn v3_refract(uv: Vec3, n: Vec3, eta: Fx) -> Vec3 {
    let cos_theta = Fx { raw: v3_dot(v3_neg(uv), n) as i64 };
    let r_out_parallel = v3_scale(v3_add(uv, v3_scale(n, cos_theta)), eta);
    let par_len_sq = v3_dot(r_out_parallel, r_out_parallel);
    let rest = sub_raw(SCALE as int, par_len_sq);
    let root = if rest >= 0 {
        sqrt_raw(rest)
    } else {
        0
    };
    let r_out_perp = v3_scale(n, Fx { raw: sat(-root) as i64 });
    v3_add(r_out_parallel, r_out_perp)
}

/// A point of the closed unit ball.
pub open spec fn in_ball(q: Vec3) -> bool {
    &&& iabs(q.x.raw as int) <= SCALE
    &&& iabs(q.y.raw as int) <= SCALE
    &&& iabs(q.z.raw as int) <= SCALE
    &&& v3_dot(q, q) <= SCALE
}

/// Scaling any vector by zero yields the zero vector.
pub proof fn lemma_scale_zero(d: Vec3)
    ensures
        v3_scale(d, Fx { raw: 0 }) == (Vec3 { x: Fx { raw: 0 }, y: Fx { raw: 0 }, z: Fx { raw: 0 } }),
{
    assert(d.x.raw as int * 0 == 0) by (nonlinear_arith);
    assert(d.y.raw as int * 0 == 0) by (nonlinear_arith);
    assert(d.z.raw as int * 0 == 0) by (nonlinear_arith);
    assert(sdiv(0, SCALE as int) == 0);
}

/// Negating a ball point negates its dot product with anything exactly:
/// truncation and the rails are symmetric about zero.
pub proof fn lemma_dot_neg(p: Vec3, n: Vec3)
    requires
        iabs(p.x.raw as int) <= SCALE,
        iabs(p.y.raw as int) <= SCALE,
        iabs(p.z.raw as int) <= SCALE,
    ensures
        v3_dot(v3_neg(p), n) == -v3_dot(p, n),
{
    assert((-(p.x.raw as int)) * (n.x.raw as int) == -((p.x.raw as int) * (n.x.raw as int)))
        by (nonlinear_arith);
    assert((-(p.y.raw as int)) * (n.y.raw as int) == -((p.y.raw as int) * (n.y.raw as int)))
        by (nonlinear_arith);
    assert((-(p.z.raw as int)) * (n.z.raw as int) == -((p.z.raw as int) * (n.z.raw as int)))
        by (nonlinear_arith);
}

/// A direction of roughly unit length: every component within twice the
/// scale, and the squared length within a band around one — at least a
/// quarter, at most twelve — that truncated normalization guarantees.
pub open spec fn near_unit(u: Vec3) -> bool {
    &&& iabs(u.x.raw as int) <= 2 * SCALE
    &&& iabs(u.y.raw as int) <= 2 * SCALE
    &&& iabs(u.z.raw as int) <= 2 * SCALE
    &&& 16384 <= v3_dot(u, u) <= 12 * SCALE
}

/// A square is never negative, so its truncated scaling is not either.
pub proof fn lemma_mul_raw_self_nonneg(a: int)
    ensures
        mul_raw(a, a) >= 0,
{
    assert(a * a >= 0) by (nonlinear_arith);
}

/// A dot product of a vector with itself is nonnegative.
pub proof fn lemma_dot_self_nonneg(a: Vec3)
    ensures
        v3_dot(a, a) >= 0,
{
    lemma_mul_raw_self_nonneg(a.x.raw as int);
    lemma_mul_raw_self_nonneg(a.y.raw as int);
    lemma_mul_raw_self_nonneg(a.z.raw as int);
}

impl Vec3 {
    /// Build a vector from its components.
    pub fn new(x: Fx, y: Fx, z: Fx) -> (r: Vec3)
        ensures
            r == (Vec3 { x, y, z }),
    {
        Vec3 { x, y, z }
    }

    /// The first component.
    pub fn x(&self) -> (r: Fx)
        ensures
            r == self.x,
    {
        self.x
    }

    /// The second component.
    pub fn y(&self) -> (r: Fx)
        ensures
            r == self.y,
    {
        self.y
    }

    /// The third component.
    pub fn z(&self) -> (r: Fx)
        ensures
            r == self.z,
    {
        self.z
    }

    /// The component on the given axis.
    pub fn comp(&self, a: u8) -> (r: Fx)
        requires
            a < 3,
        ensures
            r == if a == 0 { self.x } else if a == 1 { self.y } else { self.z },
    {
        if a == 0 {
            self.x
        } else if a == 1 {
            self.y
        } else {
            self.z
        }
    }

    /// Componentwise saturated sum.
    pub fn add(self, o: Vec3) -> (r: Vec3)
        ensures
            r == v3_add(self, o),
    {
        Vec3 { x: self.x.add(o.x), y: self.y.add(o.y), z: self.z.add(o.z) }
    }

    /// Componentwise saturated difference.
    pub fn sub(self, o: Vec3) -> (r: Vec3)
        ensures
            r == v3_sub(self, o),
    {
        Vec3 { x: self.x.sub(o.x), y: self.y.sub(o.y), z: self.z.sub(o.z) }
    }

    /// Componentwise product, as colors attenuate.
    pub fn mul(self, o: Vec3) -> (r: Vec3)
        ensures
            r == v3_mul(self, o),
    {
        Vec3 { x: self.x.mul(o.x), y: self.y.mul(o.y), z: self.z.mul(o.z) }
    }

    /// Scale by a scalar.
    pub fn scale(self, s: Fx) -> (r: Vec3)
        ensures
            r == v3_scale(self, s),
    {
        Vec3 { x: self.x.mul(s), y: self.y.mul(s), z: self.z.mul(s) }
    }

    /// Divide every component by a scalar.
    pub fn div_s(self, s: Fx) -> (r: Vec3)
        ensures
            r == v3_div_s(self, s),
    {
        Vec3 { x: self.x.div(s), y: self.y.div(s), z: self.z.div(s) }
    }

    /// Componentwise saturated negation.
    pub fn neg(self) -> (r: Vec3)
        ensures
            r == v3_neg(self),
    {
        Vec3 { x: self.x.neg(), y: self.y.neg(), z: self.z.neg() }
    }

    /// The dot product.
    pub fn dot(v1: Vec3, v2: Vec3) -> (r: Fx)
        ensures
            r.raw == v3_dot(v1, v2),
    {
        v1.x.mul(v2.x).add(v1.y.mul(v2.y)).add(v1.z.mul(v2.z))
    }

    /// The cross product.
    pub fn cross(u: Vec3, v: Vec3) -> (r: Vec3)
        ensures
            r == v3_cross(u, v),
    {
        Vec3 {
            x: u.y.mul(v.z).sub(u.z.mul(v.y)),
            y: u.z.mul(v.x).sub(u.x.mul(v.z)),
            z: u.x.mul(v.y).sub(u.y.mul(v.x)),
        }
    }

    /// The squared length.
    pub fn length_squared(&self) -> (r: Fx)
        ensures
            r.raw == v3_dot(*self, *self),
            r.raw >= 0,
    {
        proof {
            lemma_dot_self_nonneg(*self);
        }
        Vec3::dot(*self, *self)
    }

    /// The length, rounded down in fixed point.
    pub fn length(&self) -> (r: Fx)
        ensures
            r.raw == v3_len(*self),
            r.raw >= 0,
    {
        self.length_squared().sqrt()
    }

    /// The normalized vector (the zero vector stays zero).
    pub fn to_unit(&self) -> (r: Vec3)
        ensures
            r == v3_unit(*self),
    {
        let l = self.length();
        self.div_s(l)
    }

    /// Mirror reflection of `v` about the normal `n`.
    pub fn reflect(v: Vec3, n: Vec3) -> (r: Vec3)
        ensures
            r == v3_reflect(v, n),
    {
        let two = Fx { raw: 2 * SCALE };
        v.sub(n.scale(two.mul(Vec3::dot(v, n))))
    }

    /// Refraction of the unit direction `uv` at a surface with unit normal
    /// `n` and refraction ratio `etai_over_etat`, by Snell's law in the
    /// fixed-point model.
    pub fn refract(uv: Vec3, n: Vec3, etai_over_etat: Fx) -> (r: Vec3)
        ensures
            r == v3_refract(uv, n, etai_over_etat),
    {
        let cos_theta = Vec3::dot(uv.neg(), n);
        let r_out_parallel = uv.add(n.scale(cos_theta)).scale(etai_over_etat);
        let rest = Fx { raw: SCALE }.sub(r_out_parallel.length_squared());
        let r_out_perp = n.scale(rest.sqrt().neg());
        r_out_parallel.add(r_out_perp)
    }

    /// A vector with components uniform in `[0, 1)`.
    pub fn random(rng: &mut rand::rngs::ThreadRng) -> (r: Vec3)
        ensures
            0 <= r.x.raw < SCALE,
            0 <= r.y.raw < SCALE,
            0 <= r.z.raw < SCALE,
    {
        let x = Fx { raw: rand_below(rng, SCALE as u64) as i64 };
        let y = Fx { raw: rand_below(rng, SCALE as u64) as i64 };
        let z = Fx { raw: rand_below(rng, SCALE as u64) as i64 };
        Vec3 { x, y, z }
    }

    /// A vector with components uniform in `[min, max)`.
    pub fn random_interval(rng: &mut rand::rngs::ThreadRng, min: Fx, max: Fx) -> (r: Vec3)
        requires
            min.raw < max.raw,
            max.raw - min.raw <= i64::MAX,
        ensures
            min.raw <= r.x.raw < max.raw,
            min.raw <= r.y.raw < max.raw,
            min.raw <= r.z.raw < max.raw,
    {
        let width: u64 = ((max.raw as i128) - (min.raw as i128)) as u64;
        let x: i64 = min.raw + rand_below(rng, width) as i64;
        let y: i64 = min.raw + rand_below(rng, width) as i64;
        let z: i64 = min.raw + rand_below(rng, width) as i64;
        Vec3 { x: Fx { raw: x }, y: Fx { raw: y }, z: Fx { raw: z } }
    }

    /// A random point of the closed unit ball, by bounded rejection
    /// sampling; after too many rejections an axis point stands in.
    pub fn random_in_unit_sphere(rng: &mut rand::rngs::ThreadRng) -> (r: Vec3)
        ensures
            in_ball(r),
    {
        let mut tries: u8 = 64;
        while tries > 0
            decreases tries,
        {
            let one = Fx { raw: SCALE };
            let p = Vec3::random_interval(rng, one.neg(), one);
            if p.length_squared().raw <= SCALE {
                return p;
            }
            tries = tries - 1;
        }
        let half = Vec3 { x: Fx { raw: 32768 }, y: Fx { raw: 0 }, z: Fx { raw: 0 } };
        proof {
            assert(sdiv(32768int * 32768, 65536) == 16384) by (nonlinear_arith);
            assert(sdiv(0int * 0, 65536) == 0) by (nonlinear_arith);
        }
        half
    }

    /// A random direction of roughly unit length: a ball point of
    /// workable length, normalized.
    pub fn random_unit_vector(rng: &mut rand::rngs::ThreadRng) -> (r: Vec3)
        ensures
            near_unit(r),
    {
        let mut tries: u8 = 64;
        while tries > 0
            decreases tries,
        {
            let p = Vec3::random_in_unit_sphere(rng);
            let lsq = p.length_squared();
            if lsq.raw >= 16384 {
                let u = p.to_unit();
                proof {
                    lemma_unit_band(p);
                }
                return u;
            }
            tries = tries - 1;
        }
        let axis = Vec3 { x: Fx { raw: SCALE }, y: Fx { raw: 0 }, z: Fx { raw: 0 } };
        proof {
            assert(sdiv(65536int * 65536, 65536) == 65536) by (nonlinear_arith);
            assert(sdiv(0int * 0, 65536) == 0) by (nonlinear_arith);
        }
        axis
    }

    /// A random point of the closed unit disk in the first two
    /// coordinates, by bounded rejection sampling.
    pub fn random_in_unit_disk(rng: &mut rand::rngs::ThreadRng) -> (r: Vec3)
        ensures
            iabs(r.x.raw as int) <= SCALE,
            iabs(r.y.raw as int) <= SCALE,
            r.z.raw == 0,
            v3_dot(r, r) <= SCALE,
    {
        let mut tries: u8 = 64;
        while tries > 0
            decreases tries,
        {
            let one = Fx { raw: SCALE };
            let zero = Fx { raw: 0 };
            let flat = Vec3::random_interval(rng, one.neg(), one);
            let p = Vec3 { x: flat.x, y: flat.y, z: zero };
            if p.length_squared().raw <= SCALE {
                return p;
            }
            tries = tries - 1;
        }
        let half = Vec3 { x: Fx { raw: 32768 }, y: Fx { raw: 0 }, z: Fx { raw: 0 } };
        proof {
            assert(sdiv(32768int * 32768, 65536) == 16384) by (nonlinear_arith);
            assert(sdiv(0int * 0, 65536) == 0) by (nonlinear_arith);
        }
        half
    }

    /// A random ball point on the same side as the normal: a sample that
    /// opposes the normal is negated.
    pub fn random_in_hemisphere(rng: &mut rand::rngs::ThreadRng, normal: &Vec3) -> (r: Vec3)
        ensures
            in_ball(r),
            v3_dot(r, *normal) >= 0,
    {
        let in_unit_sphere = Vec3::random_in_unit_sphere(rng);
        let d = Vec3::dot(in_unit_sphere, *normal);
        if d.raw > 0 {
            in_unit_sphere
        } else {
            proof {
                lemma_neg_ball(in_unit_sphere);
                lemma_dot_neg(in_unit_sphere, *normal);
            }
            in_unit_sphere.neg()
        }
    }
}

/// Negation keeps a point inside the unit ball.
proof fn lemma_neg_ball(p: Vec3)
    requires
        iabs(p.x.raw as int) <= SCALE,
        iabs(p.y.raw as int) <= SCALE,
        iabs(p.z.raw as int) <= SCALE,
        v3_dot(p, p) <= SCALE,
    ensures
        iabs(v3_neg(p).x.raw as int) <= SCALE,
        iabs(v3_neg(p).y.raw as int) <= SCALE,
        iabs(v3_neg(p).z.raw as int) <= SCALE,
        v3_dot(v3_neg(p), v3_neg(p)) <= SCALE,
{
    let q = v3_neg(p);
    assert(mul_raw(q.x.raw as int, q.x.raw as int) == mul_raw(p.x.raw as int, p.x.raw as int)) by {
        assert((-(p.x.raw as int)) * (-(p.x.raw as int)) == (p.x.raw as int) * (p.x.raw as int))
            by (nonlinear_arith);
    }
    assert(mul_raw(q.y.raw as int, q.y.raw as int) == mul_raw(p.y.raw as int, p.y.raw as int)) by {
        assert((-(p.y.raw as int)) * (-(p.y.raw as int)) == (p.y.raw as int) * (p.y.raw as int))
            by (nonlinear_arith);
    }
    assert(mul_raw(q.z.raw as int, q.z.raw as int) == mul_raw(p.z.raw as int, p.z.raw as int)) by {
        assert((-(p.z.raw as int)) * (-(p.z.raw as int)) == (p.z.raw as int) * (p.z.raw as int))
            by (nonlinear_arith);
    }
}

/// Normalizing a vector whose squared length is at least a quarter keeps
/// every component within twice the unit scale.
proof fn lemma_unit_of_workable_bounded(p: Vec3)
    requires
        iabs(p.x.raw as int) <= SCALE,
        iabs(p.y.raw as int) <= SCALE,
        iabs(p.z.raw as int) <= SCALE,
        v3_dot(p, p) >= 16384,
    ensures
        iabs(v3_unit(p).x.raw as int) <= 2 * SCALE,
        iabs(v3_unit(p).y.raw as int) <= 2 * SCALE,
        iabs(v3_unit(p).z.raw as int) <= 2 * SCALE,
{
    let d = v3_dot(p, p);
    let n = d * (SCALE as int);
    assert(d * (SCALE as int) >= 16384 * 65536) by (nonlinear_arith)
        requires d >= 16384,
    ;
    lemma_sqrt_floor(n);
    let l = v3_len(p);
    // The dot product is saturated, so the root is modest and the cast
    // of the length to a raw value is exact.
    crate::fx::lemma_mul_le(d, SCALE as int, MAXR as int, SCALE as int);
    assert(l <= 0x100_0000_0000) by (nonlinear_arith)
        requires
            l >= 0,
            l * l <= iabs(d * (SCALE as int)),
            iabs(d * (SCALE as int)) <= (MAXR as int) * (SCALE as int),
    ;
    // l is the floor root of at least 32768^2, so l >= 32768.
    assert(l >= 32768) by {
        if l < 32768 {
            assert((l + 1) * (l + 1) <= 32768 * 32768) by (nonlinear_arith)
                requires 0 <= l, l + 1 <= 32768,
            ;
        }
    }
    lemma_unit_comp(p.x.raw as int, l);
    lemma_unit_comp(p.y.raw as int, l);
    lemma_unit_comp(p.z.raw as int, l);
}

/// Normalizing a ball point whose squared length is at least a quarter
/// yields a near-unit direction: dividing by a length of at most one
/// never shrinks a component's magnitude, so the squared length keeps its
/// floor, and the component bounds cap it from above.
proof fn lemma_unit_band(p: Vec3)
    requires
        iabs(p.x.raw as int) <= SCALE,
        iabs(p.y.raw as int) <= SCALE,
        iabs(p.z.raw as int) <= SCALE,
        16384 <= v3_dot(p, p) <= SCALE,
    ensures
        near_unit(v3_unit(p)),
{
    lemma_unit_of_workable_bounded(p);
    let d = v3_dot(p, p);
    let n = d * (SCALE as int);
    lemma_sqrt_floor(n);
    let l = v3_len(p);
    assert(d * (SCALE as int) >= 16384 * 65536) by (nonlinear_arith)
        requires d >= 16384,
    ;
    assert(d * (SCALE as int) <= 65536 * 65536) by (nonlinear_arith)
        requires d <= 65536,
    ;
    assert(l >= 1) by {
        if l == 0 {
            assert(n < (0 + 1) * (0 + 1));
        }
    }
    assert(l <= 65536) by {
        if l > 65536 {
            assert(l * l > 65536 * 65536) by (nonlinear_arith)
                requires l > 65536,
            ;
        }
    }
    let u = v3_unit(p);
    lemma_unit_comp_floor(p.x.raw as int, l);
    lemma_unit_comp_floor(p.y.raw as int, l);
    lemma_unit_comp_floor(p.z.raw as int, l);
    lemma_sq_term_ordered(p.x.raw as int, u.x.raw as int);
    lemma_sq_term_ordered(p.y.raw as int, u.y.raw as int);
    lemma_sq_term_ordered(p.z.raw as int, u.z.raw as int);
    lemma_sq_term_capped(u.x.raw as int);
    lemma_sq_term_capped(u.y.raw as int);
    lemma_sq_term_capped(u.z.raw as int);
}

/// Dividing a component by a positive length of at most one unit never
/// shrinks its magnitude.
proof fn lemma_unit_comp_floor(c: int, l: int)
    requires
        iabs(c) <= SCALE,
        1 <= l <= SCALE,
    ensures
        iabs(div_raw(c, l)) >= iabs(c),
{
    crate::fx::lemma_abs_mul(c, SCALE as int);
    let m = iabs(c * (SCALE as int)) / l;
    assert(iabs(c) * l <= iabs(c) * (SCALE as int)) by (nonlinear_arith)
        requires l <= SCALE, iabs(c) >= 0,
    ;
    vstd::arithmetic::div_mod::lemma_div_is_ordered(iabs(c) * l, iabs(c) * (SCALE as int), l);
    assert((iabs(c) * l) / l == iabs(c)) by (nonlinear_arith)
        requires l >= 1, iabs(c) >= 0,
    ;
    assert(m <= iabs(c) * (SCALE as int)) by (nonlinear_arith)
        requires l >= 1, iabs(c * (SCALE as int)) >= 0, m == iabs(c * (SCALE as int)) / l,
    ;
    assert(iabs(sdiv(c * (SCALE as int), l)) == m);
    assert(iabs(c) * (SCALE as int) <= 65536 * 65536) by (nonlinear_arith)
        requires iabs(c) <= SCALE,
    ;
    assert(iabs(sat(sdiv(c * (SCALE as int), l))) == m);
}

/// A larger component magnitude keeps a larger squared term.
proof fn lemma_sq_term_ordered(a: int, b: int)
    requires
        iabs(b) >= iabs(a),
        iabs(b) <= 2 * SCALE,
    ensures
        mul_raw(b, b) >= mul_raw(a, a),
{
    assert(a * a <= b * b) by (nonlinear_arith)
        requires iabs(b) >= iabs(a),
    ;
    assert(a * a >= 0 && b * b >= 0) by (nonlinear_arith);
    vstd::arithmetic::div_mod::lemma_div_is_ordered(a * a, b * b, SCALE as int);
    assert(b * b <= 4 * 65536 * 65536) by (nonlinear_arith)
        requires iabs(b) <= 2 * SCALE,
    ;
    assert(b * b / (SCALE as int) <= 4 * 65536 * 65536) by (nonlinear_arith)
        requires 0 <= b * b <= 4 * 65536 * 65536,
    ;
}

/// A squared term of a component within twice the scale stays within four
/// units.
proof fn lemma_sq_term_capped(b: int)
    requires
        iabs(b) <= 2 * SCALE,
    ensures
        0 <= mul_raw(b, b) <= 4 * SCALE,
{
    assert(0 <= b * b <= 4 * 65536 * 65536) by (nonlinear_arith)
        requires iabs(b) <= 2 * SCALE,
    ;
    assert(0 <= b * b / (SCALE as int) <= 4 * 65536) by (nonlinear_arith)
        requires 0 <= b * b <= 4 * 65536 * 65536,
    ;
}

/// One component of a normalization stays within twice the unit scale when
/// the length is at least half the scale and the component at most one.
proof fn lemma_unit_comp(c: int, l: int)
    requires
        iabs(c) <= SCALE,
        l >= 32768,
    ensures
        iabs(div_raw(c, l)) <= 2 * (SCALE as int),
{
    crate::fx::lemma_abs_mul(c, SCALE as int);
    assert(iabs(c * (SCALE as int)) <= iabs(l) * (2 * (SCALE as int))) by (nonlinear_arith)
        requires
            iabs(c) <= (SCALE as int),
            l >= 32768,
            iabs(c * (SCALE as int)) == iabs(c) * (SCALE as int),
    ;
    crate::fx::lemma_sdiv_bound(c * (SCALE as int), l, 2 * (SCALE as int));
    assert(div_raw(c, l) == sat(sdiv(c * (SCALE as int), l)));
}

} // verus!
