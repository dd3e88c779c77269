//! The sphere: signed-radius analytic geometry. A negative radius keeps
//! the shape of its magnitude but inverts the outward normal everywhere,
//! which models a hollow shell. The intersection contract pins the hit
//! parameter to the nearer admissible root of the fixed-point quadratic,
//! and every field of the record to its defining formula.

use vstd::prelude::*;

use crate::fx::{add_raw, div_raw, iabs, mul_raw, sat, sdiv, sqrt_raw, sub_raw, Fx, MAXR, SCALE};
use crate::materials::{HitRecord, MaterialType};
use crate::ray::{ray_at, Ray};
use crate::vec::{v3_div_s, v3_dot, v3_neg, v3_sub, Vec3};

verus! {

/// A sphere: a center and a signed radius.
#[derive(Clone, Copy, Debug)]
pub struct Sphere {
    pub center: Vec3,
    pub radius: Fx,
}

/// Half the linear coefficient of the hit quadratic: `oc . dir`.
pub open spec fn sph_half_b(s: Sphere, r: Ray) -> int {
    v3_dot(v3_sub(r.origin, s.center), r.vec)
}

/// The quadratic's leading coefficient: the direction's squared length.
pub open spec fn sph_a(r: Ray) -> int {
    v3_dot(r.vec, r.vec)
}

/// The constant coefficient: `|oc|^2 - radius^2`.
pub open spec fn sph_c(s: Sphere, r: Ray) -> int {
    sub_raw(
        v3_dot(v3_sub(r.origin, s.center), v3_sub(r.origin, s.center)),
        mul_raw(s.radius.raw as int, s.radius.raw as int),
    )
}

/// The quarter discriminant `half_b^2 - a c`; only a strictly positive
/// value counts as an intersection.
pub open spec fn sph_disc(s: Sphere, r: Ray) -> int {
    sub_raw(mul_raw(sph_half_b(s, r), sph_half_b(s, r)), mul_raw(sph_a(r), sph_c(s, r)))
}

/// The nearer root `(-half_b - sqrt(disc)) / a`.
pub open spec fn sph_t_near(s: Sphere, r: Ray) -> int {
    div_raw(sub_raw(sat(-sph_half_b(s, r)), sqrt_raw(sph_disc(s, r))), sph_a(r))
}

/// The farther root `(-half_b + sqrt(disc)) / a`.
pub open spec fn sph_t_far(s: Sphere, r: Ray) -> int {
    div_raw(add_raw(sat(-sph_half_b(s, r)), sqrt_raw(sph_disc(s, r))), sph_a(r))
}

/// The hit parameter the sphere reports: the nearer root when it lies
/// strictly inside the query interval, else the farther root when it
/// does, else nothing. A nonpositive discriminant is a miss.
pub open spec fn sphere_hit_t(s: Sphere, r: Ray, t_min: int, t_max: int) -> Option<int> {
    if sph_disc(s, r) > 0 {
        if t_min < sph_t_near(s, r) < t_max {
            Some(sph_t_near(s, r))
        } else if t_min < sph_t_far(s, r) < t_max {
            Some(sph_t_far(s, r))
        } else {
            None
        }
    } else {
        None
    }
}

/// The geometric outward normal at a point: `(p - center) / radius`, whose
/// sign follows the signed radius.
pub open spec fn sphere_outward_normal(s: Sphere, p: Vec3) -> Vec3 {
    v3_div_s(v3_sub(p, s.center), s.radius)
}

/// The spherical longitude mapped to `[0, 1]`. The angle is taken through
/// a diamond angle rather than the arctangent: it is exact in fixed
/// point, monotone in the true angle, and agrees with the original
/// mapping at every quarter turn.
pub open spec fn sphere_u(n: Vec3) -> int {
    let span = add_raw(sat(iabs(n.x.raw as int)), sat(iabs(n.z.raw as int)));
    let q = div_raw(n.x.raw as int, span);
    if n.z.raw >= 0 {
        add_raw(32768, mul_raw(sub_raw(SCALE as int, q), 16384))
    } else {
        mul_raw(add_raw(SCALE as int, q), 16384)
    }
}

/// The spherical latitude mapped to `[0, 1]`: `(n_y + 1) / 2`.
pub open spec fn sphere_v(n: Vec3) -> int {
    mul_raw(add_raw(n.y.raw as int, SCALE as int), 32768)
}

/// The full record a sphere reports for a hit at parameter `t`.
pub open spec fn sphere_record(s: Sphere, r: Ray, t: Fx, mat: MaterialType) -> HitRecord {
    let p = ray_at(r, t);
    let outward = sphere_outward_normal(s, p);
    HitRecord {
        t,
        p,
        normal: if v3_dot(r.vec, outward) < 0 {
            outward
        } else {
            v3_neg(outward)
        },
        front_face: v3_dot(r.vec, outward) < 0,
        mat,
        u: Fx { raw: sphere_u(outward) as i64 },
        v: Fx { raw: sphere_v(outward) as i64 },
    }
}

/// The longitude lands in the unit interval for any normal with saturated
/// components: the diamond quotient never exceeds one in magnitude.
pub proof fn lemma_sphere_u_range(n: Vec3)
    requires
        iabs(n.x.raw as int) <= MAXR,
        iabs(n.z.raw as int) <= MAXR,
    ensures
        0 <= sphere_u(n) <= SCALE,
{
    let nx = n.x.raw as int;
    let nz = n.z.raw as int;
    let span = add_raw(sat(iabs(nx)), sat(iabs(nz)));
    let q = div_raw(nx, span);
    assert(iabs(q) <= SCALE) by {
        if span == 0 {
        } else {
            crate::fx::lemma_abs_mul(nx, SCALE as int);
            assert(iabs(nx) * (SCALE as int) <= span * (SCALE as int)) by (nonlinear_arith)
                requires 0 <= iabs(nx) <= span,
            ;
            vstd::arithmetic::div_mod::lemma_div_is_ordered(
                iabs(nx) * (SCALE as int),
                span * (SCALE as int),
                span,
            );
            assert((span * (SCALE as int)) / span == SCALE as int) by (nonlinear_arith)
                requires span >= 1,
            ;
        }
    }
    if nz >= 0 {
        lemma_quarter_range(sub_raw(SCALE as int, q));
    } else {
        lemma_quarter_range(add_raw(SCALE as int, q));
    }
}

/// A quarter of a value within two units lands within half a unit.
proof fn lemma_quarter_range(x: int)
    requires
        0 <= x <= 2 * SCALE,
    ensures
        0 <= mul_raw(x, 16384) <= 32768,
{
    assert(0 <= x * 16384 <= 2 * 65536 * 16384) by (nonlinear_arith)
        requires 0 <= x <= 2 * SCALE,
    ;
    assert(0 <= sdiv(x * 16384, 65536) <= 32768) by (nonlinear_arith)
        requires 0 <= x * 16384 <= 2 * 65536 * 16384,
    ;
}

/// Half of a value within two units lands within one unit.
proof fn lemma_half_range(x: int)
    requires
        0 <= x <= 2 * SCALE,
    ensures
        0 <= mul_raw(x, 32768) <= SCALE,
{
    assert(0 <= x * 32768 <= 2 * 65536 * 32768) by (nonlinear_arith)
        requires 0 <= x <= 2 * SCALE,
    ;
    assert(0 <= sdiv(x * 32768, 65536) <= 65536) by (nonlinear_arith)
        requires 0 <= x * 32768 <= 2 * 65536 * 32768,
    ;
}

/// The nearer root never exceeds the farther one: the leading coefficient
/// is a squared length, and the root term is not negative.
pub proof fn lemma_near_le_far(s: Sphere, r: Ray)
    ensures
        sph_t_near(s, r) <= sph_t_far(s, r),
{
    crate::fx::lemma_sqrt_floor(sph_disc(s, r) * (SCALE as int));
    crate::vec::lemma_dot_self_nonneg(r.vec);
    let hb = sat(-sph_half_b(s, r));
    let root = sqrt_raw(sph_disc(s, r));
    assert(sub_raw(hb, root) <= add_raw(hb, root));
    crate::fx::lemma_div_raw_monotone(sub_raw(hb, root), add_raw(hb, root), sph_a(r));
}

/// Narrowing the far bound of the query interval never changes a hit: it
/// either keeps the same parameter, when that parameter still fits, or
/// turns the query into a miss.
pub proof fn lemma_sphere_hit_narrow(s: Sphere, r: Ray, t_min: int, c: int, t_max: int)
    requires
        c <= t_max,
    ensures
        match sphere_hit_t(s, r, t_min, t_max) {
            Some(tk) => sphere_hit_t(s, r, t_min, c) == if tk < c {
                Some(tk)
            } else {
                Option::<int>::None
            },
            None => sphere_hit_t(s, r, t_min, c) is None,
        },
{
    lemma_near_le_far(s, r);
}

impl Sphere {
    /// Build a sphere.
    pub fn new(center: Vec3, radius: Fx) -> (r: Sphere)
        ensures
            r == (Sphere { center, radius }),
    {
        Sphere { center, radius }
    }

    /// The center.
    pub fn center(&self) -> (r: Vec3)
        ensures
            r == self.center,
    {
        self.center
    }

    /// The signed radius.
    pub fn radius(&self) -> (r: Fx)
        ensures
            r == self.radius,
    {
        self.radius
    }

    /// Intersect a ray with the sphere over the open interval
    /// `(t_min, t_max)`: the nearer admissible root wins, and the record
    /// carries the oriented normal and the surface coordinates.
    pub fn hit(&self, mat: MaterialType, ray: &Ray, t_min: Fx, t_max: Fx) -> (r: Option<HitRecord>)
        ensures
            match sphere_hit_t(*self, *ray, t_min.raw as int, t_max.raw as int) {
                Some(t) => r == Some(
                    sphere_record(*self, *ray, Fx { raw: t as i64 }, mat),
                ),
                None => r is None,
            },
            r is Some ==> 0 <= r->Some_0.u.raw <= SCALE,
            r is Some ==> (iabs(
                sphere_outward_normal(*self, r->Some_0.p).y.raw as int,
            ) <= SCALE ==> 0 <= r->Some_0.v.raw <= SCALE),
    {
        let oc = ray.origin().sub(self.center);
        let a = ray.direction().length_squared();
        let half_b = Vec3::dot(oc, ray.direction());
        let c = oc.length_squared().sub(self.radius.mul(self.radius));
        let discriminant = half_b.mul(half_b).sub(a.mul(c));

        if discriminant.raw > 0 {
            let root = discriminant.sqrt();
            let t_hit = half_b.neg().sub(root).div(a);
            if t_hit.raw < t_max.raw && t_hit.raw > t_min.raw {
                return Some(self.record_at(t_hit, mat, ray));
            }
            let t_hit = half_b.neg().add(root).div(a);
            if t_hit.raw < t_max.raw && t_hit.raw > t_min.raw {
                return Some(self.record_at(t_hit, mat, ray));
            }
            None
        } else {
            None
        }
    }

    /// Assemble the record for a hit at parameter `t`. The longitude is
    /// always in the unit interval; the latitude is whenever the outward
    /// normal's height is within one unit.
    fn record_at(&self, t: Fx, mat: MaterialType, ray: &Ray) -> (r: HitRecord)
        ensures
            r == sphere_record(*self, *ray, t, mat),
            0 <= r.u.raw <= SCALE,
            iabs(sphere_outward_normal(*self, r.p).y.raw as int) <= SCALE ==> 0 <= r.v.raw
                <= SCALE,
    {
        let p = ray.at(t);
        let outward_normal = p.sub(self.center).div_s(self.radius);
        proof {
            lemma_sphere_u_range(outward_normal);
            if iabs(outward_normal.y.raw as int) <= SCALE {
                lemma_half_range(add_raw(outward_normal.y.raw as int, SCALE as int));
            }
        }
        let u = Sphere::longitude(outward_normal);
        let v = Sphere::latitude(outward_normal);
        HitRecord::new(t, p, outward_normal, mat, ray, u, v)
    }

    /// The longitude coordinate, by the diamond angle of `(n_x, n_z)`.
    fn longitude(n: Vec3) -> (r: Fx)
        ensures
            r.raw == sphere_u(n),
    {
        let span = n.x.abs().add(n.z.abs());
        let q = n.x.div(span);
        let quarter = Fx { raw: 16384 };
        if n.z.raw >= 0 {
            let half = Fx { raw: 32768 };
            let one = Fx { raw: SCALE };
            half.add(one.sub(q).mul(quarter))
        } else {
            let one = Fx { raw: SCALE };
            one.add(q).mul(quarter)
        }
    }

    /// The latitude coordinate `(n_y + 1) / 2`.
    fn latitude(n: Vec3) -> (r: Fx)
        ensures
            r.raw == sphere_v(n),
    {
        let one = Fx { raw: SCALE };
        let half = Fx { raw: 32768 };
        n.y.add(one).mul(half)
    }
}

} // verus!
