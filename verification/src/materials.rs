//! Materials and scattering: diffuse bounce, fuzzy mirror reflection, and
//! a dielectric that mixes reflection and refraction by a random draw
//! against the Schlick reflectance. Where a draw decides, the contract
//! states what holds of every outcome.

use vstd::prelude::*;

use crate::fx::{add_raw, div_raw, iabs, mul_raw, sqrt_raw, sub_raw, Fx, MAXR, SCALE};
use crate::ray::Ray;
use crate::rng::rand_below;
use crate::texture::{color01, tex_value, tex_wf, TextureType};
use crate::vec::{
    in_ball, near_unit, v3_add, v3_dot, v3_neg, v3_reflect, v3_refract, v3_scale, v3_unit, Vec3,
};

verus! {

/// A surface's scattering behavior.
#[derive(Clone, Copy, Debug)]
pub enum MaterialType {
    /// Diffuse, tinted by a texture.
    Lambertian(TextureType),
    /// Mirror with an albedo and a fuzz radius.
    Metal(Vec3, Fx),
    /// Clear medium with a refractive index.
    Dielectric(Fx),
}

/// A material is believable when its tint stays in the unit interval and
/// its fuzz radius is at most one.
pub open spec fn mat_wf(m: MaterialType) -> bool {
    match m {
        MaterialType::Lambertian(tex) => tex_wf(tex),
        MaterialType::Metal(albedo, fuzz) => color01(albedo) && 0 <= fuzz.raw <= SCALE,
        MaterialType::Dielectric(_) => true,
    }
}

/// The raw Schlick base reflectance `((1 - n) / (1 + n))^2`.
pub open spec fn schlick_r0(ref_idx: int) -> int {
    let t = div_raw(sub_raw(SCALE as int, ref_idx), add_raw(SCALE as int, ref_idx));
    mul_raw(t, t)
}

/// The raw fifth power, associated as the executable chain computes it.
pub open spec fn pow5_raw(x: int) -> int {
    mul_raw(mul_raw(mul_raw(mul_raw(x, x), x), x), x)
}

/// The raw Schlick reflectance `r0 + (1 - r0) (1 - cos)^5`.
pub open spec fn schlick_raw(cosine: int, ref_idx: int) -> int {
    let r0 = schlick_r0(ref_idx);
    add_raw(r0, mul_raw(sub_raw(SCALE as int, r0), pow5_raw(sub_raw(SCALE as int, cosine))))
}

/// The Schlick approximation of a dielectric's reflectance.
pub fn schlick(cosine: Fx, ref_idx: Fx) -> (r: Fx)
    ensures
        r.raw == schlick_raw(cosine.raw as int, ref_idx.raw as int),
{
    let one = Fx { raw: SCALE };
    let r0 = one.sub(ref_idx).div(one.add(ref_idx));
    let r0 = r0.mul(r0);
    let m = one.sub(cosine);
    let p5 = m.mul(m).mul(m).mul(m).mul(m);
    r0.add(one.sub(r0).mul(p5))
}

/// At normal incidence the Schlick reflectance is exactly the base
/// reflectance: the fifth power of `1 - cos` vanishes.
pub proof fn lemma_schlick_normal_incidence(ref_idx: int)
    ensures
        schlick_raw(SCALE as int, ref_idx) == schlick_r0(ref_idx),
{
    let r0 = schlick_r0(ref_idx);
    assert(sub_raw(SCALE as int, SCALE as int) == 0);
    assert(mul_raw(0, 0) == 0) by (nonlinear_arith);
    assert(pow5_raw(0) == 0) by {
        assert(mul_raw(0, 0) == 0) by (nonlinear_arith);
        assert(mul_raw(mul_raw(0, 0), 0) == 0) by (nonlinear_arith);
        assert(mul_raw(mul_raw(mul_raw(0, 0), 0), 0) == 0) by (nonlinear_arith);
        assert(mul_raw(mul_raw(mul_raw(mul_raw(0, 0), 0), 0), 0) == 0) by (nonlinear_arith);
    }
    assert(mul_raw(sub_raw(SCALE as int, r0), 0) == 0) by {
        assert(sub_raw(SCALE as int, r0) * 0 == 0) by (nonlinear_arith);
    }
    assert(add_raw(r0, 0) == r0);
}

/// What a successful intersection reports: parameter, point, oriented
/// normal, surface coordinates and the struck material.
#[derive(Clone, Copy, Debug)]
pub struct HitRecord {
    pub t: Fx,
    pub p: Vec3,
    pub normal: Vec3,
    pub front_face: bool,
    pub mat: MaterialType,
    pub u: Fx,
    pub v: Fx,
}

impl HitRecord {
    /// Orient the geometric outward normal against the incoming ray: the
    /// stored normal always faces the ray's origin side, and `front_face`
    /// records whether the outward normal already did.
    pub fn new(t: Fx, p: Vec3, outward_normal: Vec3, mat: MaterialType, ray: &Ray, u: Fx, v: Fx)
        -> (r: HitRecord)
        ensures
            r.t == t,
            r.p == p,
            r.mat == mat,
            r.u == u,
            r.v == v,
            r.front_face == (v3_dot(ray.vec, outward_normal) < 0),
            r.normal == if v3_dot(ray.vec, outward_normal) < 0 {
                outward_normal
            } else {
                v3_neg(outward_normal)
            },
    {
        let front_face = Vec3::dot(ray.direction(), outward_normal).raw < 0;
        let normal = if front_face {
            outward_normal
        } else {
            outward_normal.neg()
        };
        HitRecord { t, p, normal, front_face, mat, u, v }
    }
}

/// The mirror reflection of the unit incoming direction about the stored
/// normal: a metal's base direction, and a dielectric's reflected branch.
pub open spec fn mirror_dir(r_in: Ray, rec: HitRecord) -> Vec3 {
    v3_reflect(v3_unit(r_in.vec), rec.normal)
}

/// The refraction ratio a dielectric uses: the inverse index entering the
/// medium, the index itself leaving it.
pub open spec fn dielectric_ratio(ref_idx: int, front_face: bool) -> int {
    if front_face {
        div_raw(SCALE as int, ref_idx)
    } else {
        ref_idx
    }
}

/// The cosine of the angle of incidence, capped at one.
pub open spec fn dielectric_cos(r_in: Ray, rec: HitRecord) -> int {
    let d = v3_dot(v3_neg(v3_unit(r_in.vec)), rec.normal);
    if d <= SCALE {
        d
    } else {
        SCALE as int
    }
}

/// The sine recovered from the capped cosine.
pub open spec fn dielectric_sin(r_in: Ray, rec: HitRecord) -> int {
    let c = dielectric_cos(r_in, rec);
    let rest = sub_raw(SCALE as int, mul_raw(c, c));
    if rest >= 0 {
        sqrt_raw(rest)
    } else {
        0
    }
}

/// The transmitted direction of a dielectric bounce.
pub open spec fn dielectric_refract_dir(r_in: Ray, rec: HitRecord, ref_idx: int) -> Vec3 {
    v3_refract(
        v3_unit(r_in.vec),
        rec.normal,
        Fx { raw: dielectric_ratio(ref_idx, rec.front_face) as i64 },
    )
}

/// Whether the refraction ratio and the sine force total internal
/// reflection.
pub open spec fn dielectric_tir(r_in: Ray, rec: HitRecord, ref_idx: int) -> bool {
    mul_raw(dielectric_ratio(ref_idx, rec.front_face), dielectric_sin(r_in, rec)) > SCALE
}

/// Adding the zero vector to a vector of saturated components leaves it
/// unchanged.
proof fn lemma_add_zero(a: Vec3)
    requires
        iabs(a.x.raw as int) <= MAXR,
        iabs(a.y.raw as int) <= MAXR,
        iabs(a.z.raw as int) <= MAXR,
    ensures
        v3_add(a, Vec3 { x: Fx { raw: 0 }, y: Fx { raw: 0 }, z: Fx { raw: 0 } }) == a,
{
}

impl MaterialType {
    /// Scatter an incoming ray at a hit: the attenuation and the next ray,
    /// or nothing when the ray is absorbed.
    ///
    /// A diffuse surface always scatters, tinted by its texture; a metal
    /// scatters only away from the surface, tinted by its albedo; a clear
    /// medium always scatters and carries full energy, its direction the
    /// mirror reflection or the refraction of the incoming unit direction.
    pub fn scatter(&self, r_in: &Ray, rec: &HitRecord, rng: &mut rand::rngs::ThreadRng) -> (r:
        Option<(Vec3, Ray)>)
        ensures
            match r {
                Some((attenuation, scattered)) => {
                    &&& scattered.origin == rec.p
                    &&& (self is Lambertian ==> attenuation == tex_value(
                        self->Lambertian_0,
                        rec.u,
                        rec.v,
                        rec.p,
                    ))
                    &&& (self is Lambertian ==> exists|u: Vec3|
                        #[trigger] near_unit(u) && scattered.vec == v3_add(rec.normal, u))
                    &&& (self is Metal ==> attenuation == self->Metal_0 && v3_dot(
                        scattered.vec,
                        rec.normal,
                    ) > 0)
                    &&& (self is Metal ==> exists|q: Vec3|
                        #[trigger] in_ball(q) && scattered.vec == v3_add(
                            mirror_dir(*r_in, *rec),
                            v3_scale(q, self->Metal_1),
                        ))
                    &&& (self is Metal && self->Metal_1.raw == 0 ==> scattered.vec == mirror_dir(
                        *r_in,
                        *rec,
                    ))
                    &&& (self is Dielectric ==> attenuation == (Vec3 {
                        x: Fx { raw: SCALE },
                        y: Fx { raw: SCALE },
                        z: Fx { raw: SCALE },
                    }))
                    &&& (self is Dielectric ==> scattered.vec == mirror_dir(*r_in, *rec) || scattered.vec == dielectric_refract_dir(
                        *r_in,
                        *rec,
                        self->Dielectric_0.raw as int,
                    ))
                    &&& (self is Dielectric && dielectric_tir(
                        *r_in,
                        *rec,
                        self->Dielectric_0.raw as int,
                    ) ==> scattered.vec == mirror_dir(*r_in, *rec))
                    &&& (mat_wf(*self) ==> color01(attenuation))
                },
                None => self is Metal,
            },
            self is Lambertian ==> r is Some,
            self is Dielectric ==> r is Some,
            self is Metal && self->Metal_1.raw == 0 ==> (r is Some <==> v3_dot(
                mirror_dir(*r_in, *rec),
                rec.normal,
            ) > 0),
    {
        match *self {
            MaterialType::Lambertian(albedo) => {
                let bounce = Vec3::random_unit_vector(rng);
                let scatter_direction = rec.normal.add(bounce);
                let attenuation = albedo.value(rec.u, rec.v, &rec.p);
                proof {
                    assert(near_unit(bounce) && scatter_direction == v3_add(rec.normal, bounce));
                }
                Some((attenuation, Ray::new(rec.p, scatter_direction)))
            },
            MaterialType::Metal(albedo, fuzz) => {
                let reflected = Vec3::reflect(r_in.direction().to_unit(), rec.normal);
                let offset = Vec3::random_in_unit_sphere(rng);
                let scattered = Ray::new(rec.p, reflected.add(offset.scale(fuzz)));
                proof {
                    assert(in_ball(offset) && scattered.vec == v3_add(
                        mirror_dir(*r_in, *rec),
                        v3_scale(offset, fuzz),
                    ));
                    if fuzz.raw == 0 {
                        // A fuzz-free mirror is deterministic: the zero
                        // offset leaves the reflection unchanged.
                        crate::vec::lemma_scale_zero(offset);
                        lemma_add_zero(reflected);
                    }
                }
                if Vec3::dot(scattered.direction(), rec.normal).raw > 0 {
                    Some((albedo, scattered))
                } else {
                    None
                }
            },
            MaterialType::Dielectric(ref_idx) => {
                let one = Fx { raw: SCALE };
                let etai_over_etat = if rec.front_face {
                    one.div(ref_idx)
                } else {
                    ref_idx
                };
                let unit_direction = r_in.direction().to_unit();
                let cos_theta = Vec3::dot(unit_direction.neg(), rec.normal).min(one);
                let sin_theta = one.sub(cos_theta.mul(cos_theta)).sqrt();

                let new_direction = if etai_over_etat.mul(sin_theta).raw > SCALE {
                    Vec3::reflect(unit_direction, rec.normal)
                } else {
                    let reflect_prob = schlick(cos_theta, etai_over_etat);
                    let draw = Fx { raw: rand_below(rng, SCALE as u64) as i64 };
                    if draw.raw < reflect_prob.raw {
                        Vec3::reflect(unit_direction, rec.normal)
                    } else {
                        Vec3::refract(unit_direction, rec.normal, etai_over_etat)
                    }
                };
                Some((Vec3 { x: one, y: one, z: one }, Ray::new(rec.p, new_direction)))
            },
        }
    }
}

} // verus!
