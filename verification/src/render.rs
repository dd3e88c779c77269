//! The light-transport integrator and the per-pixel sampler. The natural
//! recursion is run as a loop over a running attenuation product, with the
//! same termination behavior: depth exhausted gives black, a miss gives
//! the background gradient, an absorbed ray gives black. Under a
//! believable scene every returned channel stays within the unit
//! interval.

use vstd::prelude::*;

use crate::camera::Camera;
use crate::color::{samples_color, Color, Samples};
use crate::fx::{add_raw, iabs, mul_raw, sdiv, Fx, MAXR, SCALE};
use crate::hittable::{list_hit, list_hit_from, HittableList, HittableType};
use crate::materials::{mat_wf, HitRecord, MaterialType};
use crate::pixmap::PixMap;
use crate::ray::Ray;
use crate::rng::rand_below;
use crate::texture::color01;
use crate::vec::{v3_add, v3_mul, v3_scale, v3_unit, Vec3};

verus! {

/// The shadow-acne epsilon in raw units: secondary rays start just past
/// their origin.
pub const T_EPS: i64 = 65;

/// Every material of the scene is believable.
pub open spec fn scene_wf(objs: Seq<(HittableType, MaterialType)>) -> bool {
    forall|i: int| 0 <= i < objs.len() ==> mat_wf(#[trigger] objs[i].1)
}

/// Clamp a raw value into the unit interval.
pub open spec fn clamp01_raw(x: int) -> int {
    if x < 0 {
        0
    } else if x > SCALE {
        SCALE as int
    } else {
        x
    }
}

/// The background gradient: white blended toward sky blue by the
/// direction's height, the blend clamped into the unit interval.
pub open spec fn background_of(ray: Ray) -> Vec3 {
    let unit = v3_unit(ray.vec);
    let t = Fx {
        raw: clamp01_raw(mul_raw(32768, add_raw(unit.y.raw as int, SCALE as int))) as i64,
    };
    let white = Vec3 { x: Fx { raw: SCALE }, y: Fx { raw: SCALE }, z: Fx { raw: SCALE } };
    let blue = Vec3 { x: Fx { raw: 32768 }, y: Fx { raw: 45875 }, z: Fx { raw: SCALE } };
    v3_add(
        v3_scale(white, Fx { raw: (SCALE - t.raw as int) as i64 }),
        v3_scale(blue, t),
    )
}

/// A unit-interval factor scales a unit-interval value into it.
proof fn lemma_unit_mul(a: int, b: int)
    requires
        0 <= a <= SCALE,
        0 <= b <= SCALE,
    ensures
        0 <= mul_raw(a, b) <= b,
        0 <= mul_raw(a, b) <= a,
{
    assert(0 <= sdiv(a * b, SCALE as int) <= b && sdiv(a * b, SCALE as int) <= a)
        by (nonlinear_arith)
        requires 0 <= a <= SCALE, 0 <= b <= SCALE,
    ;
}

/// Multiplying by one is exact.
proof fn lemma_one_mul(x: int)
    requires
        iabs(x) <= MAXR,
    ensures
        mul_raw(SCALE as int, x) == x,
{
    assert(sdiv((SCALE as int) * x, SCALE as int) == x) by (nonlinear_arith)
        requires iabs(x) <= MAXR,
    ;
}

/// The background's channels lie in the unit interval.
proof fn lemma_background_color01(ray: Ray)
    ensures
        color01(background_of(ray)),
{
    let unit = v3_unit(ray.vec);
    let t = clamp01_raw(mul_raw(32768, add_raw(unit.y.raw as int, SCALE as int)));
    lemma_unit_mul(SCALE as int, (SCALE - t) as int);
    lemma_unit_mul(SCALE as int, t);
    lemma_unit_mul(32768, (SCALE - t) as int);
    lemma_unit_mul(45875, t);
    lemma_unit_mul(32768, t);
}

/// The scan only ever reports records whose material came from the list.
proof fn lemma_list_hit_wf(
    objs: Seq<(HittableType, MaterialType)>,
    ray: Ray,
    t_min: int,
    i: nat,
    closest: int,
    acc: Option<HitRecord>,
)
    requires
        scene_wf(objs),
        acc is Some ==> mat_wf(acc->Some_0.mat),
    ensures
        list_hit_from(objs, ray, t_min, i, closest, acc) is Some ==> mat_wf(
            list_hit_from(objs, ray, t_min, i, closest, acc)->Some_0.mat,
        ),
    decreases objs.len() - i,
{
    if i < objs.len() {
        match crate::hittable::hittable_hit(objs[i as int].0, objs[i as int].1, ray, t_min,
            closest) {
            None => lemma_list_hit_wf(objs, ray, t_min, i + 1, closest, acc),
            Some(rec) => {
                assert(mat_wf(rec.mat));
                lemma_list_hit_wf(objs, ray, t_min, i + 1, rec.t.raw as int, Some(rec));
            },
        }
    }
}

/// The background gradient a ray sees when it escapes the scene.
pub fn background(ray: &Ray) -> (r: Vec3)
    ensures
        r == background_of(*ray),
        color01(r),
{
    let unit_direction = ray.direction().to_unit();
    let raw_t = Fx { raw: 32768 }.mul(unit_direction.y().add(Fx { raw: SCALE }));
    let t = if raw_t.raw < 0 {
        Fx { raw: 0 }
    } else if raw_t.raw > SCALE {
        Fx { raw: SCALE }
    } else {
        raw_t
    };
    let white = Vec3::new(Fx { raw: SCALE }, Fx { raw: SCALE }, Fx { raw: SCALE });
    let blue = Vec3::new(Fx { raw: 32768 }, Fx { raw: 45875 }, Fx { raw: SCALE });
    let r = white.scale(Fx { raw: SCALE }.sub(t)).add(blue.scale(t));
    proof {
        lemma_background_color01(*ray);
    }
    r
}

/// What one bounce decides: the path ends with a color, or continues
/// with a deeper attenuation product and the next ray.
pub enum Bounce {
    Finished(Vec3),
    Continue(Vec3, Ray),
}

/// The integrator's bounce law, over the scene's answer and the
/// material's answer: a miss ends the path with the background tinted by
/// the product so far, an absorbed ray ends it black, and a scatter
/// multiplies the attenuation into the product and hands on the
/// scattered ray.
pub open spec fn bounce_spec(
    att: Vec3,
    cur: Ray,
    hit: Option<HitRecord>,
    sc: Option<(Vec3, Ray)>,
) -> Bounce {
    match hit {
        None => Bounce::Finished(v3_mul(att, background_of(cur))),
        Some(_) => match sc {
            None => Bounce::Finished(
                Vec3 { x: Fx { raw: 0 }, y: Fx { raw: 0 }, z: Fx { raw: 0 } },
            ),
            Some((a, scattered)) => Bounce::Continue(v3_mul(att, a), scattered),
        },
    }
}

/// Decide one bounce from the scene's answer and the material's answer.
pub fn bounce(att: Vec3, cur: &Ray, hit: Option<HitRecord>, sc: Option<(Vec3, Ray)>) -> (r:
    Bounce)
    ensures
        r == bounce_spec(att, *cur, hit, sc),
{
    match hit {
        None => Bounce::Finished(att.mul(background(cur))),
        Some(_) => match sc {
            None => Bounce::Finished(Vec3::new(Fx { raw: 0 }, Fx { raw: 0 }, Fx { raw: 0 })),
            Some((a, scattered)) => Bounce::Continue(att.mul(a), scattered),
        },
    }
}

/// Trace a ray through the scene: attenuations multiply until the depth
/// is exhausted (black), the ray escapes (the background, tinted by the
/// product so far), or a material absorbs it (black). Each turn of the
/// loop applies exactly the bounce law to the scene's and the material's
/// answers.
pub fn ray_color(ray: &Ray, world: &HittableList, rng: &mut rand::rngs::ThreadRng, depth: u16)
    -> (r: Vec3)
    ensures
        scene_wf(world.objects@) ==> color01(r),
        depth == 0 ==> r == (Vec3 { x: Fx { raw: 0 }, y: Fx { raw: 0 }, z: Fx { raw: 0 } }),
        depth > 0 && list_hit(world.objects@, *ray, T_EPS as int, MAXR as int) is None ==> r
            == background_of(*ray),
    {
    let mut attenuation = Vec3::new(Fx { raw: SCALE }, Fx { raw: SCALE }, Fx { raw: SCALE });
    let mut current = *ray;
    let mut d = depth;
    while d > 0
        invariant
            scene_wf(world.objects@) ==> color01(attenuation),
            d == depth ==> current == *ray && attenuation == (Vec3 {
                x: Fx { raw: SCALE },
                y: Fx { raw: SCALE },
                z: Fx { raw: SCALE },
            }),
            d < depth ==> !(depth > 0 && list_hit(world.objects@, *ray, T_EPS as int, MAXR as int)
                is None),
            d <= depth,
        decreases d,
    {
        let hit = world.hit(&current, Fx { raw: T_EPS }, Fx { raw: MAXR });
        proof {
            if scene_wf(world.objects@) && hit is Some {
                lemma_list_hit_wf(world.objects@, current, T_EPS as int, 0, MAXR as int, None);
            }
        }
        let sc = match hit {
            Some(rec) => rec.mat.scatter(&current, &rec, rng),
            None => None,
        };
        let step = bounce(attenuation, &current, hit, sc);
        match step {
            Bounce::Finished(c) => {
                proof {
                    if hit is None {
                        let bg = background_of(current);
                        lemma_background_color01(current);
                        if d == depth {
                            lemma_one_mul(bg.x.raw as int);
                            lemma_one_mul(bg.y.raw as int);
                            lemma_one_mul(bg.z.raw as int);
                            assert(c =~= bg);
                        }
                        if scene_wf(world.objects@) {
                            lemma_unit_mul(attenuation.x.raw as int, bg.x.raw as int);
                            lemma_unit_mul(attenuation.y.raw as int, bg.y.raw as int);
                            lemma_unit_mul(attenuation.z.raw as int, bg.z.raw as int);
                        }
                    }
                }
                return c;
            },
            Bounce::Continue(deeper, next) => {
                proof {
                    if scene_wf(world.objects@) {
                        let a = sc->Some_0.0;
                        lemma_unit_mul(attenuation.x.raw as int, a.x.raw as int);
                        lemma_unit_mul(attenuation.y.raw as int, a.y.raw as int);
                        lemma_unit_mul(attenuation.z.raw as int, a.z.raw as int);
                    }
                }
                attenuation = deeper;
                current = next;
                d = d - 1;
            },
        }
    }
    Vec3::new(Fx { raw: 0 }, Fx { raw: 0 }, Fx { raw: 0 })
}

/// One pixel coordinate of the output image.
#[derive(Clone, Copy, Debug, PartialEq, Eq, Structural)]
pub struct Pixel {
    pub x: u16,
    pub y: u16,
}

/// Sample one pixel: jitter the coordinate per sample, trace, accumulate,
/// then average, gamma-correct and quantize. The result is the exact
/// quantization of some accumulated sum, whose channels stay within the
/// sample count when the scene is believable.
pub fn raytrace_pixel(
    p: Pixel,
    pm: &PixMap,
    camera: Camera,
    world: &HittableList,
    rng: &mut rand::rngs::ThreadRng,
    samples_per_pixel: u16,
    max_depth: u16,
) -> (c: Color)
    ensures
        exists|acc: Vec3|
            #![trigger samples_color(acc, samples_per_pixel as int)]
            c == samples_color(acc, samples_per_pixel as int) && (scene_wf(world.objects@)
                ==> pixel_sum_ok(acc, samples_per_pixel as int)),
{
    let mut samples = Samples::default();
    let i = Fx::from_int(p.x as i64);
    let j = Fx::from_int(p.y as i64);
    let w = Fx::from_int(pm.width() as i64);
    let h = Fx::from_int(pm.height() as i64);
    let mut k: u16 = 0;
    while k < samples_per_pixel
        invariant
            k <= samples_per_pixel,
            samples.num_samples == k,
            scene_wf(world.objects@) ==> pixel_sum_ok(samples.vector, k as int),
        decreases samples_per_pixel - k,
    {
        let ju = Fx { raw: rand_below(rng, SCALE as u64) as i64 };
        let jv = Fx { raw: rand_below(rng, SCALE as u64) as i64 };
        let u = i.add(ju).div(w);
        let v = j.add(jv).div(h);
        let r = camera.get_ray(u, v, rng);
        let sample = ray_color(&r, world, rng, max_depth);
        proof {
            if scene_wf(world.objects@) {
                assert(pixel_sum_ok(v3_add(samples.vector, sample), k + 1));
            }
        }
        samples.add_sample(sample);
        k = k + 1;
    }
    let ghost acc = samples.vector;
    let c = samples.into_color();
    proof {
        assert(c == samples_color(acc, samples_per_pixel as int) && (scene_wf(world.objects@)
            ==> pixel_sum_ok(acc, samples_per_pixel as int)));
        assert(exists|a: Vec3|
            #![trigger samples_color(a, samples_per_pixel as int)]
            c == samples_color(a, samples_per_pixel as int) && (scene_wf(world.objects@)
                ==> pixel_sum_ok(a, samples_per_pixel as int)));
    }
    c
}

/// A sample sum over `n` unit-interval samples stays within `n` units.
pub open spec fn pixel_sum_ok(acc: Vec3, n: int) -> bool {
    &&& 0 <= acc.x.raw <= n * (SCALE as int)
    &&& 0 <= acc.y.raw <= n * (SCALE as int)
    &&& 0 <= acc.z.raw <= n * (SCALE as int)
}

} // verus!
