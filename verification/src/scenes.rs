//! Named preset scenes: hand-authored sphere lists, and one parametric
//! variant filled with randomly placed metal balls. Every preset's
//! materials are believable, so the integrator's energy bound applies.

use vstd::prelude::*;

use crate::fx::{Fx, SCALE};
use crate::hittable::{HittableList, HittableType};
use crate::materials::{mat_wf, MaterialType};
use crate::render::scene_wf;
use crate::rng::rand_below;
use crate::solids::Sphere;
use crate::texture::TextureType;
use crate::vec::Vec3;

verus! {

/// The selectable presets.
#[allow(non_camel_case_types)]
pub enum Scene {
    THREE_BALLS,
    RANDOM_BALLS(u16),
    SHINY,
}

/// A fixed-point vector from raw components.
pub open spec fn v3_raw(x: i64, y: i64, z: i64) -> Vec3 {
    Vec3 { x: Fx { raw: x }, y: Fx { raw: y }, z: Fx { raw: z } }
}

/// The checker texture both hand-authored presets share.
pub open spec fn preset_checker() -> TextureType {
    TextureType::Checker(Fx { raw: 655 }, v3_raw(0, 0, 0), v3_raw(7864, 29491, 9830))
}

/// The hand-authored scene of a diffuse ball, a metal floor and pair, and
/// a hollow glass bubble.
pub open spec fn three_balls_objects() -> Seq<(HittableType, MaterialType)> {
    seq![
        (
            HittableType::Sphere(Sphere { center: v3_raw(0, 0, -65536i64), radius: Fx { raw: 32768 } }),
            MaterialType::Lambertian(preset_checker()),
        ),
        (
            HittableType::Sphere(
                Sphere { center: v3_raw(0, -6586368i64, -65536i64), radius: Fx { raw: 6553600 } },
            ),
            MaterialType::Metal(v3_raw(52428, 52428, 58982), Fx { raw: 6553 }),
        ),
        (
            HittableType::Sphere(
                Sphere { center: v3_raw(65536, 0, -65536i64), radius: Fx { raw: 32768 } },
            ),
            MaterialType::Metal(v3_raw(26624, 6656, 34560), Fx { raw: 0 }),
        ),
        (
            HittableType::Sphere(
                Sphere { center: v3_raw(-65536i64, 0, -65536i64), radius: Fx { raw: 32768 } },
            ),
            MaterialType::Dielectric(Fx { raw: 98304 }),
        ),
        (
            HittableType::Sphere(
                Sphere { center: v3_raw(-65536i64, 0, -65536i64), radius: Fx { raw: -29491i64 } },
            ),
            MaterialType::Dielectric(Fx { raw: 98304 }),
        ),
    ]
}

/// The hand-authored scene where everything but the bubble is a mirror.
pub open spec fn shiny_objects() -> Seq<(HittableType, MaterialType)> {
    seq![
        (
            HittableType::Sphere(Sphere { center: v3_raw(0, 0, -65536i64), radius: Fx { raw: 32768 } }),
            MaterialType::Metal(v3_raw(58982, 58982, 52428), Fx { raw: 0 }),
        ),
        (
            HittableType::Sphere(
                Sphere { center: v3_raw(0, -6586368i64, -65536i64), radius: Fx { raw: 6553600 } },
            ),
            MaterialType::Metal(v3_raw(58982, 58982, 52428), Fx { raw: 0 }),
        ),
        (
            HittableType::Sphere(
                Sphere { center: v3_raw(65536, 0, -65536i64), radius: Fx { raw: 32768 } },
            ),
            MaterialType::Metal(v3_raw(58982, 58982, 52428), Fx { raw: 0 }),
        ),
        (
            HittableType::Sphere(
                Sphere { center: v3_raw(-65536i64, 0, -65536i64), radius: Fx { raw: 32768 } },
            ),
            MaterialType::Dielectric(Fx { raw: 98304 }),
        ),
        (
            HittableType::Sphere(
                Sphere { center: v3_raw(-65536i64, 0, -65536i64), radius: Fx { raw: -29491i64 } },
            ),
            MaterialType::Dielectric(Fx { raw: 98304 }),
        ),
    ]
}

/// What every randomly generated ball satisfies: placed in the preset's
/// space, sized within its band, and coated in a believable metal.
pub open spec fn random_ball_ok(entry: (HittableType, MaterialType)) -> bool {
    match entry {
        (HittableType::Sphere(s), MaterialType::Metal(albedo, fuzz)) => {
            &&& -6553600 <= s.center.x.raw < 6553600
            &&& -6553600 <= s.center.y.raw < 6553600
            &&& -13107200 <= s.center.z.raw < -1310720
            &&& 65536 <= s.radius.raw < 1310720
            &&& 0 <= albedo.x.raw < SCALE
            &&& 0 <= albedo.y.raw < SCALE
            &&& 0 <= albedo.z.raw < SCALE
            &&& 0 <= fuzz.raw < SCALE
        },
        _ => false,
    }
}

/// Build the chosen preset. Every preset is believable; the hand-authored
/// ones are pinned object for object, and each random ball lies in the
/// preset's bands.
pub fn use_scene(s: Scene) -> (r: HittableList)
    ensures
        scene_wf(r.objects@),
        s is THREE_BALLS ==> r.objects@ == three_balls_objects(),
        s is SHINY ==> r.objects@ == shiny_objects(),
        s is RANDOM_BALLS ==> r.objects@.len() == s->RANDOM_BALLS_0 && forall|i: int|
            0 <= i < r.objects@.len() ==> #[trigger] random_ball_ok(r.objects@[i]),
{
    match s {
        Scene::THREE_BALLS => {
            let mut world = HittableList::new();
            let tex = TextureType::Checker(
                Fx::from_ratio(1, 100),
                Vec3::new(Fx::zero(), Fx::zero(), Fx::zero()),
                Vec3::new(Fx::from_ratio(12, 100), Fx::from_ratio(45, 100), Fx::from_ratio(15, 100)),
            );

            world.add(
                HittableType::sphere(
                    Vec3::new(Fx::zero(), Fx::zero(), Fx::from_int(-1)),
                    Fx::from_ratio(1, 2),
                ),
                MaterialType::Lambertian(tex),
            );
            // ground
            world.add(
                HittableType::sphere(
                    Vec3::new(Fx::zero(), Fx::from_ratio(-201, 2), Fx::from_int(-1)),
                    Fx::from_int(100),
                ),
                MaterialType::Metal(
                    Vec3::new(Fx::from_ratio(8, 10), Fx::from_ratio(8, 10), Fx::from_ratio(9, 10)),
                    Fx::from_ratio(1, 10),
                ),
            );
            world.add(
                HittableType::sphere(
                    Vec3::new(Fx::from_int(1), Fx::zero(), Fx::from_int(-1)),
                    Fx::from_ratio(1, 2),
                ),
                MaterialType::Metal(
                    Vec3::new(
                        Fx::from_ratio(40625, 100000),
                        Fx::from_ratio(1015625, 10000000),
                        Fx::from_ratio(52734375, 100000000),
                    ),
                    Fx::zero(),
                ),
            );
            // bubble
            world.add(
                HittableType::sphere(
                    Vec3::new(Fx::from_int(-1), Fx::zero(), Fx::from_int(-1)),
                    Fx::from_ratio(1, 2),
                ),
                MaterialType::Dielectric(Fx::from_ratio(3, 2)),
            );
            world.add(
                HittableType::sphere(
                    Vec3::new(Fx::from_int(-1), Fx::zero(), Fx::from_int(-1)),
                    Fx::from_ratio(-45, 100),
                ),
                MaterialType::Dielectric(Fx::from_ratio(3, 2)),
            );
            proof {
                // Evaluate the preset constants' divisions.
                assert(65536int / 100int == 655);
                assert(786432int / 100int == 7864);
                assert(2949120int / 100int == 29491);
                assert(983040int / 100int == 9830);
                assert(13172736int / 2int == 6586368);
                assert(524288int / 10int == 52428);
                assert(589824int / 10int == 58982);
                assert(65536int / 10int == 6553);
                assert(2662400000int / 100000int == 26624);
                assert(66560000000int / 10000000int == 6656);
                assert(3456000000000int / 100000000int == 34560);
                assert(196608int / 2int == 98304);
                assert(65536int / 2int == 32768);
                assert(tex == preset_checker());
                assert(world.objects@[0].0 == three_balls_objects()[0].0);
                assert(world.objects@[0].1 == three_balls_objects()[0].1);
                assert(world.objects@[0] == three_balls_objects()[0]);
                assert(world.objects@[1].0 == three_balls_objects()[1].0);
                assert(world.objects@[1].1 == three_balls_objects()[1].1);
                assert(world.objects@[1] == three_balls_objects()[1]);
                assert(world.objects@[2].0 == three_balls_objects()[2].0);
                assert(world.objects@[2].1 == three_balls_objects()[2].1);
                assert(world.objects@[2] == three_balls_objects()[2]);
                assert(world.objects@[3].0 == three_balls_objects()[3].0);
                assert(world.objects@[3].1 == three_balls_objects()[3].1);
                assert(world.objects@[3] == three_balls_objects()[3]);
                assert(world.objects@[4].0 == three_balls_objects()[4].0);
                assert(world.objects@[4].1 == three_balls_objects()[4].1);
                assert(world.objects@[4] == three_balls_objects()[4]);
                assert(world.objects@ =~= three_balls_objects());
                assert(scene_wf(world.objects@));
            }
            world
        },
        Scene::SHINY => {
            let mut world = HittableList::new();
            let metal = MaterialType::Metal(
                Vec3::new(Fx::from_ratio(9, 10), Fx::from_ratio(9, 10), Fx::from_ratio(8, 10)),
                Fx::zero(),
            );

            world.add(
                HittableType::sphere(
                    Vec3::new(Fx::zero(), Fx::zero(), Fx::from_int(-1)),
                    Fx::from_ratio(1, 2),
                ),
                metal,
            );
            // ground
            world.add(
                HittableType::sphere(
                    Vec3::new(Fx::zero(), Fx::from_ratio(-201, 2), Fx::from_int(-1)),
                    Fx::from_int(100),
                ),
                metal,
            );
            world.add(
                HittableType::sphere(
                    Vec3::new(Fx::from_int(1), Fx::zero(), Fx::from_int(-1)),
                    Fx::from_ratio(1, 2),
                ),
                metal,
            );
            // bubble
            world.add(
                HittableType::sphere(
                    Vec3::new(Fx::from_int(-1), Fx::zero(), Fx::from_int(-1)),
                    Fx::from_ratio(1, 2),
                ),
                MaterialType::Dielectric(Fx::from_ratio(3, 2)),
            );
            world.add(
                HittableType::sphere(
                    Vec3::new(Fx::from_int(-1), Fx::zero(), Fx::from_int(-1)),
                    Fx::from_ratio(-45, 100),
                ),
                MaterialType::Dielectric(Fx::from_ratio(3, 2)),
            );
            proof {
                // Evaluate the preset constants' divisions.
                assert(65536int / 100int == 655);
                assert(786432int / 100int == 7864);
                assert(2949120int / 100int == 29491);
                assert(983040int / 100int == 9830);
                assert(13172736int / 2int == 6586368);
                assert(524288int / 10int == 52428);
                assert(589824int / 10int == 58982);
                assert(65536int / 10int == 6553);
                assert(2662400000int / 100000int == 26624);
                assert(66560000000int / 10000000int == 6656);
                assert(3456000000000int / 100000000int == 34560);
                assert(196608int / 2int == 98304);
                assert(65536int / 2int == 32768);
                assert(world.objects@[0].0 == shiny_objects()[0].0);
                assert(world.objects@[0].1 == shiny_objects()[0].1);
                assert(world.objects@[0] == shiny_objects()[0]);
                assert(world.objects@[1].0 == shiny_objects()[1].0);
                assert(world.objects@[1].1 == shiny_objects()[1].1);
                assert(world.objects@[1] == shiny_objects()[1]);
                assert(world.objects@[2].0 == shiny_objects()[2].0);
                assert(world.objects@[2].1 == shiny_objects()[2].1);
                assert(world.objects@[2] == shiny_objects()[2]);
                assert(world.objects@[3].0 == shiny_objects()[3].0);
                assert(world.objects@[3].1 == shiny_objects()[3].1);
                assert(world.objects@[3] == shiny_objects()[3]);
                assert(world.objects@[4].0 == shiny_objects()[4].0);
                assert(world.objects@[4].1 == shiny_objects()[4].1);
                assert(world.objects@[4] == shiny_objects()[4]);
                assert(world.objects@ =~= shiny_objects());
                assert(scene_wf(world.objects@));
            }
            world
        },
        Scene::RANDOM_BALLS(num) => {
            let mut rng = crate::rng::fresh_rng();
            let mut world = HittableList::new();

            let mut k: u16 = 0;
            while k < num
                invariant
                    k <= num,
                    world.objects@.len() == k,
                    forall|i: int|
                        0 <= i < world.objects@.len() ==> #[trigger] random_ball_ok(
                            world.objects@[i],
                        ),
                decreases num - k,
            {
                let cx = rand_fx(&mut rng, Fx::from_int(-100), Fx::from_int(100));
                let cy = rand_fx(&mut rng, Fx::from_int(-100), Fx::from_int(100));
                let cz = rand_fx(&mut rng, Fx::from_int(-200), Fx::from_int(-20));
                let radius = rand_fx(&mut rng, Fx::from_int(1), Fx::from_int(20));
                let ax = rand_fx(&mut rng, Fx::zero(), Fx::one());
                let ay = rand_fx(&mut rng, Fx::zero(), Fx::one());
                let az = rand_fx(&mut rng, Fx::zero(), Fx::one());
                let fuzz = rand_fx(&mut rng, Fx::zero(), Fx::one());
                world.add(
                    HittableType::sphere(Vec3::new(cx, cy, cz), radius),
                    MaterialType::Metal(Vec3::new(ax, ay, az), fuzz),
                );
                k = k + 1;
            }
            proof {
                assert forall|i: int| 0 <= i < world.objects@.len() implies mat_wf(
                    #[trigger] world.objects@[i].1,
                ) by {
                    assert(random_ball_ok(world.objects@[i]));
                }
            }
            world
        },
    }
}

/// A uniform draw from `[min, max)`.
fn rand_fx(rng: &mut rand::rngs::ThreadRng, min: Fx, max: Fx) -> (r: Fx)
    requires
        min.raw < max.raw,
        max.raw - min.raw <= i64::MAX,
    ensures
        min.raw <= r.raw < max.raw,
{
    let width: u64 = ((max.raw as i128) - (min.raw as i128)) as u64;
    Fx { raw: min.raw + rand_below(rng, width) as i64 }
}

} // verus!
