use pathtrace::fx::{Fx, MAXR, SCALE};
use pathtrace::materials::{schlick, HitRecord, MaterialType};
use pathtrace::ray::Ray;
use pathtrace::solids::Sphere;
use pathtrace::texture::TextureType;
use pathtrace::vec::Vec3;

fn v(x: i64, y: i64, z: i64) -> Vec3 {
    Vec3::new(Fx::from_int(x), Fx::from_int(y), Fx::from_int(z))
}

fn head_on_record(mat: MaterialType) -> (Ray, HitRecord) {
    let sphere = Sphere::new(v(0, 0, -1), Fx::from_ratio(1, 2));
    let ray = Ray::new(v(0, 0, 0), v(0, 0, -1));
    let rec = sphere.hit(mat, &ray, Fx::zero(), Fx { raw: MAXR }).unwrap();
    (ray, rec)
}

/// At normal incidence the Schlick reflectance is exactly the base
/// reflectance of the interface.
#[test]
fn schlick_at_normal_incidence() {
    let glass = Fx::from_ratio(3, 2);
    let r = schlick(Fx::one(), glass);
    assert_eq!(r.raw, 2621);
    // The base reflectance, computed the same way the library does.
    let one = Fx::one();
    let t = one.sub(glass).div(one.add(glass));
    assert_eq!(r.raw, t.mul(t).raw);
}

/// A diffuse surface always scatters, tinted exactly by its texture.
#[test]
fn lambertian_always_scatters_with_texture_tint() {
    let tint = Vec3::new(Fx::from_ratio(3, 10), Fx::from_ratio(5, 10), Fx::from_ratio(7, 10));
    let mat = MaterialType::Lambertian(TextureType::Constant(tint));
    let (ray, rec) = head_on_record(mat);
    let mut rng = rand::rng();
    for _ in 0..32 {
        let (attenuation, scattered) = mat.scatter(&ray, &rec, &mut rng).expect(
            "a diffuse surface always scatters",
        );
        assert_eq!(attenuation.x.raw, tint.x.raw);
        assert_eq!(attenuation.y.raw, tint.y.raw);
        assert_eq!(attenuation.z.raw, tint.z.raw);
        assert_eq!(scattered.origin().z.raw, rec.p.z.raw);
    }
}

/// A metal's attenuation is its albedo, within the unit interval, and the
/// scattered ray leaves the surface.
#[test]
fn metal_scatters_outward_with_albedo() {
    let albedo = Vec3::new(Fx::from_ratio(8, 10), Fx::from_ratio(8, 10), Fx::from_ratio(9, 10));
    let mat = MaterialType::Metal(albedo, Fx::zero());
    let (ray, rec) = head_on_record(mat);
    let mut rng = rand::rng();
    let (attenuation, scattered) = mat.scatter(&ray, &rec, &mut rng).expect(
        "a fuzz-free mirror reflects a head-on ray",
    );
    for c in [attenuation.x, attenuation.y, attenuation.z] {
        assert!(0 <= c.raw && c.raw <= SCALE);
    }
    assert_eq!(attenuation.y.raw, albedo.y.raw);
    let away = Vec3::dot(scattered.direction(), rec.normal);
    assert!(away.raw > 0);
    // With no fuzz the bounce is deterministic: the head-on ray reflects
    // straight back along the normal.
    assert_eq!(
        (scattered.direction().x.raw, scattered.direction().y.raw, scattered.direction().z.raw),
        (0, 0, 65536)
    );
}

/// A clear medium always scatters and its attenuation is exactly one in
/// every channel.
#[test]
fn dielectric_attenuation_is_exactly_one() {
    let mat = MaterialType::Dielectric(Fx::from_ratio(3, 2));
    let (ray, rec) = head_on_record(mat);
    let mut rng = rand::rng();
    for _ in 0..32 {
        let (attenuation, _) = mat.scatter(&ray, &rec, &mut rng).expect(
            "a clear medium always scatters",
        );
        assert_eq!(attenuation.x.raw, SCALE);
        assert_eq!(attenuation.y.raw, SCALE);
        assert_eq!(attenuation.z.raw, SCALE);
    }
}

/// A negative coordinate flips the sine's sign: one negative factor makes
/// the product negative, so the odd color shows, where the all-positive
/// mirror point shows the even one.
#[test]
fn checker_sign_over_negative_coordinates() {
    let odd = v(1, 0, 0);
    let even = v(0, 1, 0);
    let tex = TextureType::JankChecker(Fx::from_int(1), odd, even);
    let mirror = tex.value(Fx::zero(), Fx::zero(), &v(-1, 1, 1));
    let plain = tex.value(Fx::zero(), Fx::zero(), &v(1, 1, 1));
    assert_eq!(mirror.x.raw, SCALE);
    assert_eq!(plain.y.raw, SCALE);
}

/// The checker texture alternates between its two colors across space.
#[test]
fn checker_alternates() {
    let odd = v(1, 0, 0);
    let even = v(0, 1, 0);
    let tex = TextureType::JankChecker(Fx::from_int(4), odd, even);
    let here = tex.value(Fx::zero(), Fx::zero(), &v(0, 0, 0));
    let there = tex.value(Fx::zero(), Fx::zero(), &v(1, 0, 0));
    assert_eq!(here.y.raw, SCALE);
    assert_eq!(there.x.raw, SCALE);
}
