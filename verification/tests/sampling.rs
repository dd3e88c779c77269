use pathtrace::camera::{Camera, CameraOptions};
use pathtrace::fx::{Fx, SCALE};
use pathtrace::pixmap::PixMap;
use pathtrace::vec::Vec3;

/// Random components land in the half-open unit interval; a stuck
/// generator echoing its argument back would leave the range at once.
#[test]
fn random_components_in_unit_interval() {
    let mut rng = rand::rng();
    for _ in 0..64 {
        let p = Vec3::random(&mut rng);
        for c in [p.x, p.y, p.z] {
            assert!(0 <= c.raw && c.raw < SCALE);
        }
    }
}

/// Interval sampling respects its bounds on every draw.
#[test]
fn random_interval_respects_bounds() {
    let mut rng = rand::rng();
    let lo = Fx::from_int(-3);
    let hi = Fx::from_int(7);
    for _ in 0..64 {
        let p = Vec3::random_interval(&mut rng, lo, hi);
        for c in [p.x, p.y, p.z] {
            assert!(lo.raw <= c.raw && c.raw < hi.raw);
        }
    }
}

/// Ball samples stay inside the closed unit ball, and disk samples stay
/// flat and inside the unit disk.
#[test]
fn ball_and_disk_samples_stay_inside() {
    let mut rng = rand::rng();
    for _ in 0..64 {
        let p = Vec3::random_in_unit_sphere(&mut rng);
        assert!(p.length_squared().raw <= SCALE);
        let d = Vec3::random_in_unit_disk(&mut rng);
        assert_eq!(d.z.raw, 0);
        assert!(d.length_squared().raw <= SCALE);
    }
}

/// Unit-vector samples have length one up to rounding.
#[test]
fn unit_vector_samples_have_unit_length() {
    let mut rng = rand::rng();
    for _ in 0..64 {
        let u = Vec3::random_unit_vector(&mut rng);
        let l = u.length();
        assert!((l.raw - SCALE).abs() <= 600);
    }
}

/// Hemisphere samples point along the given normal.
#[test]
fn hemisphere_samples_follow_normal() {
    let mut rng = rand::rng();
    let normal = Vec3::new(Fx::zero(), Fx::one(), Fx::zero());
    for _ in 0..64 {
        let p = Vec3::random_in_hemisphere(&mut rng, &normal);
        assert!(Vec3::dot(p, normal).raw >= 0);
        assert!(p.length_squared().raw <= SCALE);
    }
}

/// A closed lens casts deterministic rays: with zero aperture the same
/// image coordinates give the same ray, jitter or not.
#[test]
fn zero_aperture_rays_are_deterministic() {
    let pm = PixMap::new(16, 16);
    let cam = Camera::new(CameraOptions::cool2(&pm));
    let mut rng = rand::rng();
    let s = Fx::from_ratio(1, 4);
    let t = Fx::from_ratio(3, 4);
    let first = cam.get_ray(s, t, &mut rng);
    for _ in 0..8 {
        let again = cam.get_ray(s, t, &mut rng);
        assert_eq!(first.origin().x.raw, again.origin().x.raw);
        assert_eq!(first.direction().x.raw, again.direction().x.raw);
        assert_eq!(first.direction().y.raw, again.direction().y.raw);
        assert_eq!(first.direction().z.raw, again.direction().z.raw);
    }
}
