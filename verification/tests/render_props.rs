use pathtrace::camera::{Camera, CameraOptions};
use pathtrace::color::Samples;
use pathtrace::fx::{Fx, SCALE};
use pathtrace::hittable::HittableList;
use pathtrace::pixmap::PixMap;
use pathtrace::ray::Ray;
use pathtrace::render::{background, ray_color, raytrace_pixel, Pixel};
use pathtrace::scenes::{use_scene, Scene};
use pathtrace::vec::Vec3;

fn v(x: i64, y: i64, z: i64) -> Vec3 {
    Vec3::new(Fx::from_int(x), Fx::from_int(y), Fx::from_int(z))
}

/// A ray pointing straight up sees pure sky blue: the gradient at its
/// far end.
#[test]
fn miss_returns_sky_blue() {
    let up = Ray::new(v(0, 0, 0), v(0, 1, 0));
    let bg = background(&up);
    assert_eq!(bg.x.raw, 32768);
    assert_eq!(bg.y.raw, 45875);
    assert_eq!(bg.z.raw, SCALE);
}

/// With no geometry in its path, the integrator returns the background
/// gradient itself.
#[test]
fn empty_scene_returns_background() {
    let world = HittableList::new();
    let mut rng = rand::rng();
    let up = Ray::new(v(0, 0, 0), v(0, 1, 0));
    let c = ray_color(&up, &world, &mut rng, 16);
    let bg = background(&up);
    assert_eq!(c.x.raw, bg.x.raw);
    assert_eq!(c.y.raw, bg.y.raw);
    assert_eq!(c.z.raw, bg.z.raw);
}

/// At depth zero the integrator returns black outright.
#[test]
fn depth_zero_is_black() {
    let world = use_scene(Scene::SHINY);
    let mut rng = rand::rng();
    let ray = Ray::new(v(0, 0, 0), v(0, 0, -1));
    let c = ray_color(&ray, &world, &mut rng, 0);
    assert_eq!(c.x.raw, 0);
    assert_eq!(c.y.raw, 0);
    assert_eq!(c.z.raw, 0);
}

/// Every channel the integrator returns stays within the unit interval
/// on the believable presets.
#[test]
fn energy_stays_bounded() {
    let world = use_scene(Scene::THREE_BALLS);
    let mut rng = rand::rng();
    for i in 0..24 {
        let dir = Vec3::new(
            Fx::from_ratio(i - 12, 12),
            Fx::from_ratio((i % 7) - 3, 7),
            Fx::from_int(-1),
        );
        let ray = Ray::new(v(0, 0, 0), dir);
        let c = ray_color(&ray, &world, &mut rng, 50);
        for ch in [c.x, c.y, c.z] {
            assert!(0 <= ch.raw && ch.raw <= SCALE);
        }
    }
}

/// A head-on ray into the mirror preset bounces once off the center
/// sphere, escapes straight back up the axis, and carries the albedo
/// times the mid-gradient background: a fully deterministic two-bounce
/// path with an exact expected color.
#[test]
fn two_bounce_mirror_path_is_exact() {
    let world = use_scene(Scene::SHINY);
    let mut rng = rand::rng();
    let ray = Ray::new(v(0, 0, 0), v(0, 0, -1));
    let c = ray_color(&ray, &world, &mut rng, 8);
    assert_eq!((c.x.raw, c.y.raw, c.z.raw), (44236, 50134, 52428));
}

/// One full-white sample quantizes to the eight-bit ceiling: the clamp
/// just below one keeps the channel at 255.
#[test]
fn quantization_clamp_edge() {
    let mut s = Samples::default();
    s.add_sample(Vec3::new(Fx::one(), Fx::one(), Fx::one()));
    let c = s.into_color();
    assert_eq!((c.r(), c.g(), c.b()), (255, 255, 255));
}

/// A quarter-intensity sample averages to a quarter, gamma-corrects to a
/// half, and lands on the middle of the eight-bit range.
#[test]
fn quantization_of_quarter() {
    let mut s = Samples::default();
    let q = Fx::from_ratio(1, 4);
    s.add_sample(Vec3::new(q, q, q));
    let c = s.into_color();
    assert_eq!((c.r(), c.g(), c.b()), (128, 128, 128));
}

/// Averaging two samples splits the difference before quantization.
#[test]
fn quantization_averages() {
    let mut s = Samples::default();
    s.add_sample(Vec3::new(Fx::zero(), Fx::zero(), Fx::zero()));
    s.add_sample(Vec3::new(Fx::from_ratio(1, 2), Fx::from_ratio(1, 2), Fx::from_ratio(1, 2)));
    let c = s.into_color();
    // The average is a quarter, which gamma-corrects to a half.
    assert_eq!((c.r(), c.g(), c.b()), (128, 128, 128));
}

/// A pixel traced against an empty scene quantizes the background alone,
/// whatever the jitter drew.
#[test]
fn pixel_of_empty_scene_is_bounded() {
    let pm = PixMap::new(8, 8);
    let world = HittableList::new();
    let cam = Camera::new(CameraOptions::cool2(&pm));
    let mut rng = rand::rng();
    let c = raytrace_pixel(Pixel { x: 3, y: 4 }, &pm, cam, &world, &mut rng, 4, 10);
    // The background's channels never exceed one, so no channel can
    // quantize above the ceiling.
    assert!(c.r() <= 255 && c.g() <= 255 && c.b() <= 255);
}

/// The preset scenes carry the documented object counts.
#[test]
fn preset_scene_shapes() {
    assert_eq!(use_scene(Scene::THREE_BALLS).objects.len(), 5);
    assert_eq!(use_scene(Scene::SHINY).objects.len(), 5);
    assert_eq!(use_scene(Scene::RANDOM_BALLS(17)).objects.len(), 17);
}
