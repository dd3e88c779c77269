use pathtrace::aabb::AABB;
use pathtrace::fx::{Fx, MAXR};
use pathtrace::materials::MaterialType;
use pathtrace::ray::Ray;
use pathtrace::solids::Sphere;
use pathtrace::vec::Vec3;

fn fxi(n: i64) -> Fx {
    Fx::from_int(n)
}

fn v(x: i64, y: i64, z: i64) -> Vec3 {
    Vec3::new(fxi(x), fxi(y), fxi(z))
}

fn plain_metal() -> MaterialType {
    MaterialType::Metal(v(1, 1, 1), Fx::zero())
}

/// A head-on ray meets the sphere at the near surface: the classic direct
/// hit, with every coordinate exactly representable.
#[test]
fn direct_hit_scenario() {
    let sphere = Sphere::new(v(0, 0, -1), Fx::from_ratio(1, 2));
    let ray = Ray::new(v(0, 0, 0), v(0, 0, -1));
    let rec = sphere
        .hit(plain_metal(), &ray, Fx::zero(), Fx { raw: MAXR })
        .expect("the ray points straight at the sphere");
    assert_eq!(rec.t.raw, 32768);
    assert_eq!(rec.p.x.raw, 0);
    assert_eq!(rec.p.y.raw, 0);
    assert_eq!(rec.p.z.raw, -32768);
    assert_eq!(rec.normal.x.raw, 0);
    assert_eq!(rec.normal.y.raw, 0);
    assert_eq!(rec.normal.z.raw, 65536);
    assert!(rec.front_face);
}

/// The returned hit point lies on the sphere: its distance from the
/// center matches the radius up to fixed-point rounding, and the point
/// is the ray evaluated at the returned parameter.
#[test]
fn hit_point_lies_on_sphere() {
    let radius = Fx::from_ratio(3, 10);
    let sphere = Sphere::new(v(0, 0, -2), radius);
    let ray = Ray::new(v(0, 0, 0), v(0, 0, -1));
    let rec = sphere
        .hit(plain_metal(), &ray, Fx::zero(), Fx { raw: MAXR })
        .expect("the ray points straight at the sphere");
    assert_eq!(rec.t.raw, 111414);
    let at = ray.at(rec.t);
    assert_eq!(at.z.raw, rec.p.z.raw);
    let dist = rec.p.sub(sphere.center()).length();
    assert!((dist.raw - radius.raw).abs() <= 8);
}

/// A sphere with a negative radius keeps the geometry of its magnitude
/// but inverts the outward normal: the head-on hit is reported as a back
/// face, where the positive twin reports a front face.
#[test]
fn negative_radius_inverts_normal() {
    let ray = Ray::new(v(0, 0, 0), v(0, 0, -1));
    let hollow = Sphere::new(v(0, 0, -1), Fx::from_ratio(-45, 100));
    let solid = Sphere::new(v(0, 0, -1), Fx::from_ratio(45, 100));
    let hrec = hollow
        .hit(plain_metal(), &ray, Fx::zero(), Fx { raw: MAXR })
        .expect("the shell is in the ray's path");
    let srec = solid
        .hit(plain_metal(), &ray, Fx::zero(), Fx { raw: MAXR })
        .expect("the solid twin is in the ray's path");
    assert_eq!(hrec.t.raw, srec.t.raw);
    assert_eq!(hrec.t.raw, 36046);
    // The geometric outward normal of the shell points at the center, so
    // orientation flips it back and marks the hit as a back face.
    assert!(!hrec.front_face);
    assert!(srec.front_face);
    assert_eq!(hrec.normal.z.raw, 65533);
    assert_eq!(srec.normal.z.raw, 65533);
}

/// A vanishing discriminant is a miss by design: a ray grazing the
/// sphere tangentially reports nothing.
#[test]
fn tangent_ray_misses() {
    let sphere = Sphere::new(v(0, 0, -2), Fx::one());
    let ray = Ray::new(v(1, 0, 0), v(0, 0, -1));
    assert!(sphere.hit(plain_metal(), &ray, Fx::zero(), Fx { raw: MAXR }).is_none());
}

/// The union of two boxes contains all eight corners of each.
#[test]
fn union_contains_corners() {
    let a = AABB::new(v(-1, -2, -3), v(1, 0, 0));
    let b = AABB::new(v(0, -1, -5), v(4, 5, 6));
    let u = AABB::surrounding_box(a, b);
    for bx in [a, b] {
        for cx in [bx.min().x, bx.max().x] {
            for cy in [bx.min().y, bx.max().y] {
                for cz in [bx.min().z, bx.max().z] {
                    assert!(u.min().x.raw <= cx.raw && cx.raw <= u.max().x.raw);
                    assert!(u.min().y.raw <= cy.raw && cy.raw <= u.max().y.raw);
                    assert!(u.min().z.raw <= cz.raw && cz.raw <= u.max().z.raw);
                }
            }
        }
    }
}

/// The slab test carries the narrowed interval from axis to axis: a ray
/// whose per-axis slab intervals each meet the query, but never at the
/// same parameter, is a miss.
#[test]
fn slab_test_narrows_across_axes() {
    let bx = AABB::new(v(0, 0, 0), v(1, 1, 1));
    let ray = Ray::new(
        Vec3::new(fxi(-1), fxi(3), Fx::from_ratio(1, 2)),
        Vec3::new(fxi(1), fxi(-1), fxi(0)),
    );
    // The first axis leaves [1, 2], the second demands [2, 3]: the
    // running interval empties, so the box is missed.
    assert!(!bx.hit(ray, Fx::zero(), fxi(10)));
}

/// The slab test accepts a ray that crosses the box and rejects one that
/// passes beside it, including an axis with a zero direction component.
#[test]
fn slab_test_crossing_and_missing() {
    let bx = AABB::new(v(-1, -1, -3), v(1, 1, -2));
    let through = Ray::new(v(0, 0, 0), v(0, 0, -1));
    let beside = Ray::new(v(3, 0, 0), v(0, 0, -1));
    assert!(bx.hit(through, Fx::zero(), Fx { raw: MAXR }));
    assert!(!bx.hit(beside, Fx::zero(), Fx { raw: MAXR }));
}
