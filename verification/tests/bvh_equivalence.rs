use pathtrace::fx::{Fx, MAXR};
use pathtrace::hittable::{BVHNode, HittableList, HittableType};
use pathtrace::materials::MaterialType;
use pathtrace::ray::Ray;
use pathtrace::vec::Vec3;
use rand::{RngExt, SeedableRng};

fn fx_range(rng: &mut rand::rngs::StdRng, lo: i64, hi: i64) -> Fx {
    Fx { raw: rng.random_range(lo..hi) }
}

fn shared_metal() -> MaterialType {
    MaterialType::Metal(
        Vec3::new(Fx::from_ratio(1, 2), Fx::from_ratio(1, 2), Fx::from_ratio(1, 2)),
        Fx::zero(),
    )
}

/// Build `n` spheres with odd-valued coordinates, the same material on
/// each, and check that the hierarchy reports exactly the hit the linear
/// scan reports, ray for ray.
fn check_equivalence(n: usize, seed: u64) {
    let mut rng = rand::rngs::StdRng::seed_from_u64(seed);
    let mut prims: Vec<HittableType> = Vec::new();
    let mut list = HittableList::new();
    let mat = shared_metal();
    for _ in 0..n {
        let center = Vec3::new(
            fx_range(&mut rng, -40 * 65536, 40 * 65536),
            fx_range(&mut rng, -40 * 65536, 40 * 65536),
            fx_range(&mut rng, -120 * 65536, -20 * 65536),
        );
        let radius = fx_range(&mut rng, 65536, 8 * 65536);
        let s = HittableType::sphere(center, radius);
        prims.push(s);
        list.add(s, mat);
    }
    let bvh = BVHNode::make(&mut prims, 0, n, Fx::zero(), Fx::zero());

    let t_min = Fx::from_ratio(1, 1000);
    let t_max = Fx { raw: MAXR };
    for _ in 0..200 {
        let origin = Vec3::new(
            fx_range(&mut rng, -10 * 65536, 10 * 65536),
            fx_range(&mut rng, -10 * 65536, 10 * 65536),
            fx_range(&mut rng, -65536, 65536),
        );
        let dir = Vec3::new(
            fx_range(&mut rng, -65536, 65536),
            fx_range(&mut rng, -65536, 65536),
            fx_range(&mut rng, -3 * 65536, -65536),
        );
        let ray = Ray::new(origin, dir);
        let brute = list.hit(&ray, t_min, t_max);
        let fast = bvh.hit(mat, &ray, t_min, t_max);
        match (brute, fast) {
            (None, None) => {},
            (Some(b), Some(f)) => {
                assert_eq!(b.t.raw, f.t.raw);
                assert_eq!(b.p.z.raw, f.p.z.raw);
            },
            (b, f) => panic!(
                "hierarchy and scan disagree: scan hit {}, hierarchy hit {}",
                b.is_some(),
                f.is_some()
            ),
        }
    }
}

#[test]
fn bvh_matches_scan_single_sphere() {
    check_equivalence(1, 11);
}

#[test]
fn bvh_matches_scan_two_spheres() {
    check_equivalence(2, 22);
}

#[test]
fn bvh_matches_scan_fifty_spheres() {
    check_equivalence(50, 33);
}

/// Two identical spheres tie on every sort key; the hierarchy still
/// answers exactly what the scan answers.
#[test]
fn bvh_matches_scan_on_duplicates() {
    let mat = shared_metal();
    let s = HittableType::sphere(Vec3::new(Fx::zero(), Fx::zero(), Fx::from_int(-4)), Fx::one());
    let mut prims = vec![s, s];
    let mut list = HittableList::new();
    list.add(s, mat);
    list.add(s, mat);
    let bvh = BVHNode::make(&mut prims, 0, 2, Fx::zero(), Fx::zero());
    let ray = Ray::new(
        Vec3::new(Fx::zero(), Fx::zero(), Fx::zero()),
        Vec3::new(Fx::zero(), Fx::zero(), Fx::from_int(-1)),
    );
    let b = list.hit(&ray, Fx::from_ratio(1, 1000), Fx { raw: MAXR }).unwrap();
    let f = bvh.hit(mat, &ray, Fx::from_ratio(1, 1000), Fx { raw: MAXR }).unwrap();
    assert_eq!(b.t.raw, f.t.raw);
    assert_eq!(b.t.raw, 3 * 65536);
}

/// The hierarchy's box stands over every primitive's box.
#[test]
fn bvh_box_covers_primitives() {
    let mut prims = vec![
        HittableType::sphere(Vec3::new(Fx::from_int(-5), Fx::zero(), Fx::from_int(-10)), Fx::one()),
        HittableType::sphere(Vec3::new(Fx::from_int(7), Fx::from_int(2), Fx::from_int(-30)), Fx::from_int(2)),
        HittableType::sphere(Vec3::new(Fx::zero(), Fx::from_int(-3), Fx::from_int(-20)), Fx::from_int(3)),
    ];
    let bvh = BVHNode::make(&mut prims, 0, 3, Fx::zero(), Fx::zero());
    let bb = bvh.bounding_box(Fx::zero(), Fx::zero()).unwrap();
    for p in &prims {
        let pb = p.bounding_box(Fx::zero(), Fx::zero()).unwrap();
        assert!(bb.min().x.raw <= pb.min().x.raw && pb.max().x.raw <= bb.max().x.raw);
        assert!(bb.min().y.raw <= pb.min().y.raw && pb.max().y.raw <= bb.max().y.raw);
        assert!(bb.min().z.raw <= pb.min().z.raw && pb.max().z.raw <= bb.max().z.raw);
    }
}

/// The list's own box is the union of its objects' boxes, and empty
/// lists have none.
#[test]
fn list_bounding_box() {
    let mut list = HittableList::new();
    assert!(list.bounding_box(Fx::zero(), Fx::zero()).is_none());
    list.add(
        HittableType::sphere(Vec3::new(Fx::zero(), Fx::zero(), Fx::from_int(-1)), Fx::one()),
        shared_metal(),
    );
    let bb = list.bounding_box(Fx::zero(), Fx::zero()).unwrap();
    assert_eq!(bb.min().x.raw, -65536);
    assert_eq!(bb.max().x.raw, 65536);
    assert_eq!(bb.min().z.raw, -2 * 65536);
    assert_eq!(bb.max().z.raw, 0);
}

/// The ordering the build sorts by is observable through `compare`.
#[test]
fn compare_orders_by_axis_key() {
    let a = HittableType::sphere(Vec3::new(Fx::zero(), Fx::zero(), Fx::zero()), Fx::one());
    let b = HittableType::sphere(Vec3::new(Fx::from_int(5), Fx::zero(), Fx::zero()), Fx::one());
    assert_eq!(HittableType::compare(&a, &b, 0), std::cmp::Ordering::Less);
    assert_eq!(HittableType::compare(&b, &a, 0), std::cmp::Ordering::Greater);
    assert_eq!(HittableType::compare(&a, &b, 1), std::cmp::Ordering::Equal);
}
