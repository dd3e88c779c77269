//! Surfaces a ray can strike: the primitive variants, a flat list scanned
//! in order (the ground truth for nearest-hit queries), and a bounding
//! volume hierarchy built by random-axis median splits.

use vstd::prelude::*;

use crate::aabb::{aabb_hit, aabb_wf, box_union, comp_raw, contains_point, AABB};
use crate::fx::{iabs, sat, Fx};
use crate::materials::{HitRecord, MaterialType};
use crate::ray::Ray;
use crate::rng::rand_below;
use crate::solids::{sphere_hit_t, sphere_record, Sphere};
use crate::vec::{v3_add, v3_sub, Vec3};
use core::cmp::Ordering;

verus! {

/// A primitive surface; spheres are the only variant.
#[derive(Clone, Copy, Debug)]
pub enum HittableType {
    Sphere(Sphere),
}

/// What a primitive reports for a ray over the open interval
/// `(t_min, t_max)`, with the given material attached.
pub open spec fn hittable_hit(
    h: HittableType,
    mat: MaterialType,
    ray: Ray,
    t_min: int,
    t_max: int,
) -> Option<HitRecord> {
    match h {
        HittableType::Sphere(s) => match sphere_hit_t(s, ray, t_min, t_max) {
            Some(t) => Some(sphere_record(s, ray, Fx { raw: t as i64 }, mat)),
            None => None,
        },
    }
}

/// The box around a primitive: the cube of the radius' magnitude about
/// the center.
pub open spec fn hittable_box(h: HittableType) -> AABB {
    match h {
        HittableType::Sphere(s) => {
            let m = Fx { raw: sat(iabs(s.radius.raw as int)) as i64 };
            let rv = Vec3 { x: m, y: m, z: m };
            AABB { min: v3_sub(s.center, rv), max: v3_add(s.center, rv) }
        },
    }
}

/// A primitive's box is well formed: the radius' magnitude is not
/// negative, so the minimal corner stays below the maximal one.
pub proof fn lemma_hittable_box_wf(h: HittableType)
    ensures
        aabb_wf(hittable_box(h)),
{
    let bx = hittable_box(h);
    assert(comp_raw(bx.min, 0) <= comp_raw(bx.max, 0));
    assert(comp_raw(bx.min, 1) <= comp_raw(bx.max, 1));
    assert(comp_raw(bx.min, 2) <= comp_raw(bx.max, 2));
}

/// The key the hierarchy sorts by: the box's minimal corner on an axis.
pub open spec fn axis_key(h: HittableType, axis: int) -> int {
    comp_raw(hittable_box(h).min, axis)
}

impl HittableType {
    /// A sphere primitive.
    pub fn sphere(center: Vec3, radius: Fx) -> (r: HittableType)
        ensures
            r == HittableType::Sphere(Sphere { center, radius }),
    {
        HittableType::Sphere(Sphere::new(center, radius))
    }

    /// Order two primitives by their boxes' minimal corner on an axis.
    pub fn compare(a: &HittableType, b: &HittableType, axis: u8) -> (r: Ordering)
        requires
            axis < 3,
        ensures
            r == Ordering::Less <==> axis_key(*a, axis as int) < axis_key(*b, axis as int),
            r == Ordering::Equal <==> axis_key(*a, axis as int) == axis_key(*b, axis as int),
            r == Ordering::Greater <==> axis_key(*a, axis as int) > axis_key(*b, axis as int),
    {
        let ka = a.key(axis);
        let kb = b.key(axis);
        if ka < kb {
            Ordering::Less
        } else if ka == kb {
            Ordering::Equal
        } else {
            Ordering::Greater
        }
    }

    /// The sort key on an axis.
    fn key(&self, axis: u8) -> (r: i64)
        requires
            axis < 3,
        ensures
            r == axis_key(*self, axis as int),
    {
        match *self {
            HittableType::Sphere(_) => {
                let bx = self.bounding_box_always();
                bx.min().comp(axis).raw
            },
        }
    }

    /// Intersect a ray with the primitive.
    pub fn hit(&self, mat: MaterialType, ray: &Ray, t_min: Fx, t_max: Fx) -> (r: Option<HitRecord>)
        ensures
            r == hittable_hit(*self, mat, *ray, t_min.raw as int, t_max.raw as int),
    {
        match self {
            HittableType::Sphere(s) => s.hit(mat, ray, t_min, t_max),
        }
    }

    /// The bounding box; every primitive has one.
    pub fn bounding_box(&self, t0: Fx, t1: Fx) -> (r: Option<AABB>)
        ensures
            r == Some(hittable_box(*self)),
    {
        Some(self.bounding_box_always())
    }

    /// The bounding box, without the optional wrapping.
    fn bounding_box_always(&self) -> (r: AABB)
        ensures
            r == hittable_box(*self),
    {
        match *self {
            HittableType::Sphere(s) => {
                let m = s.radius().abs();
                let rv = Vec3::new(m, m, m);
                AABB::new(s.center().sub(rv), s.center().add(rv))
            },
        }
    }
}

/// An ordered scene: primitives paired with their materials.
pub struct HittableList {
    pub objects: Vec<(HittableType, MaterialType)>,
}

/// The scan state after the objects before `i` have been tested: the best
/// record so far and the narrowed upper bound.
pub open spec fn list_hit_from(
    objs: Seq<(HittableType, MaterialType)>,
    ray: Ray,
    t_min: int,
    i: nat,
    closest: int,
    acc: Option<HitRecord>,
) -> Option<HitRecord>
    decreases objs.len() - i,
{
    if i >= objs.len() {
        acc
    } else {
        match hittable_hit(objs[i as int].0, objs[i as int].1, ray, t_min, closest) {
            None => list_hit_from(objs, ray, t_min, i + 1, closest, acc),
            Some(rec) => list_hit_from(objs, ray, t_min, i + 1, rec.t.raw as int, Some(rec)),
        }
    }
}

/// The nearest hit a left-to-right scan of the whole list reports: each
/// later object is only asked for hits closer than the best one so far.
pub open spec fn list_hit(
    objs: Seq<(HittableType, MaterialType)>,
    ray: Ray,
    t_min: int,
    t_max: int,
) -> Option<HitRecord> {
    list_hit_from(objs, ray, t_min, 0, t_max, None)
}

/// The scan from `i` on is the nearest hit: starting from a best-so-far
/// record whose parameter is the current bound, it answers something
/// whenever any remaining object hits the original interval, and never
/// something farther than such a hit.
proof fn lemma_scan_nearest(
    objs: Seq<(HittableType, MaterialType)>,
    ray: Ray,
    t_min: int,
    i: nat,
    closest: int,
    acc: Option<HitRecord>,
    t_max: int,
)
    requires
        closest <= t_max,
        acc is Some ==> acc->Some_0.t.raw == closest,
        acc is None ==> closest == t_max,
    ensures
        ({
            let res = list_hit_from(objs, ray, t_min, i, closest, acc);
            &&& (acc is Some ==> res is Some)
            &&& (res is Some ==> res->Some_0.t.raw <= closest)
            &&& forall|k: int|
                i <= k < objs.len() && hittable_hit(#[trigger] objs[k].0, objs[k].1, ray, t_min,
                    t_max) is Some ==> res is Some && res->Some_0.t.raw <= hittable_hit(
                    objs[k].0,
                    objs[k].1,
                    ray,
                    t_min,
                    t_max,
                )->Some_0.t.raw
        }),
    decreases objs.len() - i,
{
    if i >= objs.len() {
    } else {
        let h = objs[i as int].0;
        let m = objs[i as int].1;
        match h {
            HittableType::Sphere(sp) => {
                crate::solids::lemma_sphere_hit_narrow(sp, ray, t_min, closest, t_max);
            },
        }
        match hittable_hit(h, m, ray, t_min, closest) {
            None => {
                lemma_scan_nearest(objs, ray, t_min, i + 1, closest, acc, t_max);
            },
            Some(rec) => {
                lemma_scan_nearest(objs, ray, t_min, i + 1, rec.t.raw as int, Some(rec), t_max);
            },
        }
    }
}

/// The full scan is truly the nearest hit: whenever any single object of
/// the list hits the interval on its own, the scan answers a hit, and no
/// single object's hit is strictly closer than the scan's answer.
pub proof fn lemma_list_hit_nearest(
    objs: Seq<(HittableType, MaterialType)>,
    ray: Ray,
    t_min: int,
    t_max: int,
)
    ensures
        forall|k: int|
            0 <= k < objs.len() && hittable_hit(#[trigger] objs[k].0, objs[k].1, ray, t_min, t_max)
                is Some ==> list_hit(objs, ray, t_min, t_max) is Some && list_hit(
                objs,
                ray,
                t_min,
                t_max,
            )->Some_0.t.raw <= hittable_hit(objs[k].0, objs[k].1, ray, t_min, t_max)->Some_0.t.raw,
{
    lemma_scan_nearest(objs, ray, t_min, 0, t_max, None, t_max);
}

/// The scan only answers genuine hits: its record is what some object of
/// the list reports over an interval nested in the query's.
pub proof fn lemma_list_hit_sound(
    objs: Seq<(HittableType, MaterialType)>,
    ray: Ray,
    t_min: int,
    t_max: int,
)
    ensures
        list_hit(objs, ray, t_min, t_max) is Some ==> exists|k: int, tu: int|
            0 <= k < objs.len() && tu <= t_max && #[trigger] hittable_hit(
                objs[k].0,
                objs[k].1,
                ray,
                t_min,
                tu,
            ) == Some(list_hit(objs, ray, t_min, t_max)->Some_0),
{
    lemma_scan_sound(objs, ray, t_min, 0, t_max, None, t_max);
}

/// The inductive form of the scan's soundness.
proof fn lemma_scan_sound(
    objs: Seq<(HittableType, MaterialType)>,
    ray: Ray,
    t_min: int,
    i: nat,
    closest: int,
    acc: Option<HitRecord>,
    t_max: int,
)
    requires
        i <= objs.len(),
        closest <= t_max,
        acc is Some ==> exists|k: int, tu: int|
            0 <= k < i && tu <= t_max && #[trigger] hittable_hit(objs[k].0, objs[k].1, ray, t_min,
                tu) == Some(acc->Some_0),
    ensures
        ({
            let res = list_hit_from(objs, ray, t_min, i, closest, acc);
            res is Some ==> exists|k: int, tu: int|
                0 <= k < objs.len() && tu <= t_max && #[trigger] hittable_hit(
                    objs[k].0,
                    objs[k].1,
                    ray,
                    t_min,
                    tu,
                ) == Some(res->Some_0)
        }),
    decreases objs.len() - i,
{
    if i >= objs.len() {
    } else {
        match hittable_hit(objs[i as int].0, objs[i as int].1, ray, t_min, closest) {
            None => {
                lemma_scan_sound(objs, ray, t_min, i + 1, closest, acc, t_max);
            },
            Some(rec) => {
                assert(hittable_hit(objs[i as int].0, objs[i as int].1, ray, t_min, closest)
                    == Some(rec));
                lemma_scan_sound(objs, ray, t_min, i + 1, rec.t.raw as int, Some(rec), t_max);
            },
        }
    }
}

/// The running union of the objects' boxes, from `i` on.
pub open spec fn boxes_fold(objs: Seq<(HittableType, MaterialType)>, i: nat, acc: AABB) -> AABB
    decreases objs.len() - i,
{
    if i >= objs.len() {
        acc
    } else {
        boxes_fold(objs, i + 1, box_union(acc, hittable_box(objs[i as int].0)))
    }
}

/// The box around the whole list: nothing for an empty list, else the
/// union of every object's box.
pub open spec fn list_box(objs: Seq<(HittableType, MaterialType)>) -> Option<AABB> {
    if objs.len() == 0 {
        None
    } else {
        Some(boxes_fold(objs, 0, hittable_box(objs[0].0)))
    }
}

impl HittableList {
    /// An empty scene.
    pub fn new() -> (r: HittableList)
        ensures
            r.objects@.len() == 0,
    {
        HittableList { objects: Vec::new() }
    }

    /// Drop every object.
    pub fn clear(&mut self)
        ensures
            final(self).objects@.len() == 0,
    {
        self.objects.clear()
    }

    /// Append an object with its material.
    pub fn add(&mut self, object: HittableType, mat: MaterialType)
        ensures
            final(self).objects@ == old(self).objects@.push((object, mat)),
    {
        self.objects.push((object, mat))
    }

    /// The nearest hit over the open interval `(t_min, t_max)`: the scan
    /// of every object in order, each tested against the closest
    /// parameter found so far.
    pub fn hit(&self, ray: &Ray, t_min: Fx, t_max: Fx) -> (r: Option<HitRecord>)
        ensures
            r == list_hit(self.objects@, *ray, t_min.raw as int, t_max.raw as int),
    {
        let ghost objs = self.objects@;
        let mut closest_so_far = t_max;
        let mut rec: Option<HitRecord> = None;
        let mut i: usize = 0;
        while i < self.objects.len()
            invariant
                objs == self.objects@,
                i <= objs.len(),
                list_hit(objs, *ray, t_min.raw as int, t_max.raw as int) == list_hit_from(
                    objs,
                    *ray,
                    t_min.raw as int,
                    i as nat,
                    closest_so_far.raw as int,
                    rec,
                ),
            decreases objs.len() - i,
        {
            let (object, mat) = self.objects[i];
            match object.hit(mat, ray, t_min, closest_so_far) {
                None => (),
                Some(temp_rec) => {
                    closest_so_far = temp_rec.t;
                    rec = Some(temp_rec);
                },
            }
            i = i + 1;
        }
        rec
    }

    /// The box around the whole scene, when it has any objects.
    pub fn bounding_box(&self, t0: Fx, t1: Fx) -> (r: Option<AABB>)
        ensures
            r == list_box(self.objects@),
    {
        let ghost objs = self.objects@;
        if self.objects.len() == 0 {
            return None;
        }
        let (first, _) = self.objects[0];
        let mut output = first.bounding_box_always();
        let mut i: usize = 0;
        while i < self.objects.len()
            invariant
                objs == self.objects@,
                objs.len() > 0,
                i <= objs.len(),
                boxes_fold(objs, 0, hittable_box(objs[0].0)) == boxes_fold(objs, i as nat, output),
            decreases objs.len() - i,
        {
            let (object, _) = self.objects[i];
            output = AABB::surrounding_box(output, object.bounding_box_always());
            i = i + 1;
        }
        Some(output)
    }
}

/// Primitives ordered by their key on an axis.
pub open spec fn sorted_by_axis(s: Seq<HittableType>, axis: int) -> bool {
    forall|i: int, j: int|
        0 <= i <= j < s.len() ==> #[trigger] axis_key(s[i], axis) <= #[trigger] axis_key(
            s[j],
            axis,
        )
}

/// Inserting into a sequence inserts into its multiset.
proof fn lemma_seq_insert_to_multiset(s: Seq<HittableType>, j: int, x: HittableType)
    requires
        0 <= j <= s.len(),
    ensures
        s.insert(j, x).to_multiset() == s.to_multiset().insert(x),
{
    broadcast use vstd::seq_lib::group_to_multiset_ensures;
    broadcast use vstd::multiset::group_multiset_axioms;

    let left = s.subrange(0, j);
    let right = s.subrange(j, s.len() as int);
    assert(s.insert(j, x) == left.push(x) + right);
    vstd::seq_lib::lemma_multiset_commutative(left.push(x), right);
    vstd::seq_lib::lemma_multiset_commutative(left, right);
    assert(s =~= left + right);
    assert(s.insert(j, x).to_multiset() =~= s.to_multiset().insert(x));
}

/// Sort primitives by their boxes' minimal corner on the axis: a stable
/// insertion sort, keeping exactly the same primitives.
fn sort_by_axis(v: &mut Vec<HittableType>, axis: u8)
    requires
        axis < 3,
    ensures
        final(v)@.len() == old(v)@.len(),
        final(v)@.to_multiset() == old(v)@.to_multiset(),
        sorted_by_axis(final(v)@, axis as int),
{
    let ghost orig = old(v)@;
    if v.len() < 2 {
        return ;
    }
    let mut i: usize = 1;
    while i < v.len()
        invariant
            axis < 3,
            1 <= i <= v@.len(),
            v@.len() == orig.len(),
            v@.to_multiset() == orig.to_multiset(),
            sorted_by_axis(v@.subrange(0, i as int), axis as int),
        decreases v@.len() - i,
    {
        let ghost before = v@;
        let x = v.remove(i);
        let ghost removed = v@;
        proof {
            broadcast use vstd::seq_lib::group_to_multiset_ensures;
            broadcast use vstd::multiset::group_multiset_axioms;

            assert(removed.subrange(0, i as int) =~= before.subrange(0, i as int));
        }
        let kx = x.key(axis);
        let mut j: usize = 0;
        while j < i && v[j].key(axis) <= kx
            invariant
                axis < 3,
                j <= i,
                i < before.len(),
                v@ == removed,
                removed.len() == before.len() - 1,
                i <= removed.len(),
                kx == axis_key(x, axis as int),
                forall|k: int| 0 <= k < j ==> #[trigger] axis_key(removed[k], axis as int) <= kx,
            decreases i - j,
        {
            j = j + 1;
        }
        v.insert(j, x);
        proof {
            broadcast use vstd::seq_lib::group_to_multiset_ensures;
            broadcast use vstd::multiset::group_multiset_axioms;

            lemma_seq_insert_to_multiset(removed, j as int, x);
            assert(before[i as int] == x);
            assert(v@.to_multiset() == orig.to_multiset());
            // The sorted prefix grows by one: everything before the slot is
            // at most the key, everything after was sorted and above it.
            let oldp = before.subrange(0, i as int);
            let newp = v@.subrange(0, i as int + 1);
            assert(newp =~= oldp.insert(j as int, x));
            assert forall|p: int, q: int| 0 <= p <= q < newp.len() implies #[trigger] axis_key(
                newp[p],
                axis as int,
            ) <= #[trigger] axis_key(newp[q], axis as int) by {
                assert(forall|k: int|
                    0 <= k < oldp.len() ==> oldp[k] == #[trigger] removed[k]);
                if j < i {
                    assert(axis_key(removed[j as int], axis as int) > kx);
                }
                assert(forall|k: int|
                    0 <= k < j ==> #[trigger] axis_key(oldp[k], axis as int) <= kx);
                assert(forall|k: int|
                    j <= k < oldp.len() ==> #[trigger] axis_key(oldp[k], axis as int) >= axis_key(
                        oldp[j as int],
                        axis as int,
                    ));
                assert(forall|k: int| 0 <= k < j ==> newp[k] == #[trigger] oldp[k]);
                assert(newp[j as int] == x);
                assert(forall|k: int|
                    j < k < newp.len() ==> newp[k] == #[trigger] oldp[k - 1]);
            }
        }
        i = i + 1;
    }
    proof {
        assert(v@.subrange(0, i as int) =~= v@);
    }
}

/// A node of the bounding volume hierarchy: a leaf holds one primitive, a
/// branch holds two subtrees and the box around both.
#[derive(Debug)]
pub enum BVHNode {
    Branch(Box<BVHNode>, Box<BVHNode>, AABB),
    Leaf(HittableType),
}

/// The primitives a subtree holds, leaves left to right.
pub open spec fn bvh_prims(n: BVHNode) -> Seq<HittableType>
    decreases n,
{
    match n {
        BVHNode::Branch(l, r, _) => bvh_prims(*l) + bvh_prims(*r),
        BVHNode::Leaf(h) => seq![h],
    }
}

/// The box a subtree answers for: the stored one at a branch, the
/// primitive's own at a leaf.
pub open spec fn bvh_box(n: BVHNode) -> AABB
    decreases n,
{
    match n {
        BVHNode::Branch(_, _, bb) => bb,
        BVHNode::Leaf(h) => hittable_box(h),
    }
}

/// The tree's invariant: every branch stores exactly the union of its
/// children's boxes (and so contains both, by the union law).
pub open spec fn bvh_wf(n: BVHNode) -> bool
    decreases n,
{
    match n {
        BVHNode::Branch(l, r, bb) => bvh_wf(*l) && bvh_wf(*r) && bb == box_union(
            bvh_box(*l),
            bvh_box(*r),
        ),
        BVHNode::Leaf(_) => true,
    }
}

/// The builder's median splits, leaf for leaf: every branch's left
/// subtree holds exactly half, rounded down, of the branch's primitives,
/// so sibling leaf counts differ by at most one and the tree's depth is
/// logarithmic in the primitive count.
pub open spec fn bvh_balanced(n: BVHNode) -> bool
    decreases n,
{
    match n {
        BVHNode::Leaf(_) => true,
        BVHNode::Branch(l, r, _) => {
            &&& bvh_prims(*l).len() == (bvh_prims(*l).len() + bvh_prims(*r).len()) / 2
            &&& bvh_balanced(*l)
            &&& bvh_balanced(*r)
        },
    }
}

/// What a traversal answers: a branch whose box the ray misses prunes the
/// whole subtree; otherwise the left answer narrows the right query, so
/// only a strictly closer right hit can override.
pub open spec fn bvh_hit(
    n: BVHNode,
    mat: MaterialType,
    ray: Ray,
    t_min: int,
    t_max: int,
) -> Option<HitRecord>
    decreases n,
{
    match n {
        BVHNode::Leaf(h) => hittable_hit(h, mat, ray, t_min, t_max),
        BVHNode::Branch(l, r, bb) => {
            if !aabb_hit(bb, ray, t_min, t_max) {
                None
            } else {
                match bvh_hit(*l, mat, ray, t_min, t_max) {
                    None => bvh_hit(*r, mat, ray, t_min, t_max),
                    Some(left_rec) => match bvh_hit(*r, mat, ray, t_min, left_rec.t.raw as int) {
                        None => Some(left_rec),
                        Some(right_rec) => Some(right_rec),
                    },
                }
            }
        },
    }
}

/// Soundness of the traversal: whatever it answers is a genuine record of
/// one of the subtree's primitives, over some interval nested in the
/// query's, and its parameter lies strictly inside the query interval.
pub proof fn lemma_bvh_hit_sound(n: BVHNode, mat: MaterialType, ray: Ray, t_min: int, t_max: int)
    ensures
        match bvh_hit(n, mat, ray, t_min, t_max) {
            Some(h) => t_min < h.t.raw < t_max && exists|i: int, tu: int|
                0 <= i < bvh_prims(n).len() && tu <= t_max && #[trigger] hittable_hit(
                    bvh_prims(n)[i],
                    mat,
                    ray,
                    t_min,
                    tu,
                ) == Some(h),
            None => true,
        },
    decreases n,
{
    match n {
        BVHNode::Leaf(h0) => {
            if bvh_hit(n, mat, ray, t_min, t_max) is Some {
                let h = bvh_hit(n, mat, ray, t_min, t_max)->Some_0;
                assert(hittable_hit(bvh_prims(n)[0], mat, ray, t_min, t_max) == Some(h));
            }
        },
        BVHNode::Branch(l, r, bb) => {
            lemma_bvh_hit_sound(*l, mat, ray, t_min, t_max);
            lemma_bvh_hit_sound(*r, mat, ray, t_min, t_max);
            let lp = bvh_prims(*l);
            let rp = bvh_prims(*r);
            assert(forall|i: int| 0 <= i < lp.len() ==> bvh_prims(n)[i] == #[trigger] lp[i]);
            assert(forall|i: int|
                0 <= i < rp.len() ==> bvh_prims(n)[lp.len() + i] == #[trigger] rp[i]);
            if aabb_hit(bb, ray, t_min, t_max) {
                match bvh_hit(*l, mat, ray, t_min, t_max) {
                    None => {},
                    Some(left_rec) => {
                        lemma_bvh_hit_sound(*r, mat, ray, t_min, left_rec.t.raw as int);
                        match bvh_hit(*r, mat, ray, t_min, left_rec.t.raw as int) {
                            None => {},
                            Some(right_rec) => {
                                let (i, tu) = choose|i: int, tu: int|
                                    0 <= i < rp.len() && tu <= left_rec.t.raw as int
                                        && #[trigger] hittable_hit(rp[i], mat, ray, t_min, tu)
                                        == Some(right_rec);
                                assert(hittable_hit(
                                    bvh_prims(n)[lp.len() + i],
                                    mat,
                                    ray,
                                    t_min,
                                    tu,
                                ) == Some(right_rec));
                            },
                        }
                    },
                }
            }
        },
    }
}

/// One box sits within another, axis by axis.
pub open spec fn box_within(inner: AABB, outer: AABB) -> bool {
    forall|a: int|
        #![trigger comp_raw(inner.min, a)]
        #![trigger comp_raw(inner.max, a)]
        0 <= a < 3 ==> comp_raw(outer.min, a) <= comp_raw(inner.min, a) && comp_raw(inner.max, a)
            <= comp_raw(outer.max, a)
}

/// A well-formed hierarchy's box covers the box of every primitive in it:
/// the branch invariant carries from the leaves to the root.
pub proof fn lemma_bvh_box_covers(n: BVHNode)
    requires
        bvh_wf(n),
    ensures
        forall|i: int|
            0 <= i < bvh_prims(n).len() ==> box_within(
                hittable_box(#[trigger] bvh_prims(n)[i]),
                bvh_box(n),
            ),
    decreases n,
{
    match n {
        BVHNode::Leaf(_) => {},
        BVHNode::Branch(l, r, bb) => {
            lemma_bvh_box_covers(*l);
            lemma_bvh_box_covers(*r);
            let lp = bvh_prims(*l);
            let rp = bvh_prims(*r);
            assert(forall|i: int| 0 <= i < lp.len() ==> bvh_prims(n)[i] == #[trigger] lp[i]);
            assert(forall|i: int|
                0 <= i < rp.len() ==> bvh_prims(n)[lp.len() + i] == #[trigger] rp[i]);
            assert(box_within(bvh_box(*l), bb));
            assert(box_within(bvh_box(*r), bb));
            assert forall|i: int| 0 <= i < bvh_prims(n).len() implies box_within(
                hittable_box(#[trigger] bvh_prims(n)[i]),
                bvh_box(n),
            ) by {
                if i < lp.len() {
                    assert(box_within(hittable_box(lp[i]), bvh_box(*l)));
                    lemma_box_within_trans(hittable_box(lp[i]), bvh_box(*l), bb);
                } else {
                    assert(bvh_prims(n)[i] == rp[i - lp.len()]);
                    assert(box_within(hittable_box(rp[i - lp.len()]), bvh_box(*r)));
                    lemma_box_within_trans(hittable_box(rp[i - lp.len()]), bvh_box(*r), bb);
                }
            }
        },
    }
}

/// Sitting within a box is transitive.
proof fn lemma_box_within_trans(a: AABB, b: AABB, c: AABB)
    requires
        box_within(a, b),
        box_within(b, c),
    ensures
        box_within(a, c),
{
    assert forall|ax: int|
        0 <= ax < 3 implies comp_raw(c.min, ax) <= #[trigger] comp_raw(a.min, ax) && #[trigger]
        comp_raw(a.max, ax) <= comp_raw(c.max, ax) by {
        assert(comp_raw(b.min, ax) <= comp_raw(a.min, ax));
        assert(comp_raw(a.max, ax) <= comp_raw(b.max, ax));
    }
}

/// A branch's stored box contains both children's boxes, corner to
/// corner, whenever the children's boxes are well formed.
pub proof fn lemma_bvh_branch_contains(l: BVHNode, r: BVHNode, bb: AABB)
    requires
        bvh_wf(BVHNode::Branch(Box::new(l), Box::new(r), bb)),
        aabb_wf(bvh_box(l)),
        aabb_wf(bvh_box(r)),
    ensures
        forall|p: Vec3| contains_point(bvh_box(l), p) ==> contains_point(bb, p),
        forall|p: Vec3| contains_point(bvh_box(r), p) ==> contains_point(bb, p),
{
    crate::aabb::lemma_union_contains(bvh_box(l), bvh_box(r));
}

impl BVHNode {
    /// The box around the subtree.
    pub fn bounding_box(&self, t0: Fx, t1: Fx) -> (r: Option<AABB>)
        ensures
            r == Some(bvh_box(*self)),
    {
        Some(self.bounding_box_node())
    }

    /// The box around the subtree, without the optional wrapping.
    fn bounding_box_node(&self) -> (r: AABB)
        ensures
            r == bvh_box(*self),
    {
        match self {
            BVHNode::Branch(_, _, bb) => *bb,
            BVHNode::Leaf(h) => h.bounding_box_always(),
        }
    }

    /// Traverse the subtree for the nearest hit the boxes admit.
    pub fn hit(&self, mat: MaterialType, ray: &Ray, t_min: Fx, t_max: Fx) -> (r: Option<HitRecord>)
        ensures
            r == bvh_hit(*self, mat, *ray, t_min.raw as int, t_max.raw as int),
        decreases *self,
    {
        match self {
            BVHNode::Branch(left, right, bb) => {
                if !bb.hit(*ray, t_min, t_max) {
                    return None;
                }
                match left.hit(mat, ray, t_min, t_max) {
                    None => right.hit(mat, ray, t_min, t_max),
                    Some(left_rec) => {
                        match right.hit(mat, ray, t_min, left_rec.t) {
                            None => Some(left_rec),
                            // The right record wins: it is strictly closer.
                            Some(right_rec) => Some(right_rec),
                        }
                    },
                }
            },
            BVHNode::Leaf(h) => h.hit(mat, ray, t_min, t_max),
        }
    }

    /// Build a subtree over the given primitives: sort them by a fresh
    /// random axis, split at the middle, and wrap the halves under the
    /// union of their boxes.
    fn build(rng: &mut rand::rngs::ThreadRng, list: Vec<HittableType>) -> (r: BVHNode)
        requires
            list@.len() >= 1,
        ensures
            bvh_wf(r),
            bvh_balanced(r),
            bvh_prims(r).to_multiset() == list@.to_multiset(),
            bvh_prims(r).len() == list@.len(),
        decreases list@.len(),
    {
        let axis = rand_below(rng, 3) as u8;
        let mut list = list;
        if list.len() == 1 {
            let h = list[0];
            proof {
                broadcast use vstd::seq_lib::group_to_multiset_ensures;
                broadcast use vstd::multiset::group_multiset_axioms;

                assert(seq![h] =~= Seq::<HittableType>::empty().push(h));
                assert(list@ =~= Seq::<HittableType>::empty().push(h));
            }
            BVHNode::Leaf(h)
        } else {
            sort_by_axis(&mut list, axis);
            let ghost sorted = list@;
            let midpoint = list.len() / 2;
            let right_list = list.split_off(midpoint);
            proof {
                vstd::seq_lib::lemma_multiset_commutative(list@, right_list@);
                assert(sorted =~= list@ + right_list@);
            }
            let left = BVHNode::build(rng, list);
            let right = BVHNode::build(rng, right_list);
            proof {
                broadcast use vstd::seq_lib::group_to_multiset_ensures;
            }
            let l_bb = left.bounding_box_node();
            let r_bb = right.bounding_box_node();
            let bb = AABB::surrounding_box(l_bb, r_bb);
            proof {
                vstd::seq_lib::lemma_multiset_commutative(bvh_prims(left), bvh_prims(right));
            }
            BVHNode::Branch(Box::new(left), Box::new(right), bb)
        }
    }

    /// Build the hierarchy over a scene's primitives. The scene itself is
    /// left as it stands; the tree holds exactly its primitives and its
    /// every branch box is the union of the children's.
    pub fn make(list: &mut Vec<HittableType>, start: usize, end: usize, time0: Fx, time1: Fx) -> (r:
        BVHNode)
        requires
            old(list)@.len() >= 1,
        ensures
            final(list)@ == old(list)@,
            bvh_wf(r),
            bvh_balanced(r),
            bvh_prims(r).to_multiset() == old(list)@.to_multiset(),
            bvh_prims(r).len() == old(list)@.len(),
    {
        let mut rng = crate::rng::fresh_rng();
        let mut owned: Vec<HittableType> = Vec::new();
        let mut i: usize = 0;
        while i < list.len()
            invariant
                list@ == old(list)@,
                i <= list@.len(),
                owned@ == list@.subrange(0, i as int),
            decreases list@.len() - i,
        {
            owned.push(list[i]);
            i = i + 1;
        }
        proof {
            assert(owned@ =~= list@);
        }
        BVHNode::build(&mut rng, owned)
    }
}

} // verus!
