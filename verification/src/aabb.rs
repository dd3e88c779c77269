//! Axis-aligned bounding boxes: the slab intersection test and the union
//! of two boxes, with the law that a union contains both operands.

use vstd::prelude::*;

use crate::fx::{div_raw, sub_raw, Fx};
use crate::ray::Ray;
use crate::vec::Vec3;

verus! {

/// A box spanned by a componentwise-minimal and -maximal corner.
#[derive(Clone, Copy, Debug, PartialEq, Eq, Structural)]
pub struct AABB {
    pub min: Vec3,
    pub max: Vec3,
}

/// The raw component of a vector on the given axis.
pub open spec fn comp_raw(v: Vec3, a: int) -> int {
    if a == 0 {
        v.x.raw as int
    } else if a == 1 {
        v.y.raw as int
    } else {
        v.z.raw as int
    }
}

/// A box is well formed when its corners are ordered on every axis.
pub open spec fn aabb_wf(bx: AABB) -> bool {
    forall|a: int| 0 <= a < 3 ==> #[trigger] comp_raw(bx.min, a) <= comp_raw(bx.max, a)
}

/// A point lies inside a box when every component is between the corners.
pub open spec fn contains_point(bx: AABB, p: Vec3) -> bool {
    forall|a: int| 0 <= a < 3 ==> comp_raw(bx.min, a) <= #[trigger] comp_raw(p, a) <= comp_raw(bx.max, a)
}

/// One of the eight corners of a box, picked axis by axis.
pub open spec fn corner(bx: AABB, cx: bool, cy: bool, cz: bool) -> Vec3 {
    Vec3 {
        x: if cx { bx.max.x } else { bx.min.x },
        y: if cy { bx.max.y } else { bx.min.y },
        z: if cz { bx.max.z } else { bx.min.z },
    }
}

/// The componentwise union of two boxes.
pub open spec fn box_union(a: AABB, b: AABB) -> AABB {
    AABB {
        min: Vec3 {
            x: if a.min.x.raw <= b.min.x.raw { a.min.x } else { b.min.x },
            y: if a.min.y.raw <= b.min.y.raw { a.min.y } else { b.min.y },
            z: if a.min.z.raw <= b.min.z.raw { a.min.z } else { b.min.z },
        },
        max: Vec3 {
            x: if a.max.x.raw >= b.max.x.raw { a.max.x } else { b.max.x },
            y: if a.max.y.raw >= b.max.y.raw { a.max.y } else { b.max.y },
            z: if a.max.z.raw >= b.max.z.raw { a.max.z } else { b.max.z },
        },
    }
}

/// The slab entry parameter on one axis: the smaller of the two plane hits
/// (a zero direction component saturates to the rails, like an infinity).
pub open spec fn slab_lo(bx: AABB, r: Ray, a: int) -> int {
    let t0 = div_raw(sub_raw(comp_raw(bx.min, a), comp_raw(r.origin, a)), comp_raw(r.vec, a));
    let t1 = div_raw(sub_raw(comp_raw(bx.max, a), comp_raw(r.origin, a)), comp_raw(r.vec, a));
    if t0 <= t1 {
        t0
    } else {
        t1
    }
}

/// The slab exit parameter on one axis: the larger of the two plane hits.
pub open spec fn slab_hi(bx: AABB, r: Ray, a: int) -> int {
    let t0 = div_raw(sub_raw(comp_raw(bx.min, a), comp_raw(r.origin, a)), comp_raw(r.vec, a));
    let t1 = div_raw(sub_raw(comp_raw(bx.max, a), comp_raw(r.origin, a)), comp_raw(r.vec, a));
    if t0 >= t1 {
        t0
    } else {
        t1
    }
}

/// The query interval narrowed by one axis' slab: the later axes see the
/// interval the earlier axes left.
pub open spec fn slab_narrow(bx: AABB, r: Ray, t_min: int, t_max: int, a: int) -> (int, int) {
    let lo = if slab_lo(bx, r, a) >= t_min {
        slab_lo(bx, r, a)
    } else {
        t_min
    };
    let hi = if slab_hi(bx, r, a) <= t_max {
        slab_hi(bx, r, a)
    } else {
        t_max
    };
    (lo, hi)
}

/// The running interval, narrowed axis by axis from `a` on, survives
/// strictly nonempty: the test fails the moment the interval empties.
pub open spec fn aabb_hit_from(bx: AABB, r: Ray, t_min: int, t_max: int, a: int) -> bool
    decreases 3 - a,
{
    if a >= 3 {
        true
    } else {
        let (lo, hi) = slab_narrow(bx, r, t_min, t_max, a);
        if hi <= lo {
            false
        } else {
            aabb_hit_from(bx, r, lo, hi, a + 1)
        }
    }
}

/// The ray's parameter interval meets the box: the interval that survives
/// one axis is what the next axis narrows.
pub open spec fn aabb_hit(bx: AABB, r: Ray, t_min: int, t_max: int) -> bool {
    aabb_hit_from(bx, r, t_min, t_max, 0)
}

impl AABB {
    /// Build a box from its two corners.
    pub fn new(min: Vec3, max: Vec3) -> (r: AABB)
        ensures
            r == (AABB { min, max }),
    {
        AABB { min, max }
    }

    /// The minimal corner.
    pub fn min(&self) -> (r: Vec3)
        ensures
            r == self.min,
    {
        self.min
    }

    /// The maximal corner.
    pub fn max(&self) -> (r: Vec3)
        ensures
            r == self.max,
    {
        self.max
    }

    /// The slab test: narrow the running interval on each axis in turn,
    /// and fail the moment it empties.
    pub fn hit(&self, r: Ray, t_min: Fx, t_max: Fx) -> (res: bool)
        ensures
            res == aabb_hit(*self, r, t_min.raw as int, t_max.raw as int),
    {
        let mut lo = t_min;
        let mut hi = t_max;
        let mut a: u8 = 0;
        while a < 3
            invariant
                a <= 3,
                aabb_hit(*self, r, t_min.raw as int, t_max.raw as int) == aabb_hit_from(
                    *self,
                    r,
                    lo.raw as int,
                    hi.raw as int,
                    a as int,
                ),
            decreases 3 - a,
        {
            let o = r.origin().comp(a);
            let d = r.direction().comp(a);
            let t0 = self.min.comp(a).sub(o).div(d);
            let t1 = self.max.comp(a).sub(o).div(d);
            lo = t0.min(t1).max(lo);
            hi = t0.max(t1).min(hi);
            if hi.raw <= lo.raw {
                return false;
            }
            a = a + 1;
        }
        true
    }

    /// The union of two boxes: the componentwise hull.
    pub fn surrounding_box(box0: AABB, box1: AABB) -> (r: AABB)
        ensures
            r == box_union(box0, box1),
    {
        let small = Vec3 {
            x: box0.min.x.min(box1.min.x),
            y: box0.min.y.min(box1.min.y),
            z: box0.min.z.min(box1.min.z),
        };
        let big = Vec3 {
            x: box0.max.x.max(box1.max.x),
            y: box0.max.y.max(box1.max.y),
            z: box0.max.z.max(box1.max.z),
        };
        AABB { min: small, max: big }
    }
}

/// The union of two well-formed boxes is well formed and contains every
/// point of either operand; in particular it contains all eight corners
/// of each.
pub proof fn lemma_union_contains(a: AABB, b: AABB)
    requires
        aabb_wf(a),
        aabb_wf(b),
    ensures
        aabb_wf(box_union(a, b)),
        forall|p: Vec3| contains_point(a, p) ==> contains_point(box_union(a, b), p),
        forall|p: Vec3| contains_point(b, p) ==> contains_point(box_union(a, b), p),
        forall|cx: bool, cy: bool, cz: bool| contains_point(box_union(a, b), corner(a, cx, cy, cz)),
        forall|cx: bool, cy: bool, cz: bool| contains_point(box_union(a, b), corner(b, cx, cy, cz)),
{
    let u = box_union(a, b);
    assert forall|ax: int| 0 <= ax < 3 implies #[trigger] comp_raw(u.min, ax) <= comp_raw(
        u.max,
        ax,
    ) by {
        assert(comp_raw(a.min, ax) <= comp_raw(a.max, ax));
        assert(comp_raw(b.min, ax) <= comp_raw(b.max, ax));
    }
    assert forall|p: Vec3| contains_point(a, p) implies contains_point(u, p) by {
        assert(forall|ax: int| 0 <= ax < 3 ==> comp_raw(u.min, ax) <= #[trigger] comp_raw(a.min, ax));
        assert(forall|ax: int| 0 <= ax < 3 ==> #[trigger] comp_raw(a.max, ax) <= comp_raw(u.max, ax));
    }
    assert forall|p: Vec3| contains_point(b, p) implies contains_point(u, p) by {
        assert(forall|ax: int| 0 <= ax < 3 ==> comp_raw(u.min, ax) <= #[trigger] comp_raw(b.min, ax));
        assert(forall|ax: int| 0 <= ax < 3 ==> #[trigger] comp_raw(b.max, ax) <= comp_raw(u.max, ax));
    }
    assert forall|cx: bool, cy: bool, cz: bool| contains_point(u, corner(a, cx, cy, cz)) by {
        assert(contains_point(a, corner(a, cx, cy, cz)));
    }
    assert forall|cx: bool, cy: bool, cz: bool| contains_point(u, corner(b, cx, cy, cz)) by {
        assert(contains_point(b, corner(b, cx, cy, cz)));
    }
}

} // verus!
