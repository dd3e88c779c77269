//! The thin-lens camera: a field of view and an orthonormal basis turned
//! into a viewport anchored at the focus plane, and a per-sample ray
//! generator that jitters the origin across the lens disk. The tangent of
//! the half field of view is computed by truncated sine and cosine
//! series, stated exactly in fixed point.

use vstd::prelude::*;

use crate::fx::{add_raw, div_raw, iabs, mul_raw, sub_raw, Fx, SCALE};
use crate::pixmap::PixMap;
use crate::ray::Ray;
use crate::vec::{
    lemma_scale_zero, v3_add, v3_cross, v3_div_s, v3_dot, v3_len, v3_neg, v3_scale, v3_sub,
    v3_unit, Vec3,
};

verus! {

/// The fixed-point rendering of one degree in radians.
pub const RAD_PER_DEG: i64 = 1144;

/// The truncated sine series `x - x^3/6 + x^5/120 - x^7/5040`, associated
/// as the executable chain computes it.
pub open spec fn sin_series(x: int) -> int {
    let x2 = mul_raw(x, x);
    let x3 = mul_raw(x2, x);
    let x5 = mul_raw(x3, x2);
    let x7 = mul_raw(x5, x2);
    sub_raw(
        add_raw(sub_raw(x, div_raw(x3, 6 * (SCALE as int))), div_raw(x5, 120 * (SCALE as int))),
        div_raw(x7, 5040 * (SCALE as int)),
    )
}

/// The truncated cosine series `1 - x^2/2 + x^4/24 - x^6/720`.
pub open spec fn cos_series(x: int) -> int {
    let x2 = mul_raw(x, x);
    let x4 = mul_raw(x2, x2);
    let x6 = mul_raw(x4, x2);
    sub_raw(
        add_raw(
            sub_raw(SCALE as int, div_raw(x2, 2 * (SCALE as int))),
            div_raw(x4, 24 * (SCALE as int)),
        ),
        div_raw(x6, 720 * (SCALE as int)),
    )
}

/// The tangent through the two series.
pub open spec fn tan_series(x: int) -> int {
    div_raw(sin_series(x), cos_series(x))
}

/// What the camera asks of a scene: vertical field of view in degrees,
/// the image's aspect ratio, the lens aperture, the focus distance, and
/// the viewing frame.
#[derive(Clone, Copy, Debug)]
pub struct CameraOptions {
    pub fov: Fx,
    pub aspect: Fx,
    pub aperture: Fx,
    pub focus_dist: Fx,
    pub look_at: Vec3,
    pub look_from: Vec3,
    pub vup: Vec3,
}

/// The derived camera: the viewport corner and spans, the orthonormal
/// basis, and the lens radius, all precomputed once.
#[derive(Clone, Copy, Debug)]
pub struct Camera {
    pub origin: Vec3,
    pub lower_left_corner: Vec3,
    pub horizontal: Vec3,
    pub vertical: Vec3,
    pub u: Vec3,
    pub v: Vec3,
    pub w: Vec3,
    pub lens_radius: Fx,
}

/// The camera a set of options derives: the half extents scale with the
/// focus distance, so defocus blur stays anchored to the focal plane.
pub open spec fn camera_of(opts: CameraOptions) -> Camera {
    let theta = mul_raw(opts.fov.raw as int, RAD_PER_DEG as int);
    let half_theta = mul_raw(theta, 32768);
    let half_height = Fx { raw: tan_series(half_theta) as i64 };
    let half_width = Fx { raw: mul_raw(opts.aspect.raw as int, half_height.raw as int) as i64 };
    let w = v3_unit(v3_sub(opts.look_from, opts.look_at));
    let u = v3_unit(v3_cross(opts.vup, w));
    let v = v3_cross(w, u);
    let hwf = Fx { raw: mul_raw(half_width.raw as int, opts.focus_dist.raw as int) as i64 };
    let hhf = Fx { raw: mul_raw(half_height.raw as int, opts.focus_dist.raw as int) as i64 };
    Camera {
        origin: opts.look_from,
        lower_left_corner: v3_sub(
            v3_sub(v3_sub(opts.look_from, v3_scale(u, hwf)), v3_scale(v, hhf)),
            v3_scale(w, opts.focus_dist),
        ),
        horizontal: v3_scale(u, Fx { raw: add_raw(hwf.raw as int, hwf.raw as int) as i64 }),
        vertical: v3_scale(v, Fx { raw: add_raw(hhf.raw as int, hhf.raw as int) as i64 }),
        u,
        v,
        w,
        lens_radius: Fx { raw: mul_raw(opts.aperture.raw as int, 32768) as i64 },
    }
}

/// The ray a camera casts toward normalized image coordinates `(s, t)`,
/// its origin shifted by the lens offset of the disk point `d`.
pub open spec fn cam_ray(cam: Camera, s: Fx, t: Fx, d: Vec3) -> Ray {
    let rd = v3_scale(d, cam.lens_radius);
    let offset = v3_add(v3_scale(cam.u, rd.x), v3_scale(cam.v, rd.y));
    Ray {
        origin: v3_add(cam.origin, offset),
        vec: v3_sub(
            v3_sub(
                v3_add(v3_add(cam.lower_left_corner, v3_scale(cam.horizontal, s)), v3_scale(
                    cam.vertical,
                    t,
                )),
                cam.origin,
            ),
            offset,
        ),
    }
}

/// A point of the closed unit disk in the first two coordinates.
pub open spec fn disk_point(d: Vec3) -> bool {
    &&& iabs(d.x.raw as int) <= SCALE
    &&& iabs(d.y.raw as int) <= SCALE
    &&& d.z.raw == 0
    &&& v3_dot(d, d) <= SCALE
}

impl Camera {
    /// Derive the camera from its options.
    pub fn new(opts: CameraOptions) -> (r: Camera)
        ensures
            r == camera_of(opts),
    {
        let theta = opts.fov.mul(Fx { raw: RAD_PER_DEG });
        let half_theta = theta.mul(Fx { raw: 32768 });
        let half_height = Camera::tan(half_theta);
        let half_width = opts.aspect.mul(half_height);

        let w = opts.look_from.sub(opts.look_at).to_unit();
        let u = Vec3::cross(opts.vup, w).to_unit();
        let v = Vec3::cross(w, u);

        let hwf = half_width.mul(opts.focus_dist);
        let hhf = half_height.mul(opts.focus_dist);

        Camera {
            origin: opts.look_from,
            lower_left_corner: opts.look_from.sub(u.scale(hwf)).sub(v.scale(hhf)).sub(
                w.scale(opts.focus_dist),
            ),
            horizontal: u.scale(hwf.add(hwf)),
            vertical: v.scale(hhf.add(hhf)),
            u,
            v,
            w,
            lens_radius: opts.aperture.mul(Fx { raw: 32768 }),
        }
    }

    /// The tangent by its truncated series.
    fn tan(x: Fx) -> (r: Fx)
        ensures
            r.raw == tan_series(x.raw as int),
    {
        let x2 = x.mul(x);
        let x3 = x2.mul(x);
        let x5 = x3.mul(x2);
        let x7 = x5.mul(x2);
        let s = x.sub(x3.div(Fx { raw: 6 * SCALE })).add(x5.div(Fx { raw: 120 * SCALE })).sub(
            x7.div(Fx { raw: 5040 * SCALE }),
        );
        let x4 = x2.mul(x2);
        let x6 = x4.mul(x2);
        let c = Fx { raw: SCALE }.sub(x2.div(Fx { raw: 2 * SCALE })).add(
            x4.div(Fx { raw: 24 * SCALE }),
        ).sub(x6.div(Fx { raw: 720 * SCALE }));
        s.div(c)
    }

    /// Cast the ray for normalized image coordinates `(s, t)`, the origin
    /// jittered across the lens disk.
    pub fn get_ray(&self, s: Fx, t: Fx, rng: &mut rand::rngs::ThreadRng) -> (r: Ray)
        ensures
            exists|d: Vec3| #[trigger] disk_point(d) && r == cam_ray(*self, s, t, d),
            self.lens_radius.raw == 0 ==> r == cam_ray(
                *self,
                s,
                t,
                Vec3 { x: Fx { raw: 0 }, y: Fx { raw: 0 }, z: Fx { raw: 0 } },
            ),
    {
        let d = Vec3::random_in_unit_disk(rng);
        let rd = d.scale(self.lens_radius);
        let offset = self.u.scale(rd.x()).add(self.v.scale(rd.y()));

        let r = Ray::new(
            self.origin.add(offset),
            self.lower_left_corner.add(self.horizontal.scale(s)).add(self.vertical.scale(t)).sub(
                self.origin,
            ).sub(offset),
        );
        proof {
            assert(disk_point(d) && r == cam_ray(*self, s, t, d));
            if self.lens_radius.raw == 0 {
                // A closed lens leaves no jitter: every disk point scales
                // to the zero offset.
                lemma_scale_zero(d);
                let z = Vec3 { x: Fx { raw: 0 }, y: Fx { raw: 0 }, z: Fx { raw: 0 } };
                lemma_scale_zero(z);
                assert(v3_scale(d, Fx { raw: 0 }) == v3_scale(z, Fx { raw: 0 }));
            }
        }
        r
    }
}

impl CameraOptions {
    /// A head-on frame with a wide field of view.
    pub fn default(pm: &PixMap) -> (r: CameraOptions)
        ensures
            r == default_options(*pm),
    {
        let look_at = Vec3::new(Fx::zero(), Fx::zero(), Fx::from_int(-1));
        let look_from = Vec3::new(Fx::zero(), Fx::zero(), Fx::zero());

        CameraOptions {
            fov: Fx::from_int(90),
            aspect: pm.aspect(),
            aperture: Fx::zero(),
            focus_dist: look_from.sub(look_at).length(),
            look_at,
            look_from,
            vup: Vec3::new(Fx::zero(), Fx::zero(), Fx::zero()),
        }
    }

    /// A frame looking down from above.
    pub fn cool1(pm: &PixMap) -> (r: CameraOptions)
        ensures
            r == cool1_options(*pm),
    {
        let look_at = Vec3::new(Fx::from_ratio(1, 2), Fx::from_ratio(-1, 2), Fx::from_int(-1));
        let look_from = Vec3::new(Fx::zero(), Fx::from_int(1), Fx::zero());

        CameraOptions {
            fov: Fx::from_int(30),
            aspect: pm.aspect(),
            aperture: Fx::zero(),
            focus_dist: look_from.sub(look_at).length(),
            look_at,
            look_from,
            vup: Vec3::new(Fx::zero(), Fx::from_int(1), Fx::zero()),
        }
    }

    /// A frame looking in from the side.
    pub fn cool2(pm: &PixMap) -> (r: CameraOptions)
        ensures
            r == cool2_options(*pm),
    {
        let look_at = Vec3::new(Fx::zero(), Fx::zero(), Fx::from_int(-1));
        let look_from = Vec3::new(Fx::from_int(-2), Fx::from_int(1), Fx::from_ratio(-1, 5));

        CameraOptions {
            fov: Fx::from_int(25),
            aspect: pm.aspect(),
            aperture: Fx::zero(),
            focus_dist: look_from.sub(look_at).length(),
            look_at,
            look_from,
            vup: Vec3::new(Fx::zero(), Fx::from_int(1), Fx::zero()),
        }
    }
}

/// The head-on preset's exact options.
pub open spec fn default_options(pm: PixMap) -> CameraOptions {
    let look_at = Vec3 { x: Fx { raw: 0 }, y: Fx { raw: 0 }, z: Fx { raw: -65536i64 } };
    let look_from = Vec3 { x: Fx { raw: 0 }, y: Fx { raw: 0 }, z: Fx { raw: 0 } };
    CameraOptions {
        fov: Fx { raw: 5898240 },
        aspect: Fx { raw: div_raw(pm.width as int, pm.height as int) as i64 },
        aperture: Fx { raw: 0 },
        focus_dist: Fx { raw: v3_len(v3_sub(look_from, look_at)) as i64 },
        look_at,
        look_from,
        vup: Vec3 { x: Fx { raw: 0 }, y: Fx { raw: 0 }, z: Fx { raw: 0 } },
    }
}

/// The overhead preset's exact options.
pub open spec fn cool1_options(pm: PixMap) -> CameraOptions {
    let look_at = Vec3 { x: Fx { raw: 32768 }, y: Fx { raw: -32768i64 }, z: Fx { raw: -65536i64 } };
    let look_from = Vec3 { x: Fx { raw: 0 }, y: Fx { raw: SCALE }, z: Fx { raw: 0 } };
    CameraOptions {
        fov: Fx { raw: 1966080 },
        aspect: Fx { raw: div_raw(pm.width as int, pm.height as int) as i64 },
        aperture: Fx { raw: 0 },
        focus_dist: Fx { raw: v3_len(v3_sub(look_from, look_at)) as i64 },
        look_at,
        look_from,
        vup: Vec3 { x: Fx { raw: 0 }, y: Fx { raw: SCALE }, z: Fx { raw: 0 } },
    }
}

/// The side preset's exact options.
pub open spec fn cool2_options(pm: PixMap) -> CameraOptions {
    let look_at = Vec3 { x: Fx { raw: 0 }, y: Fx { raw: 0 }, z: Fx { raw: -65536i64 } };
    let look_from = Vec3 {
        x: Fx { raw: -131072i64 },
        y: Fx { raw: SCALE },
        z: Fx { raw: div_raw(-1, 5) as i64 },
    };
    CameraOptions {
        fov: Fx { raw: 1638400 },
        aspect: Fx { raw: div_raw(pm.width as int, pm.height as int) as i64 },
        aperture: Fx { raw: 0 },
        focus_dist: Fx { raw: v3_len(v3_sub(look_from, look_at)) as i64 },
        look_at,
        look_from,
        vup: Vec3 { x: Fx { raw: 0 }, y: Fx { raw: SCALE }, z: Fx { raw: 0 } },
    }
}

} // verus!
