//! A Monte Carlo path tracer over exact fixed-point arithmetic.
//!
//! Scene geometry (spheres), bounding boxes, a bounding-volume hierarchy,
//! materials, the camera model and the light-transport integrator are all
//! implemented over a binary fixed-point scalar, so every numeric step has
//! an exact integer meaning that the contracts state and the verifier checks.
#![allow(unused_imports)]

use vstd::prelude::*;

pub mod aabb;
pub mod camera;
pub mod color;
pub mod fx;
pub mod hittable;
pub mod materials;
pub mod pixmap;
pub mod ray;
pub mod render;
pub mod rng;
pub mod scenes;
pub mod solids;
pub mod texture;
pub mod vec;

