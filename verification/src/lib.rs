//! A stochastic path tracer over a fixed-point scalar field.
//!
//! Every real quantity is carried as an `i64` holding `value * SCALE`
//! (see `fixed`).  Arithmetic saturates at the `i64` range, the
//! fixed-point analogue of the infinities that unguarded floating-point
//! code lets propagate.  Rays are traced against a flat list of spheres,
//! scattered by diffuse, metallic or dielectric materials, and the
//! accumulated radiance is written out as a plain-text RGB raster.

pub mod camera;
pub mod color;
pub mod fixed;
pub mod hittable;
pub mod hittable_list;
pub mod interval;
pub mod material;
pub mod ray;
pub mod rng;
pub mod rtweekend;
pub mod vec3;

pub use camera::Camera;
pub use color::{Color, linear_to_gamma, write_color};
pub use fixed::SCALE;
pub use hittable::{HitRecord, Sphere};
pub use hittable_list::HittableList;
pub use interval::Interval;
pub use material::{Dielectric, Lambertian, Material, Metal, NullMaterial};
pub use ray::Ray;
pub use rng::Rng;
pub use rtweekend::degrees_to_radians;
pub use vec3::{Point3, Vec3};
