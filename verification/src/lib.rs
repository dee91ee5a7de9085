//! A software path tracer whose numeric core runs on exact Q47.16
//! fixed-point arithmetic, so that the geometry, the scattering rules, the
//! integrator and the image assembly all carry machine-checked contracts.
//! Randomness comes from an explicitly seeded generator threaded through
//! every sampling routine, which keeps renders reproducible per seed.

pub mod camera;
pub mod fixed;
pub mod hittable;
pub mod materials;
pub mod ppm;
pub mod ray;
pub mod render;
pub mod rng;
pub mod vec3;

pub use crate::camera::Camera;
pub use crate::fixed::clamp;
pub use crate::fixed::Fx;
pub use crate::hittable::degrees_to_radians;
pub use crate::hittable::HitRecord;
pub use crate::hittable::HittableList;
pub use crate::materials::Dielectric;
pub use crate::materials::Lambertian;
pub use crate::materials::Material;
pub use crate::materials::Metal;
pub use crate::ray::Ray;
pub use crate::render::random_scene;
pub use crate::render::render;
pub use crate::render::sample_pixel;
pub use crate::rng::rand_fx;
pub use crate::rng::rand_fx_in_range;
pub use crate::vec3::Color;
pub use crate::vec3::Point3;
pub use crate::vec3::Vec3;
