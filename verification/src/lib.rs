//! A ray tracer: shapes, materials, lights and a recursive shading
//! pipeline, computed over a fixed-point scalar type so that every
//! arithmetic step has an exact, machine-checked meaning.

pub mod camera;
pub mod color;
pub mod fixed;
pub mod light;
pub mod linalg;
pub mod material;
pub mod patterns;
pub mod ray;
pub mod scene;
pub mod shapes;
pub mod trig;
pub mod utils;
pub mod world;

pub use fixed::Fx;
