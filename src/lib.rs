//! A ray tracer whose geometry and shading are verified: shapes in an arena
//! with group hierarchies, ray-sphere intersection, a world that shades hits
//! with Phong lighting, shadows, reflection and refraction, and a camera that
//! renders row by row. All arithmetic is fixed point (see `fixed`).
pub mod fixed;
pub mod tuple;
pub mod matrix;
pub mod pattern;
pub mod material;
pub mod ray;
pub mod shape;
pub mod state;
pub mod world;
pub mod camera;
pub mod chapter07;
pub mod chapter15;
pub mod chapter06;
