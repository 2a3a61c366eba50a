//! A small ray tracer: one sphere, one point light, Phong shading and a
//! plain-text pixel map, computed in saturating fixed-point arithmetic.
pub mod fixed;
pub mod decimal;
pub mod colour;
pub mod vector;
pub mod ray;
pub mod scene_object;
pub mod sphere;
pub mod light;
pub mod canvas;
pub mod render;
pub mod vec4;
