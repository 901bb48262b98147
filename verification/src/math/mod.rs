//! Generic geometry: vectors, rectangles, rays, circles and angles.

pub mod angles;
pub mod circle;
pub mod order;
pub mod ray2;
pub mod rect;
pub mod vec2;
