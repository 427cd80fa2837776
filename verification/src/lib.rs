//! A first-person grid renderer: rays are marched through a tile map with a
//! DDA traversal, and each screen column is rasterized into an RGBA pixel
//! buffer from the distance and material of the first wall the ray hits.
//!
//! All continuous quantities (positions, directions, distances) are carried
//! in Q16.16 fixed-point integers, so the whole rendering core is exact
//! integer arithmetic.

pub mod fx;
pub mod tilemap;
pub mod camera;
pub mod raycast;
pub mod column;
pub mod framebuffer;
