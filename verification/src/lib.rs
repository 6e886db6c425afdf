//! A planar point-set tessellation engine driving a decorative animation:
//! seeds placed on a golden-angle spiral, a Bowyer-Watson Delaunay
//! triangulation exposed as a deduplicated edge set, a seeded simplex noise
//! field perturbing the seeds over time, and a distance-to-color gradient.
//!
//! All geometry is carried in fixed-point integers: canvas coordinates in
//! subpixel units (16 units per pixel), noise-domain values scaled by 4096,
//! and color ratios in thousandths. The host (which owns the drawing surface)
//! converts at the boundary.

pub mod color;
pub mod delaunay;
pub mod engine;
pub mod noise;
pub mod seeds;
