//! Streaming terrain engine: elevation tiles normalized to a fixed-point
//! unit scale, a moving window over a mosaic of tiles with seamless
//! boundary crossing, a water-level-aware color ramp, and a level-of-detail
//! vertex/index mesh builder.
//!
//! All elevations and color channels are fixed-point integers: the value
//! `UNIT` stands for 1.0.

use vstd::prelude::*;

pub mod colormap;
pub mod tile;
pub mod window;
pub mod mesh;

verus! {

/// Fixed-point scale: `UNIT` represents the real value 1.0.
pub const UNIT: i32 = 1_000_000;

/// Amount subtracted from the water level when flattening submerged
/// samples (0.01 in real terms).
pub const WATER_DROP: i32 = 10_000;

/// Side length of one elevation tile, in samples.
pub const TILE_SIDE: usize = 3600;

} // verus!
