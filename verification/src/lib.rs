//! Approximates a raster image by greedily composing semi-transparent
//! geometric primitives.  Each step searches, by randomized hill
//! climbing, for the one shape and color whose alpha-composited blit
//! most reduces the pixel distance between the working canvas and the
//! target, commits it, and records it; the record replays as a raster,
//! an animation, or a vector document.

use vstd::prelude::*;

pub mod algo;
pub mod circle;
pub mod color;
pub mod combo;
pub mod config;
pub mod ellipse;
pub mod hill_climb;
pub mod image;
pub mod model;
pub mod point;
pub mod polygon;
pub mod quadratic;
pub mod raster;
pub mod rectangle;
mod rng;
pub mod runner;
pub mod scanline;
pub mod shape;
pub mod svg;
pub mod triangle;
pub mod worker;

verus! {

/// Largest canvas edge the engine works on.  Keeping the dimensions bounded
/// lets every pixel sum fit comfortably in 64-bit accumulators.
pub const MAX_DIM: u32 = 4096;

pub open spec fn clamp_spec(a: int, low: int, high: int) -> int {
    if a < low {
        low
    } else if a > high {
        high
    } else {
        a
    }
}

/// Clamp `a` into the inclusive range `[low, high]`.
pub fn clamp_i32(a: i32, low: i32, high: i32) -> (r: i32)
    requires
        low <= high,
    ensures
        r == clamp_spec(a as int, low as int, high as int),
        low <= r <= high,
{
    if a < low {
        low
    } else if a > high {
        high
    } else {
        a
    }
}

/// Clamp `a` into the inclusive range `[low, high]`.
pub fn clamp_u32(a: u32, low: u32, high: u32) -> (r: u32)
    requires
        low <= high,
    ensures
        r == clamp_spec(a as int, low as int, high as int),
        low <= r <= high,
{
    if a < low {
        low
    } else if a > high {
        high
    } else {
        a
    }
}

/// Clamp `a` into the inclusive range `[low, high]`.
pub fn clamp_i64(a: i64, low: i64, high: i64) -> (r: i64)
    requires
        low <= high,
    ensures
        r == clamp_spec(a as int, low as int, high as int),
        low <= r <= high,
{
    if a < low {
        low
    } else if a > high {
        high
    } else {
        a
    }
}

} // verus!
