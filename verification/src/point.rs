use vstd::prelude::*;

verus! {

/// Bound on shape coordinates: mutation may push a vertex a small margin
/// outside the canvas, never anywhere near this limit.
pub const COORD_LIMIT: i32 = 0x8000;

/// An integer point; it may lie outside the canvas while a shape is being
/// mutated and is clamped during rasterization.
#[derive(Clone, Copy, Debug, PartialEq, Eq, Structural)]
pub struct Point {
    pub x: i32,
    pub y: i32,
}

/// The coordinate range every shape keeps its points in.
pub open spec fn point_ok(p: Point) -> bool {
    &&& -COORD_LIMIT < p.x < COORD_LIMIT
    &&& -COORD_LIMIT < p.y < COORD_LIMIT
}

pub open spec fn points_ok(s: Seq<Point>) -> bool {
    forall|i: int| 0 <= i < s.len() ==> point_ok(#[trigger] s[i])
}

/// The wider range the curve walkers may hand the line rasterizer after
/// drifting a bounded number of steps.
pub const WIDE_LIMIT: i32 = 0x40000;

pub open spec fn wide_point_ok(p: Point) -> bool {
    &&& -WIDE_LIMIT < p.x < WIDE_LIMIT
    &&& -WIDE_LIMIT < p.y < WIDE_LIMIT
}

} // verus!
