use vstd::prelude::*;

verus! {

/// A position in the play-field, in tenths of a pixel; `y` grows upwards.
#[derive(Clone, Copy, Debug, PartialEq, Eq, Structural)]
pub struct Point {
    pub x: i64,
    pub y: i64,
}

/// The extent of a sprite's collider, in tenths of a pixel.
#[derive(Clone, Copy, Debug, PartialEq, Eq, Structural)]
pub struct Size {
    pub w: i64,
    pub h: i64,
}

/// Largest coordinate or extent that the collision test accepts.
pub const COORD_LIMIT: i64 = 1_000_000_000_000;

pub open spec fn in_limit(v: int) -> bool {
    -COORD_LIMIT <= v <= COORD_LIMIT
}

/// Two boxes centred at `a` and `b` overlap when, on each axis, the distance
/// between the centres is strictly less than the sum of the half extents.
pub open spec fn boxes_overlap(a: Point, sa: Size, b: Point, sb: Size) -> bool {
    &&& 2 * (a.x - b.x) < sa.w + sb.w
    &&& 2 * (b.x - a.x) < sa.w + sb.w
    &&& 2 * (a.y - b.y) < sa.h + sb.h
    &&& 2 * (b.y - a.y) < sa.h + sb.h
}

/// Axis-aligned bounding-box test between two centred boxes.
pub fn collide(a: Point, sa: Size, b: Point, sb: Size) -> (r: bool)
    requires
        in_limit(a.x as int), in_limit(a.y as int), in_limit(b.x as int), in_limit(b.y as int),
        0 <= sa.w <= COORD_LIMIT, 0 <= sa.h <= COORD_LIMIT,
        0 <= sb.w <= COORD_LIMIT, 0 <= sb.h <= COORD_LIMIT,
    ensures
        r == boxes_overlap(a, sa, b, sb),
{
    let sw = sa.w + sb.w;
    let sh = sa.h + sb.h;
    2 * (a.x - b.x) < sw && 2 * (b.x - a.x) < sw && 2 * (a.y - b.y) < sh && 2 * (b.y - a.y) < sh
}

} // verus!
