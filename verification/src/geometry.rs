//! Points, boxes and the overlap test between two axis-aligned boxes.

use vstd::prelude::*;

verus! {

/// A point of the plane: `x` grows to the right, `y` grows upward.
#[derive(Clone, Copy, Debug, PartialEq, Eq, Structural)]
pub struct Point {
    pub x: i64,
    pub y: i64,
}

/// The extent of an axis-aligned box.
#[derive(Clone, Copy, Debug, PartialEq, Eq, Structural)]
pub struct Size {
    pub width: u64,
    pub height: u64,
}

/// Twice the least coordinate of the interval of extent `extent` centred on
/// `center`. Doubling keeps the bounds whole when the extent is odd.
pub open spec fn low2(center: int, extent: int) -> int {
    2 * center - extent
}

/// Twice the greatest coordinate of the interval of extent `extent` centred
/// on `center`.
pub open spec fn high2(center: int, extent: int) -> int {
    2 * center + extent
}

/// Whether two closed intervals, each given by centre and extent, share a
/// point. Intervals that merely touch do.
pub open spec fn intervals_meet(center_a: int, extent_a: int, center_b: int, extent_b: int) -> bool {
    &&& low2(center_a, extent_a) <= high2(center_b, extent_b)
    &&& low2(center_b, extent_b) <= high2(center_a, extent_a)
}

/// Whether the closed boxes centred on `center_a` and `center_b` intersect:
/// their projections meet on both axes.
pub open spec fn boxes_overlap(center_a: Point, size_a: Size, center_b: Point, size_b: Size) -> bool {
    &&& intervals_meet(center_a.x as int, size_a.width as int, center_b.x as int, size_b.width as int)
    &&& intervals_meet(center_a.y as int, size_a.height as int, center_b.y as int, size_b.height as int)
}

/// Whether the doubled point `(px, py)` lies in the closed box centred on
/// `center`.
pub open spec fn box_holds(center: Point, size: Size, px: int, py: int) -> bool {
    &&& low2(center.x as int, size.width as int) <= px <= high2(center.x as int, size.width as int)
    &&& low2(center.y as int, size.height as int) <= py <= high2(center.y as int, size.height as int)
}

fn meet(center_a: i64, extent_a: u64, center_b: i64, extent_b: u64) -> (r: bool)
    ensures
        r == intervals_meet(center_a as int, extent_a as int, center_b as int, extent_b as int),
{
    let ca: i128 = center_a as i128;
    let cb: i128 = center_b as i128;
    let ea: i128 = extent_a as i128;
    let eb: i128 = extent_b as i128;
    2 * ca - ea <= 2 * cb + eb && 2 * cb - eb <= 2 * ca + ea
}

/// Tests two axis-aligned boxes, each given by its centre and its size, for
/// intersection. Boxes that share only an edge or a corner intersect.
pub fn overlaps(center_a: Point, size_a: Size, center_b: Point, size_b: Size) -> (hit: bool)
    ensures
        hit == boxes_overlap(center_a, size_a, center_b, size_b),
{
    meet(center_a.x, size_a.width, center_b.x, size_b.width) && meet(
        center_a.y,
        size_a.height,
        center_b.y,
        size_b.height,
    )
}

/// A box overlaps itself, whatever its size.
pub proof fn lemma_overlaps_self(center: Point, size: Size)
    ensures
        boxes_overlap(center, size, center, size),
{
}

/// The overlap test does not depend on the order of the two boxes.
pub proof fn lemma_overlaps_symmetric(center_a: Point, size_a: Size, center_b: Point, size_b: Size)
    ensures
        boxes_overlap(center_a, size_a, center_b, size_b) == boxes_overlap(
            center_b,
            size_b,
            center_a,
            size_a,
        ),
{
}

/// Two boxes overlap exactly when some point lies in both.
pub proof fn lemma_overlaps_iff_common_point(
    center_a: Point,
    size_a: Size,
    center_b: Point,
    size_b: Size,
)
    ensures
        boxes_overlap(center_a, size_a, center_b, size_b) <==> exists|px: int, py: int|
            box_holds(center_a, size_a, px, py) && box_holds(center_b, size_b, px, py),
{
    if boxes_overlap(center_a, size_a, center_b, size_b) {
        let ax: int = low2(center_a.x as int, size_a.width as int);
        let bx: int = low2(center_b.x as int, size_b.width as int);
        let ay: int = low2(center_a.y as int, size_a.height as int);
        let by: int = low2(center_b.y as int, size_b.height as int);
        let px: int = if ax >= bx { ax } else { bx };
        let py: int = if ay >= by { ay } else { by };
        assert(box_holds(center_a, size_a, px, py) && box_holds(center_b, size_b, px, py));
    }
}

} // verus!
