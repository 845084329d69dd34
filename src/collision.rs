//! Overlap test and contact classification of two axis-aligned boxes,
//! each given by its near corner `(min_x, min_y)` and far corner
//! `(max_x, max_y)`.
use vstd::prelude::*;
use crate::component::CollisionSide;
use crate::render::Point;

verus! {

/// A box as its near and far corner.
pub type Corners = (Point, Point);

/// The overlap test of a query box against another box. The bounds are
/// deliberately asymmetric: on x a query whose far edge touches the other
/// box's near edge does not overlap, while one whose near edge touches
/// the other's far edge does.
pub open spec fn overlaps(q: Corners, o: Corners) -> bool {
    !(q.1.0 <= o.0.0 || q.0.0 > o.1.0 || q.1.1 <= o.0.1 || q.0.1 >= o.1.1)
}

/// The query box lies strictly inside the other one.
pub open spec fn contained(q: Corners, o: Corners) -> bool {
    q.0.0 > o.0.0 && q.1.0 < o.1.0 && q.0.1 > o.0.1 && q.1.1 < o.1.1
}

pub open spec fn min_of(a: usize, b: usize) -> int {
    if a <= b { a as int } else { b as int }
}

pub open spec fn max_of(a: usize, b: usize) -> int {
    if a >= b { a as int } else { b as int }
}

/// A coordinate read as a signed number (two's complement), so that one
/// wrapped below zero counts as negative.
pub open spec fn signed(c: int) -> int {
    if c > isize::MAX {
        c - usize::MAX - 1
    } else {
        c
    }
}

/// Signed width of the shared part on x: the nearer far edge minus the
/// farther near edge, each read as signed.
pub open spec fn overlap_x(q: Corners, o: Corners) -> int {
    signed(min_of(q.1.0, o.1.0)) - signed(max_of(q.0.0, o.0.0))
}

/// Signed height of the shared part on y.
pub open spec fn overlap_y(q: Corners, o: Corners) -> int {
    signed(min_of(q.1.1, o.1.1)) - signed(max_of(q.0.1, o.0.1))
}

/// The reported depth on x: the shared width taken modulo the pixel
/// space, which is the width itself whenever it is not negative.
pub open spec fn depth_x(q: Corners, o: Corners) -> usize {
    vstd::wrapping::usize_specs::wrapping_sub(min_of(q.1.0, o.1.0) as usize, max_of(q.0.0, o.0.0) as usize)
}

/// The reported depth on y.
pub open spec fn depth_y(q: Corners, o: Corners) -> usize {
    vstd::wrapping::usize_specs::wrapping_sub(min_of(q.1.1, o.1.1) as usize, max_of(q.0.1, o.0.1) as usize)
}

pub open spec fn top_contact(q: Corners, o: Corners) -> bool {
    (q.0.1 <= o.0.1 && q.1.1 > o.0.1) || (q.0.1 <= o.1.1 && q.1.1 > o.1.1)
}

pub open spec fn bottom_contact(q: Corners, o: Corners) -> bool {
    (q.1.1 >= o.1.1 && q.0.1 < o.1.1) || (q.1.1 > o.0.1 && q.0.1 < o.0.1)
}

pub open spec fn left_contact(q: Corners, o: Corners) -> bool {
    (q.0.0 <= o.1.0 && q.1.0 > o.1.0) || (q.0.0 <= o.0.0 && q.1.0 > o.0.0)
}

pub open spec fn right_contact(q: Corners, o: Corners) -> bool {
    (q.1.0 >= o.0.0 && q.0.0 < o.0.0) || (q.1.0 >= o.1.0 && q.0.0 < o.1.0)
}

/// `seq![s]` when `b` holds, else empty.
pub open spec fn side_if(b: bool, s: CollisionSide) -> Seq<CollisionSide> {
    if b {
        seq![s]
    } else {
        Seq::empty()
    }
}

/// The sides reported for two overlapping boxes, in the order
/// Top, Bottom, Left, Right; or a single `Contained`.
pub open spec fn contact_sides(q: Corners, o: Corners) -> Seq<CollisionSide> {
    if contained(q, o) {
        seq![CollisionSide::Contained { x: (q.0.0 - o.0.0) as usize, y: (q.0.1 - o.0.1) as usize }]
    } else {
        let ox = depth_x(q, o);
        let oy = depth_y(q, o);
        let vertical = overlap_x(q, o) > 0;
        side_if(vertical && top_contact(q, o), CollisionSide::Top(oy))
            + side_if(vertical && bottom_contact(q, o), CollisionSide::Bottom(oy))
            + side_if(left_contact(q, o), CollisionSide::Left(ox))
            + side_if(right_contact(q, o), CollisionSide::Right(ox))
    }
}

/// For two overlapping boxes whose coordinates are within the signed
/// range, no extent is negative and each depth is the extent itself.
pub proof fn lemma_depth_is_extent(q: Corners, o: Corners)
    requires
        overlaps(q, o),
        q.0.0 <= q.1.0 <= isize::MAX,
        q.0.1 <= q.1.1 <= isize::MAX,
        o.0.0 <= o.1.0 <= isize::MAX,
        o.0.1 <= o.1.1 <= isize::MAX,
    ensures
        overlap_x(q, o) >= 0,
        overlap_y(q, o) >= 0,
        depth_x(q, o) == overlap_x(q, o),
        depth_y(q, o) == overlap_y(q, o),
{
}

/// Whether the query box overlaps the other box.
pub fn boxes_overlap(query: Corners, other: Corners) -> (r: bool)
    ensures
        r == overlaps(query, other),
{
    let ((min_x, min_y), (max_x, max_y)) = query;
    let ((other_min_x, other_min_y), (other_max_x, other_max_y)) = other;
    !(max_x <= other_min_x || min_x > other_max_x || max_y <= other_min_y || min_y >= other_max_y)
}

fn smaller(a: usize, b: usize) -> (r: usize)
    ensures
        r == min_of(a, b),
{
    if a <= b { a } else { b }
}

fn larger(a: usize, b: usize) -> (r: usize)
    ensures
        r == max_of(a, b),
{
    if a >= b { a } else { b }
}

/// `c` read as a signed number.
fn to_signed(c: usize) -> (r: i128)
    ensures
        r == signed(c as int),
{
    if c > isize::MAX as usize {
        c as i128 - usize::MAX as i128 - 1
    } else {
        c as i128
    }
}

/// The sides on which the query box meets an overlapping box. Boxes whose
/// far corner wrapped below the near one (a negative overhang) are read
/// as they stand: the extents are taken as signed numbers, and a depth is
/// the extent modulo the pixel space.
pub fn classify(query: Corners, other: Corners) -> (r: Vec<CollisionSide>)
    requires
        overlaps(query, other),
    ensures
        r@ == contact_sides(query, other),
{
    let ((min_x, min_y), (max_x, max_y)) = query;
    let ((other_min_x, other_min_y), (other_max_x, other_max_y)) = other;
    let mut sides: Vec<CollisionSide> = Vec::new();
    let fully_inside = min_x > other_min_x && max_x < other_max_x && min_y > other_min_y
        && max_y < other_max_y;
    if fully_inside {
        sides.push(CollisionSide::Contained { x: min_x - other_min_x, y: min_y - other_min_y });
        assert(sides@ =~= contact_sides(query, other));
        return sides;
    }
    let near_x = larger(min_x, other_min_x);
    let far_x = smaller(max_x, other_max_x);
    let near_y = larger(min_y, other_min_y);
    let far_y = smaller(max_y, other_max_y);
    let overlap_x = to_signed(far_x) - to_signed(near_x);
    let depth_x = far_x.wrapping_sub(near_x);
    let depth_y = far_y.wrapping_sub(near_y);
    if overlap_x > 0 {
        if (min_y <= other_min_y && max_y > other_min_y) || (min_y <= other_max_y && max_y
            > other_max_y) {
            sides.push(CollisionSide::Top(depth_y));
        }
        if (max_y >= other_max_y && min_y < other_max_y) || (max_y > other_min_y && min_y
            < other_min_y) {
            sides.push(CollisionSide::Bottom(depth_y));
        }
    }
    if (min_x <= other_max_x && max_x > other_max_x) || (min_x <= other_min_x && max_x
        > other_min_x) {
        sides.push(CollisionSide::Left(depth_x));
    }
    if (max_x >= other_min_x && min_x < other_min_x) || (max_x >= other_max_x && min_x
        < other_max_x) {
        sides.push(CollisionSide::Right(depth_x));
    }
    assert(sides@ =~= contact_sides(query, other));
    sides
}

} // verus!
