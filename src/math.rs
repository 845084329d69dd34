//! Plain geometric records.
use vstd::prelude::*;

verus! {

/// A segment between two points.
#[derive(Default)]
pub struct Vec2 {
    start: Point,
    end: Point,
}

/// A pixel position.
#[derive(Default, Clone, Copy)]
pub struct Point {
    x: usize,
    y: usize,
}

/// A polygon with an optional anchor and a slope.
pub struct Rect {
    points: Vec<Point>,
    pos: Option<Point>,
    slope: i8,
}

} // verus!
