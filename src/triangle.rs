//! Filled and outlined triangles.
use vstd::prelude::*;
use vstd::arithmetic::div_mod::lemma_fundamental_div_mod;
use crate::render::{Color, Point};
use crate::renderer::{line_covers, Renderer};

verus! {

/// A triangle with its corners ordered by row, then column.
pub struct Triangle {
    points: [Point; 3],
    color: Color,
}

/// `a` comes no later than `b` in row-then-column order.
pub open spec fn key_le(a: Point, b: Point) -> bool {
    a.1 < b.1 || (a.1 == b.1 && a.0 <= b.0)
}

/// A coordinate small enough for every line between such points to be
/// drawable.
pub open spec fn small(p: Point) -> bool {
    8 * p.0 <= isize::MAX && 8 * p.1 <= isize::MAX
}

/// `base` moved by `h * t / v` rounded towards zero (`base` when `v` is 0).
pub open spec fn interpolate(base: usize, h: int, t: int, v: int) -> int {
    if v == 0 {
        base as int
    } else if h >= 0 {
        base + (h * t) / v
    } else {
        base - ((-h) * t) / v
    }
}

/// The corners of a triangle, top to bottom.
pub type Corners3 = (Point, Point, Point);

/// Column of the long edge, from the top to the bottom corner, at row `y`.
pub open spec fn long_edge(t: Corners3, y: int) -> int {
    let (top, mid, bot) = t;
    interpolate(top.0, bot.0 - top.0, y - top.1, bot.1 - top.1)
}

/// Column of the short edges at row `y`: top to middle corner above the
/// middle row, middle to bottom corner from it on.
pub open spec fn short_edge(t: Corners3, y: int) -> int {
    let (top, mid, bot) = t;
    if y < mid.1 {
        interpolate(top.0, mid.0 - top.0, y - top.1, mid.1 - top.1)
    } else {
        interpolate(mid.0, bot.0 - mid.0, y - mid.1, bot.1 - mid.1)
    }
}

/// The horizontal line drawn at row `y`.
pub open spec fn span(t: Corners3, y: int) -> (Point, Point) {
    ((short_edge(t, y) as usize, y as usize), (long_edge(t, y) as usize, y as usize))
}

/// Buffer index `j` lies on one of the rows `lo <= y < hi` drawn by `fill`.
pub open spec fn rows_cover(t: Corners3, width: nat, lo: int, hi: int, j: int) -> bool {
    exists|y: int| lo <= y < hi && line_covers(width, (#[trigger] span(t, y)).0, span(t, y).1, j)
}

/// Buffer index `j` is painted by `fill`.
pub open spec fn fill_covers(t: Corners3, width: nat, j: int) -> bool {
    rows_cover(t, width, t.0.1 as int, t.2.1 + 1, j)
}

/// Buffer index `j` is painted by `outline`.
pub open spec fn outline_covers(t: Corners3, width: nat, j: int) -> bool {
    let (top, mid, bot) = t;
    line_covers(width, top, bot, j) || line_covers(width, bot, mid, j) || line_covers(
        width,
        mid,
        top,
        j,
    )
}

impl View for Triangle {
    type V = (Point, Point, Point);

    closed spec fn view(&self) -> (Point, Point, Point) {
        (self.points[0], self.points[1], self.points[2])
    }
}

/// The column `h * t / v` of the way from `base` towards `target`,
/// rounded towards `base`.
fn edge_x(base: usize, target: usize, t: usize, v: usize) -> (r: usize)
    requires
        t <= v,
    ensures
        r == interpolate(base, target - base, t as int, v as int),
        base <= target ==> base <= r <= target,
        target < base ==> target <= r <= base,
{
    if v == 0 {
        base
    } else if target >= base {
        let h = target - base;
        proof {
            lemma_scaled_within(h as int, t as int, v as int);
            assert((h as u128) * (t as u128) <= u128::MAX) by (nonlinear_arith)
                requires
                    h <= usize::MAX,
                    t <= usize::MAX,
                    usize::MAX <= u64::MAX,
            ;
        }
        base + ((h as u128) * (t as u128) / (v as u128)) as usize
    } else {
        let h = base - target;
        proof {
            lemma_scaled_within(h as int, t as int, v as int);
            assert((h as u128) * (t as u128) <= u128::MAX) by (nonlinear_arith)
                requires
                    h <= usize::MAX,
                    t <= usize::MAX,
                    usize::MAX <= u64::MAX,
            ;
        }
        base - ((h as u128) * (t as u128) / (v as u128)) as usize
    }
}

/// `h * t / v` lies between 0 and `h` when `t <= v`.
proof fn lemma_scaled_within(h: int, t: int, v: int)
    requires
        h >= 0,
        0 <= t <= v,
        v > 0,
    ensures
        0 <= (h * t) / v <= h,
{
    lemma_fundamental_div_mod(h * t, v);
    let q = (h * t) / v;
    assert(0 <= q <= h) by (nonlinear_arith)
        requires
            h * t == v * q + (h * t) % v,
            0 <= (h * t) % v < v,
            h >= 0,
            0 <= t <= v,
            v > 0,
    ;
}

impl Triangle {
    #[verifier::type_invariant]
    spec fn corners_ordered(&self) -> bool {
        key_le(self.points[0], self.points[1]) && key_le(self.points[1], self.points[2])
    }

    pub closed spec fn color(&self) -> Color {
        self.color
    }

    /// The three points in row-then-column order.
    pub open spec fn ordered(p0: Point, p1: Point, p2: Point) -> (Point, Point, Point) {
        if key_le(p0, p1) {
            if key_le(p1, p2) {
                (p0, p1, p2)
            } else if key_le(p0, p2) {
                (p0, p2, p1)
            } else {
                (p2, p0, p1)
            }
        } else {
            if key_le(p0, p2) {
                (p1, p0, p2)
            } else if key_le(p1, p2) {
                (p1, p2, p0)
            } else {
                (p2, p1, p0)
            }
        }
    }

    /// The corners are small enough for every drawn line.
    pub open spec fn drawable_points(&self) -> bool {
        small(self@.0) && small(self@.1) && small(self@.2)
    }

    pub fn new(p0: Point, p1: Point, p2: Point, color: Color) -> (r: Self)
        ensures
            r@ == Self::ordered(p0, p1, p2),
            key_le(r@.0, r@.1) && key_le(r@.1, r@.2),
            r.color() == color,
    {
        let le01 = p0.1 < p1.1 || (p0.1 == p1.1 && p0.0 <= p1.0);
        let le02 = p0.1 < p2.1 || (p0.1 == p2.1 && p0.0 <= p2.0);
        let le12 = p1.1 < p2.1 || (p1.1 == p2.1 && p1.0 <= p2.0);
        let points = if le01 {
            if le12 {
                [p0, p1, p2]
            } else if le02 {
                [p0, p2, p1]
            } else {
                [p2, p0, p1]
            }
        } else {
            if le02 {
                [p1, p0, p2]
            } else if le12 {
                [p1, p2, p0]
            } else {
                [p2, p1, p0]
            }
        };
        Self { points, color }
    }

    /// Draws the three sides: top to bottom, bottom to middle, middle to top.
    pub fn outline(&self, renderer: &mut Renderer)
        requires
            self.drawable_points(),
        ensures
            old(renderer)@.painted(
                final(renderer)@,
                |j: int| outline_covers(self@, old(renderer)@.width, j),
                self.color(),
            ),
    {
        let (top, mid, bot) = (self.points[0], self.points[1], self.points[2]);
        renderer.draw_line(top, bot, self.color);
        renderer.draw_line(bot, mid, self.color);
        renderer.draw_line(mid, top, self.color);
    }
    /// Fills the triangle row by row, from the top corner's row to the
    /// bottom corner's row, each row with the line from the short edge
    /// to the long edge.
    pub fn fill(&self, renderer: &mut Renderer)
        requires
            self.drawable_points(),
        ensures
            old(renderer)@.painted(
                final(renderer)@,
                |j: int| fill_covers(self@, old(renderer)@.width, j),
                self.color(),
            ),
    {
        proof {
            use_type_invariant(self);
        }
        let (top, mid, bot) = (self.points[0], self.points[1], self.points[2]);
        let ghost w = renderer@.width;
        let mut y = top.1;
        while y < mid.1
            invariant
                self.drawable_points(),
                self@ == (top, mid, bot),
                top.1 <= y <= mid.1 <= bot.1,
                key_le(top, mid) && key_le(mid, bot),
                renderer@.width == w,
                w == old(renderer)@.width,
                renderer@.height == old(renderer)@.height,
                renderer@.buffer.len() == old(renderer)@.buffer.len(),
                forall|j: int|
                    0 <= j < renderer@.buffer.len() ==> #[trigger] renderer@.buffer[j] == if rows_cover(self@, 
                        w,
                        top.1 as int,
                        y as int,
                        j,
                    ) {
                        self.color()
                    } else {
                        old(renderer)@.buffer[j]
                    },
            decreases mid.1 - y,
        {
            let x_short = edge_x(top.0, mid.0, y - top.1, mid.1 - top.1);
            let x_long = edge_x(top.0, bot.0, y - top.1, bot.1 - top.1);
            assert(span(self@, y as int) == ((x_short, y), (x_long, y)));
            renderer.draw_line((x_short, y), (x_long, y), self.color);
            proof {
                assert forall|j: int| 0 <= j < renderer@.buffer.len() implies #[trigger] renderer@.buffer[j]
                    == if rows_cover(self@, w, top.1 as int, y + 1, j) {
                    self.color()
                } else {
                    old(renderer)@.buffer[j]
                } by {
                    lemma_rows_step(self@, w, top.1 as int, y as int, j);
                }
            }
            y += 1;
        }
        while y <= bot.1
            invariant
                self.drawable_points(),
                self@ == (top, mid, bot),
                mid.1 <= y <= bot.1 + 1,
                top.1 <= mid.1,
                key_le(top, mid) && key_le(mid, bot),
                renderer@.width == w,
                w == old(renderer)@.width,
                renderer@.height == old(renderer)@.height,
                renderer@.buffer.len() == old(renderer)@.buffer.len(),
                forall|j: int|
                    0 <= j < renderer@.buffer.len() ==> #[trigger] renderer@.buffer[j] == if rows_cover(self@, 
                        w,
                        top.1 as int,
                        y as int,
                        j,
                    ) {
                        self.color()
                    } else {
                        old(renderer)@.buffer[j]
                    },
            decreases bot.1 + 1 - y,
        {
            let x_short = edge_x(mid.0, bot.0, y - mid.1, bot.1 - mid.1);
            let x_long = edge_x(top.0, bot.0, y - top.1, bot.1 - top.1);
            assert(span(self@, y as int) == ((x_short, y), (x_long, y)));
            renderer.draw_line((x_short, y), (x_long, y), self.color);
            proof {
                assert forall|j: int| 0 <= j < renderer@.buffer.len() implies #[trigger] renderer@.buffer[j]
                    == if rows_cover(self@, w, top.1 as int, y + 1, j) {
                    self.color()
                } else {
                    old(renderer)@.buffer[j]
                } by {
                    lemma_rows_step(self@, w, top.1 as int, y as int, j);
                }
            }
            y += 1;
        }
    }

}

proof fn lemma_rows_step(t: Corners3, width: nat, lo: int, hi: int, j: int)
    requires
        lo <= hi,
    ensures
        rows_cover(t, width, lo, hi + 1, j) == (rows_cover(t, width, lo, hi, j)
            || line_covers(width, span(t, hi).0, span(t, hi).1, j)),
{
    if rows_cover(t, width, lo, hi + 1, j) && !rows_cover(t, width, lo, hi, j) {
        let y = choose|y: int|
            lo <= y < hi + 1 && line_covers(width, (#[trigger] span(t, y)).0, span(t, y).1, j);
        assert(y == hi);
    }
    if line_covers(width, span(t, hi).0, span(t, hi).1, j) {
        assert(span(t, hi) == span(t, hi));
    }
}
} // verus!
