//! Axis-aligned rectangles.
use vstd::prelude::*;
use crate::render::{Color, Point, Position, Size};
use crate::renderer::{line_covers, Renderer};
use crate::triangle::{fill_covers, small, Corners3, Triangle};

verus! {

/// Fill by horizontal lines.
pub const MOD_SCANLINE: u8 = 1;

/// Fill by two triangles.
pub const MOD_TRIANGLE: u8 = 2;

/// A rectangle from `pos` to `pos + size`, corners included.
#[derive(Clone, Copy, Debug)]
pub struct Rectangle {
    pos: Position,
    size: Size,
    color: Color,
    mode: u8,
    outline_color: Option<Color>,
}

/// The far corner of a rectangle.
pub open spec fn far(pos: Position, size: Size) -> (int, int) {
    (pos.0 + size.0, pos.1 + size.1)
}

/// Buffer index `j` lies on one of the rows drawn by a scanline fill.
pub open spec fn scan_covers(pos: Position, size: Size, width: nat, j: int) -> bool {
    exists|y: int|
        pos.1 <= y <= pos.1 + size.1 && line_covers(
            width,
            #[trigger] scan_start(pos, y),
            ((pos.0 + size.0) as usize, y as usize),
            j,
        )
}

/// Left end of the scanline at row `y`.
pub open spec fn scan_start(pos: Position, y: int) -> Point {
    (pos.0, y as usize)
}

/// The upper-left and lower-right triangles of a rectangle, corners in
/// row-then-column order.
pub open spec fn triangles(pos: Position, size: Size) -> (Corners3, Corners3) {
    let (x, y) = pos;
    let (fx, fy) = ((pos.0 + size.0) as usize, (pos.1 + size.1) as usize);
    (Triangle::ordered((x, fy), (fx, y), (x, y)), Triangle::ordered((fx, fy), (x, fy), (fx, y)))
}

/// Buffer index `j` is painted by the body fill of a rectangle.
pub open spec fn body_covers(pos: Position, size: Size, triangle_mode: bool, width: nat, j: int) -> bool {
    if triangle_mode {
        fill_covers(triangles(pos, size).0, width, j) || fill_covers(
            triangles(pos, size).1,
            width,
            j,
        )
    } else {
        scan_covers(pos, size, width, j)
    }
}

/// Buffer index `j` is painted by the outline: right, left, top and
/// bottom sides.
pub open spec fn border_covers(pos: Position, size: Size, width: nat, j: int) -> bool {
    let (x, y) = pos;
    let (fx, fy) = ((pos.0 + size.0) as usize, (pos.1 + size.1) as usize);
    ||| line_covers(width, (fx, fy), (fx, y), j)
    ||| line_covers(width, (x, fy), (x, y), j)
    ||| line_covers(width, (x, y), (fx, y), j)
    ||| line_covers(width, (x, fy), (fx, fy), j)
}

impl Rectangle {
    pub closed spec fn position(&self) -> Position {
        self.pos
    }

    pub closed spec fn size(&self) -> Size {
        self.size
    }

    pub closed spec fn color(&self) -> Color {
        self.color
    }

    pub closed spec fn outline_color(&self) -> Option<Color> {
        self.outline_color
    }

    /// The body is filled with two triangles rather than by scanlines.
    pub closed spec fn triangle_mode(&self) -> bool {
        self.mode == MOD_TRIANGLE
    }

    /// Both corners are small enough for every drawn line.
    pub open spec fn drawable(&self) -> bool {
        8 * far(self.position(), self.size()).0 <= isize::MAX && 8 * far(
            self.position(),
            self.size(),
        ).1 <= isize::MAX
    }

    pub fn new(position: Position, size: Size, color: Color) -> (r: Self)
        ensures
            r.position() == position,
            r.size() == size,
            r.color() == color,
            r.outline_color() == None::<Color>,
            !r.triangle_mode(),
    {
        Self { pos: position, size, color, mode: MOD_SCANLINE, outline_color: None }
    }

    /// Fills the body, then draws the outline when it has a colour.
    pub fn fill(&self, renderer: &mut Renderer)
        requires
            self.drawable(),
        ensures
            final(renderer)@.width == old(renderer)@.width,
            final(renderer)@.height == old(renderer)@.height,
            final(renderer)@.buffer.len() == old(renderer)@.buffer.len(),
            forall|j: int|
                0 <= j < old(renderer)@.buffer.len() ==> #[trigger] final(renderer)@.buffer[j] == if self.outline_color() is Some
                    && border_covers(self.position(), self.size(), old(renderer)@.width, j) {
                    self.outline_color()->Some_0
                } else if body_covers(
                    self.position(),
                    self.size(),
                    self.triangle_mode(),
                    old(renderer)@.width,
                    j,
                ) {
                    self.color()
                } else {
                    old(renderer)@.buffer[j]
                },
    {
        if self.mode == MOD_TRIANGLE {
            self.triangle_fill(renderer);
        } else {
            self.scanline_fill(renderer);
        }
        if self.outline_color.is_some() {
            self.outline(renderer);
        }
    }

    pub fn with_outline(&mut self, color: Color) -> (r: &mut Self)
        ensures
            r.outline_color() == Some(color),
            r.position() == old(self).position(),
            r.size() == old(self).size(),
            r.color() == old(self).color(),
            r.triangle_mode() == old(self).triangle_mode(),
            *final(self) == *final(r),
    {
        self.outline_color = Some(color);
        self
    }

    /// Draws the four sides in the outline colour.
    pub fn outline(&self, renderer: &mut Renderer)
        requires
            self.drawable(),
            self.outline_color() is Some,
        ensures
            old(renderer)@.painted(
                final(renderer)@,
                |j: int| border_covers(self.position(), self.size(), old(renderer)@.width, j),
                self.outline_color()->Some_0,
            ),
    {
        let color = match self.outline_color {
            Some(c) => c,
            None => self.color,
        };
        let (x, y) = self.pos;
        let (fx, fy) = (self.pos.0 + self.size.0, self.pos.1 + self.size.1);
        renderer.draw_line((fx, fy), (fx, y), color);
        renderer.draw_line((x, fy), (x, y), color);
        renderer.draw_line((x, y), (fx, y), color);
        renderer.draw_line((x, fy), (fx, fy), color);
    }

    fn as_triangles(&self) -> (r: (Triangle, Triangle))
        requires
            self.drawable(),
        ensures
            r.0@ == triangles(self.position(), self.size()).0,
            r.1@ == triangles(self.position(), self.size()).1,
            r.0.color() == self.color(),
            r.1.color() == self.color(),
    {
        let bot_triangle = {
            let p0 = (self.pos.0 + self.size.0, self.pos.1 + self.size.1);
            let p1 = (self.pos.0, self.pos.1 + self.size.1);
            let p2 = (self.pos.0 + self.size.0, self.pos.1);
            Triangle::new(p0, p1, p2, self.color)
        };
        let top_triangle = {
            let p0 = (self.pos.0, self.pos.1 + self.size.1);
            let p1 = (self.pos.0 + self.size.0, self.pos.1);
            let p2 = (self.pos.0, self.pos.1);
            Triangle::new(p0, p1, p2, self.color)
        };
        (top_triangle, bot_triangle)
    }

    pub fn get_position(&self) -> (r: Position)
        ensures
            r == self.position(),
    {
        self.pos
    }

    pub fn get_size(&self) -> (r: Size)
        ensures
            r == self.size(),
    {
        self.size
    }

    pub fn with_position(&mut self, position: Position) -> (r: &mut Self)
        ensures
            r.position() == position,
            r.size() == old(self).size(),
            r.color() == old(self).color(),
            r.outline_color() == old(self).outline_color(),
            r.triangle_mode() == old(self).triangle_mode(),
            *final(self) == *final(r),
    {
        self.pos = position;
        self
    }

    fn scanline_fill(&self, renderer: &mut Renderer)
        requires
            self.drawable(),
        ensures
            old(renderer)@.painted(
                final(renderer)@,
                |j: int| scan_covers(self.position(), self.size(), old(renderer)@.width, j),
                self.color(),
            ),
    {
        let top = self.pos.1 + self.size.1;
        let edge = self.pos.0 + self.size.0;
        let ghost w = renderer@.width;
        let mut y = self.pos.1;
        while y <= top
            invariant
                self.drawable(),
                top == self.pos.1 + self.size.1,
                edge == self.pos.0 + self.size.0,
                self.pos.1 <= y <= top + 1,
                renderer@.width == w,
                w == old(renderer)@.width,
                renderer@.height == old(renderer)@.height,
                renderer@.buffer.len() == old(renderer)@.buffer.len(),
                forall|j: int|
                    0 <= j < renderer@.buffer.len() ==> #[trigger] renderer@.buffer[j] == if (exists|r: int|
                        self.pos.1 <= r < y && line_covers(
                            w,
                            #[trigger] scan_start(self.pos, r),
                            (edge, r as usize),
                            j,
                        )) {
                        self.color
                    } else {
                        old(renderer)@.buffer[j]
                    },
            decreases top + 1 - y,
        {
            renderer.draw_line((self.pos.0, y), (edge, y), self.color);
            proof {
                assert forall|j: int| 0 <= j < renderer@.buffer.len() implies #[trigger] renderer@.buffer[j]
                    == if (exists|r: int|
                    self.pos.1 <= r < y + 1 && line_covers(
                        w,
                        #[trigger] scan_start(self.pos, r),
                        (edge, r as usize),
                        j,
                    )) {
                    self.color
                } else {
                    old(renderer)@.buffer[j]
                } by {
                    if line_covers(w, scan_start(self.pos, y as int), (edge, y), j) {
                        assert(self.pos.1 <= y < y + 1);
                    }
                    if exists|r: int|
                        self.pos.1 <= r < y + 1 && line_covers(
                            w,
                            #[trigger] scan_start(self.pos, r),
                            (edge, r as usize),
                            j,
                        ) {
                        let r = choose|r: int|
                            self.pos.1 <= r < y + 1 && line_covers(
                                w,
                                #[trigger] scan_start(self.pos, r),
                                (edge, r as usize),
                                j,
                            );
                        if r < y {
                        }
                    }
                }
            }
            y += 1;
        }
    }

    fn triangle_fill(&self, renderer: &mut Renderer)
        requires
            self.drawable(),
        ensures
            old(renderer)@.painted(
                final(renderer)@,
                |j: int| body_covers(self.position(), self.size(), true, old(renderer)@.width, j),
                self.color(),
            ),
    {
        let (top_triangle, bot_triangle) = self.as_triangles();
        top_triangle.fill(renderer);
        bot_triangle.fill(renderer);
    }
}

} // verus!
