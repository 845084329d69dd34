//! A pixel buffer with line drawing.
use vstd::prelude::*;
use vstd::arithmetic::div_mod::lemma_fundamental_div_mod_converse;
use crate::render::{Color, Point, Position, Size};
use crate::rect::Rectangle;
use crate::triangle::Triangle;

verus! {

/// A frame buffer of `width`-pixel rows, stored row after row.
pub struct Renderer {
    buffer: Vec<u32>,
    width: usize,
    height: usize,
}

/// A coloured segment between two points.
pub struct Line {
    start: Point,
    end: Point,
    color: Color,
}

impl Line {
    pub closed spec fn ends(&self) -> (Point, Point) {
        (self.start, self.end)
    }

    pub closed spec fn color(&self) -> Color {
        self.color
    }
}

impl Default for Line {
    /// A white line of one point at the origin.
    fn default() -> (r: Self)
        ensures
            r.ends() == ((0usize, 0usize), (0usize, 0usize)),
            r.color() == 0x00ffffff,
    {
        Self { start: (0, 0), end: (0, 0), color: Renderer::rgb_to_u32(255, 255, 255) }
    }
}

/// Abstract state of a renderer.
pub struct RendererView {
    pub buffer: Seq<u32>,
    pub width: nat,
    pub height: nat,
}

impl View for Renderer {
    type V = RendererView;

    closed spec fn view(&self) -> RendererView {
        RendererView { buffer: self.buffer@, width: self.width as nat, height: self.height as nat }
    }
}

/// Index of pixel `(x, y)` in a buffer of `width`-pixel rows.
pub open spec fn pixel_index(width: nat, x: int, y: int) -> int {
    y * width + x
}

impl RendererView {
    /// This state after writing `color` at `(x, y)`, when that index lies
    /// inside the buffer; otherwise unchanged.
    pub open spec fn with_pixel(self, x: int, y: int, color: Color) -> RendererView {
        let i = pixel_index(self.width, x, y);
        if 0 <= i < self.buffer.len() {
            RendererView { buffer: self.buffer.update(i, color), ..self }
        } else {
            self
        }
    }

    /// `next` is this state with `color` written at exactly the buffer
    /// indices that `covered` selects.
    pub open spec fn painted(self, next: RendererView, covered: spec_fn(int) -> bool, color: Color) -> bool {
        &&& next.width == self.width
        &&& next.height == self.height
        &&& next.buffer.len() == self.buffer.len()
        &&& forall|j: int|
            0 <= j < self.buffer.len() ==> #[trigger] next.buffer[j] == if covered(j) {
                color
            } else {
                self.buffer[j]
            }
    }
}

/// Distance between two coordinates.
pub open spec fn dist(a: usize, b: usize) -> int {
    if a >= b {
        a - b
    } else {
        b - a
    }
}

/// `a` moved `n` steps towards `b` (away from `b`'s side when equal).
pub open spec fn toward(a: usize, b: usize, n: int) -> int {
    if b > a {
        a + n
    } else {
        a - n
    }
}

/// The line advances one pixel on x at every step.
pub open spec fn x_major(start: Point, end: Point) -> bool {
    dist(start.0, end.0) > dist(start.1, end.1)
}

/// Number of steps of a line: its extent along the major axis.
pub open spec fn major_len(start: Point, end: Point) -> int {
    if x_major(start, end) {
        dist(start.0, end.0)
    } else {
        dist(start.1, end.1)
    }
}

/// Extent of a line along the minor axis.
pub open spec fn minor_len(start: Point, end: Point) -> int {
    if x_major(start, end) {
        dist(start.1, end.1)
    } else {
        dist(start.0, end.0)
    }
}

/// Offset along the minor axis after `j` steps: the exact offset
/// `j * minor / major`, rounded half down.
pub open spec fn minor_at(start: Point, end: Point, j: int) -> int {
    (2 * minor_len(start, end) * j + major_len(start, end)) / (2 * major_len(start, end))
}

/// The pixel a line paints at step `i`: `i` along the major axis, and
/// the minor offset reached after step `i + 1`.
pub open spec fn line_point(start: Point, end: Point, i: int) -> (int, int) {
    if x_major(start, end) {
        (toward(start.0, end.0, i), toward(start.1, end.1, minor_at(start, end, i + 1)))
    } else {
        (toward(start.0, end.0, minor_at(start, end, i + 1)), toward(start.1, end.1, i))
    }
}

/// Buffer index `j` is painted by the first `n` steps of the line, or is
/// its start.
pub open spec fn line_covers_upto(width: nat, start: Point, end: Point, n: int, j: int) -> bool {
    ||| pixel_index(width, start.0 as int, start.1 as int) == j
    ||| exists|t: int|
        0 <= t < n && pixel_index(
            width,
            (#[trigger] line_point(start, end, t)).0,
            line_point(start, end, t).1,
        ) == j
}

/// Buffer index `j` is painted by the line from `start` to `end`: its
/// start pixel and one pixel per step. The end pixel itself is painted
/// only when it is reached by a step.
pub open spec fn line_covers(width: nat, start: Point, end: Point, j: int) -> bool {
    line_covers_upto(width, start, end, major_len(start, end), j)
}

/// The deltas of a line fit in `isize`.
pub open spec fn drawable(start: Point, end: Point) -> bool {
    4 * (dist(start.0, end.0) + dist(start.1, end.1)) <= isize::MAX
}

proof fn lemma_covers_step(width: nat, start: Point, end: Point, n: int, j: int)
    requires
        n >= 0,
    ensures
        line_covers_upto(width, start, end, n + 1, j) == (line_covers_upto(width, start, end, n, j)
            || pixel_index(width, line_point(start, end, n).0, line_point(start, end, n).1) == j),
{
    if line_covers_upto(width, start, end, n + 1, j) && !line_covers_upto(width, start, end, n, j) {
        let t = choose|t: int|
            0 <= t < n + 1 && pixel_index(
                width,
                (#[trigger] line_point(start, end, t)).0,
                line_point(start, end, t).1,
            ) == j;
        assert(t == n);
    }
    if pixel_index(width, line_point(start, end, n).0, line_point(start, end, n).1) == j {
        assert(line_point(start, end, n) == line_point(start, end, n));
    }
}

/// `q` is the floor of `x / d` when `d * q <= x < d * (q + 1)`.
proof fn lemma_floor(x: int, d: int, q: int)
    requires
        d > 0,
        d * q <= x < d * q + d,
    ensures
        x / d == q,
{
    assert(x == q * d + (x - d * q)) by (nonlinear_arith);
    lemma_fundamental_div_mod_converse(x, d, q, x - d * q);
}

impl Renderer {
    pub fn new(buffer: Vec<u32>, width: u32, height: u32) -> (r: Self)
        ensures
            r@.buffer == buffer@,
            r@.width == width,
            r@.height == height,
    {
        Self { buffer, width: width as usize, height: height as usize }
    }

    pub fn triangle(&mut self, p0: Point, p1: Point, p2: Point, color: Color) -> (r: Triangle)
        ensures
            r@ == Triangle::ordered(p0, p1, p2),
            r.color() == color,
            final(self)@ == old(self)@,
    {
        Triangle::new(p0, p1, p2, color)
    }

    pub fn rect(&mut self, position: Position, size: Size, color: Color) -> (r: Rectangle)
        ensures
            r.position() == position,
            r.size() == size,
            r.color() == color,
            r.outline_color() == None::<Color>,
            !r.triangle_mode(),
            final(self)@ == old(self)@,
    {
        Rectangle::new(position, size, color)
    }

    /// Writes `color` at `(x, y)`; an index past the buffer is ignored.
    pub fn put_pixel(&mut self, x: usize, y: usize, color: Color)
        ensures
            final(self)@ == old(self)@.with_pixel(x as int, y as int, color),
    {
        let len = self.buffer.len();
        let idx = match y.checked_mul(self.width) {
            Some(row) => match row.checked_add(x) {
                Some(i) => i,
                None => {
                    assert(pixel_index(self@.width, x as int, y as int) > usize::MAX);
                    return ;
                },
            },
            None => {
                assert(y * self@.width + x > usize::MAX) by (nonlinear_arith)
                    requires
                        y * self.width > usize::MAX,
                        self@.width == self.width,
                        x >= 0,
                ;
                assert(pixel_index(self@.width, x as int, y as int) > usize::MAX);
                return ;
            },
        };
        assert(idx as int == pixel_index(self@.width, x as int, y as int));
        if idx >= len {
            return ;
        }
        self.buffer.set(idx, color);
    }

    /// Draws a line from `start` towards `end` with Bresenham's stepping:
    /// paints `start`, then at each step the pixel reached on the minor
    /// axis before moving on along the major axis.
    pub fn draw_line(&mut self, start: Point, end: Point, color: Color)
        requires
            drawable(start, end),
        ensures
            old(self)@.painted(
                final(self)@,
                |j: int| line_covers(old(self)@.width, start, end, j),
                color,
            ),
    {
        let dx_u: usize = if end.0 >= start.0 { end.0 - start.0 } else { start.0 - end.0 };
        let dy_u: usize = if end.1 >= start.1 { end.1 - start.1 } else { start.1 - end.1 };
        let dx: isize = dx_u as isize;
        let dy: isize = dy_u as isize;
        let delta_1: isize;
        let delta_2: isize;
        let mut delta: isize;
        if dy <= dx {
            delta_1 = 2 * dy;
            delta_2 = 2 * (dy - dx);
            delta = 2 * dy - dx;
        } else {
            delta_1 = 2 * dx;
            delta_2 = 2 * (dx - dy);
            delta = 2 * dx - dy;
        }
        let ghost w = old(self)@.width;
        let ghost maj = major_len(start, end);
        let ghost min = minor_len(start, end);
        let ghost xm = x_major(start, end);
        let mut x = start.0;
        let mut y = start.1;
        self.put_pixel(x, y, color);
        let ghost mut i: int = 0;
        let ghost mut k: int = 0;
        // mi == min * i and mk == maj * k, kept apart to stay linear
        let ghost mut mi: int = 0;
        let ghost mut mk: int = 0;
        assert(delta_1 == 2 * min && delta_2 == 2 * (min - maj) && delta == 2 * min - maj);
        assert forall|j: int| 0 <= j < self@.buffer.len() implies #[trigger] self@.buffer[j]
            == if line_covers_upto(w, start, end, 0, j) {
            color
        } else {
            old(self)@.buffer[j]
        } by {}
        while x != end.0 || y != end.1
            invariant
                drawable(start, end),
                w == old(self)@.width,
                maj == major_len(start, end),
                min == minor_len(start, end),
                xm == x_major(start, end),
                xm <==> dx > dy,
                dx == dist(start.0, end.0),
                dy == dist(start.1, end.1),
                delta_1 == 2 * min,
                delta_2 == 2 * (min - maj),
                0 <= min <= maj,
                0 <= i <= maj,
                0 <= k <= min,
                mi == min * i,
                mk == maj * k,
                delta == 2 * (mi + min) - maj - 2 * mk,
                maj > 0 ==> 2 * mk <= 2 * mi + maj < 2 * mk + 2 * maj,
                xm ==> x == toward(start.0, end.0, i) && y == toward(start.1, end.1, k),
                !xm ==> y == toward(start.1, end.1, i) && x == toward(start.0, end.0, k),
                self@.width == w,
                self@.height == old(self)@.height,
                self@.buffer.len() == old(self)@.buffer.len(),
                forall|j: int|
                    0 <= j < self@.buffer.len() ==> #[trigger] self@.buffer[j] == if line_covers_upto(
                        w,
                        start,
                        end,
                        i,
                        j,
                    ) {
                        color
                    } else {
                        old(self)@.buffer[j]
                    },
            decreases maj - i,
        {
            assert(i < maj) by {
                if i == maj && maj > 0 {
                    assert(k == min) by (nonlinear_arith)
                        requires
                            2 * (maj * k) <= 2 * (min * maj) + maj,
                            2 * (min * maj) + maj < 2 * (maj * k) + 2 * maj,
                            maj > 0,
                    ;
                }
            }
            assert(min * (i + 1) == mi + min) by (nonlinear_arith)
                requires
                    mi == min * i,
            ;
            assert(maj * (k + 1) == mk + maj) by (nonlinear_arith)
                requires
                    mk == maj * k,
            ;
            if delta >= 0 {
                assert(k + 1 <= min) by (nonlinear_arith)
                    requires
                        2 * (mk + maj) <= 2 * (mi + min) + maj,
                        mk == maj * k,
                        mi == min * i,
                        i + 1 <= maj,
                        0 <= min,
                        maj > 0,
                ;
                delta += delta_2;
                if dx > dy {
                    y = if end.1 > start.1 { y + 1 } else { y - 1 };
                } else {
                    x = if end.0 > start.0 { x + 1 } else { x - 1 };
                }
                proof {
                    k = k + 1;
                    mk = mk + maj;
                }
            } else {
                delta += delta_1;
            }
            proof {
                mi = mi + min;
                assert(k <= min) by (nonlinear_arith)
                    requires
                        2 * mk <= 2 * mi + maj,
                        mk == maj * k,
                        mi == min * (i + 1),
                        i + 1 <= maj,
                        0 <= min,
                        maj > 0,
                ;
                assert((2 * maj) * k == 2 * mk && 2 * min * (i + 1) == 2 * mi) by (nonlinear_arith)
                    requires
                        mk == maj * k,
                        mi == min * (i + 1),
                ;
                lemma_floor(2 * min * (i + 1) + maj, 2 * maj, k);
                assert(line_point(start, end, i) == (x as int, y as int));
            }
            self.put_pixel(x, y, color);
            proof {
                assert forall|j: int| 0 <= j < self@.buffer.len() implies #[trigger] self@.buffer[j]
                    == if line_covers_upto(w, start, end, i + 1, j) {
                    color
                } else {
                    old(self)@.buffer[j]
                } by {
                    lemma_covers_step(w, start, end, i, j);
                }
            }
            if dx > dy {
                x = if end.0 > start.0 { x + 1 } else { x - 1 };
            } else {
                y = if end.1 > start.1 { y + 1 } else { y - 1 };
            }
            proof {
                i = i + 1;
            }
        }
    }

    pub fn buf_as_slice(&self) -> (r: &[u32])
        ensures
            r@ == self@.buffer,
    {
        self.buffer.as_slice()
    }

    /// Packs three channels as `0x00RRGGBB`.
    pub fn rgb_to_u32(r: u8, g: u8, b: u8) -> (c: u32)
        ensures
            c == r * 65536 + g * 256 + b,
    {
        let c = (r as u32) << 16 | (g as u32) << 8 | (b as u32);
        assert(c == r * 65536 + g * 256 + b) by (bit_vector)
            requires
                c == (r as u32) << 16 | (g as u32) << 8 | (b as u32),
        ;
        c
    }
}

} // verus!
