use blockworld::rect::Rectangle;
use blockworld::renderer::Renderer;
use blockworld::triangle::Triangle;

const W: u32 = 10;

fn canvas() -> Renderer {
    Renderer::new(vec![0u32; 100], W, 10)
}

fn lit(r: &Renderer, color: u32) -> Vec<(usize, usize)> {
    let mut v = Vec::new();
    for (i, c) in r.buf_as_slice().iter().enumerate() {
        if *c == color {
            v.push((i % W as usize, i / W as usize));
        }
    }
    v.sort();
    v
}

#[test]
fn rgb_packs_channels() {
    assert_eq!(Renderer::rgb_to_u32(255, 255, 255), 0x00ff_ffff);
    assert_eq!(Renderer::rgb_to_u32(1, 2, 3), 0x0001_0203);
    assert_eq!(Renderer::rgb_to_u32(176, 196, 222), 11584734);
}

#[test]
fn put_pixel_writes_row_major() {
    let mut r = canvas();
    r.put_pixel(3, 2, 7);
    assert_eq!(r.buf_as_slice()[23], 7);
    assert_eq!(lit(&r, 7), vec![(3, 2)]);
}

#[test]
fn put_pixel_past_the_buffer_is_ignored() {
    let mut r = canvas();
    r.put_pixel(0, 10, 7);
    r.put_pixel(usize::MAX, usize::MAX, 7);
    assert!(lit(&r, 7).is_empty());
}

#[test]
fn horizontal_line_stops_before_its_end() {
    let mut r = canvas();
    r.draw_line((1, 1), (4, 1), 1);
    assert_eq!(lit(&r, 1), vec![(1, 1), (2, 1), (3, 1)]);
}

#[test]
fn leftward_line_stops_before_its_end() {
    let mut r = canvas();
    r.draw_line((4, 1), (1, 1), 1);
    assert_eq!(lit(&r, 1), vec![(2, 1), (3, 1), (4, 1)]);
}

#[test]
fn diagonal_line_staircases() {
    let mut r = canvas();
    r.draw_line((0, 0), (3, 3), 1);
    assert_eq!(lit(&r, 1), vec![(0, 0), (1, 0), (2, 1), (3, 2)]);
}

#[test]
fn shallow_line_rounds_minor_axis() {
    let mut r = canvas();
    r.draw_line((0, 0), (6, 2), 1);
    assert_eq!(lit(&r, 1), vec![(0, 0), (1, 1), (2, 1), (3, 1), (4, 2), (5, 2)]);
}

#[test]
fn steep_line_rounds_minor_axis() {
    let mut r = canvas();
    r.draw_line((2, 0), (3, 5), 1);
    assert_eq!(lit(&r, 1), vec![(2, 0), (2, 1), (3, 2), (3, 3), (3, 4)]);
}

#[test]
fn point_line_paints_one_pixel() {
    let mut r = canvas();
    r.draw_line((5, 5), (5, 5), 1);
    assert_eq!(lit(&r, 1), vec![(5, 5)]);
}

#[test]
fn triangle_orders_points_by_row_then_column() {
    let mut r = canvas();
    let t = r.triangle((4, 0), (0, 4), (0, 0), 1);
    t.outline(&mut r);
    let u = Triangle::new((0, 0), (4, 0), (0, 4), 2);
    u.outline(&mut r);
    assert_eq!(lit(&r, 1), Vec::<(usize, usize)>::new());
    let mut a = canvas();
    let mut b = canvas();
    t.outline(&mut a);
    Triangle::new((0, 4), (4, 0), (0, 0), 1).outline(&mut b);
    assert_eq!(a.buf_as_slice(), b.buf_as_slice());
}

#[test]
fn right_triangle_fill() {
    let mut r = canvas();
    Triangle::new((0, 0), (4, 0), (0, 4), 1).fill(&mut r);
    assert_eq!(
        lit(&r, 1),
        vec![(0, 4), (1, 0), (1, 1), (1, 2), (1, 3), (2, 0), (2, 1), (2, 2), (3, 0), (3, 1), (4, 0)]
    );
}

#[test]
fn scalene_triangle_fill() {
    let mut r = canvas();
    Triangle::new((1, 1), (5, 3), (2, 6), 1).fill(&mut r);
    assert_eq!(
        lit(&r, 1),
        vec![
            (1, 1),
            (2, 2),
            (2, 3),
            (2, 4),
            (2, 5),
            (2, 6),
            (3, 2),
            (3, 3),
            (3, 4),
            (3, 5),
            (4, 3),
            (4, 4),
            (5, 3)
        ]
    );
}

#[test]
fn rectangle_scanline_fill() {
    let mut r = canvas();
    Rectangle::new((1, 1), (3, 2), 1).fill(&mut r);
    assert_eq!(
        lit(&r, 1),
        vec![(1, 1), (1, 2), (1, 3), (2, 1), (2, 2), (2, 3), (3, 1), (3, 2), (3, 3)]
    );
}

#[test]
fn rectangle_outline_is_drawn_over_the_body() {
    let mut r = canvas();
    let mut rect = Rectangle::new((1, 1), (3, 2), 1);
    rect.with_outline(2);
    rect.fill(&mut r);
    assert_eq!(
        lit(&r, 2),
        vec![(1, 1), (1, 2), (1, 3), (2, 1), (2, 3), (3, 1), (3, 3), (4, 2), (4, 3)]
    );
    assert_eq!(lit(&r, 1), vec![(2, 2), (3, 2)]);
}

#[test]
fn rectangle_builders_and_getters() {
    let mut r = canvas();
    let mut rect = r.rect((1, 2), (3, 4), 5);
    assert_eq!(rect.get_position(), (1, 2));
    assert_eq!(rect.get_size(), (3, 4));
    rect.with_position((7, 8));
    assert_eq!(rect.get_position(), (7, 8));
    assert_eq!(rect.get_size(), (3, 4));
}
