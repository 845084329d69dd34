use blockworld::collision::{boxes_overlap, classify};
use blockworld::component::{Collider, CollisionSide, Position, PositionType};
use blockworld::error::ComponentError;
use blockworld::world::{ComponentStorage, World};

fn boxed(world: &mut World, x: isize, y: isize, offset: (isize, isize), size: (usize, usize)) -> u32 {
    let e = world.spawn();
    world
        .add_component(e, Position { x, y, position_type: PositionType::Abs })
        .add_component(e, Collider { offset, size });
    e
}

#[test]
fn contained_box_reports_only_contained() {
    let mut world = World::new();
    let a = boxed(&mut world, 5, 5, (0, 0), (10, 10));
    let b = boxed(&mut world, 5, 5, (-1, -1), (12, 12));
    let info = world.get_collision(a).unwrap();
    assert_eq!(info.collision.len(), 1);
    let hit = &info.collision[&b];
    assert_eq!(hit.entity_id, b);
    assert_eq!(hit.sides, vec![CollisionSide::Contained { x: 1, y: 1 }]);
}

#[test]
fn contained_box_classification() {
    let sides = classify(((1, 1), (11, 11)), ((0, 0), (12, 12)));
    assert_eq!(sides, vec![CollisionSide::Contained { x: 1, y: 1 }]);
}

#[test]
fn edge_touching_boxes_do_not_overlap() {
    let mut world = World::new();
    let a = boxed(&mut world, 0, 0, (0, 0), (10, 10));
    let b = boxed(&mut world, 10, 0, (0, 0), (10, 10));
    let info = world.get_collision(a).unwrap();
    assert!(!info.collision.contains_key(&b));
    assert!(!boxes_overlap(((0, 0), (10, 10)), ((10, 0), (20, 10))));
}

#[test]
fn edge_touching_seen_from_the_right_is_left_contact() {
    let mut world = World::new();
    let a = boxed(&mut world, 0, 0, (0, 0), (10, 10));
    let b = boxed(&mut world, 10, 0, (0, 0), (10, 10));
    let info = world.get_collision(b).unwrap();
    assert_eq!(info.collision[&a].sides, vec![CollisionSide::Left(0)]);
}

#[test]
fn separated_boxes_collide_in_neither_direction() {
    let mut world = World::new();
    let a = boxed(&mut world, 0, 0, (0, 0), (10, 10));
    let b = boxed(&mut world, 11, 0, (0, 0), (10, 10));
    assert!(world.get_collision(a).unwrap().collision.is_empty());
    assert!(world.get_collision(b).unwrap().collision.is_empty());
}

#[test]
fn query_excludes_itself_and_its_children() {
    let mut world = World::new();
    let piece = boxed(&mut world, 0, 0, (0, 0), (20, 20));
    let block = boxed(&mut world, 0, 0, (0, 0), (10, 10));
    let stranger = boxed(&mut world, 5, 5, (0, 0), (10, 10));
    world.set_parent(block, piece);
    let info = world.get_collision(piece).unwrap();
    assert!(!info.collision.contains_key(&piece));
    assert!(!info.collision.contains_key(&block));
    assert!(info.collision.contains_key(&stranger));
    let from_block = world.get_collision(block).unwrap();
    assert!(from_block.collision.contains_key(&piece));
}

#[test]
fn block_sinking_into_floor_reports_top_and_bottom() {
    let mut world = World::new();
    let block = boxed(&mut world, 2, 0, (0, 0), (6, 10));
    let floor = boxed(&mut world, 0, 9, (0, 0), (30, 11));
    let info = world.get_collision(block).unwrap();
    assert_eq!(
        info.collision[&floor].sides,
        vec![CollisionSide::Top(1), CollisionSide::Bottom(1)]
    );
}

#[test]
fn block_on_floor_edge_with_shared_left_edge() {
    let sides = classify(((0, 0), (10, 10)), ((0, 5), (30, 15)));
    assert_eq!(
        sides,
        vec![CollisionSide::Top(5), CollisionSide::Bottom(5), CollisionSide::Left(10)]
    );
}

#[test]
fn corner_overlap_reports_two_sides() {
    let sides = classify(((0, 0), (10, 10)), ((5, 5), (20, 20)));
    assert_eq!(
        sides,
        vec![
            CollisionSide::Top(5),
            CollisionSide::Bottom(5),
            CollisionSide::Left(5),
            CollisionSide::Right(5)
        ]
    );
}

#[test]
fn block_across_wall_edge_reports_left_and_right() {
    let sides = classify(((10, 10), (20, 20)), ((15, 0), (40, 40)));
    assert_eq!(sides, vec![CollisionSide::Left(5), CollisionSide::Right(5)]);
}

#[test]
fn tall_box_through_band_reports_top_and_bottom() {
    let sides = classify(((5, 5), (15, 25)), ((0, 10), (30, 20)));
    assert_eq!(sides, vec![CollisionSide::Top(10), CollisionSide::Bottom(10)]);
}

#[test]
fn collider_offset_wraps_and_extends() {
    let c = Collider { offset: (0, -1), size: (45, 46) };
    assert_eq!(c.get_points((100, 20)), ((100, 19), (145, 65)));
    let c = Collider { offset: (3, 4), size: (1, 2) };
    assert_eq!(c.get_points((0, 0)), ((3, 4), (4, 6)));
}

#[test]
fn query_without_collider_is_not_attached() {
    let mut world = World::new();
    let e = world.spawn();
    let ComponentError::NotAttached(name, id) = world.get_collision(e).unwrap_err();
    assert_eq!(name, "Collider");
    assert_eq!(id, e);
}

#[test]
fn query_without_position_is_not_attached() {
    let mut world = World::new();
    let e = world.spawn();
    world.add_component(e, Collider { offset: (0, 0), size: (1, 1) });
    let ComponentError::NotAttached(name, id) = world.get_collision(e).unwrap_err();
    assert_eq!(name, "Position");
    assert_eq!(id, e);
}

#[test]
fn other_without_position_is_not_attached() {
    let mut world = World::new();
    let a = boxed(&mut world, 0, 0, (0, 0), (10, 10));
    let b = world.spawn();
    world.add_component(b, Collider { offset: (0, 0), size: (1, 1) });
    let ComponentError::NotAttached(name, id) = world.get_collision(a).unwrap_err();
    assert_eq!(name, "Position");
    assert_eq!(id, b);
}

#[test]
fn negative_overhang_wraps_without_panicking() {
    let c = Collider { offset: (0, -1), size: (45, 46) };
    assert_eq!(c.get_points((0, 0)), ((0, usize::MAX), (45, 45)));
}

#[test]
fn box_hanging_above_the_top_edge_meets_nothing() {
    let mut world = World::new();
    let a = boxed(&mut world, 0, 0, (0, -1), (10, 11));
    let b = boxed(&mut world, 5, 5, (0, 0), (10, 10));
    assert!(world.get_collision(a).unwrap().collision.is_empty());
    assert!(world.get_collision(b).unwrap().collision.is_empty());
    assert!(!boxes_overlap(((0, usize::MAX), (10, 10)), ((5, 5), (15, 15))));
}
