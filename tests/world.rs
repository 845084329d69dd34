use blockworld::component::{
    Children, Collider, Parent, Position, PositionType, Rotation, Size,
};
use blockworld::world::{ComponentStorage, World};

fn abs(x: isize, y: isize) -> Position {
    Position { x, y, position_type: PositionType::Abs }
}

fn rel(x: isize, y: isize) -> Position {
    Position { x, y, position_type: PositionType::Rel }
}

#[test]
fn spawn_issues_increasing_ids_from_one() {
    let mut world = World::new();
    let a = world.spawn();
    let b = world.spawn();
    let c = world.spawn();
    assert_eq!((a, b, c), (1, 2, 3));
    assert!(world.fetch::<Position>(a).is_none());
    assert!(world.fetch::<Size>(a).is_none());
}

#[test]
fn add_component_chains_and_overwrites() {
    let mut world = World::new();
    let e = world.spawn();
    world
        .add_component(e, abs(3, 4))
        .add_component(e, Size { x: 10, y: 20 })
        .add_component(e, Rotation { x: 90 });
    world.add_component(e, abs(7, 8));
    let p = world.fetch::<Position>(e).unwrap();
    assert_eq!((p.x, p.y), (7, 8));
    let s = world.fetch::<Size>(e).unwrap();
    assert_eq!((s.x, s.y), (10, 20));
    assert_eq!(world.fetch::<Rotation>(e).unwrap().x, 90);
}

#[test]
fn get_mut_changes_the_stored_component() {
    let mut world = World::new();
    let e = world.spawn();
    world.add_component(e, abs(3, 4));
    {
        let p = world.get_mut::<Position>(e).unwrap();
        p.y += 45;
    }
    assert_eq!(world.get_abs_pos(e).unwrap(), (3, 49));
    assert!(world.get_mut::<Size>(e).is_none());
}

#[test]
fn absolute_position_resolves_to_its_coordinates() {
    let mut world = World::new();
    let e = world.spawn();
    world.add_component(e, abs(12, 7));
    assert_eq!(world.get_abs_pos(e).unwrap(), (12, 7));
}

#[test]
fn absolute_position_ignores_parent() {
    let mut world = World::new();
    let p = world.spawn();
    let e = world.spawn();
    world.add_component(p, abs(100, 100));
    world.add_component(e, abs(12, 7));
    world.set_parent(e, p);
    assert_eq!(world.get_abs_pos(e).unwrap(), (12, 7));
}

#[test]
fn negative_coordinates_truncate_to_zero() {
    let mut world = World::new();
    let e = world.spawn();
    world.add_component(e, abs(-5, 9));
    assert_eq!(world.get_abs_pos(e).unwrap(), (0, 9));
}

#[test]
fn relative_without_parent_is_from_origin() {
    let mut world = World::new();
    let e = world.spawn();
    world.add_component(e, rel(30, 40));
    assert_eq!(world.get_abs_pos(e).unwrap(), (30, 40));
}

#[test]
fn relative_adds_parent_position() {
    let mut world = World::new();
    let p = world.spawn();
    let e = world.spawn();
    world.add_component(p, abs(100, 20));
    world.add_component(e, rel(45, 90));
    world.set_parent(e, p);
    assert_eq!(world.get_abs_pos(e).unwrap(), (145, 110));
}

#[test]
fn translating_chain_root_translates_leaf() {
    let mut world = World::new();
    let a = world.spawn();
    let b = world.spawn();
    let c = world.spawn();
    world.add_component(a, abs(100, 20));
    world.add_component(b, rel(180, 0));
    world.add_component(c, rel(45, 45));
    world.set_parent(b, a);
    world.set_parent(c, b);
    let before = world.get_abs_pos(c).unwrap();
    assert_eq!(before, (325, 65));
    {
        let pa = world.get_mut::<Position>(a).unwrap();
        pa.x += 7;
        pa.y += 11;
    }
    let after = world.get_abs_pos(c).unwrap();
    assert_eq!(after, (before.0 + 7, before.1 + 11));
}

#[test]
fn missing_position_is_not_attached() {
    let mut world = World::new();
    let e = world.spawn();
    let err = world.get_abs_pos(e).unwrap_err();
    let blockworld::error::ComponentError::NotAttached(name, id) = err;
    assert_eq!(name, "Position");
    assert_eq!(id, e);
}

#[test]
fn missing_parent_position_names_the_parent() {
    let mut world = World::new();
    let p = world.spawn();
    let e = world.spawn();
    world.add_component(e, rel(1, 1));
    world.set_parent(e, p);
    let blockworld::error::ComponentError::NotAttached(name, id) =
        world.get_abs_pos(e).unwrap_err();
    assert_eq!(name, "Position");
    assert_eq!(id, p);
}

#[test]
fn set_parent_links_both_ways() {
    let mut world = World::new();
    let p = world.spawn();
    let c = world.spawn();
    world.set_parent(c, p);
    assert_eq!(world.fetch::<Parent>(c).unwrap().entity, p);
    assert!(world.fetch::<Children>(p).unwrap().entities().contains(&c));
    world.set_parent(c, p);
    assert_eq!(world.fetch::<Children>(p).unwrap().entities().len(), 1);
}

#[test]
fn reparenting_keeps_stale_membership() {
    let mut world = World::new();
    let a = world.spawn();
    let b = world.spawn();
    let child = world.spawn();
    world.set_parent(child, a);
    world.set_parent(child, b);
    assert_eq!(world.fetch::<Parent>(child).unwrap().entity, b);
    assert!(world.fetch::<Children>(a).unwrap().entities().contains(&child));
    assert!(world.fetch::<Children>(b).unwrap().entities().contains(&child));
}

#[test]
fn remove_entity_unlinks_children_and_keeps_their_data() {
    let mut world = World::new();
    let parent = world.spawn();
    let kid = world.spawn();
    let other = world.spawn();
    world
        .add_component(parent, abs(10, 10))
        .add_component(parent, Size { x: 1, y: 1 })
        .add_component(parent, Rotation { x: 1 })
        .add_component(parent, Collider { offset: (0, 0), size: (5, 5) });
    world.add_component(kid, rel(3, 4)).add_component(kid, Size { x: 2, y: 2 });
    world.set_parent(kid, parent);
    world.set_parent(parent, other);
    world.remove_entity(parent);
    assert!(world.fetch::<Position>(parent).is_none());
    assert!(world.fetch::<Size>(parent).is_none());
    assert!(world.fetch::<Rotation>(parent).is_none());
    assert!(world.fetch::<Collider>(parent).is_none());
    assert!(world.fetch::<Children>(parent).is_none());
    assert!(world.fetch::<Parent>(parent).is_none());
    assert!(world.fetch::<Parent>(kid).is_none());
    let kp = world.fetch::<Position>(kid).unwrap();
    assert_eq!((kp.x, kp.y), (3, 4));
    assert_eq!(world.fetch::<Size>(kid).unwrap().x, 2);
    assert_eq!(world.get_abs_pos(kid).unwrap(), (3, 4));
}

#[test]
fn remove_entity_without_children_only_drops_own_data() {
    let mut world = World::new();
    let a = world.spawn();
    let b = world.spawn();
    world.add_component(a, abs(1, 1));
    world.add_component(b, abs(2, 2));
    world.remove_entity(a);
    assert!(world.fetch::<Position>(a).is_none());
    assert_eq!(world.get_abs_pos(b).unwrap(), (2, 2));
}
