//! Component kinds stored by the world, and the records returned by
//! collision queries.
use vstd::prelude::*;
use std::collections::{HashMap, HashSet};
use crate::render::Point;

verus! {

broadcast use vstd::std_specs::hash::group_hash_axioms;

/// Identifier of an entity; `0` is never issued and serves as "no entity".
pub type EntityId = u32;

/// Marker for the kinds of data that can be attached to an entity.
pub trait Component {
}

/// Whether a position is in world pixels or relative to the parent.
#[derive(PartialEq, Eq, Structural, Clone, Copy, Debug)]
pub enum PositionType {
    Abs,
    Rel,
}

/// Location of an entity in whole pixels.
#[derive(Clone, Copy, Debug)]
pub struct Position {
    pub x: isize,
    pub y: isize,
    pub position_type: PositionType,
}

impl Component for Position {
}

/// Orientation of an entity, in rotation steps.
#[derive(Clone, Copy, Debug)]
pub struct Rotation {
    pub x: u16,
}

impl Component for Rotation {
}

/// The box an entity collides with: a signed offset from its resolved
/// position and a width and height.
#[derive(Clone, Copy, Debug)]
pub struct Collider {
    pub offset: (isize, isize),
    pub size: (usize, usize),
}

impl Component for Collider {
}

/// `p` moved by `d`, wrapping around the unsigned pixel space.
pub open spec fn shift_wrapping(p: usize, d: isize) -> usize {
    vstd::wrapping::usize_specs::wrapping_add_signed(p, d)
}

impl Collider {
    /// Near and far corner of the box when its entity stands at `entity_pos`:
    /// the near corner is the position moved by the offset, the far corner
    /// the near one moved by the size, both wrapping around the unsigned
    /// pixel space, so that a small negative overhang is tolerated.
    pub open spec fn points_at(&self, entity_pos: Point) -> (Point, Point) {
        let x = shift_wrapping(entity_pos.0, self.offset.0);
        let y = shift_wrapping(entity_pos.1, self.offset.1);
        (
            (x, y),
            (
                vstd::wrapping::usize_specs::wrapping_add(x, self.size.0),
                vstd::wrapping::usize_specs::wrapping_add(y, self.size.1),
            ),
        )
    }

    pub fn get_points(&self, entity_pos: Point) -> (r: (Point, Point))
        ensures
            r == self.points_at(entity_pos),
    {
        let collider_position = (
            entity_pos.0.wrapping_add_signed(self.offset.0),
            entity_pos.1.wrapping_add_signed(self.offset.1),
        );
        (
            (collider_position.0, collider_position.1),
            (
                collider_position.0.wrapping_add(self.size.0),
                collider_position.1.wrapping_add(self.size.1),
            ),
        )
    }
}

/// How a queried box meets another one.
#[derive(PartialEq, Eq, Structural, Clone, Copy, Hash, Debug)]
pub enum CollisionSide {
    Left(usize),
    Right(usize),
    Top(usize),
    Bottom(usize),
    /// Strictly inside the other box, at this offset from its near corner.
    Contained { x: usize, y: usize },
}

/// The contact with one other entity.
#[derive(Debug)]
pub struct Collision {
    pub entity_id: EntityId,
    /// The sides, each at most once.
    pub sides: Vec<CollisionSide>,
}

impl Collision {
    pub fn new(entity_id: EntityId, sides: Vec<CollisionSide>) -> (r: Self)
        ensures
            r.entity_id == entity_id,
            r.sides@ == sides@,
    {
        Self { entity_id, sides }
    }
}

/// All contacts found by one query, keyed by the other entity.
#[derive(Debug)]
pub struct CollisionInfo {
    pub collision: HashMap<EntityId, Collision>,
}

impl Default for CollisionInfo {
    fn default() -> (r: Self)
        ensures
            r.collision@ == Map::<EntityId, Collision>::empty(),
    {
        CollisionInfo { collision: HashMap::new() }
    }
}

impl CollisionInfo {
    pub fn add_collision(&mut self, entity_id: EntityId, collision_sides: Vec<CollisionSide>)
        ensures
            final(self).collision@.dom() == old(self).collision@.dom().insert(entity_id),
            final(self).collision@[entity_id].entity_id == entity_id,
            final(self).collision@[entity_id].sides@ == collision_sides@,
            forall|k: EntityId|
                k != entity_id && #[trigger] old(self).collision@.contains_key(k)
                    ==> final(self).collision@[k] == old(self).collision@[k],
    {
        self.collision.insert(entity_id, Collision::new(entity_id, collision_sides));
    }
}

/// The entities an entity leads: used to navigate the hierarchy and to
/// leave them out of its collision queries.
pub struct Children {
    entities: HashSet<EntityId>,
}

impl View for Children {
    type V = Set<EntityId>;

    closed spec fn view(&self) -> Set<EntityId> {
        self.entities@
    }
}

impl Component for Children {
}

impl Default for Children {
    fn default() -> (r: Self)
        ensures
            r@ == Set::<EntityId>::empty(),
    {
        Children { entities: HashSet::new() }
    }
}

impl Children {
    pub fn entities(&self) -> (r: &HashSet<EntityId>)
        ensures
            r@ == self@,
    {
        &self.entities
    }

    pub fn add_entity(&mut self, entity_id: EntityId)
        ensures
            final(self)@ == old(self)@.insert(entity_id),
    {
        self.entities.insert(entity_id);
    }
}

/// The one entity this entity hangs from.
#[derive(Clone, Copy, Debug)]
pub struct Parent {
    pub entity: EntityId,
}

impl Component for Parent {
}

/// Footprint in pixels, independent of the collision box.
#[derive(Clone, Copy, Debug)]
pub struct Size {
    pub x: usize,
    pub y: usize,
}

impl Component for Size {
}

} // verus!
