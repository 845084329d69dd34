//! The world: entity allocation, one table per component kind, the
//! parent/child hierarchy and collision queries.
use vstd::prelude::*;
use std::collections::{HashMap, HashSet};
use vstd::std_specs::hash::{spec_hash_keys_iter, spec_hash_map_iter};
use vstd::std_specs::iter::IteratorSpec;
use std::collections::hash_map::Entry;
use crate::collision::{boxes_overlap, classify, contact_sides, overlaps, Corners};
use crate::component::{
    Children, Collider, CollisionInfo, Component, EntityId, Parent, Position, PositionType, Rotation,
    Size,
};
use crate::error::ComponentError;
use crate::render::Point;

verus! {

broadcast use vstd::std_specs::hash::group_hash_axioms;

/// Something backed by an entity of the world.
pub trait Entity {
    /// The entity behind this value.
    spec fn id(&self) -> EntityId;

    fn get_id(&self) -> (r: EntityId)
        ensures
            r == self.id(),
    ;
}

/// Abstract state of a world: one map per component kind, and the next
/// identifier to issue.
pub struct WorldView {
    pub positions: Map<EntityId, Position>,
    pub colliders: Map<EntityId, Collider>,
    pub rotations: Map<EntityId, Rotation>,
    pub children: Map<EntityId, Children>,
    pub sizes: Map<EntityId, Size>,
    pub parents: Map<EntityId, Parent>,
    pub next_id: EntityId,
}

/// The pixel a whole-pixel coordinate truncates to: negative ones to `0`.
pub open spec fn pixel(c: isize) -> int {
    if c < 0 {
        0
    } else {
        c as int
    }
}

impl WorldView {
    /// The entities `id` leads; empty when it has no Children entry.
    pub open spec fn children_of(self, id: EntityId) -> Set<EntityId> {
        if self.children.contains_key(id) {
            self.children[id]@
        } else {
            Set::empty()
        }
    }

    /// `id` has a Relative position and a parent, so resolving it goes on
    /// to the parent.
    pub open spec fn follows_parent(self, id: EntityId) -> bool {
        &&& self.positions.contains_key(id)
        &&& self.positions[id].position_type == PositionType::Rel
        &&& self.parents.contains_key(id)
    }

    /// The chain of relative links from `id` ends within `n` entities.
    pub open spec fn chain_ends_within(self, id: EntityId, n: nat) -> bool
        decreases n,
    {
        n > 0 && (!self.follows_parent(id) || self.chain_ends_within(
            self.parents[id].entity,
            (n - 1) as nat,
        ))
    }

    /// The chain of relative links from `x` reaches `a` within `n` entities.
    pub open spec fn on_chain(self, x: EntityId, a: EntityId, n: nat) -> bool
        decreases n,
    {
        n > 0 && (x == a || (self.follows_parent(x) && self.on_chain(
            self.parents[x].entity,
            a,
            (n - 1) as nat,
        )))
    }

    /// The chain of relative links from `id` is finite (no cycle).
    pub open spec fn chain_ends(self, id: EntityId) -> bool {
        exists|n: nat| self.chain_ends_within(id, n)
    }

    /// A length within which the chain from `id` ends.
    pub open spec fn chain_len(self, id: EntityId) -> nat {
        choose|n: nat| self.chain_ends_within(id, n)
    }

    /// Position of `id` resolved along at most `n` links: the pixel
    /// coordinates, or the first entity of the chain without a position.
    pub open spec fn resolve(self, id: EntityId, n: nat) -> Result<(int, int), EntityId>
        decreases n,
    {
        if !self.positions.contains_key(id) {
            Err(id)
        } else {
            let own = (pixel(self.positions[id].x), pixel(self.positions[id].y));
            if self.follows_parent(id) && n > 0 {
                match self.resolve(self.parents[id].entity, (n - 1) as nat) {
                    Ok(p) => Ok((own.0 + p.0, own.1 + p.1)),
                    Err(e) => Err(e),
                }
            } else {
                Ok(own)
            }
        }
    }

    /// Absolute pixel position of `id`, or the entity whose missing
    /// position stops the resolution.
    pub open spec fn abs_pos(self, id: EntityId) -> Result<(int, int), EntityId> {
        self.resolve(id, self.chain_len(id))
    }

    /// `id` can be resolved: its chain is finite and the result fits.
    pub open spec fn resolvable(self, id: EntityId) -> bool {
        &&& self.chain_ends(id)
        &&& match self.abs_pos(id) {
            Ok(p) => p.0 <= usize::MAX && p.1 <= usize::MAX,
            Err(_) => true,
        }
    }

    /// The resolved position of `id` as pixel coordinates.
    pub open spec fn abs_point(self, id: EntityId) -> Point {
        let p = self.abs_pos(id)->Ok_0;
        (p.0 as usize, p.1 as usize)
    }

    /// The collision box of `id`.
    pub open spec fn collision_box(self, id: EntityId) -> Corners {
        self.colliders[id].points_at(self.abs_point(id))
    }

    /// `other` is left out of the queries of `id`: itself, or one of its
    /// children.
    pub open spec fn excluded(self, id: EntityId, other: EntityId) -> bool {
        other == id || self.children_of(id).contains(other)
    }

    /// The entities a query of `id` examines.
    pub open spec fn candidate(self, id: EntityId, other: EntityId) -> bool {
        self.colliders.contains_key(other) && !self.excluded(id, other)
    }

    /// A query of `id` can run to its end: the positions it resolves have
    /// finite chains and fit the pixel space.
    pub open spec fn collision_ready(self, id: EntityId) -> bool {
        self.colliders.contains_key(id) ==> {
            &&& self.resolvable(id)
            &&& forall|k: EntityId| #[trigger] self.candidate(id, k) ==> self.resolvable(k)
        }
    }

    /// `other` is reported by a query of `id`.
    pub open spec fn hit(self, id: EntityId, other: EntityId) -> bool {
        self.candidate(id, other) && overlaps(self.collision_box(id), self.collision_box(other))
    }

    /// Every candidate of a query of `id` has a resolvable position.
    pub open spec fn candidates_placed(self, id: EntityId) -> bool {
        forall|k: EntityId| #[trigger] self.candidate(id, k) ==> self.abs_pos(k) is Ok
    }
    /// This state after removing `id`: its Position, Size, Collider,
    /// Rotation, Children entry and Parent link are gone, and so is the
    /// Parent link of each of its children.
    pub open spec fn removed(self, id: EntityId) -> WorldView {
        WorldView {
            positions: self.positions.remove(id),
            sizes: self.sizes.remove(id),
            colliders: self.colliders.remove(id),
            rotations: self.rotations.remove(id),
            children: self.children.remove(id),
            parents: self.parents.remove_keys(self.children_of(id)).remove(id),
            next_id: self.next_id,
        }
    }

    /// `next` is this state after making `parent` the parent of `child`:
    /// the Parent link of `child` is overwritten, `child` joins the
    /// children of `parent`, and nothing else changes.
    pub open spec fn parent_set(self, next: WorldView, child: EntityId, parent: EntityId) -> bool {
        &&& next.parents == self.parents.insert(child, Parent { entity: parent })
        &&& next.children.dom() == self.children.dom().insert(parent)
        &&& next.children_of(parent) == self.children_of(parent).insert(child)
        &&& forall|k: EntityId|
            k != parent && #[trigger] self.children.contains_key(k) ==> next.children[k]
                == self.children[k]
        &&& next.positions == self.positions
        &&& next.colliders == self.colliders
        &&& next.rotations == self.rotations
        &&& next.sizes == self.sizes
        &&& next.next_id == self.next_id
    }
}

/// An entity with an Absolute position resolves to its own coordinates
/// truncated to pixels, whatever its parent.
pub proof fn lemma_absolute_position(v: WorldView, id: EntityId)
    requires
        v.positions.contains_key(id),
        v.positions[id].position_type == PositionType::Abs,
    ensures
        v.chain_ends(id),
        v.abs_pos(id) == Ok::<(int, int), EntityId>(
            (pixel(v.positions[id].x), pixel(v.positions[id].y)),
        ),
{
    assert(v.chain_ends_within(id, 1));
}

/// The resolution along `n` links does not depend on `n` once the chain
/// ends within it.
proof fn lemma_resolve_stable(v: WorldView, id: EntityId, n: nat, m: nat)
    requires
        v.chain_ends_within(id, n),
        n <= m,
    ensures
        v.resolve(id, n) == v.resolve(id, m),
        v.chain_ends_within(id, m),
    decreases n,
{
    if v.follows_parent(id) {
        lemma_resolve_stable(v, v.parents[id].entity, (n - 1) as nat, (m - 1) as nat);
    }
}

/// Moving `a` to `moved`, a position of the same kind, keeps every chain
/// of relative links as it was.
proof fn lemma_same_chains(v: WorldView, a: EntityId, moved: Position, x: EntityId, n: nat)
    requires
        v.positions.contains_key(a),
        moved.position_type == v.positions[a].position_type,
    ensures
        (WorldView { positions: v.positions.insert(a, moved), ..v }).chain_ends_within(x, n)
            == v.chain_ends_within(x, n),
    decreases n,
{
    if n > 0 && v.follows_parent(x) {
        lemma_same_chains(v, a, moved, v.parents[x].entity, (n - 1) as nat);
    }
}

/// An entity whose chain does not reach `a` resolves alike after `a` moves.
proof fn lemma_resolve_elsewhere(v: WorldView, a: EntityId, moved: Position, x: EntityId, n: nat)
    requires
        v.positions.contains_key(a),
        moved.position_type == v.positions[a].position_type,
        !v.on_chain(x, a, n + 1),
    ensures
        (WorldView { positions: v.positions.insert(a, moved), ..v }).resolve(x, n) == v.resolve(x, n),
    decreases n,
{
    if n > 0 && v.follows_parent(x) {
        lemma_resolve_elsewhere(v, a, moved, v.parents[x].entity, (n - 1) as nat);
    }
}

/// Where a finite chain from `x` reaches `a`, the chain from `a` ends
/// within no more entities.
proof fn lemma_reach(v: WorldView, x: EntityId, a: EntityId, m: nat, n: nat) -> (n2: nat)
    requires
        v.on_chain(x, a, m),
        v.chain_ends_within(x, n),
    ensures
        n2 <= n,
        v.chain_ends_within(a, n2),
    decreases m,
{
    if x == a {
        n
    } else {
        lemma_reach(v, v.parents[x].entity, a, (m - 1) as nat, (n - 1) as nat)
    }
}

/// A finite chain never comes back to where it started.
proof fn lemma_no_return(v: WorldView, a: EntityId, n: nat, m: nat)
    requires
        v.chain_ends_within(a, n),
        v.follows_parent(a),
    ensures
        !v.on_chain(v.parents[a].entity, a, m),
    decreases n,
{
    if v.on_chain(v.parents[a].entity, a, m) {
        let n2 = lemma_reach(v, v.parents[a].entity, a, m, (n - 1) as nat);
        lemma_no_return(v, a, n2, m);
    }
}

/// In a chain A → B → C, where B and C are Relative and hang from A and
/// B, moving A by `(dx, dy)` moves the resolved position of C by
/// `(dx, dy)`, as long as A's coordinates stay non-negative; when the
/// chain above A lacks a position, C fails alike before and after.
pub proof fn lemma_translate_chain_root(
    v: WorldView,
    a: EntityId,
    b: EntityId,
    c: EntityId,
    dx: int,
    dy: int,
    moved: Position,
)
    requires
        v.chain_ends(c),
        v.positions.contains_key(a),
        v.positions.contains_key(b),
        v.positions[b].position_type == PositionType::Rel,
        v.parents.contains_key(b),
        v.parents[b].entity == a,
        v.positions.contains_key(c),
        v.positions[c].position_type == PositionType::Rel,
        v.parents.contains_key(c),
        v.parents[c].entity == b,
        moved.position_type == v.positions[a].position_type,
        moved.x == v.positions[a].x + dx,
        moved.y == v.positions[a].y + dy,
        v.positions[a].x >= 0,
        v.positions[a].y >= 0,
        moved.x >= 0,
        moved.y >= 0,
    ensures
        ({
            let w = WorldView { positions: v.positions.insert(a, moved), ..v };
            &&& w.chain_ends(c)
            &&& match v.abs_pos(c) {
                Ok(p) => w.abs_pos(c) == Ok::<(int, int), EntityId>((p.0 + dx, p.1 + dy)),
                Err(e) => w.abs_pos(c) == Err::<(int, int), EntityId>(e),
            }
        }),
{
    let w = WorldView { positions: v.positions.insert(a, moved), ..v };
    let n = v.chain_len(c);
    lemma_same_chains(v, a, moved, c, n);
    let m = w.chain_len(c);
    lemma_same_chains(v, a, moved, c, m);
    let big = if n >= m { n } else { m };
    lemma_resolve_stable(v, c, n, big);
    lemma_resolve_stable(w, c, m, big);
    // the three entities are distinct, since the chain is finite
    lemma_no_return(v, c, big, 1);
    assert(b != c);
    lemma_no_return(v, c, big, 2);
    if a == c {
        assert(v.on_chain(a, c, 1));
        assert(v.on_chain(b, c, 2));
    }
    assert(v.chain_ends_within(b, (big - 1) as nat));
    lemma_no_return(v, b, (big - 1) as nat, 1);
    assert(a != b);
    assert(v.chain_ends_within(a, (big - 2) as nat));
    if v.follows_parent(a) {
        let p = v.parents[a].entity;
        lemma_no_return(v, a, (big - 2) as nat, (big - 2) as nat);
        lemma_resolve_elsewhere(v, a, moved, p, (big - 3) as nat);
    }
    assert(w.follows_parent(a) == v.follows_parent(a));
    assert(w.follows_parent(b) && w.follows_parent(c));
    assert(w.chain_ends_within(c, n));
    let ra = v.resolve(a, (big - 2) as nat);
    let wa = w.resolve(a, (big - 2) as nat);
    assert(match ra {
        Ok(q) => wa == Ok::<(int, int), EntityId>((q.0 + dx, q.1 + dy)),
        Err(e) => wa == Err::<(int, int), EntityId>(e),
    });
    let rb = v.resolve(b, (big - 1) as nat);
    let wb = w.resolve(b, (big - 1) as nat);
    assert(match rb {
        Ok(q) => wb == Ok::<(int, int), EntityId>((q.0 + dx, q.1 + dy)),
        Err(e) => wb == Err::<(int, int), EntityId>(e),
    });
    let rc = v.resolve(c, big);
    let wc = w.resolve(c, big);
    assert(match rc {
        Ok(q) => wc == Ok::<(int, int), EntityId>((q.0 + dx, q.1 + dy)),
        Err(e) => wc == Err::<(int, int), EntityId>(e),
    });
}

/// Making `a` and then `b` the parent of `child` leaves `b` as its
/// parent while both `a` and `b` list it among their children.
pub proof fn lemma_reparent_keeps_old_membership(
    v0: WorldView,
    v1: WorldView,
    v2: WorldView,
    child: EntityId,
    a: EntityId,
    b: EntityId,
)
    requires
        v0.parent_set(v1, child, a),
        v1.parent_set(v2, child, b),
    ensures
        v2.parents[child].entity == b,
        v2.children_of(a).contains(child),
        v2.children_of(b).contains(child),
{
    if a != b {
        assert(v1.children.contains_key(a));
    }
}

/// A box whose near x edge lies at or beyond the far x edge of the box of
/// `id` is not reported by a query of `id`; if it lies strictly beyond,
/// the box of `id` is not reported by a query of that entity either.
pub proof fn lemma_separated_on_x(v: WorldView, id: EntityId, other: EntityId)
    requires
        v.collision_box(other).0.0 >= v.collision_box(id).1.0,
    ensures
        !v.hit(id, other),
        v.collision_box(other).0.0 > v.collision_box(id).1.0 ==> !v.hit(other, id),
{
}

/// Typed access to the table of one component kind.
pub trait ComponentStorage<T: Component>: View {
    /// The table of this kind in a world state.
    spec fn table(v: Self::V) -> Map<EntityId, T>;

    /// The world state `v` with its table of this kind replaced by `t`.
    spec fn with_table(v: Self::V, t: Map<EntityId, T>) -> Self::V;

    /// Replacing the table then reading it gives the replacement; replacing
    /// it by itself changes nothing; a second replacement overrides the first.
    proof fn lemma_table_laws(v: Self::V, t: Map<EntityId, T>, u: Map<EntityId, T>)
        ensures
            Self::table(Self::with_table(v, t)) == t,
            Self::with_table(v, Self::table(v)) == v,
            Self::with_table(Self::with_table(v, t), u) == Self::with_table(v, u),
    ;

    /// Attaches `component` to `entity_id`, replacing one of the same kind.
    fn add_component(&mut self, entity_id: EntityId, component: T) -> (r: &mut Self)
        ensures
            r@ == Self::with_table(old(self)@, Self::table(old(self)@).insert(entity_id, component)),
            final(self)@ == final(r)@,
    ;

    fn fetch(&self, entity_id: EntityId) -> (r: Option<&T>)
        ensures
            match r {
                Some(c) => Self::table(self@).contains_key(entity_id) && *c == Self::table(
                    self@,
                )[entity_id],
                None => !Self::table(self@).contains_key(entity_id),
            },
    ;

    fn get_mut(&mut self, entity_id: EntityId) -> (r: Option<&mut T>)
        ensures
            match r {
                Some(c) => {
                    &&& Self::table(old(self)@).contains_key(entity_id)
                    &&& *c == Self::table(old(self)@)[entity_id]
                    &&& final(self)@ == Self::with_table(
                        old(self)@,
                        Self::table(old(self)@).insert(entity_id, *final(c)),
                    )
                },
                None => {
                    &&& !Self::table(old(self)@).contains_key(entity_id)
                    &&& final(self)@ == old(self)@
                },
            },
    ;
}

pub struct World {
    pub(crate) positions: HashMap<EntityId, Position>,
    pub(crate) colliders: HashMap<EntityId, Collider>,
    pub(crate) rotation: HashMap<EntityId, Rotation>,
    pub(crate) children: HashMap<EntityId, Children>,
    pub(crate) sizes: HashMap<EntityId, Size>,
    pub(crate) parent: HashMap<EntityId, Parent>,
    next_entity_id: IdCounter,
}

/// The next identifier to issue; `0` is never issued.
struct IdCounter {
    next: EntityId,
}

impl IdCounter {
    #[verifier::type_invariant]
    spec fn starts_at_one(&self) -> bool {
        self.next >= 1
    }

    spec fn peek(&self) -> EntityId {
        self.next
    }

    fn new() -> (r: Self)
        ensures
            r.peek() == 1,
    {
        IdCounter { next: 1 }
    }

    /// Hands out the next identifier.
    fn issue(&mut self) -> (r: EntityId)
        requires
            old(self).peek() < EntityId::MAX,
        ensures
            r == old(self).peek(),
            r >= 1,
            final(self).peek() == r + 1,
    {
        proof {
            use_type_invariant(&*self);
        }
        let r = self.next;
        self.next = r + 1;
        r
    }
}

impl View for World {
    type V = WorldView;

    closed spec fn view(&self) -> WorldView {
        WorldView {
            positions: self.positions@,
            colliders: self.colliders@,
            rotations: self.rotation@,
            children: self.children@,
            sizes: self.sizes@,
            parents: self.parent@,
            next_id: self.next_entity_id.peek(),
        }
    }
}

impl ComponentStorage<Position> for World {
    open spec fn table(v: WorldView) -> Map<EntityId, Position> {
        v.positions
    }

    open spec fn with_table(v: WorldView, t: Map<EntityId, Position>) -> WorldView {
        WorldView { positions: t, ..v }
    }

    proof fn lemma_table_laws(v: WorldView, t: Map<EntityId, Position>, u: Map<EntityId, Position>) {
    }

    fn add_component(&mut self, entity_id: EntityId, component: Position) -> (r: &mut Self) {
        self.positions.insert(entity_id, component);
        self
    }

    fn fetch(&self, entity_id: EntityId) -> (r: Option<&Position>) {
        self.positions.get(&entity_id)
    }

    fn get_mut(&mut self, entity_id: EntityId) -> (r: Option<&mut Position>) {
        if !self.positions.contains_key(&entity_id) {
            return None;
        }
        match self.positions.entry(entity_id) {
            Entry::Occupied(e) => Some(e.into_mut()),
            Entry::Vacant(_) => None,
        }
    }
}

impl ComponentStorage<Collider> for World {
    open spec fn table(v: WorldView) -> Map<EntityId, Collider> {
        v.colliders
    }

    open spec fn with_table(v: WorldView, t: Map<EntityId, Collider>) -> WorldView {
        WorldView { colliders: t, ..v }
    }

    proof fn lemma_table_laws(v: WorldView, t: Map<EntityId, Collider>, u: Map<EntityId, Collider>) {
    }

    fn add_component(&mut self, entity_id: EntityId, component: Collider) -> (r: &mut Self) {
        self.colliders.insert(entity_id, component);
        self
    }

    fn fetch(&self, entity_id: EntityId) -> (r: Option<&Collider>) {
        self.colliders.get(&entity_id)
    }

    fn get_mut(&mut self, entity_id: EntityId) -> (r: Option<&mut Collider>) {
        if !self.colliders.contains_key(&entity_id) {
            return None;
        }
        match self.colliders.entry(entity_id) {
            Entry::Occupied(e) => Some(e.into_mut()),
            Entry::Vacant(_) => None,
        }
    }
}

impl ComponentStorage<Rotation> for World {
    open spec fn table(v: WorldView) -> Map<EntityId, Rotation> {
        v.rotations
    }

    open spec fn with_table(v: WorldView, t: Map<EntityId, Rotation>) -> WorldView {
        WorldView { rotations: t, ..v }
    }

    proof fn lemma_table_laws(v: WorldView, t: Map<EntityId, Rotation>, u: Map<EntityId, Rotation>) {
    }

    fn add_component(&mut self, entity_id: EntityId, component: Rotation) -> (r: &mut Self) {
        self.rotation.insert(entity_id, component);
        self
    }

    fn fetch(&self, entity_id: EntityId) -> (r: Option<&Rotation>) {
        self.rotation.get(&entity_id)
    }

    fn get_mut(&mut self, entity_id: EntityId) -> (r: Option<&mut Rotation>) {
        if !self.rotation.contains_key(&entity_id) {
            return None;
        }
        match self.rotation.entry(entity_id) {
            Entry::Occupied(e) => Some(e.into_mut()),
            Entry::Vacant(_) => None,
        }
    }
}

impl ComponentStorage<Children> for World {
    open spec fn table(v: WorldView) -> Map<EntityId, Children> {
        v.children
    }

    open spec fn with_table(v: WorldView, t: Map<EntityId, Children>) -> WorldView {
        WorldView { children: t, ..v }
    }

    proof fn lemma_table_laws(v: WorldView, t: Map<EntityId, Children>, u: Map<EntityId, Children>) {
    }

    fn add_component(&mut self, entity_id: EntityId, component: Children) -> (r: &mut Self) {
        self.children.insert(entity_id, component);
        self
    }

    fn fetch(&self, entity_id: EntityId) -> (r: Option<&Children>) {
        self.children.get(&entity_id)
    }

    fn get_mut(&mut self, entity_id: EntityId) -> (r: Option<&mut Children>) {
        if !self.children.contains_key(&entity_id) {
            return None;
        }
        match self.children.entry(entity_id) {
            Entry::Occupied(e) => Some(e.into_mut()),
            Entry::Vacant(_) => None,
        }
    }
}

impl ComponentStorage<Size> for World {
    open spec fn table(v: WorldView) -> Map<EntityId, Size> {
        v.sizes
    }

    open spec fn with_table(v: WorldView, t: Map<EntityId, Size>) -> WorldView {
        WorldView { sizes: t, ..v }
    }

    proof fn lemma_table_laws(v: WorldView, t: Map<EntityId, Size>, u: Map<EntityId, Size>) {
    }

    fn add_component(&mut self, entity_id: EntityId, component: Size) -> (r: &mut Self) {
        self.sizes.insert(entity_id, component);
        self
    }

    fn fetch(&self, entity_id: EntityId) -> (r: Option<&Size>) {
        self.sizes.get(&entity_id)
    }

    fn get_mut(&mut self, entity_id: EntityId) -> (r: Option<&mut Size>) {
        if !self.sizes.contains_key(&entity_id) {
            return None;
        }
        match self.sizes.entry(entity_id) {
            Entry::Occupied(e) => Some(e.into_mut()),
            Entry::Vacant(_) => None,
        }
    }
}

impl ComponentStorage<Parent> for World {
    open spec fn table(v: WorldView) -> Map<EntityId, Parent> {
        v.parents
    }

    open spec fn with_table(v: WorldView, t: Map<EntityId, Parent>) -> WorldView {
        WorldView { parents: t, ..v }
    }

    proof fn lemma_table_laws(v: WorldView, t: Map<EntityId, Parent>, u: Map<EntityId, Parent>) {
    }

    fn add_component(&mut self, entity_id: EntityId, component: Parent) -> (r: &mut Self) {
        self.parent.insert(entity_id, component);
        self
    }

    fn fetch(&self, entity_id: EntityId) -> (r: Option<&Parent>) {
        self.parent.get(&entity_id)
    }

    fn get_mut(&mut self, entity_id: EntityId) -> (r: Option<&mut Parent>) {
        if !self.parent.contains_key(&entity_id) {
            return None;
        }
        match self.parent.entry(entity_id) {
            Entry::Occupied(e) => Some(e.into_mut()),
            Entry::Vacant(_) => None,
        }
    }
}


impl World {
    pub fn new() -> (r: Self)
        ensures
            r@.positions == Map::<EntityId, Position>::empty(),
            r@.colliders == Map::<EntityId, Collider>::empty(),
            r@.rotations == Map::<EntityId, Rotation>::empty(),
            r@.children == Map::<EntityId, Children>::empty(),
            r@.sizes == Map::<EntityId, Size>::empty(),
            r@.parents == Map::<EntityId, Parent>::empty(),
            r@.next_id == 1,
    {
        Self {
            positions: HashMap::new(),
            colliders: HashMap::new(),
            rotation: HashMap::new(),
            children: HashMap::new(),
            sizes: HashMap::new(),
            parent: HashMap::new(),
            next_entity_id: IdCounter::new(),
        }
    }

    /// Issues the next identifier; the entity starts with no components.
    pub fn spawn(&mut self) -> (r: EntityId)
        requires
            old(self)@.next_id < EntityId::MAX,
        ensures
            r == old(self)@.next_id,
            r >= 1,
            final(self)@ == (WorldView { next_id: (r + 1) as EntityId, ..old(self)@ }),
    {
        self.next_entity_id.issue()
    }

    pub fn fetch<T: Component>(&self, id: EntityId) -> (r: Option<&T>)
        where Self: ComponentStorage<T>,
        ensures
            match r {
                Some(c) => <Self as ComponentStorage<T>>::table(self@).contains_key(id) && *c
                    == <Self as ComponentStorage<T>>::table(self@)[id],
                None => !<Self as ComponentStorage<T>>::table(self@).contains_key(id),
            },
    {
        <Self as ComponentStorage<T>>::fetch(self, id)
    }

    pub fn get_mut<T: Component>(&mut self, id: EntityId) -> (r: Option<&mut T>)
        where Self: ComponentStorage<T>,
        ensures
            match r {
                Some(c) => {
                    &&& <Self as ComponentStorage<T>>::table(old(self)@).contains_key(id)
                    &&& *c == <Self as ComponentStorage<T>>::table(old(self)@)[id]
                    &&& final(self)@ == <Self as ComponentStorage<T>>::with_table(
                        old(self)@,
                        <Self as ComponentStorage<T>>::table(old(self)@).insert(id, *final(c)),
                    )
                },
                None => {
                    &&& !<Self as ComponentStorage<T>>::table(old(self)@).contains_key(id)
                    &&& final(self)@ == old(self)@
                },
            },
    {
        <Self as ComponentStorage<T>>::get_mut(self, id)
    }

    /// Adds `entity_id` to the children of `parent_id` (creating the entry
    /// when absent) and makes `parent_id` its parent. Membership in the
    /// children of an earlier parent is kept.
    pub fn set_parent(&mut self, entity_id: EntityId, parent_id: EntityId)
        ensures
            old(self)@.parent_set(final(self)@, entity_id, parent_id),
    {
        let child = self.children.entry(parent_id).or_insert(Children::default());
        child.add_entity(entity_id);
        self.parent.insert(entity_id, Parent { entity: parent_id });
    }

    /// Resolves `entity_id` along at most `n` links.
    fn resolve_pos(&self, entity_id: EntityId, Ghost(n): Ghost<nat>) -> (r: Result<
        Point,
        ComponentError,
    >)
        requires
            self@.chain_ends_within(entity_id, n),
            self@.resolve(entity_id, n) matches Ok(p) ==> p.0 <= usize::MAX && p.1 <= usize::MAX,
        ensures
            match r {
                Ok(p) => self@.resolve(entity_id, n) == Ok::<(int, int), EntityId>(
                    (p.0 as int, p.1 as int),
                ),
                Err(e) => self@.resolve(entity_id, n) is Err && e.missing() == (
                    "Position"@,
                    self@.resolve(entity_id, n)->Err_0,
                ),
            },
        decreases n,
    {
        let entity_pos = match self.positions.get(&entity_id) {
            Some(p) => p,
            None => {
                return Err(ComponentError::NotAttached("Position".to_owned(), entity_id));
            },
        };
        let mut pos: Point = (
            if entity_pos.x < 0 { 0 } else { entity_pos.x as usize },
            if entity_pos.y < 0 { 0 } else { entity_pos.y as usize },
        );
        if entity_pos.position_type == PositionType::Rel {
            if let Some(parent) = self.parent.get(&entity_id) {
                let parent_pos = self.resolve_pos(parent.entity, Ghost((n - 1) as nat))?;
                pos = (pos.0 + parent_pos.0, pos.1 + parent_pos.1);
            }
        }
        Ok(pos)
    }

    /// The absolute pixel position of `entity_id`: its own coordinates
    /// truncated to pixels, plus the parent's absolute position when it is
    /// Relative and has a parent. Fails when an entity of that chain has no
    /// Position.
    pub fn get_abs_pos(&self, entity_id: EntityId) -> (r: Result<Point, ComponentError>)
        requires
            self@.resolvable(entity_id),
        ensures
            match r {
                Ok(p) => self@.abs_pos(entity_id) == Ok::<(int, int), EntityId>(
                    (p.0 as int, p.1 as int),
                ),
                Err(e) => self@.abs_pos(entity_id) is Err && e.missing() == (
                    "Position"@,
                    self@.abs_pos(entity_id)->Err_0,
                ),
            },
    {
        self.resolve_pos(entity_id, Ghost(self@.chain_len(entity_id)))
    }

    /// The entities whose collision box the box of `entity_id` overlaps,
    /// each with the sides of contact. Leaves out `entity_id` itself and
    /// its children. Fails when `entity_id` has no Collider, or when the
    /// position of `entity_id` or of an examined entity cannot be resolved.
    pub fn get_collision(&self, entity_id: EntityId) -> (r: Result<CollisionInfo, ComponentError>)
        requires
            self@.collision_ready(entity_id),
        ensures
            !self@.colliders.contains_key(entity_id) ==> r is Err && r->Err_0.missing() == (
                "Collider"@,
                entity_id,
            ),
            self@.colliders.contains_key(entity_id) && self@.abs_pos(entity_id) is Err ==> r is Err
                && r->Err_0.missing() == ("Position"@, self@.abs_pos(entity_id)->Err_0),
            self@.colliders.contains_key(entity_id) && self@.abs_pos(entity_id) is Ok ==> (r is Ok
                <==> self@.candidates_placed(entity_id)),
            self@.colliders.contains_key(entity_id) && self@.abs_pos(entity_id) is Ok && r is Err
                ==> exists|k: EntityId|
                #[trigger] self@.candidate(entity_id, k) && self@.abs_pos(k) is Err
                    && r->Err_0.missing() == ("Position"@, self@.abs_pos(k)->Err_0),
            r matches Ok(info) ==> {
                &&& forall|k: EntityId|
                    #[trigger] info.collision@.contains_key(k) <==> self@.hit(entity_id, k)
                &&& forall|k: EntityId| #[trigger]
                    info.collision@.contains_key(k) ==> info.collision@[k].entity_id == k
                        && info.collision@[k].sides@ == contact_sides(
                        self@.collision_box(entity_id),
                        self@.collision_box(k),
                    )
            },
            r matches Ok(info) ==> forall|k: EntityId| #[trigger]
                info.collision@.contains_key(k) ==> k != entity_id && !self@.children_of(
                    entity_id,
                ).contains(k),
    {
        let mut info = CollisionInfo::default();
        let collider = match self.colliders.get(&entity_id) {
            Some(c) => c,
            None => {
                return Err(ComponentError::NotAttached("Collider".to_owned(), entity_id));
            },
        };
        let empty: HashSet<EntityId> = HashSet::new();
        let childs = match self.children.get(&entity_id) {
            Some(child_component) => child_component.entities(),
            None => &empty,
        };
        assert(childs@ == self@.children_of(entity_id));
        let pos = self.get_abs_pos(entity_id)?;
        let query = collider.get_points(pos);
        assert(query == self@.collision_box(entity_id));

        let ghost all = spec_hash_map_iter(&self.colliders).remaining();
        let ghost mut visited: int = 0;
        for (other_id, other_collider) in it: self.colliders.iter()
            invariant
                visited == it.index(),
                all == spec_hash_map_iter(&self.colliders).remaining(),
                self@.collision_ready(entity_id),
                self@.colliders.contains_key(entity_id),
                self@.abs_pos(entity_id) is Ok,
                query == self@.collision_box(entity_id),
                childs@ == self@.children_of(entity_id),
                it.seq() == spec_hash_map_iter(&self.colliders).remaining(),
                forall|i: int|
                    0 <= i < visited && #[trigger] self@.candidate(entity_id, *all[i].0)
                        ==> self@.abs_pos(*all[i].0) is Ok,
                forall|k: EntityId|
                    #[trigger] info.collision@.contains_key(k) <==> (self@.hit(entity_id, k)
                        && exists|i: int| 0 <= i < it.index() && *it.seq()[i].0 == k),
                forall|k: EntityId| #[trigger]
                    info.collision@.contains_key(k) ==> info.collision@[k].entity_id == k
                        && info.collision@[k].sides@ == contact_sides(
                        query,
                        self@.collision_box(k),
                    ),
        {
            let other_id = *other_id;
            if other_id != entity_id && !childs.contains(&other_id) {
                assert(self@.candidate(entity_id, other_id));
                let other_pos = self.get_abs_pos(other_id)?;
                let other = other_collider.get_points(other_pos);
                if boxes_overlap(query, other) {
                    info.add_collision(other_id, classify(query, other));
                }
            }
            proof {
                visited = visited + 1;
            }
        }
        assert(visited == all.len());
        assert forall|k: EntityId| #[trigger]
            self@.candidate(entity_id, k) implies self@.abs_pos(k) is Ok by {
            assert(all.contains((&k, &self.colliders@[k])));
            let i = choose|i: int| 0 <= i < all.len() && all[i] == (&k, &self.colliders@[k]);
            assert(*all[i].0 == k);
        }
        Ok(info)
    }

    /// Deletes the Position, Size, Collider and Rotation of `entity_id`,
    /// its Children entry and its Parent link, and the Parent link of each
    /// of its children; the children keep their other components.
    pub fn remove_entity(&mut self, entity_id: EntityId)
        ensures
            final(self)@ == old(self)@.removed(entity_id),
            forall|c: EntityId|
                #[trigger] old(self)@.children_of(entity_id).contains(c) && c != entity_id ==> {
                    &&& !final(self)@.parents.contains_key(c)
                    &&& final(self)@.positions.get(c) == old(self)@.positions.get(c)
                    &&& final(self)@.sizes.get(c) == old(self)@.sizes.get(c)
                },
    {
        self.positions.remove(&entity_id);
        self.sizes.remove(&entity_id);
        self.colliders.remove(&entity_id);
        self.rotation.remove(&entity_id);
        if let Some(child_component) = self.children.get(&entity_id) {
            let kids_set = child_component.entities();
            let ghost kids = kids_set@;
            let ghost parents0 = self.parent@;
            let ghost all = spec_hash_keys_iter(kids_set).remaining();
            let ghost mut visited: int = 0;
            let ghost mut removed: Set<EntityId> = Set::empty();
            assert(kids == old(self)@.children_of(entity_id));
            for child in it: kids_set.iter()
                invariant
                    visited == it.index(),
                    all == spec_hash_keys_iter(kids_set).remaining(),
                    kids == kids_set@,
                    removed.subset_of(kids),
                    forall|i: int| 0 <= i < visited ==> #[trigger] removed.contains(*all[i]),
                    self.parent@ == parents0.remove_keys(removed),
                    self.positions@ == old(self).positions@.remove(entity_id),
                    self.sizes@ == old(self).sizes@.remove(entity_id),
                    self.colliders@ == old(self).colliders@.remove(entity_id),
                    self.rotation@ == old(self).rotation@.remove(entity_id),
                    self.children@ == old(self).children@,
                    self.next_entity_id == old(self).next_entity_id,
            {
                assert(all.unref().to_set() == kids);
                assert(kids.contains(*child)) by {
                    assert(all.unref()[visited] == *child);
                }
                self.parent.remove(child);
                proof {
                    assert(self.parent@ =~= parents0.remove_keys(removed.insert(*child)));
                    removed = removed.insert(*child);
                    visited = visited + 1;
                }
            }
            assert(removed =~= kids) by {
                assert(all.unref().to_set() == kids);
                assert forall|k: EntityId| kids.contains(k) implies removed.contains(k) by {
                    assert(all.unref().contains(k));
                    let i = choose|i: int| 0 <= i < all.len() && all.unref()[i] == k;
                    assert(removed.contains(*all[i]));
                }
            }
            self.children.remove(&entity_id);
        }
        self.parent.remove(&entity_id);
        assert(self@.children =~= old(self)@.removed(entity_id).children);
        assert(self@.parents =~= old(self)@.removed(entity_id).parents);
    }
}

} // verus!
