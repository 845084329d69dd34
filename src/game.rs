//! The playing field of the falling-block game.
use vstd::prelude::*;
use std::collections::HashMap;
use vstd::std_specs::hash::spec_hash_map_iter;
use vstd::std_specs::iter::IteratorSpec;
use crate::component::{Children, Collider, EntityId, Position, PositionType, Size};
use crate::rect::{body_covers, border_covers, Rectangle};
use crate::renderer::Renderer;
use crate::rules::{block_cell, cell_index};
use crate::tetromino::{Tetromino, BLOCK_SIZE};
use crate::world::{ComponentStorage, Entity, World, WorldView};

verus! {

broadcast use vstd::std_specs::hash::group_hash_axioms;

/// Columns of the field.
pub const BOARD_CELLS: usize = 10;

/// Rows of the field.
pub const BOARD_ROWS: usize = 20;

/// Number of cells of the field.
pub const BOARD_LEN: usize = BOARD_CELLS * BOARD_ROWS;

/// Top-left pixel of the field.
pub const BOARD_POS: (usize, usize) = (100, 20);

/// Fill colour of the field (176, 196, 222).
pub const BOARD_COLOR: u32 = 0x00b0c4de;

/// Outline colour of the field (139, 166, 163).
pub const BOARD_OUTLINE: u32 = 0x008ba6a3;

/// The field: an entity with a collider one pixel taller than the
/// field, and a grid of cells holding the block that fills each, or `0`.
pub struct Board {
    entity_id: EntityId,
    shape: Rectangle,
    pub cells: Vec<EntityId>,
}

/// The pixel width and height of the field.
pub open spec fn board_size() -> (usize, usize) {
    ((BLOCK_SIZE * BOARD_CELLS) as usize, (BLOCK_SIZE * BOARD_ROWS) as usize)
}

/// The field cell that block `j` of piece `t` fills in world `w`.
pub open spec fn landed_cell(w: WorldView, t: Tetromino, j: int) -> int {
    cell_index(w.positions[t.id()], t.block_list()[j].shape().position())
}

/// Every block of every piece of `landed` fills a cell of the field.
pub open spec fn placeable(w: WorldView, landed: Map<EntityId, Tetromino>) -> bool {
    forall|k: EntityId|
        #[trigger] landed.contains_key(k) ==> {
            &&& w.positions.contains_key(landed[k].id())
            &&& forall|j: int|
                0 <= j < landed[k].block_list().len() ==> 0 <= #[trigger] landed_cell(w, landed[k], j) < BOARD_LEN
        }
}

/// Some block of a piece of `landed` fills cell `i`.
pub open spec fn filled(w: WorldView, landed: Map<EntityId, Tetromino>, i: int) -> bool {
    exists|k: EntityId, j: int|
        #![trigger landed_cell(w, landed[k], j)]
        landed.contains_key(k) && 0 <= j < landed[k].block_list().len() && landed_cell(w, landed[k], j) == i
}

/// Cell `i` holds the identifier of a block of a piece of `landed` that fills it.
pub open spec fn holds_filler(w: WorldView, landed: Map<EntityId, Tetromino>, i: int, id: EntityId) -> bool {
    exists|k: EntityId, j: int|
        #![trigger landed_cell(w, landed[k], j)]
        landed.contains_key(k) && 0 <= j < landed[k].block_list().len() && landed_cell(w, landed[k], j) == i
            && landed[k].block_list()[j].id() == id
}

impl Entity for Board {
    closed spec fn id(&self) -> EntityId {
        self.entity_id
    }

    fn get_id(&self) -> (r: EntityId) {
        self.entity_id
    }
}

impl Board {
    pub closed spec fn shape(&self) -> Rectangle {
        self.shape
    }

    /// The cells, row after row.
    pub closed spec fn cell_list(&self) -> Seq<EntityId> {
        self.cells@
    }

    /// Spawns the field's entity with its Position, Size, an empty
    /// Children set and its Collider; every cell starts empty.
    pub fn new(world: &mut World) -> (r: Self)
        requires
            old(world)@.next_id < EntityId::MAX,
        ensures
            r.id() == old(world)@.next_id,
            r.cell_list() == Seq::new(BOARD_LEN as nat, |i: int| 0 as EntityId),
            r.shape().position() == BOARD_POS,
            r.shape().size() == board_size(),
            r.shape().color() == BOARD_COLOR,
            r.shape().outline_color() == Some(BOARD_OUTLINE),
            !r.shape().triangle_mode(),
            final(world)@.next_id == old(world)@.next_id + 1,
            final(world)@.positions == old(world)@.positions.insert(
                r.id(),
                Position { x: 100, y: 20, position_type: PositionType::Abs },
            ),
            final(world)@.sizes == old(world)@.sizes.insert(
                r.id(),
                Size { x: board_size().0, y: board_size().1 },
            ),
            final(world)@.colliders == old(world)@.colliders.insert(
                r.id(),
                Collider { offset: (0isize, -1isize), size: (board_size().0, (board_size().1 + 1) as usize) },
            ),
            final(world)@.children.dom() == old(world)@.children.dom().insert(r.id()),
            final(world)@.children_of(r.id()) == Set::<EntityId>::empty(),
            forall|k: EntityId|
                k != r.id() && #[trigger] old(world)@.children.contains_key(k)
                    ==> final(world)@.children[k] == old(world)@.children[k],
            final(world)@.parents == old(world)@.parents,
            final(world)@.rotations == old(world)@.rotations,
    {
        let entity_id = world.spawn();
        let shape_pos = BOARD_POS;
        let shape_size = (BLOCK_SIZE * BOARD_CELLS, BLOCK_SIZE * BOARD_ROWS);
        let mut shape = Rectangle::new(shape_pos, shape_size, Renderer::rgb_to_u32(176, 196, 222));
        shape.with_outline(Renderer::rgb_to_u32(139, 166, 163));
        world.add_component(
            entity_id,
            Position {
                x: shape_pos.0 as isize,
                y: shape_pos.1 as isize,
                position_type: PositionType::Abs,
            },
        ).add_component(entity_id, Size { x: shape_size.0, y: shape_size.1 }).add_component(
            entity_id,
            Children::default(),
        ).add_component(entity_id, Collider { offset: (0, -1), size: (shape_size.0, shape_size.1 + 1) });
        assert(world@.children_of(entity_id) =~= Set::<EntityId>::empty());
        assert(world@.children.dom() =~= old(world)@.children.dom().insert(entity_id));
        let mut cells: Vec<EntityId> = Vec::new();
        let mut i: usize = 0;
        while i < BOARD_LEN
            invariant
                i <= BOARD_LEN,
                cells@ == Seq::new(i as nat, |j: int| 0 as EntityId),
            decreases BOARD_LEN - i,
        {
            cells.push(0);
            i += 1;
            assert(cells@ =~= Seq::new(i as nat, |j: int| 0 as EntityId));
        }
        Self { entity_id, shape, cells }
    }

    /// Empties every cell, then writes into each cell the identifier of a
    /// block of a landed piece that fills it.
    pub fn refresh_cells(&mut self, landed: &HashMap<EntityId, Tetromino>, world: &World)
        requires
            old(self).cell_list().len() == BOARD_LEN,
            placeable(world@, landed@),
        ensures
            final(self).cell_list().len() == BOARD_LEN,
            final(self).id() == old(self).id(),
            final(self).shape() == old(self).shape(),
            forall|i: int|
                0 <= i < BOARD_LEN ==> if filled(world@, landed@, i) {
                    holds_filler(world@, landed@, i, #[trigger] final(self).cell_list()[i])
                } else {
                    final(self).cell_list()[i] == 0
                },
    {
        let mut i: usize = 0;
        while i < self.cells.len()
            invariant
                self.cells@.len() == BOARD_LEN,
                self.entity_id == old(self).entity_id,
                self.shape == old(self).shape,
                i <= BOARD_LEN,
                forall|i2: int| 0 <= i2 < i ==> self.cells@[i2] == 0,
            decreases BOARD_LEN - i,
        {
            self.cells.set(i, 0);
            i += 1;
        }
        let ghost w = world@;
        let ghost all = spec_hash_map_iter(landed).remaining();
        let ghost mut visited: int = 0;
        for (k, tetromino) in it: landed.iter()
            invariant
                self.cells@.len() == BOARD_LEN,
                self.entity_id == old(self).entity_id,
                self.shape == old(self).shape,
                w == world@,
                placeable(w, landed@),
                visited == it.index(),
                all == spec_hash_map_iter(landed).remaining(),
                it.seq() == all,
                forall|i2: int|
                    0 <= i2 < BOARD_LEN ==> #[trigger] self.cells@[i2] == 0 || holds_filler(w, landed@, i2, self.cells@[i2]),
                forall|t: int, j: int|
                    0 <= t < visited && 0 <= j < (*all[t].1).block_list().len() ==> holds_filler(
                        w,
                        landed@,
                        #[trigger] landed_cell(w, *all[t].1, j),
                        self.cells@[landed_cell(w, *all[t].1, j)],
                    ),
        {
            assert(it.seq()[visited] == (k, tetromino));
            assert(landed@.contains_key(*all[visited].0));
            assert(landed@.contains_key(*k) && landed@[*k] == *tetromino);
            let tetromino_pos = match world.fetch::<Position>(tetromino.get_id()) {
                Some(p) => p,
                None => {
                    proof {
                        assert(false);
                    }
                    return ;
                },
            };
            let blocks = tetromino.list_blocks();
            let mut b: usize = 0;
            while b < blocks.len()
                invariant
                    self.cells@.len() == BOARD_LEN,
                    self.entity_id == old(self).entity_id,
                    self.shape == old(self).shape,
                    w == world@,
                    placeable(w, landed@),
                    landed@.contains_key(*k) && landed@[*k] == *tetromino,
                    *tetromino_pos == w.positions[tetromino.id()],
                    blocks@ == tetromino.block_list(),
                    b <= tetromino.block_list().len(),
                    forall|i2: int|
                        0 <= i2 < BOARD_LEN ==> #[trigger] self.cells@[i2] == 0 || holds_filler(w, landed@, i2, self.cells@[i2]),
                    visited < all.len(),
                    *all[visited].1 == *tetromino,
                    forall|t: int, j: int|
                        0 <= t < visited && 0 <= j < (*all[t].1).block_list().len() ==> holds_filler(
                            w,
                            landed@,
                            #[trigger] landed_cell(w, *all[t].1, j),
                            self.cells@[landed_cell(w, *all[t].1, j)],
                        ),
                    forall|j: int|
                        0 <= j < b ==> holds_filler(
                            w,
                            landed@,
                            #[trigger] landed_cell(w, *tetromino, j),
                            self.cells@[landed_cell(w, *tetromino, j)],
                        ),
                decreases tetromino.block_list().len() - b,
            {
                let block = &blocks[b];
                assert(0 <= landed_cell(w, landed@[*k], b as int) < BOARD_LEN);
                let cell = block_cell(tetromino_pos, block.get_shape().get_position());
                self.cells.set(cell, block.get_id());
                assert(holds_filler(w, landed@, cell as int, block.id()));
                b += 1;
            }
            proof {
                visited = visited + 1;
            }
        }
        assert forall|i: int| 0 <= i < BOARD_LEN && #[trigger] filled(w, landed@, i) implies holds_filler(
            w,
            landed@,
            i,
            self.cells@[i],
        ) by {
            let (k, j) = choose|k: EntityId, j: int|
                #![trigger landed_cell(w, landed@[k], j)]
                landed@.contains_key(k) && 0 <= j < landed@[k].block_list().len() && landed_cell(
                    w,
                    landed@[k],
                    j,
                ) == i;
            assert(all.contains((&k, &landed@[k])));
            let t = choose|t: int| 0 <= t < all.len() && all[t] == (&k, &landed@[k]);
            assert(landed_cell(w, *all[t].1, j) == i);
        }
    }

    /// Fills the field's outlined rectangle.
    pub fn render(&self, renderer: &mut Renderer)
        requires
            self.shape().drawable(),
        ensures
            final(renderer)@.width == old(renderer)@.width,
            final(renderer)@.height == old(renderer)@.height,
            final(renderer)@.buffer.len() == old(renderer)@.buffer.len(),
            forall|j: int|
                0 <= j < old(renderer)@.buffer.len() ==> #[trigger] final(renderer)@.buffer[j] == if self.shape().outline_color() is Some
                    && border_covers(self.shape().position(), self.shape().size(), old(renderer)@.width, j) {
                    self.shape().outline_color()->Some_0
                } else if body_covers(
                    self.shape().position(),
                    self.shape().size(),
                    self.shape().triangle_mode(),
                    old(renderer)@.width,
                    j,
                ) {
                    self.shape().color()
                } else {
                    old(renderer)@.buffer[j]
                },
    {
        self.shape.fill(renderer);
    }
}

} // verus!
