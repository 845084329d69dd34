//! Falling pieces: their kinds, shapes and blocks.
use vstd::prelude::*;
use rand::Rng;
use crate::component::{
    Children, Collider, EntityId, Parent, Position, PositionType, Rotation, Size,
};
use crate::rect::{body_covers, border_covers, Rectangle};
use crate::render::{Color, Rotation as Turn};
use crate::renderer::{Renderer, RendererView};
use crate::world::{ComponentStorage, Entity, World, WorldView};

verus! {

/// Side of a block in pixels: a 28th of the window width.
pub const BLOCK_SIZE: usize = 45;

/// Colour of the lines between blocks.
pub const BLOCK_OUTLINE: Color = 0x00e8dedc;

/// The colours a piece may take, by index.
pub open spec fn color_at(i: int) -> Color {
    if i == 0 {
        4289854247u32
    } else if i == 1 {
        4293600047u32
    } else if i == 2 {
        4285190477u32
    } else {
        4282666183u32
    }
}

/// The colour of index `i` (orange, yellow, green, blue).
pub fn color_code(i: usize) -> (r: Color)
    requires
        i < 4,
    ensures
        r == color_at(i as int),
{
    if i == 0 {
        4289854247
    } else if i == 1 {
        4293600047
    } else if i == 2 {
        4285190477
    } else {
        4282666183
    }
}

/// `b` can be drawn in `w`: its position resolves and its shape there is
/// small enough to draw.
pub open spec fn renderable(w: WorldView, b: Block) -> bool {
    &&& w.resolvable(b.id())
    &&& w.abs_pos(b.id()) is Ok
    &&& 8 * (w.abs_point(b.id()).0 + b.shape().size().0) <= isize::MAX
    &&& 8 * (w.abs_point(b.id()).1 + b.shape().size().1) <= isize::MAX
}

/// `r` after drawing block `b` of world `w`: its shape at the block's
/// resolved position, body first, then the outline.
pub open spec fn paint_block(r: RendererView, w: WorldView, b: Block) -> RendererView {
    let pos = w.abs_point(b.id());
    let size = b.shape().size();
    RendererView {
        buffer: Seq::new(
            r.buffer.len(),
            |j: int|
                if border_covers(pos, size, r.width, j) {
                    BLOCK_OUTLINE
                } else if body_covers(pos, size, b.shape().triangle_mode(), r.width, j) {
                    b.shape().color()
                } else {
                    r.buffer[j]
                },
        ),
        ..r
    }
}

/// One square of a piece, backed by an entity.
#[derive(Clone, Copy, Debug)]
pub struct Block {
    entity_id: EntityId,
    shape: Rectangle,
}

impl Block {
    pub closed spec fn shape(&self) -> Rectangle {
        self.shape
    }

    pub fn new(entity_id: EntityId, shape: Rectangle) -> (r: Self)
        ensures
            r.id() == entity_id,
            r.shape() == shape,
    {
        Self { entity_id, shape }
    }

    /// Draws the block's shape at the block's resolved position, outlined.
    pub fn render(&self, renderer: &mut Renderer, world: &World)
        requires
            renderable(world@, *self),
        ensures
            final(renderer)@ == paint_block(old(renderer)@, world@, *self),
    {
        let pos = match world.get_abs_pos(self.entity_id) {
            Ok(p) => p,
            Err(_) => {
                return ;
            },
        };
        let mut shape = self.shape;
        shape.with_position(pos).with_outline(BLOCK_OUTLINE);
        shape.fill(renderer);
        assert(renderer@.buffer =~= paint_block(old(renderer)@, world@, *self).buffer);
    }

    pub fn get_shape(&self) -> (r: &Rectangle)
        ensures
            *r == self.shape(),
    {
        &self.shape
    }
}

impl Entity for Block {
    closed spec fn id(&self) -> EntityId {
        self.entity_id
    }

    fn get_id(&self) -> (r: EntityId) {
        self.entity_id
    }
}

/// A move of the falling piece.
#[derive(PartialEq, Eq, Structural, Clone, Copy, Debug)]
pub enum MoveDirection {
    Right,
    Left,
    Down,
}

/// The kinds of piece.
#[derive(PartialEq, Eq, Structural, Clone, Copy, Debug)]
pub enum TetrominoType {
    I,
    O,
    T,
    L,
    S,
}

/// The grid cells `(column, row)` of the blocks of a piece kind.
pub open spec fn cells(kind: TetrominoType) -> Seq<(usize, usize)> {
    match kind {
        TetrominoType::I => seq![(0, 0), (1, 0), (2, 0), (3, 0)],
        TetrominoType::O => seq![(0, 0), (0, 1), (1, 0), (1, 1)],
        TetrominoType::T => seq![(1, 0), (0, 1), (1, 1), (2, 1)],
        TetrominoType::L => seq![(0, 0), (0, 1), (1, 1), (2, 1)],
        TetrominoType::S => seq![(0, 0), (1, 0), (1, 1), (2, 1)],
    }
}

impl TetrominoType {
    /// The kind of index `n`, in the order I, O, T, L, S.
    pub fn get_by_index(n: u8) -> (r: Self)
        requires
            n <= 4,
        ensures
            n == 0 ==> r == TetrominoType::I,
            n == 1 ==> r == TetrominoType::O,
            n == 2 ==> r == TetrominoType::T,
            n == 3 ==> r == TetrominoType::L,
            n == 4 ==> r == TetrominoType::S,
    {
        match n {
            0 => TetrominoType::I,
            1 => TetrominoType::O,
            2 => TetrominoType::T,
            3 => TetrominoType::L,
            _ => TetrominoType::S,
        }
    }

    /// One square per block, placed at its grid cell and a block wide.
    pub fn get_shapes(&self, color: Color) -> (r: Vec<Rectangle>)
        ensures
            r@.len() == 4,
            forall|i: int|
                0 <= i < 4 ==> {
                    &&& (#[trigger] r@[i]).position() == cells(*self)[i]
                    &&& r@[i].size() == (BLOCK_SIZE, BLOCK_SIZE)
                    &&& r@[i].color() == color
                    &&& r@[i].outline_color() == None::<Color>
                    &&& !r@[i].triangle_mode()
                },
    {
        let size = (BLOCK_SIZE, BLOCK_SIZE);
        let r = match self {
            TetrominoType::I => vec![
                Rectangle::new((0, 0), size, color),
                Rectangle::new((1, 0), size, color),
                Rectangle::new((2, 0), size, color),
                Rectangle::new((3, 0), size, color),
            ],
            TetrominoType::O => vec![
                Rectangle::new((0, 0), size, color),
                Rectangle::new((0, 1), size, color),
                Rectangle::new((1, 0), size, color),
                Rectangle::new((1, 1), size, color),
            ],
            TetrominoType::T => vec![
                Rectangle::new((1, 0), size, color),
                Rectangle::new((0, 1), size, color),
                Rectangle::new((1, 1), size, color),
                Rectangle::new((2, 1), size, color),
            ],
            TetrominoType::L => vec![
                Rectangle::new((0, 0), size, color),
                Rectangle::new((0, 1), size, color),
                Rectangle::new((1, 1), size, color),
                Rectangle::new((2, 1), size, color),
            ],
            TetrominoType::S => vec![
                Rectangle::new((0, 0), size, color),
                Rectangle::new((1, 0), size, color),
                Rectangle::new((1, 1), size, color),
                Rectangle::new((2, 1), size, color),
            ],
        };
        r
    }
}

/// The collision box of a block: a pixel higher than the block, so that
/// resting blocks touch.
pub open spec fn block_collider() -> Collider {
    Collider { offset: (0isize, -1isize), size: (BLOCK_SIZE, (BLOCK_SIZE + 1) as usize) }
}

/// The position of a block at grid cell `cell`, relative to its piece.
pub open spec fn block_position(cell: (usize, usize)) -> Position {
    Position {
        x: (cell.0 * BLOCK_SIZE) as isize,
        y: (cell.1 * BLOCK_SIZE) as isize,
        position_type: PositionType::Rel,
    }
}

/// The identifiers `first .. first + count`.
pub open spec fn id_range(first: int, count: int) -> Set<EntityId> {
    Set::new(|k: EntityId| first <= k < first + count)
}

/// `m` with `f(i)` stored under `first + i`, for `i < count`.
pub open spec fn with_run<T>(m: Map<EntityId, T>, first: int, count: int, f: spec_fn(int) -> T) -> Map<
    EntityId,
    T,
> {
    Map::new(
        |k: EntityId| m.contains_key(k) || first <= k < first + count,
        |k: EntityId|
            if first <= k < first + count {
                f(k - first)
            } else {
                m[k]
            },
    )
}

/// Sum of the shape widths of `blocks`.
pub open spec fn total_width(blocks: Seq<Block>) -> int
    decreases blocks.len(),
{
    if blocks.len() == 0 {
        0
    } else {
        total_width(blocks.drop_last()) + blocks.last().shape().size().0
    }
}

/// Sum of the shape heights of `blocks`.
pub open spec fn total_height(blocks: Seq<Block>) -> int
    decreases blocks.len(),
{
    if blocks.len() == 0 {
        0
    } else {
        total_height(blocks.drop_last()) + blocks.last().shape().size().1
    }
}

/// The Size a piece records for `blocks`: the summed widths (at least
/// one) and heights, each times the block size.
pub open spec fn piece_size(blocks: Seq<Block>) -> Size {
    let w = if total_width(blocks) == 0 {
        1
    } else {
        total_width(blocks)
    };
    Size { x: (w * BLOCK_SIZE) as usize, y: (total_height(blocks) * BLOCK_SIZE) as usize }
}

/// The piece size of `blocks` fits in `usize`.
pub open spec fn sizable(blocks: Seq<Block>) -> bool {
    (total_width(blocks) + 1) * BLOCK_SIZE <= usize::MAX && total_height(blocks) * BLOCK_SIZE
        <= usize::MAX
}

/// `i` is the first index of a block of `blocks` with identifier `id`.
pub open spec fn first_with_id(blocks: Seq<Block>, id: EntityId, i: int) -> bool {
    &&& 0 <= i < blocks.len()
    &&& blocks[i].id() == id
    &&& forall|j: int| 0 <= j < i ==> (#[trigger] blocks[j]).id() != id
}

proof fn lemma_totals_prefix(blocks: Seq<Block>, i: int)
    requires
        0 <= i < blocks.len(),
    ensures
        total_width(blocks.take(i + 1)) == total_width(blocks.take(i)) + blocks[i].shape().size().0,
        total_height(blocks.take(i + 1)) == total_height(blocks.take(i))
            + blocks[i].shape().size().1,
{
    assert(blocks.take(i + 1).drop_last() =~= blocks.take(i));
}

proof fn lemma_totals_monotone(blocks: Seq<Block>, i: int)
    requires
        0 <= i <= blocks.len(),
    ensures
        total_width(blocks.take(i)) <= total_width(blocks),
        total_height(blocks.take(i)) <= total_height(blocks),
    decreases blocks.len() - i,
{
    if i < blocks.len() {
        lemma_totals_prefix(blocks, i);
        lemma_totals_monotone(blocks, i + 1);
    } else {
        assert(blocks.take(i) =~= blocks);
    }
}

proof fn lemma_totals_remove(blocks: Seq<Block>, i: int)
    requires
        0 <= i < blocks.len(),
    ensures
        total_width(blocks.remove(i)) == total_width(blocks) - blocks[i].shape().size().0,
        total_height(blocks.remove(i)) == total_height(blocks) - blocks[i].shape().size().1,
    decreases blocks.len(),
{
    if i == blocks.len() - 1 {
        assert(blocks.remove(i) =~= blocks.drop_last());
    } else {
        lemma_totals_remove(blocks.drop_last(), i);
        assert(blocks.remove(i).drop_last() =~= blocks.drop_last().remove(i));
        assert(blocks.remove(i).last() == blocks.last());
    }
}

/// Relies on rand's `Rng::random_range` on the thread generator
/// `rand::rng()`: a value drawn from `0..bound`, which must not be empty.
#[verifier::external_body]
fn random_below(bound: usize) -> (r: usize)
    requires
        bound > 0,
    ensures
        r < bound,
{
    rand::rng().random_range(0..bound)
}

/// The kind of index `n`, in the order I, O, T, L, S.
pub open spec fn kind_at(n: int) -> TetrominoType {
    if n == 0 {
        TetrominoType::I
    } else if n == 1 {
        TetrominoType::O
    } else if n == 2 {
        TetrominoType::T
    } else if n == 3 {
        TetrominoType::L
    } else {
        TetrominoType::S
    }
}

/// `blocks` holds the block `j` of a `kind` piece in `color` for each
/// `j < 4`, with identifier `first + j`.
pub open spec fn blocks_of(blocks: Seq<Block>, first: int, kind: TetrominoType, color: Color) -> bool {
    &&& blocks.len() == 4
    &&& forall|j: int|
        0 <= j < 4 ==> {
            &&& (#[trigger] blocks[j]).id() == first + j
            &&& blocks[j].shape().position() == cells(kind)[j]
            &&& blocks[j].shape().size() == (BLOCK_SIZE, BLOCK_SIZE)
            &&& blocks[j].shape().color() == color
            &&& blocks[j].shape().outline_color() == None::<Color>
            &&& !blocks[j].shape().triangle_mode()
        }
}

/// `w1` is `w0` after spawning the four blocks `blocks` of a `kind` piece:
/// each with its cell's relative position, a block's size and collider.
pub open spec fn made_blocks(
    w0: WorldView,
    w1: WorldView,
    blocks: Seq<Block>,
    kind: TetrominoType,
    color: Color,
) -> bool {
    let n = w0.next_id as int;
    &&& blocks_of(blocks, n, kind, color)
    &&& w1.next_id == n + 4
    &&& w1.positions == with_run(w0.positions, n, 4, |j: int| block_position(cells(kind)[j]))
    &&& w1.sizes == with_run(w0.sizes, n, 4, |j: int| Size { x: BLOCK_SIZE, y: BLOCK_SIZE })
    &&& w1.colliders == with_run(w0.colliders, n, 4, |j: int| block_collider())
    &&& w1.rotations == w0.rotations
    &&& w1.children == w0.children
    &&& w1.parents == w0.parents
}

/// `w1` is `w0` after giving piece `t` four fresh blocks: the blocks as in
/// `made_blocks`, each with `t` as parent and among its children, and
/// `t`'s size recorded.
pub open spec fn shaped(w0: WorldView, w1: WorldView, t: Tetromino) -> bool {
    let n = w0.next_id as int;
    &&& blocks_of(t.block_list(), n, t.kind(), t.color())
    &&& w1.next_id == n + 4
    &&& w1.positions == with_run(w0.positions, n, 4, |j: int| block_position(cells(t.kind())[j]))
    &&& w1.sizes == with_run(w0.sizes, n, 4, |j: int| Size { x: BLOCK_SIZE, y: BLOCK_SIZE }).insert(
        t.id(),
        piece_size(t.block_list()),
    )
    &&& w1.colliders == with_run(w0.colliders, n, 4, |j: int| block_collider())
    &&& w1.rotations == w0.rotations
    &&& w1.parents == with_run(w0.parents, n, 4, |j: int| Parent { entity: t.id() })
    &&& w1.children.dom() == w0.children.dom().insert(t.id())
    &&& w1.children_of(t.id()) == w0.children_of(t.id()) + id_range(n, 4)
    &&& forall|k: EntityId|
        k != t.id() && #[trigger] w0.children.contains_key(k) ==> w1.children[k] == w0.children[k]
}

/// Where a new piece starts: four blocks from the left of its parent.
pub open spec fn piece_start() -> Position {
    Position { x: (BLOCK_SIZE * 4) as isize, y: 0, position_type: PositionType::Rel }
}

/// `w1` is `w0` after spawning piece `t` of kind index `kind_index` and
/// colour index `color_index`: a fresh entity at `piece_start` with an
/// empty children set, then its blocks as in `shaped`.
pub open spec fn spawned(w0: WorldView, w1: WorldView, t: Tetromino, kind_index: int, color_index: int) -> bool {
    let n = w0.next_id as int;
    &&& t.id() == n
    &&& t.kind() == kind_at(kind_index)
    &&& t.color() == color_at(color_index)
    &&& blocks_of(t.block_list(), n + 1, t.kind(), t.color())
    &&& w1.next_id == n + 5
    &&& w1.positions == with_run(
        w0.positions.insert(t.id(), piece_start()),
        n + 1,
        4,
        |j: int| block_position(cells(t.kind())[j]),
    )
    &&& w1.sizes == with_run(w0.sizes, n + 1, 4, |j: int| Size { x: BLOCK_SIZE, y: BLOCK_SIZE }).insert(
        t.id(),
        piece_size(t.block_list()),
    )
    &&& w1.colliders == with_run(w0.colliders, n + 1, 4, |j: int| block_collider())
    &&& w1.rotations == w0.rotations
    &&& w1.parents == with_run(w0.parents, n + 1, 4, |j: int| Parent { entity: t.id() })
    &&& w1.children.dom() == w0.children.dom().insert(t.id())
    &&& w1.children_of(t.id()) == id_range(n + 1, 4)
    &&& forall|k: EntityId|
        k != t.id() && #[trigger] w0.children.contains_key(k) ==> w1.children[k] == w0.children[k]
}

proof fn lemma_totals_bounded(blocks: Seq<Block>)
    requires
        forall|j: int| 0 <= j < blocks.len() ==> (#[trigger] blocks[j]).shape().size() == (BLOCK_SIZE, BLOCK_SIZE),
    ensures
        total_width(blocks) == blocks.len() * BLOCK_SIZE,
        total_height(blocks) == blocks.len() * BLOCK_SIZE,
    decreases blocks.len(),
{
    if blocks.len() > 0 {
        lemma_totals_bounded(blocks.drop_last());
    }
}

/// Position `p` moved by `speed` pixels in direction `d`.
pub open spec fn shifted(p: Position, d: MoveDirection, speed: int) -> Position {
    match d {
        MoveDirection::Right => Position { x: (p.x + speed) as isize, ..p },
        MoveDirection::Left => Position { x: (p.x - speed) as isize, ..p },
        MoveDirection::Down => Position { y: (p.y + speed) as isize, ..p },
    }
}

/// Moving `p` by `speed` in direction `d` stays within `isize`.
pub open spec fn can_shift(p: Position, d: MoveDirection, speed: int) -> bool {
    match d {
        MoveDirection::Right => isize::MIN <= p.x + speed <= isize::MAX,
        MoveDirection::Left => isize::MIN <= p.x - speed <= isize::MAX,
        MoveDirection::Down => isize::MIN <= p.y + speed <= isize::MAX,
    }
}

/// `r` after drawing `blocks` of world `w` in order.
pub open spec fn paint_blocks(r: RendererView, w: WorldView, blocks: Seq<Block>) -> RendererView {
    blocks.fold_left(r, |acc: RendererView, b: Block| paint_block(acc, w, b))
}

/// A falling piece: an entity leading four block entities.
#[derive(Clone, Debug)]
pub struct Tetromino {
    entity_id: EntityId,
    pub blocks: Vec<Block>,
    kind: TetrominoType,
    color: u32,
}

impl Entity for Tetromino {
    closed spec fn id(&self) -> EntityId {
        self.entity_id
    }

    fn get_id(&self) -> (r: EntityId) {
        self.entity_id
    }
}

impl Tetromino {
    pub closed spec fn kind(&self) -> TetrominoType {
        self.kind
    }

    pub closed spec fn color(&self) -> Color {
        self.color
    }

    /// The blocks, in order.
    pub closed spec fn block_list(&self) -> Seq<Block> {
        self.blocks@
    }

    /// The blocks, in order.
    pub fn list_blocks(&self) -> (r: &Vec<Block>)
        ensures
            r@ == self.block_list(),
    {
        &self.blocks
    }

    /// A new piece of a random kind among I, O, T and L, in one of the
    /// first three colours, led by a fresh entity at four blocks from the
    /// left, with its blocks spawned and attached.
    pub fn spawn(world: &mut World) -> (r: Self)
        requires
            old(world)@.next_id + 5 < EntityId::MAX,
        ensures
            r.kind() != TetrominoType::S,
            exists|k: u8, c: usize|
                k < 4 && c < 3 && #[trigger] spawned(old(world)@, final(world)@, r, k as int, c as int),
    {
        let n = random_below(4) as u8;
        let color_index = random_below(3);
        Self::spawn_with(world, n, color_index)
    }

    /// A new piece of kind `kind_index` in colour `color_index`, led by a
    /// fresh entity at four blocks from the left, with its blocks spawned
    /// and attached.
    pub fn spawn_with(world: &mut World, kind_index: u8, color_index: usize) -> (r: Self)
        requires
            kind_index <= 4,
            color_index < 4,
            old(world)@.next_id + 5 < EntityId::MAX,
        ensures
            spawned(old(world)@, final(world)@, r, kind_index as int, color_index as int),
    {
        let entity_id = world.spawn();
        world.add_component(entity_id, Children::default()).add_component(
            entity_id,
            Position { x: (BLOCK_SIZE * 4) as isize, y: 0, position_type: PositionType::Rel },
        );
        let ghost mid = world@;
        assert(mid.children_of(entity_id) =~= Set::<EntityId>::empty());
        let tetromino_type = TetrominoType::get_by_index(kind_index);
        let mut tetromino = Tetromino {
            entity_id,
            blocks: Vec::new(),
            kind: tetromino_type,
            color: color_code(color_index),
        };
        tetromino.refresh_shape(world);
        assert(world@.children_of(entity_id) =~= id_range(entity_id + 1, 4));
        assert(world@.children.dom() =~= old(world)@.children.dom().insert(entity_id));
        assert forall|k: EntityId|
            k != entity_id && #[trigger] old(world)@.children.contains_key(k) implies world@.children[k] == old(world)@.children[k] by {
            assert(mid.children.contains_key(k));
        }
        tetromino
    }

    /// Draws the blocks in order.
    pub fn render(&self, renderer: &mut Renderer, world: &World)
        requires
            forall|j: int| 0 <= j < self.block_list().len() ==> renderable(world@, #[trigger] self.block_list()[j]),
        ensures
            final(renderer)@ == paint_blocks(old(renderer)@, world@, self.block_list()),
    {
        let mut i: usize = 0;
        while i < self.blocks.len()
            invariant
                i <= self.blocks@.len(),
                forall|j: int| 0 <= j < self.block_list().len() ==> renderable(world@, #[trigger] self.block_list()[j]),
                renderer@ == paint_blocks(old(renderer)@, world@, self.blocks@.take(i as int)),
            decreases self.blocks@.len() - i,
        {
            assert(renderable(world@, self.block_list()[i as int]));
            self.blocks[i].render(renderer, world);
            proof {
                assert(self.blocks@.take(i + 1).drop_last() =~= self.blocks@.take(i as int));
            }
            i += 1;
        }
        assert(self.blocks@.take(i as int) =~= self.blocks@);
    }

    /// Moves the piece by `speed` pixels in `move_direction`.
    pub fn shift(&mut self, world: &mut World, move_direction: MoveDirection, speed: isize)
        requires
            old(world)@.positions.contains_key(old(self).id()),
            can_shift(old(world)@.positions[old(self).id()], move_direction, speed as int),
        ensures
            *final(self) == *old(self),
            final(world)@ == (WorldView {
                positions: old(world)@.positions.insert(
                    old(self).id(),
                    shifted(old(world)@.positions[old(self).id()], move_direction, speed as int),
                ),
                ..old(world)@
            }),
    {
        let pos = match world.get_mut::<Position>(self.entity_id) {
            Some(p) => p,
            None => {
                return ;
            },
        };
        match move_direction {
            MoveDirection::Right => pos.x += speed,
            MoveDirection::Left => pos.x -= speed,
            MoveDirection::Down => pos.y += speed,
        }
    }

    /// Removes the first block with identifier `block_id`, removes its
    /// entity from the world, and records the piece's new size; fails
    /// when no block has that identifier.
    pub fn remove_block(&mut self, block_id: EntityId, world: &mut World) -> (r: Result<(), String>)
        requires
            sizable(old(self).block_list()),
        ensures
            r is Ok <==> exists|i: int| 0 <= i < old(self).block_list().len() && (#[trigger] old(self).block_list()[i]).id() == block_id,
            r is Ok ==> exists|i: int| {
                &&& #[trigger] first_with_id(old(self).block_list(), block_id, i)
                &&& final(self).block_list() == old(self).block_list().remove(i)
                &&& final(world)@ == (WorldView {
                    sizes: old(world)@.removed(block_id).sizes.insert(
                        old(self).id(),
                        piece_size(old(self).block_list().remove(i)),
                    ),
                    ..old(world)@.removed(block_id)
                })
            },
            r is Ok ==> final(self).id() == old(self).id() && final(self).kind() == old(self).kind() && final(self).color() == old(self).color(),
            r is Err ==> *final(self) == *old(self) && final(world)@ == old(world)@ && r->Err_0@ == "Block not found"@,
    {
        let mut idx: usize = 0;
        while idx < self.blocks.len()
            invariant
                idx <= self.blocks@.len(),
                forall|j: int| 0 <= j < idx ==> (#[trigger] self.blocks@[j]).id() != block_id,
            ensures
                idx <= self.blocks@.len(),
                forall|j: int| 0 <= j < idx ==> (#[trigger] self.blocks@[j]).id() != block_id,
                idx < self.blocks@.len() ==> self.blocks@[idx as int].id() == block_id,
            decreases self.blocks@.len() - idx,
        {
            if self.blocks[idx].entity_id == block_id {
                break;
            }
            idx += 1;
        }
        if idx == self.blocks.len() {
            return Err("Block not found".to_owned());
        }
        let ghost old_blocks = self.blocks@;
        assert(first_with_id(old_blocks, block_id, idx as int));
        self.blocks.remove(idx);
        proof {
            lemma_totals_remove(old_blocks, idx as int);
        }
        world.remove_entity(block_id);
        self.refresh_size(world);
        Ok(())
    }

    /// Reads the piece's position and rotation; turning is not
    /// implemented, so nothing changes.
    pub fn rotate(&self, world: &mut World)
        requires
            old(world)@.positions.contains_key(self.id()),
            old(world)@.rotations.contains_key(self.id()),
        ensures
            final(world)@ == old(world)@,
    {
        let _pos = world.fetch::<Position>(self.entity_id);
        let _rotation = world.fetch::<Rotation>(self.entity_id);
    }

    /// Builder entry point; not implemented, so nothing changes.
    pub fn build(world: &mut World)
        ensures
            final(world)@ == old(world)@,
    {
    }

    /// Builder step; not implemented, so nothing changes.
    pub fn with_type(&mut self, kind: TetrominoType)
        ensures
            *final(self) == *old(self),
    {
    }

    /// Builder step; not implemented, so nothing changes.
    pub fn with_position(&mut self, position: crate::render::Position)
        ensures
            *final(self) == *old(self),
    {
    }

    /// Builder step; not implemented, so nothing changes.
    pub fn with_rotation(&mut self, rotation: Turn)
        ensures
            *final(self) == *old(self),
    {
    }

    /// Replaces the blocks by four fresh ones of the piece's kind, makes
    /// the piece their parent, and records the piece's size.
    fn refresh_shape(&mut self, world: &mut World)
        requires
            old(world)@.next_id + 4 < EntityId::MAX,
        ensures
            shaped(old(world)@, final(world)@, *final(self)),
            final(self).id() == old(self).id(),
            final(self).kind() == old(self).kind(),
            final(self).color() == old(self).color(),
    {
        let ghost w0 = world@;
        self.blocks = self.get_blocks(world, self.color);
        let ghost w1 = world@;
        let ghost n = w0.next_id as int;
        let mut i: usize = 0;
        while i < self.blocks.len()
            invariant
                self.blocks@.len() == 4,
                forall|j: int| 0 <= j < 4 ==> (#[trigger] self.blocks@[j]).id() == n + j,
                0 <= i <= 4,
                n == w0.next_id,
                w0.next_id + 4 < EntityId::MAX,
                world@.positions == w1.positions,
                world@.sizes == w1.sizes,
                world@.colliders == w1.colliders,
                world@.rotations == w1.rotations,
                world@.next_id == w1.next_id,
                w1.children == w0.children,
                w1.parents == w0.parents,
                world@.parents == with_run(w0.parents, n, i as int, |j: int| Parent { entity: self.entity_id }),
                world@.children.dom() == if i == 0 { w0.children.dom() } else { w0.children.dom().insert(self.entity_id) },
                world@.children_of(self.entity_id) == w0.children_of(self.entity_id) + id_range(n, i as int),
                forall|k: EntityId|
                    k != self.entity_id && #[trigger] w0.children.contains_key(k) ==> world@.children[k] == w0.children[k],
            decreases 4 - i,
        {
            let ghost before = world@;
            world.set_parent(self.blocks[i].entity_id, self.entity_id);
            proof {
                assert forall|k: EntityId|
                    k != self.entity_id && #[trigger] w0.children.contains_key(k) implies world@.children[k] == w0.children[k] by {
                    assert(before.children.contains_key(k));
                }
                assert(world@.parents =~= with_run(w0.parents, n, i + 1, |j: int| Parent { entity: self.entity_id }));
                assert(world@.children_of(self.entity_id) =~= w0.children_of(self.entity_id) + id_range(n, i + 1));
            }
            i += 1;
        }
        proof {
            lemma_totals_bounded(self.blocks@);
        }
        self.refresh_size(world);
        proof {
            assert(world@.children_of(self.entity_id) =~= w0.children_of(self.entity_id) + id_range(n, 4));
        }
    }

    /// Records the piece's size from its blocks.
    fn refresh_size(&mut self, world: &mut World)
        requires
            sizable(old(self).blocks@),
        ensures
            *final(self) == *old(self),
            final(world)@ == (WorldView {
                sizes: old(world)@.sizes.insert(old(self).id(), piece_size(old(self).blocks@)),
                ..old(world)@
            }),
    {
        let mut width: usize = 0;
        let mut height: usize = 0;
        let mut i: usize = 0;
        while i < self.blocks.len()
            invariant
                sizable(self.blocks@),
                i <= self.blocks@.len(),
                width == total_width(self.blocks@.take(i as int)),
                height == total_height(self.blocks@.take(i as int)),
            decreases self.blocks@.len() - i,
        {
            proof {
                lemma_totals_prefix(self.blocks@, i as int);
                lemma_totals_monotone(self.blocks@, i as int + 1);
            }
            let block_size = self.blocks[i].shape.get_size();
            width += block_size.0;
            height += block_size.1;
            i += 1;
        }
        assert(self.blocks@.take(i as int) =~= self.blocks@);
        if width == 0 {
            width = 1;
        }
        world.add_component(self.entity_id, Size { x: width * BLOCK_SIZE, y: height * BLOCK_SIZE });
    }

    /// Spawns four block entities of the piece's kind in `color`: each
    /// with its cell's relative position, a block's size and collider.
    fn get_blocks(&self, world: &mut World, color: Color) -> (r: Vec<Block>)
        requires
            old(world)@.next_id + 4 < EntityId::MAX,
        ensures
            made_blocks(old(world)@, final(world)@, r@, self.kind(), color),
    {
        let ghost w0 = world@;
        let ghost n = w0.next_id as int;
        let shapes = self.kind.get_shapes(color);
        let mut blocks: Vec<Block> = Vec::new();
        let mut i: usize = 0;
        while i < shapes.len()
            invariant
                shapes@.len() == 4,
                forall|j: int|
                    0 <= j < 4 ==> {
                        &&& (#[trigger] shapes@[j]).position() == cells(self.kind())[j]
                        &&& shapes@[j].size() == (BLOCK_SIZE, BLOCK_SIZE)
                        &&& shapes@[j].color() == color
                        &&& shapes@[j].outline_color() == None::<Color>
                        &&& !shapes@[j].triangle_mode()
                    },
                0 <= i <= 4,
                n == w0.next_id,
                w0.next_id + 4 < EntityId::MAX,
                blocks@.len() == i,
                forall|j: int| 0 <= j < i ==> (#[trigger] blocks@[j]).id() == n + j && blocks@[j].shape() == shapes@[j],
                world@.next_id == n + i,
                world@.positions == with_run(w0.positions, n, i as int, |j: int| block_position(cells(self.kind())[j])),
                world@.sizes == with_run(w0.sizes, n, i as int, |j: int| Size { x: BLOCK_SIZE, y: BLOCK_SIZE }),
                world@.colliders == with_run(w0.colliders, n, i as int, |j: int| block_collider()),
                world@.rotations == w0.rotations,
                world@.children == w0.children,
                world@.parents == w0.parents,
            decreases 4 - i,
        {
            let block_shape = shapes[i];
            let block_entity = world.spawn();
            blocks.push(Block::new(block_entity, block_shape));
            let shape_size = block_shape.get_size();
            let shape_pos = block_shape.get_position();
            world.add_component(block_entity, Size { x: shape_size.0, y: shape_size.1 }).add_component(
                block_entity,
                Position {
                    x: (shape_pos.0 * BLOCK_SIZE) as isize,
                    y: (shape_pos.1 * BLOCK_SIZE) as isize,
                    position_type: PositionType::Rel,
                },
            ).add_component(
                block_entity,
                Collider { offset: (0, -1), size: (BLOCK_SIZE, BLOCK_SIZE + 1) },
            );
            proof {
                assert(world@.positions =~= with_run(w0.positions, n, i + 1, |j: int| block_position(cells(self.kind())[j])));
                assert(world@.sizes =~= with_run(w0.sizes, n, i + 1, |j: int| Size { x: BLOCK_SIZE, y: BLOCK_SIZE }));
                assert(world@.colliders =~= with_run(w0.colliders, n, i + 1, |j: int| block_collider()));
            }
            i += 1;
        }
        assert(blocks_of(blocks@, n, self.kind(), color));
        blocks
    }
}

} // verus!
