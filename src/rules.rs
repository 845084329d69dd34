//! Decisions of the falling-block game, taken from collision records and
//! the field's cells.
use vstd::prelude::*;
use vstd::std_specs::hash::spec_hash_map_iter;
use vstd::std_specs::iter::IteratorSpec;
use crate::component::{CollisionInfo, CollisionSide, EntityId, Position};
use crate::game::BOARD_CELLS;
use crate::tetromino::{MoveDirection, BLOCK_SIZE};
use crate::world::pixel;

verus! {

broadcast use vstd::std_specs::hash::group_hash_axioms;

/// What a move of the falling piece comes to.
#[derive(PartialEq, Eq, Structural, Clone, Copy, Debug)]
pub enum MoveOutcome {
    /// Nothing stops it: the piece moves.
    Free,
    /// A side contact in the direction of the move stops it.
    Blocked,
    /// A block rests on something: the piece has landed.
    Landed,
}

/// `s` stops a move in direction `d`.
pub open spec fn stops(s: CollisionSide, d: MoveDirection) -> bool {
    ||| (s is Left && d == MoveDirection::Left)
    ||| (s is Right && d == MoveDirection::Right)
    ||| s is Bottom
}

/// What side `s` makes of a move in `d`, if it stops it.
pub open spec fn stop_kind(s: CollisionSide, d: MoveDirection) -> MoveOutcome {
    if s is Bottom {
        MoveOutcome::Landed
    } else {
        MoveOutcome::Blocked
    }
}

/// The contact `k` of record `i` is with an entity that is not one of
/// the piece's own blocks.
pub open spec fn foreign(infos: Seq<CollisionInfo>, own: Seq<EntityId>, i: int, k: EntityId) -> bool {
    &&& 0 <= i < infos.len()
    &&& infos[i].collision@.contains_key(k)
    &&& !own.contains(infos[i].collision@[k].entity_id)
}

/// Some foreign contact of the records has a side that makes `outcome`
/// of a move in `d`.
pub open spec fn reported(infos: Seq<CollisionInfo>, own: Seq<EntityId>, d: MoveDirection, outcome: MoveOutcome) -> bool {
    exists|i: int, k: EntityId, m: int|
        #![trigger infos[i].collision@[k].sides@[m]]
        foreign(infos, own, i, k) && 0 <= m < infos[i].collision@[k].sides@.len() && stops(
            infos[i].collision@[k].sides@[m],
            d,
        ) && stop_kind(infos[i].collision@[k].sides@[m], d) == outcome
}

/// Whether `ids` holds `id`.
fn contains_id(ids: &Vec<EntityId>, id: EntityId) -> (r: bool)
    ensures
        r == ids@.contains(id),
{
    let mut i: usize = 0;
    while i < ids.len()
        invariant
            i <= ids@.len(),
            forall|j: int| 0 <= j < i ==> ids@[j] != id,
        decreases ids@.len() - i,
    {
        if ids[i] == id {
            return true;
        }
        i += 1;
    }
    false
}

/// Decides a move of a piece in `direction` from the collision records
/// of its blocks (`own` lists the blocks, whose contacts with each other
/// do not count). The first stopping side found decides; which one is
/// found first among several depends on the order in which the records
/// are walked.
pub fn move_outcome(infos: &Vec<CollisionInfo>, own: &Vec<EntityId>, direction: MoveDirection) -> (r: MoveOutcome)
    ensures
        r == MoveOutcome::Free <==> !reported(infos@, own@, direction, MoveOutcome::Blocked) && !reported(
            infos@,
            own@,
            direction,
            MoveOutcome::Landed,
        ),
        r != MoveOutcome::Free ==> reported(infos@, own@, direction, r),
{
    let mut i: usize = 0;
    while i < infos.len()
        invariant
            i <= infos@.len(),
            forall|i2: int, k: EntityId, m: int|
                #![trigger infos@[i2].collision@[k].sides@[m]]
                0 <= i2 < i && foreign(infos@, own@, i2, k) && 0 <= m
                    < infos@[i2].collision@[k].sides@.len() ==> !stops(
                    infos@[i2].collision@[k].sides@[m],
                    direction,
                ),
        decreases infos@.len() - i,
    {
        let info = &infos[i];
        let ghost all = spec_hash_map_iter(&info.collision).remaining();
        let ghost mut visited: int = 0;
        for (k, collision) in it: info.collision.iter()
            invariant
                i < infos@.len(),
                *info == infos@[i as int],
                visited == it.index(),
                all == spec_hash_map_iter(&info.collision).remaining(),
                it.seq() == all,
                forall|i2: int, k: EntityId, m: int|
                    #![trigger infos@[i2].collision@[k].sides@[m]]
                    0 <= i2 < i && foreign(infos@, own@, i2, k) && 0 <= m
                        < infos@[i2].collision@[k].sides@.len() ==> !stops(
                        infos@[i2].collision@[k].sides@[m],
                        direction,
                    ),
                forall|t: int, m: int|
                    0 <= t < visited && !own@.contains((*all[t].1).entity_id) && 0 <= m
                        < (*all[t].1).sides@.len() ==> !stops(#[trigger] (*all[t].1).sides@[m], direction),
        {
            let ghost key = *k;
            assert(it.seq()[visited] == (k, collision));
            assert(info.collision@.contains_key(*all[visited].0));
            assert(info.collision@.contains_key(key) && info.collision@[key] == *collision);
            if !contains_id(own, collision.entity_id) {
                assert(foreign(infos@, own@, i as int, key));
                let mut m: usize = 0;
                while m < collision.sides.len()
                    invariant
                        m <= collision.sides@.len(),
                        foreign(infos@, own@, i as int, key),
                        infos@[i as int].collision@[key] == *collision,
                        forall|m2: int| 0 <= m2 < m ==> !stops(#[trigger] collision.sides@[m2], direction),
                    decreases collision.sides@.len() - m,
                {
                    let side = collision.sides[m];
                    let outcome = match side {
                        CollisionSide::Left(_) => if direction == MoveDirection::Left {
                            Some(MoveOutcome::Blocked)
                        } else {
                            None
                        },
                        CollisionSide::Right(_) => if direction == MoveDirection::Right {
                            Some(MoveOutcome::Blocked)
                        } else {
                            None
                        },
                        CollisionSide::Bottom(_) => Some(MoveOutcome::Landed),
                        _ => None,
                    };
                    if let Some(o) = outcome {
                        assert(stops(infos@[i as int].collision@[key].sides@[m as int], direction));
                        return o;
                    }
                    m += 1;
                }
            }
            proof {
                visited = visited + 1;
            }
        }
        proof {
            assert forall|k: EntityId, m: int|
                #![trigger infos@[i as int].collision@[k].sides@[m]]
                foreign(infos@, own@, i as int, k) && 0 <= m
                    < infos@[i as int].collision@[k].sides@.len() implies !stops(
                    infos@[i as int].collision@[k].sides@[m],
                    direction,
                ) by {
                assert(all.contains((&k, &info.collision@[k])));
                let t = choose|t: int| 0 <= t < all.len() && all[t] == (&k, &info.collision@[k]);
                assert(!stops((*all[t].1).sides@[m], direction));
            }
        }
        i += 1;
    }
    MoveOutcome::Free
}

/// A landed piece can fall on: none of its blocks rests on something
/// other than its own blocks.
pub fn can_fall(infos: &Vec<CollisionInfo>, own: &Vec<EntityId>) -> (r: bool)
    ensures
        r <==> !reported(infos@, own@, MoveDirection::Down, MoveOutcome::Landed),
{
    let outcome = move_outcome(infos, own, MoveDirection::Down);
    proof {
        if reported(infos@, own@, MoveDirection::Down, MoveOutcome::Blocked) {
            let (i, k, m) = choose|i: int, k: EntityId, m: int|
                #![trigger infos@[i].collision@[k].sides@[m]]
                foreign(infos@, own@, i, k) && 0 <= m < infos@[i].collision@[k].sides@.len()
                    && stops(infos@[i].collision@[k].sides@[m], MoveDirection::Down) && stop_kind(
                    infos@[i].collision@[k].sides@[m],
                    MoveDirection::Down,
                ) == MoveOutcome::Blocked;
        }
    }
    outcome == MoveOutcome::Free
}

/// The cell a block fills: its piece's cell (from the piece's position,
/// relative to the field, in whole blocks) plus the block's own grid cell.
pub open spec fn cell_index(piece: Position, cell: (usize, usize)) -> int {
    let px = pixel(piece.x) / (BLOCK_SIZE as int);
    let py = pixel(piece.y) / (BLOCK_SIZE as int);
    py * BOARD_CELLS + px + cell.1 * BOARD_CELLS + cell.0
}

/// The index of the field cell a block at grid cell `cell` of a piece at
/// `piece` fills.
pub fn block_cell(piece: &Position, cell: (usize, usize)) -> (r: usize)
    requires
        cell_index(*piece, cell) <= usize::MAX,
    ensures
        r == cell_index(*piece, cell),
{
    let x: usize = if piece.x < 0 { 0 } else { piece.x as usize };
    let y: usize = if piece.y < 0 { 0 } else { piece.y as usize };
    let (piece_x, piece_y) = (x / BLOCK_SIZE, y / BLOCK_SIZE);
    assert(piece_y * BOARD_CELLS + piece_x <= cell_index(*piece, cell));
    let piece_row = if piece_y > 0 { piece_y * BOARD_CELLS } else { piece_y };
    let piece_cell = piece_row + piece_x;
    let block_row = if cell.1 > 0 { cell.1 * BOARD_CELLS } else { cell.1 };
    piece_cell + block_row + cell.0
}

/// Cell `c` of row `row` of the field.
pub open spec fn row_cell(cells: Seq<EntityId>, row: int, c: int) -> EntityId {
    cells[row * BOARD_CELLS + c]
}

/// Row `row` of the field is full: none of its cells is `0`.
pub fn row_full(cells: &Vec<EntityId>, row: usize) -> (r: bool)
    requires
        (row + 1) * BOARD_CELLS <= cells@.len(),
    ensures
        r <==> forall|c: int| 0 <= c < BOARD_CELLS ==> #[trigger] row_cell(cells@, row as int, c) != 0,
{
    let len = cells.len();
    assert(row * BOARD_CELLS + BOARD_CELLS <= len);
    let start = row * BOARD_CELLS;
    let mut c: usize = 0;
    while c < BOARD_CELLS
        invariant
            len == cells@.len(),
            start == row * BOARD_CELLS,
            start + BOARD_CELLS <= cells@.len(),
            c <= BOARD_CELLS,
            forall|c2: int| 0 <= c2 < c ==> #[trigger] row_cell(cells@, row as int, c2) != 0,
        decreases BOARD_CELLS - c,
    {
        if cells[start + c] == 0 {
            assert(row_cell(cells@, row as int, c as int) == 0);
            return false;
        }
        c += 1;
    }
    true
}

} // verus!
