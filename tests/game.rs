use blockworld::component::{
    Children, Collider, CollisionInfo, CollisionSide, Parent, Position, PositionType, Size,
};
use blockworld::game::{Board, BOARD_LEN};
use blockworld::rect::Rectangle;
use blockworld::renderer::Renderer;
use blockworld::rules::{block_cell, can_fall, move_outcome, row_full, MoveOutcome};
use blockworld::tetromino::{Block, MoveDirection, Tetromino, TetrominoType, BLOCK_SIZE};
use blockworld::world::{ComponentStorage, Entity, World};

fn rel(x: isize, y: isize) -> Position {
    Position { x, y, position_type: PositionType::Rel }
}

#[test]
fn spawned_t_piece_builds_its_entities() {
    let mut world = World::new();
    let t = Tetromino::spawn_with(&mut world, 2, 1);
    assert_eq!(t.get_id(), 1);
    let ids: Vec<u32> = t.blocks.iter().map(|b| b.get_id()).collect();
    assert_eq!(ids, vec![2, 3, 4, 5]);
    let p = world.fetch::<Position>(1).unwrap();
    assert_eq!((p.x, p.y, p.position_type), (180, 0, PositionType::Rel));
    let first = world.fetch::<Position>(2).unwrap();
    assert_eq!((first.x, first.y, first.position_type), (45, 0, PositionType::Rel));
    let last = world.fetch::<Position>(5).unwrap();
    assert_eq!((last.x, last.y), (90, 45));
    for id in 2..6u32 {
        assert_eq!(world.fetch::<Parent>(id).unwrap().entity, 1);
        let c = world.fetch::<Collider>(id).unwrap();
        assert_eq!((c.offset, c.size), ((0, -1), (45, 46)));
        let s = world.fetch::<Size>(id).unwrap();
        assert_eq!((s.x, s.y), (45, 45));
        assert!(world.fetch::<Children>(1).unwrap().entities().contains(&id));
    }
    let size = world.fetch::<Size>(1).unwrap();
    assert_eq!((size.x, size.y), (180 * BLOCK_SIZE, 180 * BLOCK_SIZE));
    assert_eq!(world.spawn(), 6);
}

#[test]
fn random_spawn_never_picks_the_last_kind() {
    for _ in 0..20 {
        let mut world = World::new();
        let t = Tetromino::spawn(&mut world);
        assert_eq!(t.blocks.len(), 4);
        let kinds = [TetrominoType::I, TetrominoType::O, TetrominoType::T, TetrominoType::L];
        let cells: Vec<(usize, usize)> =
            t.blocks.iter().map(|b| b.get_shape().get_position()).collect();
        assert!(kinds.iter().any(|k| {
            let expected: Vec<(usize, usize)> =
                k.get_shapes(0).iter().map(|s| s.get_position()).collect();
            expected == cells
        }));
    }
}

#[test]
fn shift_moves_the_piece() {
    let mut world = World::new();
    let mut t = Tetromino::spawn_with(&mut world, 0, 0);
    t.shift(&mut world, MoveDirection::Right, 45);
    t.shift(&mut world, MoveDirection::Down, 45);
    t.shift(&mut world, MoveDirection::Down, 45);
    t.shift(&mut world, MoveDirection::Left, 90);
    let p = world.fetch::<Position>(t.get_id()).unwrap();
    assert_eq!((p.x, p.y), (135, 90));
}

#[test]
fn block_positions_follow_the_piece() {
    let mut world = World::new();
    let board = Board::new(&mut world);
    let t = Tetromino::spawn_with(&mut world, 1, 0);
    world.set_parent(t.get_id(), board.get_id());
    let second = t.blocks[1].get_id();
    assert_eq!(world.get_abs_pos(second).unwrap(), (100 + 180, 20 + 45));
}

#[test]
fn remove_block_drops_it_and_resizes() {
    let mut world = World::new();
    let mut t = Tetromino::spawn_with(&mut world, 3, 2);
    let gone = t.blocks[1].get_id();
    assert!(t.remove_block(gone, &mut world).is_ok());
    let ids: Vec<u32> = t.blocks.iter().map(|b| b.get_id()).collect();
    assert_eq!(ids, vec![2, 4, 5]);
    assert!(world.fetch::<Position>(gone).is_none());
    assert!(world.fetch::<Parent>(gone).is_none());
    let size = world.fetch::<Size>(t.get_id()).unwrap();
    assert_eq!((size.x, size.y), (135 * BLOCK_SIZE, 135 * BLOCK_SIZE));
    assert_eq!(t.remove_block(gone, &mut world), Err("Block not found".to_string()));
}

#[test]
fn board_builds_its_entity() {
    let mut world = World::new();
    let board = Board::new(&mut world);
    let id = board.get_id();
    assert_eq!(id, 1);
    let p = world.fetch::<Position>(id).unwrap();
    assert_eq!((p.x, p.y, p.position_type), (100, 20, PositionType::Abs));
    let s = world.fetch::<Size>(id).unwrap();
    assert_eq!((s.x, s.y), (450, 900));
    let c = world.fetch::<Collider>(id).unwrap();
    assert_eq!((c.offset, c.size), ((0, -1), (450, 901)));
    assert!(world.fetch::<Children>(id).unwrap().entities().is_empty());
    assert_eq!(board.cells.len(), BOARD_LEN);
    assert!(board.cells.iter().all(|c| *c == 0));
}

#[test]
fn block_render_draws_outlined_square_at_resolved_position() {
    let mut world = World::new();
    let e = world.spawn();
    world.add_component(e, Position { x: 1, y: 1, position_type: PositionType::Abs });
    let block = Block::new(e, Rectangle::new((7, 7), (3, 2), 1));
    let mut r = Renderer::new(vec![0u32; 100], 10, 10);
    block.render(&mut r, &world);
    let outline = Renderer::rgb_to_u32(232, 222, 220);
    let buf = r.buf_as_slice();
    assert_eq!(buf[11], outline);
    assert_eq!(buf[22], 1);
    assert_eq!(buf[23], 1);
    assert_eq!(buf.iter().filter(|c| **c == 1).count(), 2);
    assert_eq!(buf.iter().filter(|c| **c == outline).count(), 9);
}

fn info(entries: &[(u32, Vec<CollisionSide>)]) -> CollisionInfo {
    let mut i = CollisionInfo::default();
    for (id, sides) in entries {
        i.add_collision(*id, sides.clone());
    }
    i
}

#[test]
fn side_contact_blocks_a_move_that_way_only() {
    let infos = vec![info(&[(9, vec![CollisionSide::Left(3)])])];
    let own = vec![1, 2];
    assert_eq!(move_outcome(&infos, &own, MoveDirection::Left), MoveOutcome::Blocked);
    assert_eq!(move_outcome(&infos, &own, MoveDirection::Right), MoveOutcome::Free);
    assert_eq!(move_outcome(&infos, &own, MoveDirection::Down), MoveOutcome::Free);
}

#[test]
fn bottom_contact_lands_the_piece() {
    let infos = vec![
        info(&[(9, vec![CollisionSide::Top(1)])]),
        info(&[(8, vec![CollisionSide::Top(1), CollisionSide::Bottom(1)])]),
    ];
    let own = vec![1, 2];
    assert_eq!(move_outcome(&infos, &own, MoveDirection::Right), MoveOutcome::Landed);
    assert!(!can_fall(&infos, &own));
}

#[test]
fn contacts_with_own_blocks_do_not_count() {
    let infos = vec![info(&[(2, vec![CollisionSide::Bottom(45), CollisionSide::Left(1)])])];
    let own = vec![1, 2];
    assert_eq!(move_outcome(&infos, &own, MoveDirection::Left), MoveOutcome::Free);
    assert!(can_fall(&infos, &own));
    let contained = vec![info(&[(9, vec![CollisionSide::Contained { x: 1, y: 1 }])])];
    assert!(can_fall(&contained, &own));
}

#[test]
fn block_cells_on_the_field() {
    assert_eq!(block_cell(&rel(180, 0), (1, 0)), 5);
    assert_eq!(block_cell(&rel(180, 90), (0, 1)), 34);
    assert_eq!(block_cell(&rel(-45, 50), (2, 1)), 22);
}

#[test]
fn full_rows() {
    let mut cells = vec![0u32; BOARD_LEN];
    for c in 10..20 {
        cells[c] = 7;
    }
    cells[25] = 3;
    assert!(!row_full(&cells, 0));
    assert!(row_full(&cells, 1));
    assert!(!row_full(&cells, 2));
}

#[test]
fn refresh_cells_marks_landed_blocks() {
    let mut world = World::new();
    let mut board = Board::new(&mut world);
    let t = Tetromino::spawn_with(&mut world, 0, 0);
    {
        let p = world.get_mut::<Position>(t.get_id()).unwrap();
        p.y = 90;
    }
    let mut landed = std::collections::HashMap::new();
    landed.insert(t.get_id(), t.clone());
    board.cells[0] = 99;
    board.refresh_cells(&landed, &world);
    let ids: Vec<u32> = t.blocks.iter().map(|b| b.get_id()).collect();
    assert_eq!(&board.cells[24..28], &ids[..]);
    assert_eq!(board.cells.iter().filter(|c| **c != 0).count(), 4);
    assert_eq!(board.cells[0], 0);
}
