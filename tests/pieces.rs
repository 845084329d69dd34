use blockworld::rect::Rectangle;
use blockworld::tetromino::{color_code, Block, TetrominoType, BLOCK_SIZE};
use blockworld::world::Entity;

#[test]
fn kinds_by_index() {
    assert_eq!(TetrominoType::get_by_index(0), TetrominoType::I);
    assert_eq!(TetrominoType::get_by_index(1), TetrominoType::O);
    assert_eq!(TetrominoType::get_by_index(2), TetrominoType::T);
    assert_eq!(TetrominoType::get_by_index(3), TetrominoType::L);
    assert_eq!(TetrominoType::get_by_index(4), TetrominoType::S);
}

#[test]
fn shapes_of_t_piece() {
    let shapes = TetrominoType::T.get_shapes(9);
    let cells: Vec<(usize, usize)> = shapes.iter().map(|s| s.get_position()).collect();
    assert_eq!(cells, vec![(1, 0), (0, 1), (1, 1), (2, 1)]);
    for s in &shapes {
        assert_eq!(s.get_size(), (BLOCK_SIZE, BLOCK_SIZE));
    }
}

#[test]
fn shapes_of_i_piece_lie_in_a_row() {
    let cells: Vec<(usize, usize)> =
        TetrominoType::I.get_shapes(1).iter().map(|s| s.get_position()).collect();
    assert_eq!(cells, vec![(0, 0), (1, 0), (2, 0), (3, 0)]);
}

#[test]
fn palette() {
    assert_eq!(color_code(0), 4289854247);
    assert_eq!(color_code(3), 4282666183);
}

#[test]
fn block_keeps_id_and_shape() {
    let b = Block::new(7, Rectangle::new((2, 1), (45, 45), 3));
    assert_eq!(b.get_id(), 7);
    assert_eq!(b.get_shape().get_position(), (2, 1));
}
