use piece_scene::layout::{screen_position, tile_size, Layer, Position, Size, Translation, TILE_SIZE};

#[test]
fn cell_three_two_lands_on_three_and_two_tiles() {
    let translation = screen_position(Position { x: 3, y: 2 });
    assert_eq!(translation.x, 3 * TILE_SIZE);
    assert_eq!(translation.y, 2 * TILE_SIZE);
    assert_eq!(translation.z, Layer::Piece.depth());
}

#[test]
fn cell_three_two_in_numbers() {
    assert_eq!(TILE_SIZE, 64);
    assert_eq!(
        screen_position(Position { x: 3, y: 2 }),
        Translation { x: 192, y: 128, z: 8 }
    );
}

#[test]
fn origin_stays_at_the_origin() {
    assert_eq!(
        screen_position(Position { x: 0, y: 0 }),
        Translation { x: 0, y: 0, z: Layer::Piece.depth() }
    );
}

#[test]
fn pieces_lie_above_board_and_highlights() {
    assert!(Layer::Piece.depth() > Layer::Board.depth());
    assert!(Layer::Piece.depth() > Layer::Highlight.depth());
    assert!(Layer::Highlight.depth() > Layer::Board.depth());
    assert_eq!(Layer::Piece.depth(), 8);
}

#[test]
fn depth_does_not_depend_on_the_cell() {
    let near = screen_position(Position { x: 0, y: 0 });
    let far = screen_position(Position { x: 7, y: 7 });
    assert_eq!(near.z, far.z);
}

#[test]
fn axes_are_scaled_apart() {
    let translation = screen_position(Position { x: 1, y: 5 });
    assert_eq!(translation.x, TILE_SIZE);
    assert_eq!(translation.y, 5 * TILE_SIZE);
}

#[test]
fn cells_off_the_board_are_scaled_too() {
    let translation = screen_position(Position { x: -2, y: -9 });
    assert_eq!(translation.x, -2 * TILE_SIZE);
    assert_eq!(translation.y, -9 * TILE_SIZE);
}

#[test]
fn widest_cells_do_not_overflow() {
    let high = screen_position(Position { x: i32::MAX, y: i32::MIN });
    assert_eq!(high.x, i32::MAX as i64 * TILE_SIZE);
    assert_eq!(high.y, i32::MIN as i64 * TILE_SIZE);
}

#[test]
fn a_sprite_covers_one_tile() {
    assert_eq!(tile_size(), Size { width: TILE_SIZE, height: TILE_SIZE });
}
