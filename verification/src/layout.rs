//! Where things are drawn: the grid of tiles on screen and the draw layers.

use vstd::prelude::*;

verus! {

/// Side of one board tile on screen. Every visual layer places its sprites on this grid.
pub const TILE_SIZE: i64 = 64;

/// The draw layers of the scene, from the back to the front.
#[derive(Clone, Copy, PartialEq, Eq, Structural, Debug)]
pub enum Layer {
    /// The tiles of the board.
    Board,
    /// Highlights drawn over tiles.
    Highlight,
    /// The pieces.
    Piece,
}

impl Layer {
    /// The depth at which the sprites of this layer are drawn. A greater depth is nearer to the
    /// viewer.
    pub open spec fn spec_depth(self) -> i64 {
        match self {
            Layer::Board => 0,
            Layer::Highlight => 4,
            Layer::Piece => 8,
        }
    }

    /// The depth at which the sprites of this layer are drawn.
    #[verifier::when_used_as_spec(spec_depth)]
    pub fn depth(self) -> (z: i64)
        ensures
            z == self.spec_depth(),
    {
        match self {
            Layer::Board => 0,
            Layer::Highlight => 4,
            Layer::Piece => 8,
        }
    }
}

/// A cell of the board, by column and row.
#[derive(Clone, Copy, PartialEq, Eq, Structural, Debug)]
pub struct Position {
    pub x: i32,
    pub y: i32,
}

/// A point of the screen together with its draw depth.
#[derive(Clone, Copy, PartialEq, Eq, Structural, Debug)]
pub struct Translation {
    pub x: i64,
    pub y: i64,
    pub z: i64,
}

/// Width and height of a sprite on screen.
#[derive(Clone, Copy, PartialEq, Eq, Structural, Debug)]
pub struct Size {
    pub width: i64,
    pub height: i64,
}

/// Where a piece that stands on `position` is drawn.
pub open spec fn piece_translation(position: Position) -> Translation {
    Translation {
        x: (position.x * TILE_SIZE) as i64,
        y: (position.y * TILE_SIZE) as i64,
        z: Layer::Piece.spec_depth(),
    }
}

/// The size of a sprite that covers exactly one tile.
pub open spec fn spec_tile_size() -> Size {
    Size { width: TILE_SIZE, height: TILE_SIZE }
}

/// Converts a board cell to the screen position of a piece on it: the cell scaled by the tile
/// size, on the piece layer, which lies above the board and the highlights.
pub fn screen_position(position: Position) -> (translation: Translation)
    ensures
        translation == piece_translation(position),
        translation.x == position.x * TILE_SIZE,
        translation.y == position.y * TILE_SIZE,
        translation.z == Layer::Piece.spec_depth(),
        translation.z > Layer::Board.spec_depth(),
        translation.z > Layer::Highlight.spec_depth(),
{
    Translation {
        x: position.x as i64 * TILE_SIZE,
        y: position.y as i64 * TILE_SIZE,
        z: Layer::Piece.depth(),
    }
}

/// The size of a sprite that covers exactly one tile.
#[verifier::when_used_as_spec(spec_tile_size)]
pub fn tile_size() -> (size: Size)
    ensures
        size == spec_tile_size(),
{
    Size { width: TILE_SIZE, height: TILE_SIZE }
}

} // verus!
