//! The sprite sheet of the pieces: one row for each team, one column for each piece type.

use vstd::prelude::*;

verus! {

/// Number of sprite cells in one row of the piece sprite sheet: one cell per piece type.
pub const PIECE_TYPES_PER_ROW: usize = 5;

/// The cell of the sprite sheet that shows the piece type in column `column` for the team in row
/// `row`, counting cells row by row from zero.
pub open spec fn sprite_cell(row: nat, column: nat) -> nat {
    row * (PIECE_TYPES_PER_ROW as nat) + column
}

/// A team, identified by the row of the sprite sheet that holds its pieces.
#[derive(Clone, Copy, PartialEq, Eq, Structural, Debug)]
pub struct Team {
    row: usize,
}

impl Team {
    /// The sprite-sheet row of this team.
    pub closed spec fn row(self) -> nat {
        self.row as nat
    }

    /// Every cell of the team's row has a number that fits a `usize`.
    #[verifier::type_invariant]
    pub open spec fn well_formed(self) -> bool {
        sprite_cell(self.row(), (PIECE_TYPES_PER_ROW - 1) as nat) <= usize::MAX
    }

    /// The team of row `row`, unless the cells of that row have numbers beyond `usize`. Rows are
    /// not held against the number of rows of any sprite sheet.
    pub fn new(row: usize) -> (team: Option<Team>)
        ensures
            team is Some <==> sprite_cell(row as nat, (PIECE_TYPES_PER_ROW - 1) as nat)
                <= usize::MAX,
            team matches Some(t) ==> t.row() == row && t.well_formed(),
    {
        if row <= (usize::MAX - (PIECE_TYPES_PER_ROW - 1)) / PIECE_TYPES_PER_ROW {
            Some(Team { row })
        } else {
            None
        }
    }

    /// The sprite-sheet row of this team.
    pub fn as_usize(&self) -> (row: usize)
        ensures
            row == self.row(),
            self.well_formed(),
    {
        proof {
            use_type_invariant(self);
        }
        self.row
    }
}

/// A piece type, identified by its column in the sprite sheet.
#[derive(Clone, Copy, PartialEq, Eq, Structural, Debug)]
pub struct PieceType {
    column: usize,
}

impl PieceType {
    /// The sprite-sheet column of this piece type.
    pub closed spec fn column(self) -> nat {
        self.column as nat
    }

    /// The column lies inside a sprite-sheet row.
    #[verifier::type_invariant]
    pub open spec fn well_formed(self) -> bool {
        self.column() < PIECE_TYPES_PER_ROW
    }

    /// The piece type of column `column`, if the sprite sheet has such a column.
    pub fn new(column: usize) -> (piece_type: Option<PieceType>)
        ensures
            piece_type is Some <==> column < PIECE_TYPES_PER_ROW,
            piece_type matches Some(p) ==> p.column() == column && p.well_formed(),
    {
        if column < PIECE_TYPES_PER_ROW {
            Some(PieceType { column })
        } else {
            None
        }
    }

    /// The sprite-sheet column of this piece type.
    pub fn as_usize(&self) -> (column: usize)
        ensures
            column == self.column(),
            self.well_formed(),
    {
        proof {
            use_type_invariant(self);
        }
        self.column
    }
}

/// Maps a team and a piece type to the sprite-sheet cell that shows such a piece: the team
/// picks the row, the piece type the column in it.
pub fn sprite_index(team: Team, piece_type: PieceType) -> (index: usize)
    ensures
        index == sprite_cell(team.row(), piece_type.column()),
        index == team.row() * PIECE_TYPES_PER_ROW + piece_type.column(),
{
    let row = team.as_usize();
    let column = piece_type.as_usize();
    row * PIECE_TYPES_PER_ROW + column
}

} // verus!
