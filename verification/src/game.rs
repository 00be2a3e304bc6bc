//! The game as this crate reads it: players, and their pieces on the board.

use vstd::prelude::*;

use crate::layout::Position;
use crate::sheet::{PieceType, Team};

verus! {

/// A piece of the game: its type and the cell it stands on.
#[derive(Clone, Copy, PartialEq, Eq, Structural, Debug)]
pub struct Piece {
    pub piece_type: PieceType,
    pub position: Position,
}

/// A player: the team and the pieces it has on the board, in order.
#[derive(Clone, Debug)]
pub struct Player {
    pub team: Team,
    pub pieces: Vec<Piece>,
}

/// A snapshot of the game: the players, in order.
#[derive(Clone, Debug)]
pub struct GameState {
    pub players: Vec<Player>,
}

/// A piece on the board together with the team that owns it.
#[derive(Clone, Copy, PartialEq, Eq, Structural, Debug)]
pub struct Placement {
    pub team: Team,
    pub piece: Piece,
}

/// The pieces of one player, in the player's order.
pub open spec fn player_placements(player: Player) -> Seq<Placement> {
    player.pieces@.map_values(|piece: Piece| Placement { team: player.team, piece })
}

/// The pieces of all players: player by player, each player's pieces in order.
pub open spec fn placements(players: Seq<Player>) -> Seq<Placement>
    decreases players.len(),
{
    if players.len() == 0 {
        Seq::empty()
    } else {
        placements(players.drop_last()) + player_placements(players.last())
    }
}

impl GameState {
    /// All pieces on the board, in the order in which they are drawn.
    pub open spec fn placements(&self) -> Seq<Placement> {
        placements(self.players@)
    }

    /// The number of pieces on the board.
    pub open spec fn piece_count(&self) -> nat {
        self.placements().len()
    }
}

} // verus!
