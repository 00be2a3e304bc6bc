//! Clearing and redrawing the pieces of a scene.

use vstd::prelude::*;

use crate::commands::{Command, Commands, Pending};
use crate::components::{
    Bundle, Component, Entity, Name, Node, PieceMarker, Sprite, SpriteSheetHandle, PIECE_NAME,
};
use crate::game::{placements, player_placements, GameState, Placement, Player};
use crate::laws::{
    clearing_twice_leaves_no_piece, lemma_despawn_spawn_count, lemma_redraw_spawn_count,
    redraw_shows_each_piece_once,
};
use crate::layout::{piece_translation, screen_position, spec_tile_size, tile_size, Translation};
use crate::scene::{pieces, untagged, Scene, SceneState};
use crate::sheet::{sprite_cell, sprite_index};

verus! {

/// The sprite that shows the piece of `placement`: the cell of its team and type, one tile in
/// size, on the cell where the piece stands.
pub open spec fn piece_sprite(sheet: SpriteSheetHandle, placement: Placement) -> Sprite {
    Sprite {
        sheet,
        index: sprite_cell(placement.team.row(), placement.piece.piece_type.column()) as usize,
        size: spec_tile_size(),
        translation: piece_translation(placement.piece.position),
    }
}

/// What the entity of a drawn piece is made of: the sprite of the piece, the label of pieces,
/// and the tag of pieces.
pub open spec fn piece_bundle(sheet: SpriteSheetHandle, placement: Placement) -> Bundle {
    Bundle {
        sprite: piece_sprite(sheet, placement),
        name: Some(Name { text: PIECE_NAME }),
        marker: Some(PieceMarker),
    }
}

/// The changes that draw `placements`: one new entity for each, in order.
pub open spec fn spawn_commands(
    sheet: SpriteSheetHandle,
    placements: Seq<Placement>,
) -> Seq<Command> {
    placements.map_values(
        |placement: Placement| Command::Spawn { bundle: piece_bundle(sheet, placement) },
    )
}

/// The changes that remove the entities of `query`, in order.
pub open spec fn despawn_commands(query: Seq<Entity>) -> Seq<Command> {
    query.map_values(|entity: Entity| Command::Despawn { entity })
}

/// The changes of one redraw of a scene that holds `nodes`: remove what is tagged as a piece,
/// then draw `placements`.
pub open spec fn redraw_commands(
    nodes: Seq<Node>,
    sheet: SpriteSheetHandle,
    placements: Seq<Placement>,
) -> Seq<Command> {
    despawn_commands(pieces(nodes)) + spawn_commands(sheet, placements)
}

/// The entities that show `placements`, in order, numbered from `first` upward.
pub open spec fn piece_nodes(
    sheet: SpriteSheetHandle,
    placements: Seq<Placement>,
    first: nat,
) -> Seq<Node> {
    Seq::new(
        placements.len(),
        |k: int|
            Node {
                entity: Entity { id: (first + k) as u64 },
                bundle: piece_bundle(sheet, placements[k]),
            },
    )
}

/// The identifiers `first`, `first + 1`, and so on, `count` of them.
pub open spec fn entities_from(first: nat, count: nat) -> Seq<Entity> {
    Seq::new(count, |k: int| Entity { id: (first + k) as u64 })
}

/// The pieces of the first `count + 1` players are those of the first `count` players followed
/// by those of the next player.
proof fn lemma_placements_take(players: Seq<Player>, count: int)
    requires
        0 <= count < players.len(),
    ensures
        placements(players.take(count + 1)) == placements(players.take(count)) + player_placements(
            players[count],
        ),
{
    assert(players.take(count + 1).drop_last() =~= players.take(count));
}

/// Asks for the removal of every entity of `query`, which holds the entities that are tagged as
/// pieces.
pub fn clear_pieces(commands: &mut Commands, query: &[Entity])
    ensures
        final(commands)@ == old(commands)@ + despawn_commands(query@),
{
    let mut i: usize = 0;
    while i < query.len()
        invariant
            i <= query.len(),
            commands@ == old(commands)@ + despawn_commands(query@.take(i as int)),
        decreases query.len() - i,
    {
        commands.despawn(query[i]);
        assert(despawn_commands(query@.take(i as int)).push(
            Command::Despawn { entity: query[i as int] },
        ) =~= despawn_commands(query@.take(i + 1)));
        i = i + 1;
    }
    assert(query@.take(i as int) =~= query@);
}

/// Asks for one new entity that shows cell `index` of the sprite sheet `tile`, one tile in size,
/// at `translation`. Returns a handle of that entity, so that the caller can attach more to it.
/// The index is not held against the number of cells of the sheet.
pub fn spawn_piece(
    commands: &mut Commands,
    tile: &SpriteSheetHandle,
    index: usize,
    translation: Translation,
) -> (pending: Pending)
    ensures
        pending.slot() == old(commands)@.len(),
        final(commands)@ == old(commands)@.push(
            Command::Spawn {
                bundle: Bundle::bare(
                    Sprite { sheet: *tile, index, size: spec_tile_size(), translation },
                ),
            },
        ),
{
    commands.spawn(Sprite { sheet: *tile, index, size: tile_size(), translation })
}

/// Asks for the scene to show exactly the pieces of `game`: the removal of every entity of
/// `query`, which holds the entities that are tagged as pieces, and then, for each piece of each
/// player in order, a new entity with the sprite of the piece, labelled and tagged as a piece.
pub fn draw_pieces(
    commands: &mut Commands,
    sprite: &SpriteSheetHandle,
    game: &GameState,
    query: &[Entity],
)
    ensures
        final(commands)@ == old(commands)@ + despawn_commands(query@) + spawn_commands(
            *sprite,
            game.placements(),
        ),
{
    clear_pieces(commands, query);
    let ghost cleared = commands@;
    let mut i: usize = 0;
    while i < game.players.len()
        invariant
            i <= game.players.len(),
            commands@ == cleared + spawn_commands(
                *sprite,
                placements(game.players@.take(i as int)),
            ),
        decreases game.players.len() - i,
    {
        let player = &game.players[i];
        let ghost before = placements(game.players@.take(i as int));
        let mut j: usize = 0;
        while j < player.pieces.len()
            invariant
                j <= player.pieces.len(),
                commands@ == cleared + spawn_commands(
                    *sprite,
                    before + player_placements(*player).take(j as int),
                ),
            decreases player.pieces.len() - j,
        {
            let piece = player.pieces[j];
            let ghost done = before + player_placements(*player).take(j as int);
            let ghost placement = Placement { team: player.team, piece };
            let index = sprite_index(player.team, piece.piece_type);
            let translation = screen_position(piece.position);
            let pending = spawn_piece(commands, sprite, index, translation);
            commands.insert(pending, Component::Name(Name { text: PIECE_NAME }));
            commands.insert(pending, Component::Marker(PieceMarker));
            proof {
                assert(done.push(placement) =~= before + player_placements(*player).take(j + 1));
                assert(commands@ =~= cleared + spawn_commands(*sprite, done.push(placement)));
            }
            j = j + 1;
        }
        proof {
            lemma_placements_take(game.players@, i as int);
            assert(player_placements(*player).take(j as int) =~= player_placements(*player));
        }
        i = i + 1;
    }
    assert(game.players@.take(i as int) =~= game.players@);
}

impl Scene {
    /// Removes every entity that is tagged as a piece, and leaves the others as they are.
    pub fn clear(&mut self)
        ensures
            final(self)@ == (SceneState { nodes: untagged(old(self)@.nodes), next: old(self)@.next }),
            untagged(final(self)@.nodes) == untagged(old(self)@.nodes),
            pieces(final(self)@.nodes).len() == 0,
    {
        let query = self.pieces();
        let mut commands = Commands::new();
        clear_pieces(&mut commands, query.as_slice());
        proof {
            use_type_invariant(&*self);
            clearing_twice_leaves_no_piece(self@);
            lemma_despawn_spawn_count(pieces(self@.nodes));
            assert(commands@ =~= despawn_commands(pieces(self@.nodes)));
        }
        self.apply(commands);
    }

    /// Makes the scene show exactly the pieces of `game`: removes every entity that is tagged
    /// as a piece, leaves the others as they are, and puts behind them one new entity for each
    /// piece, in the order of the game. Where the scene has not enough identifiers left for the
    /// new entities, it stays as it is, and the result is `false`.
    pub fn rebuild(&mut self, sprite: &SpriteSheetHandle, game: &GameState) -> (drawn: bool)
        ensures
            drawn == (old(self)@.next + game.piece_count() <= u64::MAX),
            drawn ==> final(self)@ == (SceneState {
                nodes: untagged(old(self)@.nodes) + piece_nodes(
                    *sprite,
                    game.placements(),
                    old(self)@.next,
                ),
                next: old(self)@.next + game.piece_count(),
            }),
            drawn ==> untagged(final(self)@.nodes) == untagged(old(self)@.nodes),
            drawn ==> pieces(final(self)@.nodes) == entities_from(
                old(self)@.next,
                game.piece_count(),
            ),
            drawn ==> pieces(final(self)@.nodes).len() == game.piece_count(),
            !drawn ==> final(self)@ == old(self)@,
    {
        let query = self.pieces();
        let mut commands = Commands::new();
        draw_pieces(&mut commands, sprite, game, query.as_slice());
        proof {
            use_type_invariant(&*self);
            assert(commands@ =~= redraw_commands(self@.nodes, *sprite, game.placements()));
            lemma_redraw_spawn_count(self@.nodes, *sprite, game.placements());
            if self@.next + game.piece_count() <= u64::MAX {
                redraw_shows_each_piece_once(self@, *sprite, *game);
            }
        }
        if !self.has_room(&commands) {
            return false;
        }
        self.apply(commands);
        true
    }
}

} // verus!
