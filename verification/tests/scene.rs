use piece_scene::commands::Commands;
use piece_scene::components::{
    Bundle, Component, Entity, Name, Node, PieceMarker, Sprite, SpriteSheetHandle,
};
use piece_scene::draw::{clear_pieces, draw_pieces};
use piece_scene::game::{GameState, Piece, Player};
use piece_scene::layout::{tile_size, Layer, Position, Size, Translation, TILE_SIZE};
use piece_scene::scene::Scene;
use piece_scene::sheet::{PieceType, Team};

const SHEET: SpriteSheetHandle = SpriteSheetHandle { id: 11 };

const BOARD: SpriteSheetHandle = SpriteSheetHandle { id: 12 };

fn piece(column: usize, x: i32, y: i32) -> Piece {
    Piece { piece_type: PieceType::new(column).unwrap(), position: Position { x, y } }
}

fn player(row: usize, pieces: Vec<Piece>) -> Player {
    Player { team: Team::new(row).unwrap(), pieces }
}

fn pawn_and_king() -> GameState {
    GameState {
        players: vec![player(0, vec![piece(0, 0, 0)]), player(1, vec![piece(4, 7, 7)])],
    }
}

fn full_board() -> GameState {
    let mut players = Vec::new();
    for row in 0..4usize {
        let mut pieces = Vec::new();
        for k in 0..8i32 {
            pieces.push(piece((k as usize) % 5, k, row as i32));
        }
        players.push(player(row, pieces));
    }
    GameState { players }
}

fn tile(x: i64, y: i64) -> Sprite {
    Sprite {
        sheet: BOARD,
        index: 0,
        size: Size { width: TILE_SIZE, height: TILE_SIZE },
        translation: Translation { x, y, z: Layer::Board.depth() },
    }
}

fn tile_node(id: u64, x: i64, y: i64) -> Node {
    Node {
        entity: Entity { id },
        bundle: Bundle { sprite: tile(x, y), name: None, marker: None },
    }
}

/// A scene that holds two board tiles and nothing else.
fn scene_with_board() -> Scene {
    let mut scene = Scene::new();
    let mut commands = Commands::new();
    commands.spawn(tile(0, 0));
    commands.spawn(tile(TILE_SIZE, 0));
    scene.apply(commands);
    scene
}

fn tagged(scene: &Scene) -> Vec<Node> {
    scene.nodes().iter().copied().filter(|node| node.bundle.marker.is_some()).collect()
}

fn untagged(scene: &Scene) -> Vec<Node> {
    scene.nodes().iter().copied().filter(|node| node.bundle.marker.is_none()).collect()
}

fn piece_node(id: u64, index: usize, x: i64, y: i64) -> Node {
    Node {
        entity: Entity { id },
        bundle: Bundle {
            sprite: Sprite {
                sheet: SHEET,
                index,
                size: tile_size(),
                translation: Translation { x, y, z: Layer::Piece.depth() },
            },
            name: Some(Name { text: "Piece" }),
            marker: Some(PieceMarker),
        },
    }
}

#[test]
fn new_scene_is_empty() {
    let scene = Scene::new();
    assert!(scene.nodes().is_empty());
    assert!(scene.pieces().is_empty());
    assert_eq!(scene.next_id(), 0);
}

#[test]
fn spawn_puts_an_entity_behind_the_others() {
    let scene = scene_with_board();
    assert_eq!(scene.nodes().to_vec(), vec![tile_node(0, 0, 0), tile_node(1, TILE_SIZE, 0)]);
    assert_eq!(scene.next_id(), 2);
}

#[test]
fn spawn_carries_what_was_attached() {
    let mut scene = scene_with_board();
    let mut commands = Commands::new();
    let pending = commands.spawn(tile(0, TILE_SIZE));
    commands.insert(pending, Component::Name(Name { text: "Tile" }));
    scene.apply(commands);
    assert_eq!(
        scene.nodes()[2],
        Node {
            entity: Entity { id: 2 },
            bundle: Bundle {
                sprite: tile(0, TILE_SIZE),
                name: Some(Name { text: "Tile" }),
                marker: None,
            },
        }
    );
    assert!(scene.pieces().is_empty());
}

#[test]
fn despawn_removes_the_entity_named() {
    let mut scene = scene_with_board();
    let mut commands = Commands::new();
    commands.despawn(Entity { id: 0 });
    scene.apply(commands);
    assert_eq!(scene.nodes().to_vec(), vec![tile_node(1, TILE_SIZE, 0)]);
}

#[test]
fn despawn_of_a_missing_entity_changes_nothing() {
    let mut scene = scene_with_board();
    let before = scene.nodes().to_vec();
    let mut commands = Commands::new();
    commands.despawn(Entity { id: 40 });
    commands.despawn(Entity { id: 40 });
    scene.apply(commands);
    assert_eq!(scene.nodes().to_vec(), before);
    assert_eq!(scene.next_id(), 2);
}

#[test]
fn identifiers_are_not_used_again() {
    let mut scene = scene_with_board();
    let mut commands = Commands::new();
    commands.despawn(Entity { id: 1 });
    commands.spawn(tile(0, 0));
    scene.apply(commands);
    assert_eq!(scene.nodes().to_vec(), vec![tile_node(0, 0, 0), tile_node(2, 0, 0)]);
    assert_eq!(scene.next_id(), 3);
}

#[test]
fn changes_are_made_in_the_order_asked() {
    let mut scene = Scene::new();
    let mut commands = Commands::new();
    commands.despawn(Entity { id: 0 });
    commands.spawn(tile(0, 0));
    commands.spawn(tile(TILE_SIZE, 0));
    commands.despawn(Entity { id: 1 });
    scene.apply(commands);
    assert_eq!(scene.nodes().to_vec(), vec![tile_node(0, 0, 0)]);
}

#[test]
fn empty_queue_changes_nothing() {
    let mut scene = scene_with_board();
    let before = scene.nodes().to_vec();
    scene.apply(Commands::new());
    assert_eq!(scene.nodes().to_vec(), before);
    assert_eq!(scene.next_id(), 2);
}

#[test]
fn scene_has_room_for_a_queue() {
    let scene = scene_with_board();
    let mut commands = Commands::new();
    assert!(scene.has_room(&commands));
    draw_pieces(&mut commands, &SHEET, &full_board(), &[]);
    assert!(scene.has_room(&commands));
}

#[test]
fn scene_without_room_for_a_queue() {
    let scene = Scene::starting_at(u64::MAX - 1);
    let mut commands = Commands::new();
    commands.despawn(Entity { id: 0 });
    commands.spawn(tile(0, 0));
    commands.despawn(Entity { id: 1 });
    assert!(scene.has_room(&commands));
    commands.spawn(tile(0, 0));
    assert!(!scene.has_room(&commands));
    assert!(Scene::starting_at(u64::MAX).has_room(&Commands::new()));
}

#[test]
fn last_identifier_is_handed_out() {
    let mut scene = Scene::starting_at(u64::MAX - 1);
    let mut commands = Commands::new();
    commands.spawn(tile(0, 0));
    scene.apply(commands);
    assert_eq!(scene.nodes().to_vec(), vec![tile_node(u64::MAX - 1, 0, 0)]);
    assert_eq!(scene.next_id(), u64::MAX);
}

#[test]
fn rebuild_without_room_leaves_the_scene() {
    let mut scene = Scene::starting_at(u64::MAX - 3);
    assert!(scene.rebuild(&SHEET, &pawn_and_king()));
    let before = scene.nodes().to_vec();
    assert_eq!(scene.next_id(), u64::MAX - 1);
    assert!(!scene.rebuild(&SHEET, &pawn_and_king()));
    assert_eq!(scene.nodes().to_vec(), before);
    assert_eq!(scene.next_id(), u64::MAX - 1);
    assert!(scene.rebuild(&SHEET, &GameState { players: vec![] }));
    assert!(scene.nodes().is_empty());
}

#[test]
fn scene_can_start_at_any_identifier() {
    let mut scene = Scene::starting_at(100);
    assert!(scene.rebuild(&SHEET, &pawn_and_king()));
    assert_eq!(scene.pieces(), vec![Entity { id: 100 }, Entity { id: 101 }]);
}

#[test]
fn query_lists_tagged_entities_in_scene_order() {
    let mut scene = Scene::new();
    let mut commands = Commands::new();
    let a = commands.spawn(tile(0, 0));
    let b = commands.spawn(tile(0, 0));
    let c = commands.spawn(tile(0, 0));
    commands.insert(c, Component::Marker(PieceMarker));
    commands.insert(a, Component::Marker(PieceMarker));
    commands.insert(b, Component::Name(Name { text: "Piece" }));
    scene.apply(commands);
    assert_eq!(scene.pieces(), vec![Entity { id: 0 }, Entity { id: 2 }]);
}

#[test]
fn pawn_and_king_scene() {
    let mut scene = Scene::new();
    assert!(scene.rebuild(&SHEET, &pawn_and_king()));
    assert_eq!(
        scene.nodes().to_vec(),
        vec![piece_node(0, 0, 0, 0), piece_node(1, 9, 7 * TILE_SIZE, 7 * TILE_SIZE)]
    );
    assert_eq!(scene.pieces().len(), 2);
}

#[test]
fn pawn_and_king_through_the_queue() {
    let mut scene = Scene::new();
    let query = scene.pieces();
    let mut commands = Commands::new();
    draw_pieces(&mut commands, &SHEET, &pawn_and_king(), &query);
    scene.apply(commands);
    let drawn = tagged(&scene);
    assert_eq!(drawn.len(), 2);
    assert_eq!(drawn[0].bundle.sprite.index, 0);
    assert_eq!(drawn[1].bundle.sprite.index, 9);
    assert_eq!(
        drawn[0].bundle.sprite.translation,
        Translation { x: 0, y: 0, z: Layer::Piece.depth() }
    );
    assert_eq!(
        drawn[1].bundle.sprite.translation,
        Translation { x: 7 * TILE_SIZE, y: 7 * TILE_SIZE, z: Layer::Piece.depth() }
    );
    assert!(drawn.iter().all(|node| node.bundle.name == Some(Name { text: "Piece" })));
    assert!(drawn.iter().all(|node| node.bundle.sprite.sheet == SHEET));
    assert!(drawn.iter().all(|node| node.bundle.sprite.size == tile_size()));
}

#[test]
fn rebuild_draws_as_many_entities_as_pieces() {
    let game = full_board();
    let mut scene = scene_with_board();
    assert!(scene.rebuild(&SHEET, &game));
    assert_eq!(scene.pieces().len(), 32);
    assert_eq!(tagged(&scene).len(), 32);
    assert_eq!(scene.nodes().len(), 34);
}

#[test]
fn rebuild_twice_does_not_pile_up() {
    let game = full_board();
    let mut scene = scene_with_board();
    assert!(scene.rebuild(&SHEET, &game));
    let once: Vec<Bundle> = tagged(&scene).iter().map(|node| node.bundle).collect();
    assert!(scene.rebuild(&SHEET, &game));
    let twice: Vec<Bundle> = tagged(&scene).iter().map(|node| node.bundle).collect();
    assert_eq!(scene.pieces().len(), 32);
    assert_eq!(once, twice);
    assert_eq!(scene.nodes().len(), 34);
}

#[test]
fn rebuild_gives_new_entities() {
    let mut scene = Scene::new();
    assert!(scene.rebuild(&SHEET, &pawn_and_king()));
    assert_eq!(scene.pieces(), vec![Entity { id: 0 }, Entity { id: 1 }]);
    assert!(scene.rebuild(&SHEET, &pawn_and_king()));
    assert_eq!(scene.pieces(), vec![Entity { id: 2 }, Entity { id: 3 }]);
    assert_eq!(scene.next_id(), 4);
}

#[test]
fn rebuild_follows_a_changed_game() {
    let mut scene = scene_with_board();
    assert!(scene.rebuild(&SHEET, &full_board()));
    assert!(scene.rebuild(&SHEET, &pawn_and_king()));
    assert_eq!(
        tagged(&scene),
        vec![piece_node(34, 0, 0, 0), piece_node(35, 9, 7 * TILE_SIZE, 7 * TILE_SIZE)]
    );
}

#[test]
fn rebuild_leaves_other_entities_alone() {
    let mut scene = scene_with_board();
    let board = scene.nodes().to_vec();
    assert!(scene.rebuild(&SHEET, &full_board()));
    assert_eq!(untagged(&scene), board);
    assert_eq!(scene.nodes()[..2].to_vec(), board);
    assert!(scene.rebuild(&SHEET, &pawn_and_king()));
    assert_eq!(untagged(&scene), board);
}

#[test]
fn rebuild_with_an_empty_game_clears() {
    let mut scene = scene_with_board();
    let board = scene.nodes().to_vec();
    assert!(scene.rebuild(&SHEET, &full_board()));
    assert!(scene.rebuild(&SHEET, &GameState { players: vec![] }));
    assert!(scene.pieces().is_empty());
    assert_eq!(scene.nodes().to_vec(), board);
}

#[test]
fn clear_leaves_no_piece() {
    let mut scene = scene_with_board();
    let board = scene.nodes().to_vec();
    assert!(scene.rebuild(&SHEET, &full_board()));
    scene.clear();
    assert!(scene.pieces().is_empty());
    assert!(tagged(&scene).is_empty());
    assert_eq!(scene.nodes().to_vec(), board);
}

#[test]
fn clear_twice_leaves_no_piece() {
    let mut scene = scene_with_board();
    assert!(scene.rebuild(&SHEET, &full_board()));
    scene.clear();
    let once = scene.nodes().to_vec();
    assert!(scene.pieces().is_empty());
    scene.clear();
    assert!(scene.pieces().is_empty());
    assert_eq!(scene.nodes().to_vec(), once);
}

#[test]
fn clear_twice_with_one_query_leaves_no_piece() {
    let mut scene = scene_with_board();
    assert!(scene.rebuild(&SHEET, &pawn_and_king()));
    let query = scene.pieces();
    let mut commands = Commands::new();
    clear_pieces(&mut commands, &query);
    clear_pieces(&mut commands, &query);
    assert_eq!(commands.as_slice().len(), 4);
    scene.apply(commands);
    assert!(scene.pieces().is_empty());
    assert_eq!(scene.nodes().len(), 2);
}

#[test]
fn clear_of_a_scene_without_pieces_changes_nothing() {
    let mut scene = scene_with_board();
    let board = scene.nodes().to_vec();
    scene.clear();
    assert_eq!(scene.nodes().to_vec(), board);
    let mut empty = Scene::new();
    empty.clear();
    assert!(empty.nodes().is_empty());
}

#[test]
fn clear_removes_only_what_the_query_holds() {
    let mut scene = scene_with_board();
    assert!(scene.rebuild(&SHEET, &pawn_and_king()));
    let mut commands = Commands::new();
    clear_pieces(&mut commands, &[Entity { id: 3 }]);
    scene.apply(commands);
    assert_eq!(scene.pieces(), vec![Entity { id: 2 }]);
    assert_eq!(scene.nodes().len(), 3);
}
