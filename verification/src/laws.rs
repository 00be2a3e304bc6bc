//! What holds of a scene after it has been cleared or redrawn.

use vstd::prelude::*;

use crate::commands::Command;
use crate::components::{Entity, Node, SpriteSheetHandle};
use crate::draw::{
    despawn_commands, entities_from, piece_bundle, piece_nodes, redraw_commands, spawn_commands,
};
use crate::game::{GameState, Placement};
use crate::scene::{
    lemma_filter_well_formed, pieces, run, spawn_count, step, untagged, well_formed, SceneState,
};

verus! {

/// Two filters, one after the other, keep what both keep.
proof fn lemma_filter_twice<A>(
    s: Seq<A>,
    first: spec_fn(A) -> bool,
    second: spec_fn(A) -> bool,
    both: spec_fn(A) -> bool,
)
    requires
        forall|a: A| #[trigger] both(a) == (first(a) && second(a)),
    ensures
        s.filter(first).filter(second) == s.filter(both),
    decreases s.len(),
{
    reveal(Seq::filter);
    if s.len() > 0 {
        lemma_filter_twice(s.drop_last(), first, second, both);
        if first(s.last()) {
            s.drop_last().filter(first).lemma_filter_push(s.last(), second);
        }
    }
}

/// Two filters that agree on every item of a sequence keep the same items of it.
proof fn lemma_filter_same<A>(s: Seq<A>, left: spec_fn(A) -> bool, right: spec_fn(A) -> bool)
    requires
        forall|i: int| 0 <= i < s.len() ==> left(#[trigger] s[i]) == right(s[i]),
    ensures
        s.filter(left) == s.filter(right),
    decreases s.len(),
{
    reveal(Seq::filter);
    if s.len() > 0 {
        assert forall|i: int| 0 <= i < s.drop_last().len() implies left(#[trigger] s.drop_last()[i])
            == right(s.drop_last()[i]) by {
            assert(s.drop_last()[i] == s[i]);
        }
        lemma_filter_same(s.drop_last(), left, right);
        assert(s.last() == s[s.len() - 1]);
    }
}

/// A filter that keeps every item of a sequence keeps the sequence.
proof fn lemma_filter_all<A>(s: Seq<A>, keep: spec_fn(A) -> bool)
    requires
        forall|i: int| 0 <= i < s.len() ==> keep(#[trigger] s[i]),
    ensures
        s.filter(keep) == s,
    decreases s.len(),
{
    reveal(Seq::filter);
    if s.len() > 0 {
        assert forall|i: int| 0 <= i < s.drop_last().len() implies keep(#[trigger] s.drop_last()[i]) by {
            assert(s.drop_last()[i] == s[i]);
        }
        lemma_filter_all(s.drop_last(), keep);
        assert(s.last() == s[s.len() - 1]);
        assert(s.drop_last().push(s.last()) =~= s);
    }
}

/// A filter that keeps no item of a sequence leaves nothing.
proof fn lemma_filter_none<A>(s: Seq<A>, keep: spec_fn(A) -> bool)
    requires
        forall|i: int| 0 <= i < s.len() ==> !keep(#[trigger] s[i]),
    ensures
        s.filter(keep) == Seq::<A>::empty(),
    decreases s.len(),
{
    reveal(Seq::filter);
    if s.len() > 0 {
        assert forall|i: int| 0 <= i < s.drop_last().len() implies !keep(#[trigger] s.drop_last()[i]) by {
            assert(s.drop_last()[i] == s[i]);
        }
        lemma_filter_none(s.drop_last(), keep);
        assert(s.last() == s[s.len() - 1]);
    } else {
        assert(s =~= Seq::<A>::empty());
    }
}

/// Making the changes of two queues in turn is making the changes of the joined queue.
pub proof fn lemma_run_concat(state: SceneState, first: Seq<Command>, second: Seq<Command>)
    ensures
        run(state, first + second) == run(run(state, first), second),
    decreases second.len(),
{
    if second.len() == 0 {
        assert(first + second =~= first);
    } else {
        assert((first + second).drop_last() =~= first + second.drop_last());
        lemma_run_concat(state, first, second.drop_last());
    }
}

/// Removing entities creates none.
pub(crate) proof fn lemma_despawn_spawn_count(query: Seq<Entity>)
    ensures
        spawn_count(despawn_commands(query)) == 0,
{
    lemma_filter_none(despawn_commands(query), |command: Command| command is Spawn);
}

/// A redraw creates as many entities as there are pieces to draw.
pub(crate) proof fn lemma_redraw_spawn_count(
    nodes: Seq<Node>,
    sheet: SpriteSheetHandle,
    placements: Seq<Placement>,
)
    ensures
        spawn_count(redraw_commands(nodes, sheet, placements)) == placements.len(),
{
    let creates = |command: Command| command is Spawn;
    let despawns = despawn_commands(pieces(nodes));
    let spawns = spawn_commands(sheet, placements);
    Seq::filter_distributes_over_add(despawns, spawns, creates);
    lemma_despawn_spawn_count(pieces(nodes));
    lemma_filter_all(spawns, creates);
}

/// Removing the entities of `query` leaves the entities that are not in `query`.
proof fn lemma_run_despawn(state: SceneState, query: Seq<Entity>)
    ensures
        run(state, despawn_commands(query)) == (SceneState {
            nodes: state.nodes.filter(|node: Node| !query.contains(node.entity)),
            next: state.next,
        }),
    decreases query.len(),
{
    let outside = |node: Node| !query.contains(node.entity);
    if query.len() == 0 {
        lemma_filter_all(state.nodes, outside);
    } else {
        let front = query.drop_last();
        let last = query.last();
        let outside_front = |node: Node| !front.contains(node.entity);
        let differs = |node: Node| node.entity != last;
        lemma_run_despawn(state, front);
        assert(despawn_commands(query).drop_last() =~= despawn_commands(front));
        assert(despawn_commands(query).last() == Command::Despawn { entity: last });
        assert forall|node: Node| #[trigger] outside(node) == (outside_front(node) && differs(node)) by {
            if query.contains(node.entity) {
                let k = choose|k: int| 0 <= k < query.len() && query[k] == node.entity;
                if k < front.len() {
                    assert(front[k] == node.entity);
                }
            }
            if front.contains(node.entity) {
                let k = choose|k: int| 0 <= k < front.len() && front[k] == node.entity;
                assert(query[k] == node.entity);
            }
            if node.entity == last {
                assert(query[query.len() - 1] == node.entity);
            }
        }
        lemma_filter_twice(state.nodes, outside_front, differs, outside);
    }
}

/// In a well-formed scene, an entity is in the query for pieces exactly if it is tagged.
proof fn lemma_pieces_contains(state: SceneState, i: int)
    requires
        well_formed(state),
        0 <= i < state.nodes.len(),
    ensures
        pieces(state.nodes).contains(state.nodes[i].entity) == state.nodes[i].is_piece(),
{
    let nodes = state.nodes;
    let is_piece = |node: Node| node.is_piece();
    let kept = nodes.filter(is_piece);
    if nodes[i].is_piece() {
        nodes.lemma_filter_contains(is_piece, i);
        let k = choose|k: int| 0 <= k < kept.len() && kept[k] == nodes[i];
        assert(pieces(nodes)[k] == nodes[i].entity);
    }
    if pieces(nodes).contains(nodes[i].entity) {
        let k = choose|k: int| 0 <= k < pieces(nodes).len() && pieces(nodes)[k] == nodes[i].entity;
        nodes.lemma_filter_pred(is_piece, k);
        nodes.lemma_filter_contains_rev(is_piece, kept[k]);
        let m = choose|m: int| 0 <= m < nodes.len() && nodes[m] == kept[k];
        assert(nodes[m].entity == nodes[i].entity);
        assert(m == i);
    }
}

/// Among the entities that are not tagged as pieces, none is tagged as a piece.
proof fn lemma_untagged_holds_no_piece(nodes: Seq<Node>)
    ensures
        pieces(untagged(nodes)) == Seq::<Entity>::empty(),
        untagged(untagged(nodes)) == untagged(nodes),
{
    let is_piece = |node: Node| node.is_piece();
    let is_other = |node: Node| !node.is_piece();
    let rest = nodes.filter(is_other);
    assert forall|i: int| 0 <= i < rest.len() implies !is_piece(#[trigger] rest[i]) by {
        nodes.lemma_filter_pred(is_other, i);
    }
    lemma_filter_none(rest, is_piece);
    assert forall|i: int| 0 <= i < rest.len() implies is_other(#[trigger] rest[i]) by {
        nodes.lemma_filter_pred(is_other, i);
    }
    lemma_filter_all(rest, is_other);
    assert(pieces(untagged(nodes)) =~= Seq::<Entity>::empty());
}

/// Removing the entities that the query for pieces gives leaves the other entities.
proof fn lemma_run_clear(state: SceneState)
    requires
        well_formed(state),
    ensures
        run(state, despawn_commands(pieces(state.nodes))) == (SceneState {
            nodes: untagged(state.nodes),
            next: state.next,
        }),
{
    let nodes = state.nodes;
    let query = pieces(nodes);
    let outside = |node: Node| !query.contains(node.entity);
    let is_other = |node: Node| !node.is_piece();
    lemma_run_despawn(state, query);
    assert forall|i: int| 0 <= i < nodes.len() implies outside(#[trigger] nodes[i]) == is_other(
        nodes[i],
    ) by {
        lemma_pieces_contains(state, i);
    }
    lemma_filter_same(nodes, outside, is_other);
}

/// Drawing pieces puts their entities behind the others, numbered from the next identifier
/// upward.
proof fn lemma_run_spawn(state: SceneState, sheet: SpriteSheetHandle, placements: Seq<Placement>)
    ensures
        run(state, spawn_commands(sheet, placements)) == (SceneState {
            nodes: state.nodes + piece_nodes(sheet, placements, state.next),
            next: state.next + placements.len(),
        }),
    decreases placements.len(),
{
    let after = SceneState {
        nodes: state.nodes + piece_nodes(sheet, placements, state.next),
        next: state.next + placements.len(),
    };
    if placements.len() == 0 {
        assert(after =~= state);
    } else {
        let front = placements.drop_last();
        let spawn = Command::Spawn { bundle: piece_bundle(sheet, placements.last()) };
        lemma_run_spawn(state, sheet, front);
        assert(spawn_commands(sheet, placements).drop_last() =~= spawn_commands(sheet, front));
        assert(spawn_commands(sheet, placements).last() == spawn);
        let before = SceneState {
            nodes: state.nodes + piece_nodes(sheet, front, state.next),
            next: state.next + front.len(),
        };
        assert(step(before, spawn) =~= after);
    }
}

/// The entities that show pieces are all tagged, each under its own identifier.
proof fn lemma_piece_nodes(state: SceneState, sheet: SpriteSheetHandle, placements: Seq<Placement>)
    requires
        well_formed(state),
        state.next + placements.len() <= u64::MAX,
    ensures
        well_formed(
            SceneState {
                nodes: state.nodes + piece_nodes(sheet, placements, state.next),
                next: state.next + placements.len(),
            },
        ),
        pieces(state.nodes + piece_nodes(sheet, placements, state.next)) == pieces(state.nodes)
            + entities_from(state.next, placements.len()),
        untagged(state.nodes + piece_nodes(sheet, placements, state.next)) == untagged(
            state.nodes,
        ),
{
    let is_piece = |node: Node| node.is_piece();
    let is_other = |node: Node| !node.is_piece();
    let nodes = state.nodes;
    let drawn = piece_nodes(sheet, placements, state.next);
    let all = nodes + drawn;
    assert forall|i: int, j: int| 0 <= i < j < all.len() implies (#[trigger] all[i]).entity != (
    #[trigger] all[j]).entity by {
        if j < nodes.len() {
            assert(all[i] == nodes[i] && all[j] == nodes[j]);
        } else if i < nodes.len() {
            assert(all[i] == nodes[i] && all[j] == drawn[j - nodes.len()]);
        } else {
            assert(all[i] == drawn[i - nodes.len()] && all[j] == drawn[j - nodes.len()]);
        }
    }
    assert forall|i: int| 0 <= i < all.len() implies (#[trigger] all[i]).entity.id < state.next
        + placements.len() by {
        if i < nodes.len() {
            assert(all[i] == nodes[i]);
        } else {
            assert(all[i] == drawn[i - nodes.len()]);
        }
    }
    Seq::filter_distributes_over_add(nodes, drawn, is_piece);
    Seq::filter_distributes_over_add(nodes, drawn, is_other);
    lemma_filter_all(drawn, is_piece);
    lemma_filter_none(drawn, is_other);
    assert(pieces(all) =~= pieces(nodes) + entities_from(state.next, placements.len()));
    assert(untagged(all) =~= untagged(nodes));
}

/// Clearing leaves no entity that is tagged as a piece, whatever the scene held, and leaves
/// every other entity as it was. Clearing once more changes nothing, whether the query for
/// pieces is made anew or is the one from before the first clearing.
pub proof fn clearing_twice_leaves_no_piece(state: SceneState)
    requires
        well_formed(state),
    ensures
        ({
            let once = run(state, despawn_commands(pieces(state.nodes)));
            let twice = run(once, despawn_commands(pieces(once.nodes)));
            let stale = run(once, despawn_commands(pieces(state.nodes)));
            &&& once == (SceneState { nodes: untagged(state.nodes), next: state.next })
            &&& untagged(once.nodes) == once.nodes
            &&& pieces(once.nodes).len() == 0
            &&& twice == once
            &&& pieces(twice.nodes).len() == 0
            &&& stale == once
            &&& well_formed(once)
        }),
{
    let once = run(state, despawn_commands(pieces(state.nodes)));
    lemma_run_clear(state);
    lemma_untagged_holds_no_piece(state.nodes);
    lemma_filter_well_formed(state, |node: Node| !node.is_piece());
    lemma_run_clear(once);
    let query = pieces(state.nodes);
    let outside = |node: Node| !query.contains(node.entity);
    lemma_run_despawn(once, query);
    lemma_run_despawn(state, query);
    lemma_filter_twice(state.nodes, outside, outside, outside);
}

/// After a redraw the scene shows each piece of the game once: the entities that were tagged
/// as pieces are gone, every other entity is as it was, and behind them stands one new entity
/// for each piece, in the order of the game, with the sprite of the piece, labelled and tagged.
/// So the scene holds as many tagged entities as the game has pieces.
pub proof fn redraw_shows_each_piece_once(
    state: SceneState,
    sheet: SpriteSheetHandle,
    game: GameState,
)
    requires
        well_formed(state),
        state.next + game.piece_count() <= u64::MAX,
    ensures
        ({
            let after = run(state, redraw_commands(state.nodes, sheet, game.placements()));
            &&& after == (SceneState {
                nodes: untagged(state.nodes) + piece_nodes(sheet, game.placements(), state.next),
                next: state.next + game.piece_count(),
            })
            &&& pieces(after.nodes) == entities_from(state.next, game.piece_count())
            &&& pieces(after.nodes).len() == game.piece_count()
            &&& untagged(after.nodes) == untagged(state.nodes)
            &&& well_formed(after)
        }),
{
    let placements = game.placements();
    let cleared = SceneState { nodes: untagged(state.nodes), next: state.next };
    lemma_run_concat(
        state,
        despawn_commands(pieces(state.nodes)),
        spawn_commands(sheet, placements),
    );
    lemma_run_clear(state);
    lemma_filter_well_formed(state, |node: Node| !node.is_piece());
    lemma_run_spawn(cleared, sheet, placements);
    lemma_piece_nodes(cleared, sheet, placements);
    lemma_untagged_holds_no_piece(state.nodes);
    assert(pieces(cleared.nodes) + entities_from(state.next, placements.len()) =~= entities_from(
        state.next,
        placements.len(),
    ));
}

/// A second redraw with the same game replaces the entities of the first: the scene again
/// holds as many tagged entities as the game has pieces, not twice as many.
pub proof fn redraw_replaces_the_pieces(
    state: SceneState,
    sheet: SpriteSheetHandle,
    game: GameState,
)
    requires
        well_formed(state),
        state.next + 2 * game.piece_count() <= u64::MAX,
    ensures
        ({
            let once = run(state, redraw_commands(state.nodes, sheet, game.placements()));
            let twice = run(once, redraw_commands(once.nodes, sheet, game.placements()));
            &&& pieces(once.nodes).len() == game.piece_count()
            &&& pieces(twice.nodes).len() == game.piece_count()
            &&& twice.nodes == untagged(state.nodes) + piece_nodes(
                sheet,
                game.placements(),
                state.next + game.piece_count(),
            )
        }),
{
    let once = run(state, redraw_commands(state.nodes, sheet, game.placements()));
    redraw_shows_each_piece_once(state, sheet, game);
    redraw_shows_each_piece_once(once, sheet, game);
}

} // verus!
