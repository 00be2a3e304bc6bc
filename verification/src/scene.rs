//! The scene: what it holds, and what a queue of changes does to it.

use vstd::prelude::*;

use crate::commands::{Command, Commands};
use crate::components::{Entity, Node};

verus! {

/// What a scene holds: its entities, in the order in which they were created, and the
/// identifier that the next new entity gets.
#[verifier::ext_equal]
pub struct SceneState {
    pub nodes: Seq<Node>,
    pub next: nat,
}

/// The scene after one change. A new entity gets the next identifier and goes behind the
/// others. The removal of an entity that is not there changes nothing.
pub open spec fn step(state: SceneState, command: Command) -> SceneState {
    match command {
        Command::Spawn { bundle } => SceneState {
            nodes: state.nodes.push(Node { entity: Entity { id: state.next as u64 }, bundle }),
            next: state.next + 1,
        },
        Command::Despawn { entity } => SceneState {
            nodes: state.nodes.filter(|node: Node| node.entity != entity),
            next: state.next,
        },
    }
}

/// The scene after the changes of `commands`, made in order.
pub open spec fn run(state: SceneState, commands: Seq<Command>) -> SceneState
    decreases commands.len(),
{
    if commands.len() == 0 {
        state
    } else {
        step(run(state, commands.drop_last()), commands.last())
    }
}

/// The number of entities that `commands` creates.
pub open spec fn spawn_count(commands: Seq<Command>) -> nat {
    commands.filter(|command: Command| command is Spawn).len()
}

/// The entities that are tagged as pieces, in the order of the scene.
pub open spec fn pieces(nodes: Seq<Node>) -> Seq<Entity> {
    nodes.filter(|node: Node| node.is_piece()).map_values(|node: Node| node.entity)
}

/// The entities that are not tagged as pieces, in the order of the scene.
pub open spec fn untagged(nodes: Seq<Node>) -> Seq<Node> {
    nodes.filter(|node: Node| !node.is_piece())
}

/// No two entities share an identifier, and every identifier lies below the next one, which
/// is no greater than the greatest `u64`.
pub open spec fn well_formed(state: SceneState) -> bool {
    &&& state.next <= u64::MAX
    &&& forall|i: int|
        0 <= i < state.nodes.len() ==> (#[trigger] state.nodes[i]).entity.id < state.next
    &&& forall|i: int, j: int|
        0 <= i < j < state.nodes.len() ==> (#[trigger] state.nodes[i]).entity != (
        #[trigger] state.nodes[j]).entity
}

/// A filter keeps a scene well formed.
pub(crate) proof fn lemma_filter_well_formed(state: SceneState, keep: spec_fn(Node) -> bool)
    requires
        well_formed(state),
    ensures
        well_formed(SceneState { nodes: state.nodes.filter(keep), next: state.next }),
    decreases state.nodes.len(),
{
    reveal(Seq::filter);
    let nodes = state.nodes;
    if nodes.len() > 0 {
        let front = nodes.drop_last();
        let kept = front.filter(keep);
        assert(well_formed(SceneState { nodes: front, next: state.next })) by {
            assert forall|i: int| 0 <= i < front.len() implies (#[trigger] front[i]).entity.id
                < state.next by {
                assert(front[i] == nodes[i]);
            }
            assert forall|i: int, j: int| 0 <= i < j < front.len() implies (
            #[trigger] front[i]).entity != (#[trigger] front[j]).entity by {
                assert(front[i] == nodes[i] && front[j] == nodes[j]);
            }
        }
        lemma_filter_well_formed(SceneState { nodes: front, next: state.next }, keep);
        if keep(nodes.last()) {
            let all = kept.push(nodes.last());
            assert forall|i: int, j: int| 0 <= i < j < all.len() implies (#[trigger] all[i]).entity
                != (#[trigger] all[j]).entity by {
                if j == kept.len() {
                    front.lemma_filter_contains_rev(keep, kept[i]);
                    let m = choose|m: int| 0 <= m < front.len() && front[m] == kept[i];
                    assert(nodes[m] == all[i]);
                    assert(nodes[nodes.len() - 1] == all[j]);
                } else {
                    assert(kept[i] == all[i] && kept[j] == all[j]);
                }
            }
            assert forall|i: int| 0 <= i < all.len() implies (#[trigger] all[i]).entity.id
                < state.next by {
                if i == kept.len() {
                    assert(nodes[nodes.len() - 1] == all[i]);
                } else {
                    assert(kept[i] == all[i]);
                }
            }
        }
    }
}

/// A change keeps a scene well formed, if there is an identifier left for the entity it
/// creates.
pub(crate) proof fn lemma_step_well_formed(state: SceneState, command: Command)
    requires
        well_formed(state),
        command is Spawn ==> state.next < u64::MAX,
    ensures
        well_formed(step(state, command)),
{
    let after = step(state, command);
    match command {
        Command::Spawn { bundle } => {
            assert forall|i: int, j: int| 0 <= i < j < after.nodes.len() implies (
            #[trigger] after.nodes[i]).entity != (#[trigger] after.nodes[j]).entity by {
                assert(after.nodes[i] == state.nodes[i]);
                if j < state.nodes.len() {
                    assert(after.nodes[j] == state.nodes[j]);
                }
            }
            assert forall|i: int| 0 <= i < after.nodes.len() implies (
            #[trigger] after.nodes[i]).entity.id < after.next by {
                if i < state.nodes.len() {
                    assert(after.nodes[i] == state.nodes[i]);
                }
            }
        },
        Command::Despawn { entity } => {
            lemma_filter_well_formed(state, |node: Node| node.entity != entity);
        },
    }
}

/// The changes of a queue use up as many identifiers as the queue creates entities.
pub proof fn lemma_run_next(state: SceneState, commands: Seq<Command>)
    ensures
        run(state, commands).next == state.next + spawn_count(commands),
    decreases commands.len(),
{
    reveal(Seq::filter);
    if commands.len() > 0 {
        lemma_run_next(state, commands.drop_last());
    }
}

/// A scene: its entities, each with what it is made of.
pub struct Scene {
    nodes: Vec<Node>,
    next: u64,
}

impl View for Scene {
    type V = SceneState;

    closed spec fn view(&self) -> SceneState {
        SceneState { nodes: self.nodes@, next: self.next as nat }
    }
}

impl Scene {
    /// No two entities share an identifier, and every identifier lies below the next one.
    #[verifier::type_invariant]
    pub open spec fn valid(&self) -> bool {
        well_formed(self@)
    }

    /// A scene without entities, whose entities will be numbered from zero upward.
    pub fn new() -> (scene: Scene)
        ensures
            scene@ == (SceneState { nodes: Seq::empty(), next: 0 }),
    {
        Scene { nodes: Vec::new(), next: 0 }
    }

    /// A scene without entities, whose entities will be numbered from `first` upward.
    pub fn starting_at(first: u64) -> (scene: Scene)
        ensures
            scene@ == (SceneState { nodes: Seq::empty(), next: first as nat }),
    {
        Scene { nodes: Vec::new(), next: first }
    }

    /// The entities of the scene, in the order in which they were created.
    pub fn nodes(&self) -> (nodes: &[Node])
        ensures
            nodes@ == self@.nodes,
            well_formed(self@),
    {
        proof {
            use_type_invariant(self);
        }
        self.nodes.as_slice()
    }

    /// The identifier that the next new entity gets.
    pub fn next_id(&self) -> (next: u64)
        ensures
            next == self@.next,
    {
        self.next
    }

    /// The entities that are tagged as pieces.
    pub fn pieces(&self) -> (query: Vec<Entity>)
        ensures
            query@ == pieces(self@.nodes),
    {
        let ghost tagged = |node: Node| node.is_piece();
        let ghost entity_of = |node: Node| node.entity;
        let mut query: Vec<Entity> = Vec::new();
        let mut i: usize = 0;
        proof {
            reveal(Seq::filter);
        }
        while i < self.nodes.len()
            invariant
                i <= self.nodes@.len(),
                tagged == |node: Node| node.is_piece(),
                entity_of == |node: Node| node.entity,
                query@ == self.nodes@.take(i as int).filter(tagged).map_values(entity_of),
            decreases self.nodes.len() - i,
        {
            let node = self.nodes[i];
            proof {
                assert(self.nodes@.take(i + 1) =~= self.nodes@.take(i as int).push(node));
                self.nodes@.take(i as int).lemma_filter_push(node, tagged);
            }
            if node.bundle.marker.is_some() {
                query.push(node.entity);
                assert(query@ =~= self.nodes@.take(i + 1).filter(tagged).map_values(entity_of));
            }
            i = i + 1;
        }
        assert(self.nodes@.take(i as int) =~= self.nodes@);
        query
    }

    /// Whether the scene has identifiers left for the entities that `commands` creates.
    pub fn has_room(&self, commands: &Commands) -> (room: bool)
        ensures
            room == (self@.next + spawn_count(commands@) <= u64::MAX),
    {
        let ghost creates = |command: Command| command is Spawn;
        let queue = commands.as_slice();
        let mut left: u64 = u64::MAX - self.next;
        let mut i: usize = 0;
        while i < queue.len()
            invariant
                i <= queue@.len(),
                queue@ == commands@,
                creates == |command: Command| command is Spawn,
                left == u64::MAX - self@.next - queue@.take(i as int).filter(creates).len(),
            decreases queue.len() - i,
        {
            proof {
                assert(queue@.take(i + 1) =~= queue@.take(i as int).push(queue@[i as int]));
                queue@.take(i as int).lemma_filter_push(queue@[i as int], creates);
                queue@.lemma_filter_take_len(creates, i + 1);
            }
            match queue[i] {
                Command::Spawn { bundle } => {
                    if left == 0 {
                        return false;
                    }
                    left = left - 1;
                },
                Command::Despawn { entity } => {},
            }
            i = i + 1;
        }
        assert(queue@.take(i as int) =~= queue@);
        true
    }

    /// Makes the changes of `commands`, in the order in which they were asked for. The scene
    /// must have an identifier left for each entity that they create.
    pub fn apply(&mut self, commands: Commands)
        requires
            old(self)@.next + spawn_count(commands@) <= u64::MAX,
        ensures
            final(self)@ == run(old(self)@, commands@),
    {
        proof {
            use_type_invariant(&*self);
        }
        let ghost creates = |command: Command| command is Spawn;
        let queue = commands.as_slice();
        let mut next = self.next;
        let mut nodes: Vec<Node> = Vec::new();
        std::mem::swap(&mut self.nodes, &mut nodes);
        let mut i: usize = 0;
        while i < queue.len()
            invariant
                i <= queue@.len(),
                queue@ == commands@,
                creates == |command: Command| command is Spawn,
                old(self)@.next + spawn_count(commands@) <= u64::MAX,
                (SceneState { nodes: nodes@, next: next as nat }) == run(
                    old(self)@,
                    queue@.take(i as int),
                ),
                well_formed(SceneState { nodes: nodes@, next: next as nat }),
            decreases queue.len() - i,
        {
            let ghost before = SceneState { nodes: nodes@, next: next as nat };
            proof {
                assert(queue@.take(i + 1).drop_last() =~= queue@.take(i as int));
                assert(queue@.take(i + 1) =~= queue@.take(i as int).push(queue@[i as int]));
                lemma_run_next(old(self)@, queue@.take(i as int));
                queue@.take(i as int).lemma_filter_push(queue@[i as int], creates);
                queue@.lemma_filter_take_len(creates, i + 1);
                lemma_step_well_formed(before, queue@[i as int]);
            }
            match queue[i] {
                Command::Spawn { bundle } => {
                    nodes.push(Node { entity: Entity { id: next }, bundle });
                    next = next + 1;
                },
                Command::Despawn { entity } => {
                    nodes = without(&nodes, entity);
                },
            }
            assert((SceneState { nodes: nodes@, next: next as nat }) =~= step(
                before,
                queue@[i as int],
            ));
            i = i + 1;
        }
        assert(queue@.take(i as int) =~= queue@);
        *self = Scene { nodes, next };
    }
}

/// The entities of `nodes` other than `entity`, in order.
fn without(nodes: &Vec<Node>, entity: Entity) -> (kept: Vec<Node>)
    ensures
        kept@ == nodes@.filter(|node: Node| node.entity != entity),
{
    let ghost differs = |node: Node| node.entity != entity;
    let mut kept: Vec<Node> = Vec::new();
    let mut i: usize = 0;
    proof {
        reveal(Seq::filter);
    }
    while i < nodes.len()
        invariant
            i <= nodes@.len(),
            differs == |node: Node| node.entity != entity,
            kept@ == nodes@.take(i as int).filter(differs),
        decreases nodes.len() - i,
    {
        let node = nodes[i];
        proof {
            assert(nodes@.take(i + 1) =~= nodes@.take(i as int).push(node));
            nodes@.take(i as int).lemma_filter_push(node, differs);
        }
        if node.entity != entity {
            kept.push(node);
        }
        i = i + 1;
    }
    assert(nodes@.take(i as int) =~= nodes@);
    kept
}

} // verus!
