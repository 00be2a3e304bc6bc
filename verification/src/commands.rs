//! Changes that are asked of a scene now and made later.

use vstd::prelude::*;

use crate::components::{Bundle, Component, Entity, Sprite};

verus! {

/// A change of the scene that has been asked for and not yet made.
#[derive(Clone, Copy, PartialEq, Eq, Debug)]
pub enum Command {
    /// Create an entity made of `bundle`.
    Spawn { bundle: Bundle },
    /// Remove `entity` from the scene.
    Despawn { entity: Entity },
}

impl Command {
    /// This change with `component` attached to the entity it creates, if it creates one.
    pub open spec fn with(self, component: Component) -> Command {
        match self {
            Command::Spawn { bundle } => Command::Spawn { bundle: bundle.with(component) },
            Command::Despawn { entity } => self,
        }
    }
}

/// Handle of an entity that a queue has been asked to create. More can be attached to the
/// entity through it, as long as the queue has not been handed to a scene.
#[derive(Clone, Copy, PartialEq, Eq, Structural, Debug)]
pub struct Pending {
    slot: usize,
}

impl Pending {
    /// The place in the queue of the change that creates the entity.
    pub closed spec fn slot(self) -> nat {
        self.slot as nat
    }
}

/// The changes that a caller asks of a scene, in the order in which they were asked for. The
/// scene makes them later, all at once.
pub struct Commands {
    queue: Vec<Command>,
}

impl View for Commands {
    type V = Seq<Command>;

    closed spec fn view(&self) -> Seq<Command> {
        self.queue@
    }
}

impl Commands {
    /// An empty queue.
    pub fn new() -> (commands: Commands)
        ensures
            commands@ == Seq::<Command>::empty(),
    {
        Commands { queue: Vec::new() }
    }

    /// Asks for a new entity that shows `sprite`, and returns a handle of it.
    pub fn spawn(&mut self, sprite: Sprite) -> (pending: Pending)
        ensures
            pending.slot() == old(self)@.len(),
            final(self)@ == old(self)@.push(Command::Spawn { bundle: Bundle::bare(sprite) }),
    {
        let slot = self.queue.len();
        self.queue.push(Command::Spawn { bundle: Bundle { sprite, name: None, marker: None } });
        Pending { slot }
    }

    /// Attaches `component` to the entity of `pending`, in place of the component of that kind
    /// that was attached before, if any. The handle stands for the change at its place in the
    /// queue. A handle of another queue may stand for no change of this one, or for one that
    /// creates no entity: then nothing is attached.
    pub fn insert(&mut self, pending: Pending, component: Component)
        ensures
            final(self)@ == if pending.slot() < old(self)@.len() {
                old(self)@.update(
                    pending.slot() as int,
                    old(self)@[pending.slot() as int].with(component),
                )
            } else {
                old(self)@
            },
    {
        if pending.slot < self.queue.len() {
            match self.queue[pending.slot] {
                Command::Spawn { bundle } => {
                    let changed = match component {
                        Component::Name(name) => Bundle { name: Some(name), ..bundle },
                        Component::Marker(marker) => Bundle { marker: Some(marker), ..bundle },
                    };
                    self.queue.set(pending.slot, Command::Spawn { bundle: changed });
                },
                Command::Despawn { entity } => {
                    assert(self@.update(pending.slot() as int, self@[pending.slot() as int]) =~= self@);
                },
            }
        }
    }

    /// Asks for `entity` to be removed.
    pub fn despawn(&mut self, entity: Entity)
        ensures
            final(self)@ == old(self)@.push(Command::Despawn { entity }),
    {
        self.queue.push(Command::Despawn { entity });
    }

    /// The changes asked for, in order.
    pub fn as_slice(&self) -> (queue: &[Command])
        ensures
            queue@ == self@,
    {
        self.queue.as_slice()
    }
}

} // verus!
