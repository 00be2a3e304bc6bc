//! The entities of a scene and what they are made of.

use vstd::prelude::*;

use crate::layout::{Size, Translation};

verus! {

/// Identifier of an entity of the scene.
#[derive(Clone, Copy, PartialEq, Eq, Structural, Debug)]
pub struct Entity {
    pub id: u64,
}

/// Reference to a loaded sprite sheet: a grid of sprite cells, numbered row by row.
#[derive(Clone, Copy, PartialEq, Eq, Structural, Debug)]
pub struct SpriteSheetHandle {
    pub id: u64,
}

/// What is drawn for an entity: one cell of a sprite sheet, at a size and a place.
#[derive(Clone, Copy, PartialEq, Eq, Structural, Debug)]
pub struct Sprite {
    pub sheet: SpriteSheetHandle,
    pub index: usize,
    pub size: Size,
    pub translation: Translation,
}

/// The tag that marks an entity as a drawn piece. It carries no data.
#[derive(Clone, Copy, PartialEq, Eq, Structural, Debug)]
pub struct PieceMarker;

/// A label for people who inspect the scene.
#[derive(Clone, Copy, PartialEq, Eq, Debug)]
pub struct Name {
    pub text: &'static str,
}

/// The label of every drawn piece.
pub const PIECE_NAME: &'static str = "Piece";

/// Something that can be attached to an entity besides its sprite.
#[derive(Clone, Copy, PartialEq, Eq, Debug)]
pub enum Component {
    Name(Name),
    Marker(PieceMarker),
}

/// What an entity is made of: its sprite, and what has been attached to it.
#[derive(Clone, Copy, PartialEq, Eq, Debug)]
pub struct Bundle {
    pub sprite: Sprite,
    pub name: Option<Name>,
    pub marker: Option<PieceMarker>,
}

impl Bundle {
    /// A sprite with nothing attached.
    pub open spec fn bare(sprite: Sprite) -> Bundle {
        Bundle { sprite, name: None, marker: None }
    }

    /// This bundle with `component` in place of the component of that kind it had, if any.
    pub open spec fn with(self, component: Component) -> Bundle {
        match component {
            Component::Name(name) => Bundle { name: Some(name), ..self },
            Component::Marker(marker) => Bundle { marker: Some(marker), ..self },
        }
    }
}

/// An entity of the scene with what it is made of.
#[derive(Clone, Copy, PartialEq, Eq, Debug)]
pub struct Node {
    pub entity: Entity,
    pub bundle: Bundle,
}

impl Node {
    /// Whether this entity is tagged as a drawn piece.
    pub open spec fn is_piece(self) -> bool {
        self.bundle.marker is Some
    }
}

} // verus!
