//! The rules that the renderer evaluates on its own: what a key press or a
//! collision does to which entities. They are set once, when the game is
//! set up, and the per-tick update never looks at them.

use crate::scene::{Entity, EntityId, Tag};
use vstd::prelude::*;

verus! {

/// A choice of entities: one by its identity, or all that carry a tag.
#[derive(Clone, Copy, Debug, PartialEq, Eq, Structural)]
pub enum Target {
    Entity(EntityId),
    Tagged(Tag),
}

impl Target {
    /// Whether the target selects `entity`.
    pub open spec fn covers(self, entity: Entity) -> bool {
        match self {
            Target::Entity(id) => entity.id == id,
            Target::Tagged(tag) => entity.tags.has(tag),
        }
    }

    /// Tests whether the target selects `entity`.
    pub fn selects(&self, entity: &Entity) -> (selected: bool)
        ensures
            selected == self.covers(*entity),
    {
        match *self {
            Target::Entity(id) => entity.id == id,
            Target::Tagged(tag) => entity.tags.contains(tag),
        }
    }
}

/// What a rule does when it fires.
#[derive(Clone, Copy, Debug, PartialEq, Eq)]
pub enum Action {
    /// Gives the target a momentum, stated in tenths of a unit per tick.
    ApplyMomentum { target: Target, tenths: (i64, i64) },
}

/// What makes a rule fire.
#[derive(Clone, Copy, Debug, PartialEq, Eq, Structural)]
pub enum Trigger {
    /// The key with this character is pressed.
    KeyPress(char),
    /// The rule's subject touches an entity that the target selects.
    Collision(Target),
}

/// One rule: when `trigger` happens to `subject`, `action` is taken.
#[derive(Clone, Copy, Debug, PartialEq, Eq)]
pub struct Rule {
    pub subject: Target,
    pub trigger: Trigger,
    pub action: Action,
}

} // verus!
