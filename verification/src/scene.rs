//! The entity registry that the game rules read and change.

use vstd::prelude::*;

verus! {

/// The stable identity of an entity. Pipes carry the index of their pair,
/// ground segments and score glyphs the number of their slot.
#[derive(Clone, Copy, Debug, PartialEq, Eq, Hash, Structural)]
pub enum EntityId {
    Background,
    Bird,
    Base(u8),
    TopPipe(u32),
    BottomPipe(u32),
    ScoreDigit(u8),
}

/// A capability or category that collision rules select entities by.
#[derive(Clone, Copy, Debug, PartialEq, Eq, Hash, Structural)]
pub enum Tag {
    Background,
    Player,
    FlyingBird,
    Ground,
    Obstacle,
    Pipe,
    Score,
}

/// A set of tags.
#[derive(Clone, Copy, Debug, PartialEq, Eq, Hash, Structural)]
pub struct TagSet {
    pub background: bool,
    pub player: bool,
    pub flying_bird: bool,
    pub ground: bool,
    pub obstacle: bool,
    pub pipe: bool,
    pub score: bool,
}

impl TagSet {
    /// Whether `tag` is in the set.
    pub open spec fn has(self, tag: Tag) -> bool {
        match tag {
            Tag::Background => self.background,
            Tag::Player => self.player,
            Tag::FlyingBird => self.flying_bird,
            Tag::Ground => self.ground,
            Tag::Obstacle => self.obstacle,
            Tag::Pipe => self.pipe,
            Tag::Score => self.score,
        }
    }

    /// The set without any tag.
    pub fn empty() -> (set: TagSet)
        ensures
            forall|tag: Tag| !set.has(tag),
    {
        TagSet {
            background: false,
            player: false,
            flying_bird: false,
            ground: false,
            obstacle: false,
            pipe: false,
            score: false,
        }
    }

    /// The set with `tag` added.
    pub fn with(self, tag: Tag) -> (set: TagSet)
        ensures
            forall|other: Tag| set.has(other) == (other == tag || self.has(other)),
    {
        let mut set = self;
        match tag {
            Tag::Background => { set.background = true; },
            Tag::Player => { set.player = true; },
            Tag::FlyingBird => { set.flying_bird = true; },
            Tag::Ground => { set.ground = true; },
            Tag::Obstacle => { set.obstacle = true; },
            Tag::Pipe => { set.pipe = true; },
            Tag::Score => { set.score = true; },
        }
        set
    }

    /// Two sets with the same tags are the same set.
    pub proof fn lemma_same_tags(self, other: TagSet)
        requires
            forall|tag: Tag| self.has(tag) == other.has(tag),
        ensures
            self == other,
    {
        assert(self.has(Tag::Background) == other.has(Tag::Background));
        assert(self.has(Tag::Player) == other.has(Tag::Player));
        assert(self.has(Tag::FlyingBird) == other.has(Tag::FlyingBird));
        assert(self.has(Tag::Ground) == other.has(Tag::Ground));
        assert(self.has(Tag::Obstacle) == other.has(Tag::Obstacle));
        assert(self.has(Tag::Pipe) == other.has(Tag::Pipe));
        assert(self.has(Tag::Score) == other.has(Tag::Score));
    }

    /// Tests whether `tag` is in the set.
    pub fn contains(&self, tag: Tag) -> (found: bool)
        ensures
            found == self.has(tag),
    {
        match tag {
            Tag::Background => self.background,
            Tag::Player => self.player,
            Tag::FlyingBird => self.flying_bird,
            Tag::Ground => self.ground,
            Tag::Obstacle => self.obstacle,
            Tag::Pipe => self.pipe,
            Tag::Score => self.score,
        }
    }
}

/// Which picture the renderer draws for an entity.
#[derive(Clone, Copy, Debug, PartialEq, Eq, Hash, Structural)]
pub enum Sprite {
    Background,
    Bird,
    Base,
    TopPipe,
    BottomPipe,
    /// The glyph of one decimal digit, `0` to `9`.
    Digit(u8),
}

/// The outline that collisions are tested against.
#[derive(Clone, Copy, Debug, PartialEq, Eq, Hash, Structural)]
pub enum Bounds {
    Radius(u32),
    Rect(u32, u32),
}

impl Bounds {
    /// The round outline as wide as the longer side of a picture of `size`.
    pub open spec fn enclosing(size: (u32, u32)) -> Bounds {
        Bounds::Radius(if size.0 >= size.1 { size.0 } else { size.1 })
    }

    /// The round outline as wide as the longer side of a picture of `size`.
    pub fn around(size: (u32, u32)) -> (bounds: Bounds)
        ensures
            bounds == Bounds::enclosing(size),
    {
        if size.0 >= size.1 {
            Bounds::Radius(size.0)
        } else {
            Bounds::Radius(size.1)
        }
    }
}

/// One entity: what the renderer needs to draw it and what the rules read.
#[derive(Clone, Copy, Debug, PartialEq, Eq)]
pub struct Entity {
    pub id: EntityId,
    pub sprite: Sprite,
    /// Width and height of the picture.
    pub size: (u32, u32),
    pub bounds: Bounds,
    /// The left and the top edge.
    pub position: (i64, i64),
    /// Units moved per tick, to the right and downwards.
    pub momentum: (i64, i64),
    pub tags: TagSet,
}

/// The registry of entities, at most one for each identity.
#[derive(Debug)]
pub struct Scene {
    entities: Vec<Entity>,
}

impl View for Scene {
    type V = Map<EntityId, Entity>;

    closed spec fn view(&self) -> Map<EntityId, Entity> {
        Map::new(
            |id: EntityId| Self::holds(self.entities@, id),
            |id: EntityId| self.entities@[Self::slot(self.entities@, id)],
        )
    }
}

impl Scene {
    spec fn holds(entities: Seq<Entity>, id: EntityId) -> bool {
        exists|i: int| 0 <= i < entities.len() && #[trigger] entities[i].id == id
    }

    spec fn slot(entities: Seq<Entity>, id: EntityId) -> int {
        choose|i: int| 0 <= i < entities.len() && #[trigger] entities[i].id == id
    }

    spec fn distinct(entities: Seq<Entity>) -> bool {
        forall|i: int, j: int|
            0 <= i < j < entities.len() ==> #[trigger] entities[i].id != #[trigger] entities[j].id
    }

    /// No identity is registered twice.
    pub closed spec fn wf(&self) -> bool {
        Self::distinct(self.entities@)
    }

    proof fn lemma_slot(entities: Seq<Entity>, i: int)
        requires
            Self::distinct(entities),
            0 <= i < entities.len(),
        ensures
            Self::holds(entities, entities[i].id),
            Self::slot(entities, entities[i].id) == i,
    {
        let j = Self::slot(entities, entities[i].id);
        assert(0 <= j < entities.len() && entities[j].id == entities[i].id);
        if j < i {
            assert(entities[j].id != entities[i].id);
        } else if i < j {
            assert(entities[i].id != entities[j].id);
        }
    }

    /// The empty registry.
    pub fn new() -> (scene: Scene)
        ensures
            scene.wf(),
            scene@ == Map::<EntityId, Entity>::empty(),
    {
        let scene = Scene { entities: Vec::new() };
        assert(scene@ =~= Map::<EntityId, Entity>::empty());
        scene
    }

    fn position_of(&self, id: EntityId) -> (found: Option<usize>)
        requires
            self.wf(),
        ensures
            match found {
                Some(i) => i < self.entities@.len() && self.entities@[i as int].id == id
                    && Self::slot(self.entities@, id) == i,
                None => !Self::holds(self.entities@, id),
            },
    {
        let mut i: usize = 0;
        while i < self.entities.len()
            invariant
                self.wf(),
                i <= self.entities@.len(),
                forall|j: int| 0 <= j < i ==> self.entities@[j].id != id,
            decreases self.entities@.len() - i,
        {
            if self.entities[i].id == id {
                proof {
                    Self::lemma_slot(self.entities@, i as int);
                }
                return Some(i);
            }
            i += 1;
        }
        None
    }

    /// The entity registered as `id`, if there is one.
    pub fn get(&self, id: EntityId) -> (found: Option<Entity>)
        requires
            self.wf(),
        ensures
            found == if self@.dom().contains(id) { Some(self@[id]) } else { None::<Entity> },
            found matches Some(entity) ==> entity.id == id,
    {
        match self.position_of(id) {
            Some(i) => Some(self.entities[i]),
            None => None,
        }
    }

    /// Whether an entity is registered as `id`.
    pub fn contains(&self, id: EntityId) -> (found: bool)
        requires
            self.wf(),
        ensures
            found == self@.dom().contains(id),
    {
        self.position_of(id).is_some()
    }

    /// Registers `entity` under its identity, in place of any entity that
    /// was registered under it before.
    pub fn insert(&mut self, entity: Entity)
        requires
            old(self).wf(),
        ensures
            final(self).wf(),
            final(self)@ == old(self)@.insert(entity.id, entity),
    {
        let ghost before = self.entities@;
        match self.position_of(entity.id) {
            Some(i) => {
                self.entities.set(i, entity);
            },
            None => {
                self.entities.push(entity);
            },
        }
        proof {
            let after = self.entities@;
            assert(Self::distinct(after));
            assert forall|id: EntityId| #[trigger] Self::holds(after, id) == (id == entity.id
                || Self::holds(before, id)) by {
                if Self::holds(after, id) {
                    let j = Self::slot(after, id);
                    if id != entity.id {
                        assert(before[j].id == id);
                    }
                }
                if Self::holds(before, id) {
                    let j = Self::slot(before, id);
                    assert(after[j].id == id || id == entity.id);
                }
                if id == entity.id {
                    let j = if before.len() == after.len() {
                        Self::slot(before, id)
                    } else {
                        after.len() - 1
                    };
                    assert(after[j].id == id);
                }
            }
            assert forall|id: EntityId| Self::holds(after, id) implies after[Self::slot(after, id)]
                == old(self)@.insert(entity.id, entity)[id] by {
                let j = Self::slot(after, id);
                if id != entity.id {
                    assert(before[j].id == id);
                    Self::lemma_slot(before, j);
                }
            }
            assert(self@ =~= old(self)@.insert(entity.id, entity));
        }
    }

    /// Removes the entity registered as `id`; nothing changes when there is none.
    pub fn remove(&mut self, id: EntityId)
        requires
            old(self).wf(),
        ensures
            final(self).wf(),
            final(self)@ == old(self)@.remove(id),
    {
        let ghost before = self.entities@;
        match self.position_of(id) {
            Some(i) => {
                self.entities.remove(i);
                proof {
                    let after = self.entities@;
                    assert forall|a: int, b: int| 0 <= a < b < after.len() implies after[a].id
                        != after[b].id by {
                        let a0 = if a < i { a } else { a + 1 };
                        let b0 = if b < i { b } else { b + 1 };
                        assert(after[a] == before[a0] && after[b] == before[b0]);
                    }
                    assert forall|other: EntityId| #[trigger] Self::holds(after, other) == (other
                        != id && Self::holds(before, other)) by {
                        if Self::holds(after, other) {
                            let j = Self::slot(after, other);
                            let j0 = if j < i { j } else { j + 1 };
                            assert(before[j0].id == other);
                            if other == id {
                                Self::lemma_slot(before, j0);
                            }
                        }
                        if other != id && Self::holds(before, other) {
                            let j0 = Self::slot(before, other);
                            let j = if j0 < i { j0 } else { j0 - 1 };
                            assert(after[j].id == other);
                        }
                    }
                    assert forall|other: EntityId|
                        Self::holds(after, other) implies after[Self::slot(after, other)] == old(
                        self,
                    )@[other] by {
                        let j = Self::slot(after, other);
                        let j0 = if j < i { j } else { j + 1 };
                        assert(before[j0] == after[j]);
                        Self::lemma_slot(before, j0);
                    }
                }
            },
            None => {},
        }
        assert(self@ =~= old(self)@.remove(id));
    }

    /// A registry with the same entities.
    pub fn snapshot(&self) -> (copy: Scene)
        requires
            self.wf(),
        ensures
            copy.wf(),
            copy@ == self@,
    {
        let copy = Scene { entities: self.entities.clone() };
        assert(copy.entities@ =~= self.entities@);
        copy
    }

    /// Every registered entity, each once.
    pub fn entities(&self) -> (all: Vec<Entity>)
        requires
            self.wf(),
        ensures
            forall|i: int| 0 <= i < all@.len() ==> self@.dom().contains(#[trigger] all@[i].id)
                && self@[all@[i].id] == all@[i],
            forall|id: EntityId| self@.dom().contains(id) ==> exists|i: int|
                0 <= i < all@.len() && #[trigger] all@[i].id == id,
            forall|i: int, j: int|
                0 <= i < j < all@.len() ==> #[trigger] all@[i].id != #[trigger] all@[j].id,
    {
        self.entities.clone()
    }
}

} // verus!
