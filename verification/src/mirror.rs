//! What a renderer has to do to show a registry: the changes that lead from
//! the registry it shows to the one it is to show.

use crate::scene::{Entity, EntityId, Scene};
use vstd::prelude::*;

verus! {

/// One change to the entities that a renderer shows.
#[derive(Clone, Copy, Debug, PartialEq, Eq)]
pub enum Change {
    /// The entity is taken away.
    Remove(EntityId),
    /// The entity is made anew, in place of any that had its identity.
    Create(Entity),
    /// The entity is set to another place and momentum.
    Move { id: EntityId, position: (i64, i64), momentum: (i64, i64) },
}

/// Whether two entities are drawn and hit alike, wherever they are.
pub open spec fn same_look(a: Entity, b: Entity) -> bool {
    a.sprite == b.sprite && a.size == b.size && a.bounds == b.bounds && a.tags == b.tags
}

/// Whether the entity `id` can stay on show: both registries have it, with the same look.
pub open spec fn kept(
    shown: Map<EntityId, Entity>,
    wanted: Map<EntityId, Entity>,
    id: EntityId,
) -> bool {
    shown.dom().contains(id) && wanted.dom().contains(id) && same_look(shown[id], wanted[id])
}

/// The registry after one change. Moving an entity that is not registered changes nothing.
pub open spec fn changed(entities: Map<EntityId, Entity>, change: Change) -> Map<EntityId, Entity> {
    match change {
        Change::Remove(id) => entities.remove(id),
        Change::Create(entity) => entities.insert(entity.id, entity),
        Change::Move { id, position, momentum } => if entities.dom().contains(id) {
            entities.insert(id, Entity { position, momentum, ..entities[id] })
        } else {
            entities
        },
    }
}

/// The registry after the changes, one after the other.
pub open spec fn replayed(entities: Map<EntityId, Entity>, changes: Seq<Change>) -> Map<
    EntityId,
    Entity,
>
    decreases changes.len(),
{
    if changes.len() == 0 {
        entities
    } else {
        changed(replayed(entities, changes.drop_last()), changes.last())
    }
}

/// Whether a change is called for: it removes an entity that cannot stay,
/// creates one that is wanted and is not on show with that look, or moves
/// one that stays but is wanted elsewhere or with another momentum.
pub open spec fn needed(
    shown: Map<EntityId, Entity>,
    wanted: Map<EntityId, Entity>,
    change: Change,
) -> bool {
    match change {
        Change::Remove(id) => shown.dom().contains(id) && !kept(shown, wanted, id),
        Change::Create(entity) => wanted.dom().contains(entity.id) && wanted[entity.id] == entity
            && !kept(shown, wanted, entity.id),
        Change::Move { id, position, momentum } => kept(shown, wanted, id) && wanted[id].position
            == position && wanted[id].momentum == momentum && shown[id] != wanted[id],
    }
}

spec fn listed(entities: Seq<Entity>, upto: int, id: EntityId) -> bool {
    exists|i: int| 0 <= i < upto && #[trigger] entities[i].id == id
}

spec fn cleared(
    shown: Map<EntityId, Entity>,
    wanted: Map<EntityId, Entity>,
    olds: Seq<Entity>,
    upto: int,
) -> Map<EntityId, Entity> {
    shown.remove_keys(Set::new(|id: EntityId| listed(olds, upto, id) && !kept(shown, wanted, id)))
}

spec fn filled(
    base: Map<EntityId, Entity>,
    wanted: Map<EntityId, Entity>,
    news: Seq<Entity>,
    upto: int,
) -> Map<EntityId, Entity> {
    Map::new(
        |id: EntityId| base.dom().contains(id) || listed(news, upto, id),
        |id: EntityId|
            if listed(news, upto, id) {
                wanted[id]
            } else {
                base[id]
            },
    )
}

fn looks_alike(a: &Entity, b: &Entity) -> (alike: bool)
    ensures
        alike == same_look(*a, *b),
{
    a.sprite == b.sprite && a.size.0 == b.size.0 && a.size.1 == b.size.1 && a.bounds == b.bounds
        && a.tags == b.tags
}

fn moves_alike(a: &Entity, b: &Entity) -> (alike: bool)
    ensures
        alike == (a.position == b.position && a.momentum == b.momentum),
{
    a.position.0 == b.position.0 && a.position.1 == b.position.1 && a.momentum.0 == b.momentum.0
        && a.momentum.1 == b.momentum.1
}

impl Scene {
    /// The changes that turn this registry into `wanted`: first every
    /// entity that cannot stay is removed, then every wanted entity that is
    /// not there yet is created and every one that is there but differs is
    /// moved. No change is made that is not needed.
    pub fn changes_to(&self, wanted: &Scene) -> (changes: Vec<Change>)
        requires
            self.wf(),
            wanted.wf(),
        ensures
            replayed(self@, changes@) == wanted@,
            forall|i: int|
                0 <= i < changes@.len() ==> needed(self@, wanted@, #[trigger] changes@[i]),
    {
        let mut changes: Vec<Change> = Vec::new();
        let olds = self.entities();
        let mut at: usize = 0;
        while at < olds.len()
            invariant
                at <= olds@.len(),
                self.wf(),
                wanted.wf(),
                forall|i: int|
                    0 <= i < olds@.len() ==> self@.dom().contains(#[trigger] olds@[i].id)
                        && self@[olds@[i].id] == olds@[i],
                replayed(self@, changes@) == cleared(self@, wanted@, olds@, at as int),
                forall|i: int|
                    0 <= i < changes@.len() ==> needed(self@, wanted@, #[trigger] changes@[i]),
            decreases olds@.len() - at,
        {
            let old = olds[at];
            let stays = match wanted.get(old.id) {
                Some(new) => looks_alike(&old, &new),
                None => false,
            };
            let ghost before = changes@;
            if !stays {
                changes.push(Change::Remove(old.id));
                assert(changes@.drop_last() =~= before);
            }
            at += 1;
            proof {
                let earlier = cleared(self@, wanted@, olds@, at - 1);
                let now = cleared(self@, wanted@, olds@, at as int);
                assert forall|id: EntityId|
                    listed(olds@, at as int, id) == (listed(olds@, at - 1, id) || id == old.id) by {
                    if listed(olds@, at as int, id) {
                        let i = choose|i: int| 0 <= i < at && #[trigger] olds@[i].id == id;
                        if i < at - 1 {
                            assert(listed(olds@, at - 1, id));
                        }
                    }
                    if listed(olds@, at - 1, id) {
                        let i = choose|i: int| 0 <= i < at - 1 && #[trigger] olds@[i].id == id;
                        assert(0 <= i < at && olds@[i].id == id);
                    }
                    if id == old.id {
                        assert(olds@[at - 1].id == id);
                    }
                }
                if stays {
                    assert(now =~= earlier);
                } else {
                    assert(now =~= earlier.remove(old.id));
                }
            }
        }
        let ghost base = cleared(self@, wanted@, olds@, at as int);
        proof {
            assert forall|id: EntityId| base.dom().contains(id) == kept(self@, wanted@, id) by {
                if self@.dom().contains(id) {
                    let i = choose|i: int| 0 <= i < olds@.len() && #[trigger] olds@[i].id == id;
                    assert(listed(olds@, at as int, id));
                }
            }
            assert(filled(base, wanted@, Seq::<Entity>::empty(), 0) =~= base);
        }
        let news = wanted.entities();
        let mut at: usize = 0;
        assert(filled(base, wanted@, news@, 0) =~= base);
        while at < news.len()
            invariant
                at <= news@.len(),
                self.wf(),
                wanted.wf(),
                forall|i: int|
                    0 <= i < news@.len() ==> wanted@.dom().contains(#[trigger] news@[i].id)
                        && wanted@[news@[i].id] == news@[i],
                forall|i: int, j: int|
                    0 <= i < j < news@.len() ==> #[trigger] news@[i].id != #[trigger] news@[j].id,
                forall|id: EntityId| base.dom().contains(id) == kept(self@, wanted@, id),
                forall|id: EntityId| #[trigger] base.dom().contains(id) ==> base[id] == self@[id],
                replayed(self@, changes@) == filled(base, wanted@, news@, at as int),
                forall|i: int|
                    0 <= i < changes@.len() ==> needed(self@, wanted@, #[trigger] changes@[i]),
            decreases news@.len() - at,
        {
            let new = news[at];
            let ghost before = changes@;
            let ghost earlier = filled(base, wanted@, news@, at as int);
            proof {
                if listed(news@, at as int, new.id) {
                    let i = choose|i: int| 0 <= i < at && #[trigger] news@[i].id == new.id;
                    assert(news@[i].id != news@[at as int].id);
                }
            }
            let stays = match self.get(new.id) {
                Some(old) => {
                    if looks_alike(&old, &new) {
                        if !moves_alike(&old, &new) {
                            changes.push(
                                Change::Move {
                                    id: new.id,
                                    position: new.position,
                                    momentum: new.momentum,
                                },
                            );
                            assert(changes@.drop_last() =~= before);
                        }
                        true
                    } else {
                        false
                    }
                },
                None => false,
            };
            if !stays {
                changes.push(Change::Create(new));
                assert(changes@.drop_last() =~= before);
            }
            at += 1;
            proof {
                assert forall|id: EntityId|
                    listed(news@, at as int, id) == (listed(news@, at - 1, id) || id == new.id) by {
                    if listed(news@, at as int, id) {
                        let i = choose|i: int| 0 <= i < at && #[trigger] news@[i].id == id;
                        if i < at - 1 {
                            assert(listed(news@, at - 1, id));
                        }
                    }
                    if listed(news@, at - 1, id) {
                        let i = choose|i: int| 0 <= i < at - 1 && #[trigger] news@[i].id == id;
                        assert(0 <= i < at && news@[i].id == id);
                    }
                    if id == new.id {
                        assert(news@[at - 1].id == id);
                    }
                }
                assert(replayed(self@, changes@) =~= filled(base, wanted@, news@, at as int));
            }
        }
        proof {
            assert forall|id: EntityId| wanted@.dom().contains(id) implies listed(
                news@,
                at as int,
                id,
            ) by {
                let i = choose|i: int| 0 <= i < news@.len() && #[trigger] news@[i].id == id;
            }
            assert forall|id: EntityId| listed(news@, at as int, id) implies wanted@.dom().contains(
                id,
            ) by {
                let i = choose|i: int| 0 <= i < at && #[trigger] news@[i].id == id;
            }
            assert(filled(base, wanted@, news@, at as int) =~= wanted@);
        }
        changes
    }
}

} // verus!
