//! The entity store: an arena of entities, each known by a handle that is never reused.

use vstd::prelude::*;
use crate::enemy::Enemy;
use crate::in_game::Decoration;
use crate::player::Player;

verus! {

/// The stable identity of an entity. Handles are issued in rising order and a handle
/// stays with its entity until the entity is removed; afterwards it names nothing.
#[derive(Clone, Copy, PartialEq, Eq, Debug, Structural)]
pub struct EntityId(pub usize);

/// The kinds of entity.
#[derive(Clone, Copy, PartialEq, Eq, Debug, Structural)]
pub enum EntityKind {
    Player,
    Enemy,
    Decoration,
}

/// A simulated object.
#[derive(Clone, Copy, PartialEq, Eq, Debug, Structural)]
pub enum Entity {
    Player(Player),
    Enemy(Enemy),
    Decoration(Decoration),
}

impl Entity {
    /// The kind of this entity.
    pub open spec fn kind_of(self) -> EntityKind {
        match self {
            Entity::Player(_) => EntityKind::Player,
            Entity::Enemy(_) => EntityKind::Enemy,
            Entity::Decoration(_) => EntityKind::Decoration,
        }
    }

    /// Tells the kind of this entity.
    pub fn kind(&self) -> (kind: EntityKind)
        ensures
            kind == self.kind_of(),
    {
        match self {
            Entity::Player(_) => EntityKind::Player,
            Entity::Enemy(_) => EntityKind::Enemy,
            Entity::Decoration(_) => EntityKind::Decoration,
        }
    }
}

/// Whether `id` names the one and only player among `entities`.
pub open spec fn is_only_player(entities: Map<EntityId, Entity>, id: EntityId) -> bool {
    &&& entities.contains_key(id)
    &&& entities[id] is Player
    &&& forall|other: EntityId|
        entities.contains_key(other) && #[trigger] entities[other] is Player ==> other == id
}

/// The player among `entities`, if there is exactly one. With no player, or with
/// several, there is none to act on.
pub open spec fn single_player(entities: Map<EntityId, Entity>) -> Option<EntityId> {
    if exists|id: EntityId| is_only_player(entities, id) {
        Some(choose|id: EntityId| is_only_player(entities, id))
    } else {
        None
    }
}

/// Whether no entity of `kind` is among `entities`.
pub open spec fn has_none_of(entities: Map<EntityId, Entity>, kind: EntityKind) -> bool {
    forall|id: EntityId| entities.contains_key(id) ==> (#[trigger] entities[id]).kind_of() != kind
}

/// Whether at most one player is among `entities`.
pub open spec fn at_most_one_player(entities: Map<EntityId, Entity>) -> bool {
    forall|a: EntityId, b: EntityId|
        entities.contains_key(a) && entities.contains_key(b) && #[trigger] entities[a] is Player
            && #[trigger] entities[b] is Player ==> a == b
}

/// What holds of the entities at all times: there is at most one player, it is
/// inside the arena, and no car is at rest.
pub open spec fn entities_wf(entities: Map<EntityId, Entity>) -> bool {
    &&& at_most_one_player(entities)
    &&& forall|id: EntityId|
        entities.contains_key(id) ==> (#[trigger] entities[id] matches Entity::Player(player)
            ==> player.in_arena())
    &&& forall|id: EntityId|
        entities.contains_key(id) ==> (#[trigger] entities[id] matches Entity::Enemy(enemy)
            ==> enemy.velocity.x != 0)
}

/// Whether the handles stand in rising order, each once.
pub open spec fn rising(ids: Seq<EntityId>) -> bool {
    forall|i: int, j: int| 0 <= i < j < ids.len() ==> ids[i].0 < ids[j].0
}

/// The only player is the one that `single_player` finds.
pub proof fn lemma_single_player_is(entities: Map<EntityId, Entity>, id: EntityId)
    requires
        is_only_player(entities, id),
    ensures
        single_player(entities) == Some(id),
{
    let found = choose|id: EntityId| is_only_player(entities, id);
    assert(entities[id] is Player);
    assert(found == id);
}

/// What `single_player` finds is the only player.
pub proof fn lemma_single_player_found(entities: Map<EntityId, Entity>)
    ensures
        single_player(entities) matches Some(id) ==> is_only_player(entities, id),
        single_player(entities) is None ==> forall|id: EntityId| !is_only_player(entities, id),
{
}

/// An arena of entities. Its view maps each live handle to its entity.
#[derive(Debug)]
pub struct EntityStore {
    slots: Vec<Option<Entity>>,
}

impl View for EntityStore {
    type V = Map<EntityId, Entity>;

    closed spec fn view(&self) -> Map<EntityId, Entity> {
        Map::new(
            |id: EntityId| id.0 < self.slots@.len() && self.slots@[id.0 as int] is Some,
            |id: EntityId| self.slots@[id.0 as int]->Some_0,
        )
    }
}

impl EntityStore {
    /// The number behind the handle that the next `insert` will issue. Every handle
    /// issued so far lies below it.
    pub closed spec fn next_id(&self) -> nat {
        self.slots@.len()
    }

    /// Every live handle was issued before, and the next one can still be issued.
    pub proof fn lemma_ids_below_next(&self)
        ensures
            forall|id: EntityId| #[trigger] self@.contains_key(id) ==> id.0 < self.next_id(),
            self.next_id() <= usize::MAX,
    {
        assert(self.slots@.len() == self.slots.len());
    }

    /// An empty store.
    pub fn new() -> (store: EntityStore)
        ensures
            store@ == Map::<EntityId, Entity>::empty(),
            store.next_id() == 0,
    {
        EntityStore { slots: Vec::new() }
    }

    /// Adds `entity` and returns its handle, which no entity had before.
    pub fn insert(&mut self, entity: Entity) -> (id: EntityId)
        ensures
            id.0 == old(self).next_id(),
            !old(self)@.contains_key(id),
            final(self)@ == old(self)@.insert(id, entity),
            final(self).next_id() == old(self).next_id() + 1,
    {
        let id = EntityId(self.slots.len());
        self.slots.push(Some(entity));
        id
    }

    /// Removes the entity that `id` names and returns it, if there is one.
    pub fn remove(&mut self, id: EntityId) -> (removed: Option<Entity>)
        ensures
            removed == (if old(self)@.contains_key(id) {
                Some(old(self)@[id])
            } else {
                None
            }),
            final(self)@ == old(self)@.remove(id),
            final(self).next_id() == old(self).next_id(),
    {
        if id.0 < self.slots.len() {
            let removed = self.slots[id.0];
            self.slots.set(id.0, None);
            removed
        } else {
            None
        }
    }

    /// The entity that `id` names, if there is one.
    pub fn get(&self, id: EntityId) -> (entity: Option<Entity>)
        ensures
            entity == (if self@.contains_key(id) {
                Some(self@[id])
            } else {
                None
            }),
    {
        if id.0 < self.slots.len() {
            self.slots[id.0]
        } else {
            None
        }
    }

    /// Puts `entity` in the place of the one that `id` names. Says whether there was one;
    /// if not, nothing changes.
    pub fn replace(&mut self, id: EntityId, entity: Entity) -> (replaced: bool)
        ensures
            replaced == old(self)@.contains_key(id),
            final(self)@ == (if replaced {
                old(self)@.insert(id, entity)
            } else {
                old(self)@
            }),
            final(self).next_id() == old(self).next_id(),
    {
        if id.0 < self.slots.len() && self.slots[id.0].is_some() {
            self.slots.set(id.0, Some(entity));
            true
        } else {
            false
        }
    }

    /// The bound below which all handles issued so far lie.
    pub fn upper_bound(&self) -> (bound: usize)
        ensures
            bound == self.next_id(),
            forall|id: EntityId| #[trigger] self@.contains_key(id) ==> id.0 < bound,
    {
        self.slots.len()
    }

    /// The handles of all entities of `kind`, in rising order.
    pub fn ids_of(&self, kind: EntityKind) -> (ids: Vec<EntityId>)
        ensures
            forall|id: EntityId|
                ids@.contains(id) <==> self@.contains_key(id) && self@[id].kind_of() == kind,
            rising(ids@),
    {
        let mut ids: Vec<EntityId> = Vec::new();
        let mut index: usize = 0;
        while index < self.slots.len()
            invariant
                index <= self.slots@.len(),
                forall|id: EntityId|
                    ids@.contains(id) <==> id.0 < index && self@.contains_key(id)
                        && self@[id].kind_of() == kind,
                forall|i: int, j: int| 0 <= i < j < ids@.len() ==> ids@[i].0 < ids@[j].0,
                forall|i: int| 0 <= i < ids@.len() ==> ids@[i].0 < index,
            decreases self.slots@.len() - index,
        {
            let matches_kind = match self.slots[index] {
                Some(entity) => entity.kind() == kind,
                None => false,
            };
            if matches_kind {
                let ghost before = ids@;
                ids.push(EntityId(index));
                assert forall|id: EntityId|
                    ids@.contains(id) <==> id.0 < index + 1 && self@.contains_key(id)
                        && self@[id].kind_of() == kind by {
                    if ids@.contains(id) {
                        let k = choose|k: int| 0 <= k < ids@.len() && ids@[k] == id;
                        if k < before.len() {
                            assert(before[k] == id);
                            assert(before.contains(id));
                        }
                    }
                    if id.0 < index + 1 && self@.contains_key(id) && self@[id].kind_of() == kind {
                        if id.0 < index {
                            assert(before.contains(id));
                            let k = choose|k: int| 0 <= k < before.len() && before[k] == id;
                            assert(ids@[k] == id);
                        } else {
                            assert(id == EntityId(index));
                            assert(ids@[before.len() as int] == id);
                        }
                    }
                }
            }
            index += 1;
        }
        ids
    }

    /// The handles of all entities issued from `bound` on, in rising order.
    pub fn ids_from(&self, bound: usize) -> (ids: Vec<EntityId>)
        ensures
            forall|id: EntityId| ids@.contains(id) <==> self@.contains_key(id) && id.0 >= bound,
            rising(ids@),
    {
        let mut ids: Vec<EntityId> = Vec::new();
        let mut index: usize = bound;
        while index < self.slots.len()
            invariant
                bound <= index,
                forall|id: EntityId|
                    ids@.contains(id) <==> bound <= id.0 < index && self@.contains_key(id),
                forall|i: int, j: int| 0 <= i < j < ids@.len() ==> ids@[i].0 < ids@[j].0,
                forall|i: int| 0 <= i < ids@.len() ==> ids@[i].0 < index,
            decreases self.slots@.len() - index,
        {
            if self.slots[index].is_some() {
                let ghost before = ids@;
                ids.push(EntityId(index));
                assert forall|id: EntityId|
                    ids@.contains(id) <==> bound <= id.0 < index + 1 && self@.contains_key(
                        id,
                    ) by {
                    if ids@.contains(id) {
                        let k = choose|k: int| 0 <= k < ids@.len() && ids@[k] == id;
                        if k < before.len() {
                            assert(before[k] == id);
                            assert(before.contains(id));
                        }
                    }
                    if bound <= id.0 < index + 1 && self@.contains_key(id) {
                        if id.0 < index {
                            assert(before.contains(id));
                            let k = choose|k: int| 0 <= k < before.len() && before[k] == id;
                            assert(ids@[k] == id);
                        } else {
                            assert(id == EntityId(index));
                            assert(ids@[before.len() as int] == id);
                        }
                    }
                }
            }
            index += 1;
        }
        ids
    }

    /// Those of the handles `known` that name no entity any more, in the order of `known`.
    pub fn gone_of(&self, known: &Vec<EntityId>) -> (gone: Vec<EntityId>)
        ensures
            gone@ == known@.filter(|id: EntityId| !self@.contains_key(id)),
            forall|id: EntityId| gone@.contains(id) <==> known@.contains(id) && !self@.contains_key(id),
            rising(known@) ==> rising(gone@),
    {
        let ghost is_gone = |id: EntityId| !self@.contains_key(id);
        let mut gone: Vec<EntityId> = Vec::new();
        let mut index: usize = 0;
        proof {
            reveal(Seq::filter);
            assert(known@.subrange(0, 0) =~= Seq::<EntityId>::empty());
        }
        while index < known.len()
            invariant
                index <= known@.len(),
                is_gone == |id: EntityId| !self@.contains_key(id),
                gone@ == known@.subrange(0, index as int).filter(is_gone),
                forall|id: EntityId|
                    gone@.contains(id) <==> known@.subrange(0, index as int).contains(id)
                        && !self@.contains_key(id),
                rising(known@) ==> rising(gone@),
            decreases known@.len() - index,
        {
            let id = known[index];
            let ghost seen = known@.subrange(0, index as int);
            let ghost seen_now = known@.subrange(0, index + 1);
            let ghost before = gone@;
            assert(seen_now =~= seen.push(id));
            assert(seen_now.drop_last() =~= seen);
            assert forall|other: EntityId| seen_now.contains(other) <==> seen.contains(other)
                || other == id by {
                if seen.contains(other) {
                    let k = choose|k: int| 0 <= k < seen.len() && seen[k] == other;
                    assert(seen_now[k] == other);
                }
                assert(seen_now[index as int] == id);
            }
            proof {
                reveal(Seq::filter);
            }
            if self.get(id).is_none() {
                gone.push(id);
                assert forall|other: EntityId|
                    gone@.contains(other) <==> seen_now.contains(other) && !self@.contains_key(
                        other,
                    ) by {
                    if gone@.contains(other) {
                        let k = choose|k: int| 0 <= k < gone@.len() && gone@[k] == other;
                        if k < before.len() {
                            assert(before[k] == other);
                            assert(before.contains(other));
                        }
                    }
                    if seen_now.contains(other) && !self@.contains_key(other) {
                        if other == id {
                            assert(gone@[before.len() as int] == other);
                        } else {
                            assert(before.contains(other));
                            let k = choose|k: int| 0 <= k < before.len() && before[k] == other;
                            assert(gone@[k] == other);
                        }
                    }
                }
                assert(rising(known@) ==> rising(gone@)) by {
                    if rising(known@) {
                        assert forall|i: int, j: int| 0 <= i < j < gone@.len() implies gone@[i].0
                            < gone@[j].0 by {
                            if j == before.len() {
                                assert(before.contains(before[i]));
                                let m = choose|m: int| 0 <= m < seen.len() && seen[m] == before[i];
                                assert(known@[m] == before[i]);
                            }
                        }
                    }
                }
            }
            index += 1;
        }
        assert(known@.subrange(0, index as int) =~= known@);
        gone
    }

    /// The handle of the player, if the store holds exactly one.
    pub fn player(&self) -> (found: Option<EntityId>)
        ensures
            found == single_player(self@),
    {
        let mut found: Option<EntityId> = None;
        let mut several = false;
        let mut index: usize = 0;
        while index < self.slots.len()
            invariant
                index <= self.slots@.len(),
                !several ==> match found {
                    Some(id) => {
                        &&& id.0 < index
                        &&& self@.contains_key(id)
                        &&& self@[id] is Player
                        &&& forall|other: EntityId|
                            other.0 < index && self@.contains_key(other)
                                && #[trigger] self@[other] is Player ==> other == id
                    },
                    None => forall|other: EntityId|
                        other.0 < index && self@.contains_key(other) ==> !(
                        #[trigger] self@[other] is Player),
                },
                several ==> exists|a: EntityId, b: EntityId|
                    a != b && self@.contains_key(a) && self@.contains_key(b)
                        && #[trigger] self@[a] is Player && #[trigger] self@[b] is Player,
            decreases self.slots@.len() - index,
        {
            let is_player = match self.slots[index] {
                Some(Entity::Player(_)) => true,
                _ => false,
            };
            if is_player {
                if found.is_some() {
                    if !several {
                        assert(self@[found->Some_0] is Player && self@[EntityId(index)] is Player);
                    }
                    several = true;
                } else {
                    found = Some(EntityId(index));
                }
            }
            index += 1;
        }
        if several {
            proof {
                let (a, b) = choose|a: EntityId, b: EntityId|
                    a != b && self@.contains_key(a) && self@.contains_key(b)
                        && #[trigger] self@[a] is Player && #[trigger] self@[b] is Player;
                assert forall|id: EntityId| !is_only_player(self@, id) by {
                    if is_only_player(self@, id) {
                        assert(self@[a] is Player);
                        assert(self@[b] is Player);
                    }
                }
            }
            None
        } else {
            proof {
                match found {
                    Some(id) => {
                        lemma_single_player_is(self@, id);
                    },
                    None => {
                        assert forall|id: EntityId| !is_only_player(self@, id) by {
                            if is_only_player(self@, id) {
                                assert(self@[id] is Player);
                            }
                        }
                    },
                }
            }
            found
        }
    }
}

} // verus!
