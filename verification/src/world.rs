//! The entities of a game and the buffer of changes that wait for the end of the frame.
//!
//! Systems change the components of the entities that exist. They never add or remove
//! an entity: they queue a command, and `World::maintain` applies the queue in one step
//! once all systems have run.

use crate::entities::entity_components::Collideable;
use crate::entities::entity_components::Damage;
use crate::entities::entity_components::DecayLife;
use crate::entities::entity_components::GravityAfflicted;
use crate::entities::entity_components::Health;
use crate::entities::entity_components::Position;
use crate::entities::entity_components::Sprite;
use crate::entities::entity_components::Velocity;
use crate::entities::entity_flags::KeyboardControlled;
use crate::entities::entity_flags::Player;
use crate::entities::entity_flags::SingleDamage;
use vstd::prelude::*;

verus! {

/// The components that one entity owns: each of them or none.
#[derive(Debug, Copy, Clone, PartialEq, Eq, Structural)]
pub struct Components {
    pub position: Option<Position>,
    pub velocity: Option<Velocity>,
    pub collideable: Option<Collideable>,
    pub gravity: Option<GravityAfflicted>,
    pub health: Option<Health>,
    pub damage: Option<Damage>,
    pub decay: Option<DecayLife>,
    pub sprite: Option<Sprite>,
    pub keyboard_controlled: Option<KeyboardControlled>,
    pub player: Option<Player>,
    pub single_damage: Option<SingleDamage>,
}

/// An entity: an identity and the components that belong to it.
#[derive(Debug, Copy, Clone, PartialEq, Eq, Structural)]
pub struct Entity {
    pub id: u32,
    pub components: Components,
}

/// A change to the set of entities, queued until the end of the frame.
#[derive(Debug, Copy, Clone, PartialEq, Eq, Structural)]
pub enum Command {
    CreateEntity(Components),
    DeleteEntity(u32),
}

/// The changes queued in one frame.
pub struct CommandBuffer {
    deleted: Vec<u32>,
    created: Vec<Components>,
}

/// The entities that exist, in the order of their creation.
pub struct World {
    entities: Vec<Entity>,
    next_id: u32,
}

impl Components {
    /// No component at all.
    pub open spec fn spec_none() -> Components {
        Components {
            position: None,
            velocity: None,
            collideable: None,
            gravity: None,
            health: None,
            damage: None,
            decay: None,
            sprite: None,
            keyboard_controlled: None,
            player: None,
            single_damage: None,
        }
    }

    #[verifier::when_used_as_spec(spec_none)]
    pub fn none() -> (components: Components)
        ensures
            components == Components::none(),
    {
        Components {
            position: None,
            velocity: None,
            collideable: None,
            gravity: None,
            health: None,
            damage: None,
            decay: None,
            sprite: None,
            keyboard_controlled: None,
            player: None,
            single_damage: None,
        }
    }
}

/// The entities that are left of `entities` once those named in `deleted` are gone.
pub open spec fn survivors(entities: Seq<Entity>, deleted: Set<u32>) -> Seq<Entity> {
    entities.filter(|e: Entity| !deleted.contains(e.id))
}

/// The entities made from `created`, which get the identities from `first_id` on.
pub open spec fn spawned(created: Seq<Components>, first_id: int) -> Seq<Entity> {
    Seq::new(
        created.len(),
        |k: int| Entity { id: (first_id + k) as u32, components: created[k] },
    )
}

/// Identities rise along the sequence, and all lie below `bound`.
pub open spec fn ids_ascend(entities: Seq<Entity>, bound: int) -> bool {
    &&& forall|i: int, j: int| 0 <= i < j < entities.len() ==> entities[i].id < entities[j].id
    &&& forall|i: int| 0 <= i < entities.len() ==> entities[i].id < bound
}

/// The first place in `entities` that holds an entity with the identity `id`.
pub open spec fn first_with(entities: Seq<Entity>, id: u32) -> Option<int> {
    if exists|k: int| 0 <= k < entities.len() && entities[k].id == id {
        Some(
            choose|k: int|
                0 <= k < entities.len() && entities[k].id == id && forall|m: int|
                    0 <= m < k ==> entities[m].id != id,
        )
    } else {
        None
    }
}

proof fn lemma_first_with(entities: Seq<Entity>, id: u32, k: int)
    requires
        0 <= k < entities.len(),
        entities[k].id == id,
        forall|m: int| 0 <= m < k ==> entities[m].id != id,
    ensures
        first_with(entities, id) == Some(k),
{
    let c = choose|c: int|
        0 <= c < entities.len() && entities[c].id == id && forall|m: int|
            0 <= m < c ==> entities[m].id != id;
    assert(c == k) by {
        if c < k {
            assert(entities[c].id != id);
        }
        if k < c {
            assert(entities[k].id != id);
        }
    }
}

proof fn lemma_none_with(entities: Seq<Entity>, id: u32)
    requires
        forall|m: int| 0 <= m < entities.len() ==> entities[m].id != id,
    ensures
        first_with(entities, id) is None,
{
}

impl CommandBuffer {
    /// The identities queued for deletion.
    pub closed spec fn deletions(&self) -> Set<u32> {
        self.deleted@.to_set()
    }

    /// The component sets queued for creation, oldest first.
    pub closed spec fn creations(&self) -> Seq<Components> {
        self.created@
    }

    pub fn new() -> (buffer: CommandBuffer)
        ensures
            buffer.deletions() == Set::<u32>::empty(),
            buffer.creations() == Seq::<Components>::empty(),
    {
        let buffer = CommandBuffer { deleted: Vec::new(), created: Vec::new() };
        assert(buffer.deleted@.to_set() =~= Set::<u32>::empty());
        buffer
    }

    /// Whether `id` is queued for deletion.
    pub fn is_deleted(&self, id: u32) -> (queued: bool)
        ensures
            queued == self.deletions().contains(id),
    {
        let mut k: usize = 0;
        while k < self.deleted.len()
            invariant
                k <= self.deleted.len(),
                forall|m: int| 0 <= m < k ==> self.deleted@[m] != id,
            decreases self.deleted.len() - k,
        {
            if self.deleted[k] == id {
                return true;
            }
            k += 1;
        }
        false
    }

    /// Queues the deletion of the entity `id`. Queuing it a second time changes nothing.
    pub fn delete(&mut self, id: u32)
        ensures
            final(self).deletions() == old(self).deletions().insert(id),
            final(self).creations() == old(self).creations(),
    {
        if !self.is_deleted(id) {
            self.deleted.push(id);
            assert(self.deleted@.to_set() =~= old(self).deleted@.to_set().insert(id)) by {
                assert forall|v: u32| self.deleted@.contains(v) implies old(
                    self,
                ).deleted@.to_set().insert(id).contains(v) by {
                    let m = choose|m: int| 0 <= m < self.deleted@.len() && self.deleted@[m] == v;
                    if m < old(self).deleted@.len() {
                        assert(old(self).deleted@[m] == v);
                    }
                }
                assert forall|v: u32|
                    old(self).deleted@.to_set().insert(id).contains(
                        v,
                    ) implies self.deleted@.contains(v) by {
                    if v == id {
                        assert(self.deleted@[old(self).deleted@.len() as int] == v);
                    } else {
                        let m = choose|m: int|
                            0 <= m < old(self).deleted@.len() && old(self).deleted@[m] == v;
                        assert(self.deleted@[m] == v);
                    }
                }
            }
        } else {
            assert(self.deleted@.to_set() =~= old(self).deleted@.to_set().insert(id));
        }
    }

    /// Queues the creation of an entity with the given components.
    pub fn create(&mut self, components: Components)
        ensures
            final(self).deletions() == old(self).deletions(),
            final(self).creations() == old(self).creations().push(components),
    {
        self.created.push(components);
    }

    /// Queues one command.
    pub fn push(&mut self, command: Command)
        ensures
            match command {
                Command::CreateEntity(components) => {
                    &&& final(self).deletions() == old(self).deletions()
                    &&& final(self).creations() == old(self).creations().push(components)
                },
                Command::DeleteEntity(id) => {
                    &&& final(self).deletions() == old(self).deletions().insert(id)
                    &&& final(self).creations() == old(self).creations()
                },
            },
    {
        match command {
            Command::CreateEntity(components) => self.create(components),
            Command::DeleteEntity(id) => self.delete(id),
        }
    }

    /// Whether nothing is queued.
    pub fn is_empty(&self) -> (empty: bool)
        ensures
            empty == (self.deletions() == Set::<u32>::empty() && self.creations().len() == 0),
    {
        proof {
            if self.deleted@.len() > 0 {
                assert(self.deleted@.to_set().contains(self.deleted@[0]));
            } else {
                assert(self.deleted@.to_set() =~= Set::<u32>::empty());
            }
        }
        self.deleted.len() == 0 && self.created.len() == 0
    }

    /// How many component sets are queued for creation.
    pub fn created_len(&self) -> (n: usize)
        ensures
            n == self.creations().len(),
    {
        self.created.len()
    }
}

impl View for World {
    type V = Seq<Entity>;

    closed spec fn view(&self) -> Seq<Entity> {
        self.entities@
    }
}

impl World {
    /// The identity that the next new entity gets.
    pub closed spec fn spec_next_id(&self) -> u32 {
        self.next_id
    }

    /// Identities rise in the order of creation and the next one is larger than all of
    /// them, so that no two entities share one. A new world is in order and every
    /// operation keeps a world so.
    pub open spec fn ids_in_order(&self) -> bool {
        ids_ascend(self@, self.next_id() as int)
    }

    /// A world without entities.
    pub fn new() -> (world: World)
        ensures
            world@ == Seq::<Entity>::empty(),
            world.next_id() == 0,
            world.ids_in_order(),
    {
        World { entities: Vec::new(), next_id: 0 }
    }

    #[verifier::when_used_as_spec(spec_next_id)]
    pub fn next_id(&self) -> (id: u32)
        ensures
            id == self.next_id(),
    {
        self.next_id
    }

    /// How many entities exist.
    pub fn len(&self) -> (n: usize)
        ensures
            n == self@.len(),
    {
        self.entities.len()
    }

    /// The entity at place `index`.
    pub fn entity(&self, index: usize) -> (entity: Entity)
        requires
            index < self@.len(),
        ensures
            entity == self@[index as int],
    {
        self.entities[index]
    }

    /// The components of the entity `id`: of the first entity with that identity, and
    /// `None` if there is none.
    pub fn find(&self, id: u32) -> (found: Option<Components>)
        ensures
            found == match first_with(self@, id) {
                Some(k) => Some(self@[k].components),
                None => None,
            },
    {
        let mut k: usize = 0;
        while k < self.entities.len()
            invariant
                k <= self.entities.len(),
                forall|m: int| 0 <= m < k ==> self.entities@[m].id != id,
            decreases self.entities.len() - k,
        {
            if self.entities[k].id == id {
                proof {
                    lemma_first_with(self@, id, k as int);
                }
                return Some(self.entities[k].components);
            }
            k += 1;
        }
        proof {
            lemma_none_with(self@, id);
        }
        None
    }

    /// Replaces the components of the entity at place `index`.
    pub fn set_components(&mut self, index: usize, components: Components)
        requires
            index < old(self)@.len(),
        ensures
            final(self)@ == old(self)@.update(
                index as int,
                Entity { id: old(self)@[index as int].id, components },
            ),
            final(self).next_id() == old(self).next_id(),
            old(self).ids_in_order() ==> final(self).ids_in_order(),
    {
        let id = self.entities[index].id;
        self.entities[index] = Entity { id, components };
    }

    /// Adds an entity at once and returns its identity; `None`, and no change, once all
    /// identities are used up. For setting a world up: systems queue a creation instead.
    pub fn create_entity(&mut self, components: Components) -> (id: Option<u32>)
        ensures
            old(self).next_id() < u32::MAX ==> id == Some(old(self).next_id()) && final(self)@
                == old(self)@.push(Entity { id: old(self).next_id(), components })
                && final(self).next_id() == old(self).next_id() + 1,
            old(self).next_id() == u32::MAX ==> id is None && final(self)@ == old(self)@
                && final(self).next_id() == old(self).next_id(),
            old(self).ids_in_order() ==> final(self).ids_in_order(),
    {
        if self.next_id == u32::MAX {
            return None;
        }
        let id = self.next_id;
        self.entities.push(Entity { id, components });
        self.next_id = id + 1;
        Some(id)
    }

    /// Applies the queue: the entities queued for deletion leave the world, then one
    /// entity is made of each queued component set, and the queue is empty again.
    /// Deleting an identity that no entity has changes nothing.
    pub fn maintain(&mut self, buffer: &mut CommandBuffer)
        requires
            old(self).next_id() + old(buffer).creations().len() <= u32::MAX,
        ensures
            final(self)@ == survivors(old(self)@, old(buffer).deletions()) + spawned(
                old(buffer).creations(),
                old(self).next_id() as int,
            ),
            final(self).next_id() == old(self).next_id() + old(buffer).creations().len(),
            final(buffer).deletions() == Set::<u32>::empty(),
            final(buffer).creations() == Seq::<Components>::empty(),
            old(self).ids_in_order() ==> final(self).ids_in_order(),
    {
        let ghost gone = buffer.deletions();
        let ghost keep = |e: Entity| !gone.contains(e.id);
        let mut kept: Vec<Entity> = Vec::new();
        let mut k: usize = 0;
        while k < self.entities.len()
            invariant
                k <= self.entities.len(),
                self.entities == old(self).entities,
                self.next_id == old(self).next_id,
                gone == buffer.deletions(),
                keep == (|e: Entity| !gone.contains(e.id)),
                kept@ == self.entities@.take(k as int).filter(keep),
                old(self).ids_in_order() ==> ids_ascend(kept@, self.next_id as int),
                old(self).ids_in_order() ==> forall|m: int|
                    0 <= m < kept@.len() ==> k > 0 && kept@[m].id <= self.entities@[k - 1].id,
            decreases self.entities.len() - k,
        {
            let e = self.entities[k];
            proof {
                assert(self.entities@.take(k + 1).drop_last() == self.entities@.take(k as int));
                assert(self.entities@.take(k + 1).last() == e);
                reveal(Seq::filter);
            }
            if !buffer.is_deleted(e.id) {
                kept.push(e);
            }
            k += 1;
        }
        assert(self.entities@.take(k as int) == self.entities@);
        let first = self.next_id;
        let mut next = self.next_id;
        let mut c: usize = 0;
        while c < buffer.created.len()
            invariant
                c <= buffer.created.len(),
                next == first + c,
                first + buffer.created@.len() <= u32::MAX,
                old(self).ids_in_order() ==> ids_ascend(kept@, next as int),
                kept@ == old(self)@.filter(keep) + spawned(
                    buffer.created@.take(c as int),
                    first as int,
                ),
            decreases buffer.created.len() - c,
        {
            kept.push(Entity { id: next, components: buffer.created[c] });
            next = next + 1;
            c += 1;
        }
        assert(buffer.created@.take(c as int) == buffer.created@);
        self.entities = kept;
        self.next_id = next;
        buffer.deleted = Vec::new();
        buffer.created = Vec::new();
        assert(buffer.deleted@.to_set() =~= Set::<u32>::empty());
    }
}

} // verus!
