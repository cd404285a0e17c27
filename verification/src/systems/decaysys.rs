//! Decay: entities with a limited life lose one frame of it per pass, and leave the
//! world once it has run out.
//!
//! An entity is queued for deletion in the pass that finds its life below zero, not in
//! the pass that brings it there: at life zero it has one more frame.

use crate::entities::entity_components::DecayLife;
use crate::world::CommandBuffer;
use crate::world::Components;
use crate::world::Entity;
use crate::world::World;
use vstd::prelude::*;

verus! {

pub struct DecaySys;

/// Whether a pass finds this life run out.
pub open spec fn expired(decay: DecayLife) -> bool {
    decay.life < 0
}

/// The life after a pass: one frame less, unless it has run out already.
pub open spec fn aged(decay: DecayLife) -> DecayLife {
    if expired(decay) {
        decay
    } else {
        DecayLife { life: (decay.life - 1) as i32 }
    }
}

/// The entity `e` after the decay pass.
pub open spec fn decayed(e: Entity) -> Entity {
    match e.components.decay {
        Some(decay) => Entity {
            id: e.id,
            components: Components { decay: Some(aged(decay)), ..e.components },
        },
        None => e,
    }
}

/// The entities after one decay pass.
pub open spec fn decay_pass(entities: Seq<Entity>) -> Seq<Entity> {
    entities.map_values(|e: Entity| decayed(e))
}

/// The identities that one decay pass queues for deletion: those of the entities whose
/// life has run out.
pub open spec fn decay_deletions(entities: Seq<Entity>) -> Set<u32> {
    Set::new(
        |id: u32|
            exists|k: int|
                0 <= k < entities.len() && #[trigger] entities[k].id == id
                    && entities[k].components.decay is Some && expired(
                    entities[k].components.decay->0,
                ),
    )
}

/// An entity with life zero is not queued by the pass that finds it so. That pass
/// leaves it with life minus one, and the next pass queues it.
pub proof fn lemma_one_more_frame(entities: Seq<Entity>, k: int)
    requires
        0 <= k < entities.len(),
        entities[k].components.decay == Some(DecayLife { life: 0 }),
        forall|m: int| 0 <= m < entities.len() && m != k ==> entities[m].id != entities[k].id,
    ensures
        !decay_deletions(entities).contains(entities[k].id),
        decay_pass(entities)[k].components.decay == Some(DecayLife { life: (-1) as i32 }),
        decay_deletions(decay_pass(entities)).contains(entities[k].id),
{
    assert(decay_pass(entities)[k].id == entities[k].id);
}

/// A pass takes exactly one frame from a life that has not run out, so an entity with
/// `life` frames left is first queued by the pass after `life + 1` others.
pub proof fn lemma_aged(decay: DecayLife)
    ensures
        decay.life >= 0 ==> aged(decay).life == decay.life - 1,
        decay.life >= 0 ==> !expired(decay),
        decay.life < 0 ==> aged(decay) == decay,
{
}

proof fn lemma_decay_deletions_grow(entities: Seq<Entity>, k: int)
    requires
        0 <= k < entities.len(),
    ensures
        decay_deletions(entities.take(k + 1)) == if entities[k].components.decay is Some && expired(
            entities[k].components.decay->0,
        ) {
            decay_deletions(entities.take(k)).insert(entities[k].id)
        } else {
            decay_deletions(entities.take(k))
        },
{
    let before = entities.take(k);
    let after = entities.take(k + 1);
    let adds = entities[k].components.decay is Some && expired(entities[k].components.decay->0);
    assert(after[k] == entities[k]);
    assert forall|id: u32| decay_deletions(before).contains(id) implies decay_deletions(
        after,
    ).contains(id) by {
        let m = choose|m: int|
            0 <= m < before.len() && #[trigger] before[m].id == id
                && before[m].components.decay is Some && expired(before[m].components.decay->0);
        assert(after[m].id == id);
    }
    assert forall|id: u32| decay_deletions(after).contains(id) implies decay_deletions(
        before,
    ).contains(id) || (adds && id == entities[k].id) by {
        let m = choose|m: int|
            0 <= m < after.len() && #[trigger] after[m].id == id
                && after[m].components.decay is Some && expired(after[m].components.decay->0);
        if m < k {
            assert(before[m].id == id);
        }
    }
    if adds {
        assert(after[k].id == entities[k].id);
        assert(decay_deletions(after) =~= decay_deletions(before).insert(entities[k].id));
    } else {
        assert(decay_deletions(after) =~= decay_deletions(before));
    }
}

impl DecaySys {
    /// One pass for one entity: tells whether its life has run out, and takes one
    /// frame from it otherwise.
    pub fn age(decay: &mut DecayLife) -> (over: bool)
        ensures
            over == expired(*old(decay)),
            *final(decay) == aged(*old(decay)),
    {
        if decay.life < 0 {
            true
        } else {
            decay.life -= 1;
            false
        }
    }

    /// One decay pass over the world. Deletions are queued in `buffer`.
    pub fn run(&mut self, world: &mut World, buffer: &mut CommandBuffer)
        ensures
            final(world)@ == decay_pass(old(world)@),
            final(world).next_id() == old(world).next_id(),
            old(world).ids_in_order() ==> final(world).ids_in_order(),
            final(buffer).deletions() == old(buffer).deletions().union(
                decay_deletions(old(world)@),
            ),
            final(buffer).creations() == old(buffer).creations(),
    {
        let n = world.len();
        let mut k: usize = 0;
        while k < n
            invariant
                k <= n,
                n == world@.len(),
                n == old(world)@.len(),
                world.next_id() == old(world).next_id(),
                old(world).ids_in_order() ==> world.ids_in_order(),
                forall|m: int| 0 <= m < k ==> world@[m] == decayed(old(world)@[m]),
                forall|m: int| k <= m < n ==> world@[m] == old(world)@[m],
                buffer.deletions() == old(buffer).deletions().union(
                    decay_deletions(old(world)@.take(k as int)),
                ),
                buffer.creations() == old(buffer).creations(),
            decreases n - k,
        {
            let e = world.entity(k);
            proof {
                lemma_decay_deletions_grow(old(world)@, k as int);
            }
            match e.components.decay {
                Some(decay) => {
                    let mut decay = decay;
                    if Self::age(&mut decay) {
                        buffer.delete(e.id);
                    }
                    let mut components = e.components;
                    components.decay = Some(decay);
                    world.set_components(k, components);
                },
                None => {},
            }
            k += 1;
        }
        assert(old(world)@.take(k as int) == old(world)@);
    }
}

} // verus!
