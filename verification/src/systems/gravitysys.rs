//! Gravity: every entity under gravity that is not on the ground falls one unit of
//! speed faster per frame, up to its own limit.

use crate::entities::entity_components::saturate;
use crate::entities::entity_components::saturated;
use crate::entities::entity_components::GravityAfflicted;
use crate::entities::entity_components::Velocity;
use crate::world::Components;
use crate::world::Entity;
use crate::world::World;
use vstd::prelude::*;

verus! {

pub struct GravitySys;

/// The speed along the y axis after one frame of falling: one unit more, but not more
/// than `max_vel`, and nothing that a signed byte cannot hold.
pub open spec fn fallen(y: i8, max_vel: i32) -> i8 {
    if y + 1 > max_vel {
        saturated(max_vel as int)
    } else {
        saturated(y + 1)
    }
}

/// The velocity after one frame of gravity. On the ground gravity does nothing.
pub open spec fn pulled(gravity: GravityAfflicted, velocity: Velocity) -> Velocity {
    if gravity.grounded {
        velocity
    } else {
        velocity.with_axes(velocity.axes().0, fallen(velocity.axes().1, gravity.max_vel))
    }
}

/// The entity `e` after the gravity pass. Only an entity under gravity that has a
/// velocity takes part.
pub open spec fn weighed(e: Entity) -> Entity {
    match (e.components.gravity, e.components.velocity) {
        (Some(gravity), Some(velocity)) => Entity {
            id: e.id,
            components: Components { velocity: Some(pulled(gravity, velocity)), ..e.components },
        },
        _ => e,
    }
}

/// The entities after one gravity pass.
pub open spec fn gravity_pass(entities: Seq<Entity>) -> Seq<Entity> {
    entities.map_values(|e: Entity| weighed(e))
}

/// Gravity leaves the speed along the x axis alone, and never lets an entity fall
/// faster than its limit allows.
pub proof fn lemma_pulled(gravity: GravityAfflicted, velocity: Velocity)
    ensures
        pulled(gravity, velocity).axes().0 == velocity.axes().0,
        !gravity.grounded && gravity.max_vel >= -128 ==> pulled(gravity, velocity).axes().1
            <= gravity.max_vel,
        gravity.grounded ==> pulled(gravity, velocity) == velocity,
{
}

impl GravitySys {
    /// One frame of gravity for one velocity.
    pub fn pull(gravity: &GravityAfflicted, velocity: &mut Velocity)
        ensures
            *final(velocity) == pulled(*gravity, *old(velocity)),
    {
        if gravity.grounded {
            return ;
        }
        let (x_cur, y_cur) = velocity.unencode_speed();
        let mut y_next: i64 = y_cur as i64 + 1;
        if y_next > gravity.max_vel as i64 {
            y_next = gravity.max_vel as i64;
        }
        velocity.encode_speed(x_cur, saturate(y_next));
    }

    /// One gravity pass over the world.
    pub fn run(&mut self, world: &mut World)
        ensures
            final(world)@ == gravity_pass(old(world)@),
            final(world).next_id() == old(world).next_id(),
            old(world).ids_in_order() ==> final(world).ids_in_order(),
    {
        let n = world.len();
        let mut k: usize = 0;
        while k < n
            invariant
                k <= n,
                n == world@.len(),
                n == old(world)@.len(),
                world.next_id() == old(world).next_id(),
                old(world).ids_in_order() ==> world.ids_in_order(),
                forall|m: int| 0 <= m < k ==> world@[m] == weighed(old(world)@[m]),
                forall|m: int| k <= m < n ==> world@[m] == old(world)@[m],
            decreases n - k,
        {
            let e = world.entity(k);
            match (e.components.gravity, e.components.velocity) {
                (Some(gravity), Some(velocity)) => {
                    let mut velocity = velocity;
                    Self::pull(&gravity, &mut velocity);
                    let mut components = e.components;
                    components.velocity = Some(velocity);
                    world.set_components(k, components);
                },
                _ => {},
            }
            k += 1;
        }
    }
}

} // verus!
