//! One frame: the systems in their fixed order, then the queued changes.
//!
//! A frame has two halves, because the hit test of the damage system is made outside
//! this library, on the world as the first half leaves it. `advance` moves the world;
//! `settle` deals damage, ages, fires and applies what was queued.

use crate::library::commands::ActionCommand;
use crate::library::commands::MovementCommand;
use crate::library::globalcomponents::ScreenInfo;
use crate::library::globalcomponents::ScreenSize;
use crate::systems::actionsys::action_creations;
use crate::systems::actionsys::lemma_fired_len;
use crate::systems::actionsys::ActionSys;
use crate::systems::collisionsys::collision_pass;
use crate::systems::collisionsys::CollisionSys;
use crate::systems::damagesys::damage_deletions;
use crate::systems::damagesys::damage_pass;
use crate::systems::damagesys::DamageSys;
use crate::systems::decaysys::decay_deletions;
use crate::systems::decaysys::decay_pass;
use crate::systems::decaysys::DecaySys;
use crate::systems::gravitysys::gravity_pass;
use crate::systems::gravitysys::GravitySys;
use crate::systems::keyboard::keyboard_pass;
use crate::systems::keyboard::Keyboard;
use crate::systems::physics::physics_pass;
use crate::systems::physics::usable;
use crate::systems::physics::Physics;
use crate::world::spawned;
use crate::world::survivors;
use crate::world::CommandBuffer;
use crate::world::Entity;
use crate::world::World;
use vstd::prelude::*;

verus! {

/// The entities after the systems that move them, each working on what the one before
/// it left: keyboard, gravity, collision, physics.
pub open spec fn advanced(
    entities: Seq<Entity>,
    movement: Option<MovementCommand>,
    screen: ScreenSize,
) -> Seq<Entity> {
    physics_pass(collision_pass(gravity_pass(keyboard_pass(entities, movement))), screen)
}

/// The entities as the damage and decay passes leave them, before anything is deleted
/// or created.
pub open spec fn worn_down(entities: Seq<Entity>, crossed: Seq<Seq<bool>>) -> Seq<Entity> {
    decay_pass(damage_pass(entities, crossed))
}

/// The identities that the second half of a frame deletes.
pub open spec fn frame_deletions(entities: Seq<Entity>, crossed: Seq<Seq<bool>>) -> Set<u32> {
    damage_deletions(entities, crossed).union(decay_deletions(damage_pass(entities, crossed)))
}

/// The entities after the second half of a frame: damage, decay and action have run,
/// then the entities queued for deletion are gone and the projectiles that were fired
/// exist, with the identities from `first_id` on.
pub open spec fn settled(
    entities: Seq<Entity>,
    crossed: Seq<Seq<bool>>,
    action: Option<ActionCommand>,
    first_id: int,
) -> Seq<Entity> {
    survivors(worn_down(entities, crossed), frame_deletions(entities, crossed)) + spawned(
        action_creations(worn_down(entities, crossed), action),
        first_id,
    )
}

/// The first half of a frame.
pub fn advance(world: &mut World, movement: &Option<MovementCommand>, screen: &ScreenInfo)
    requires
        usable(screen.screen_size),
    ensures
        final(world)@ == advanced(old(world)@, *movement, screen.screen_size),
        final(world).next_id() == old(world).next_id(),
        old(world).ids_in_order() ==> final(world).ids_in_order(),
{
    let mut keyboard = Keyboard;
    let mut gravity = GravitySys;
    let mut collision = CollisionSys;
    let mut physics = Physics;
    keyboard.run(movement, world);
    gravity.run(world);
    collision.run(world);
    physics.run(world, screen);
}

/// The second half of a frame. `crossed` is the table of hits that the damage pass
/// takes, made for the world as it is now. Every firer needs an identity for its
/// projectile, so there must be as many identities left as there are entities.
pub fn settle(world: &mut World, crossed: &Vec<Vec<bool>>, action: &Option<ActionCommand>)
    requires
        old(world).next_id() + old(world)@.len() <= u32::MAX,
    ensures
        final(world)@ == settled(
            old(world)@,
            crossed.deep_view(),
            *action,
            old(world).next_id() as int,
        ),
        final(world).next_id() == old(world).next_id() + action_creations(
            worn_down(old(world)@, crossed.deep_view()),
            *action,
        ).len(),
        old(world).ids_in_order() ==> final(world).ids_in_order(),
{
    let mut damage = DamageSys;
    let mut decay = DecaySys;
    let mut fire = ActionSys;
    let mut buffer = CommandBuffer::new();
    damage.run(world, crossed, &mut buffer);
    decay.run(world, &mut buffer);
    fire.run(action, world, &mut buffer);
    proof {
        match *action {
            Some(ActionCommand::Shoot(dir)) => {
                lemma_fired_len(world@, dir);
            },
            None => {},
        }
        assert(buffer.creations() =~= action_creations(world@, *action));
        assert(buffer.deletions() =~= frame_deletions(old(world)@, crossed.deep_view()));
    }
    world.maintain(&mut buffer);
}

} // verus!
