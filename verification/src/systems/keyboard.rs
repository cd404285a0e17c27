//! Keyboard: the movement command of the frame accelerates every entity that takes
//! commands.

use crate::entities::entity_components::saturate;
use crate::entities::entity_components::saturated;
use crate::entities::entity_components::Direction;
use crate::entities::entity_components::Velocity;
use crate::library::commands::MovementCommand;
use crate::world::Components;
use crate::world::Entity;
use crate::world::World;
use vstd::prelude::*;

verus! {

pub struct Keyboard;

/// The speed on one axis after a command: `delta` times the acceleration is added to
/// the speed, and the sum is held at the top speed in either direction.
pub open spec fn steered_axis(speed: i8, delta: i8, acc: u32, max_speed: i8) -> i8 {
    let sum = speed + delta * acc;
    if sum >= max_speed {
        max_speed
    } else if sum <= -max_speed {
        saturated(-max_speed)
    } else {
        sum as i8
    }
}

/// The velocity after the command to move in `dir`. A command with a step along the x
/// axis is also kept as the direction that the entity last faced.
pub open spec fn steered(velocity: Velocity, dir: Direction) -> Velocity {
    match dir {
        Direction::MoveDelta { x, y } => Velocity {
            speed: crate::entities::entity_components::encoded(
                steered_axis(velocity.axes().0, x, velocity.acc, velocity.max_speed),
                steered_axis(velocity.axes().1, y, velocity.acc, velocity.max_speed),
            ),
            max_speed: velocity.max_speed,
            acc: velocity.acc,
            last_dir: if x != 0 {
                Some(dir)
            } else {
                velocity.last_dir
            },
        },
    }
}

/// The velocity after the commands `dirs`, one per frame, oldest first.
pub open spec fn steered_by_all(velocity: Velocity, dirs: Seq<Direction>) -> Velocity
    decreases dirs.len(),
{
    if dirs.len() == 0 {
        velocity
    } else {
        steered(steered_by_all(velocity, dirs.drop_last()), dirs.last())
    }
}

/// Whether both axis speeds lie within the top speed of the velocity.
pub open spec fn within_top_speed(velocity: Velocity) -> bool {
    &&& -velocity.max_speed <= velocity.axes().0 <= velocity.max_speed
    &&& -velocity.max_speed <= velocity.axes().1 <= velocity.max_speed
}

/// The entity `e` after the keyboard pass. Only an entity that takes commands and has
/// a velocity changes, and only when there is a command.
pub open spec fn commanded(e: Entity, command: Option<MovementCommand>) -> Entity {
    match (command, e.components.keyboard_controlled, e.components.velocity) {
        (Some(MovementCommand::Move(dir)), Some(_), Some(velocity)) => Entity {
            id: e.id,
            components: Components { velocity: Some(steered(velocity, dir)), ..e.components },
        },
        _ => e,
    }
}

/// The entities after one keyboard pass.
pub open spec fn keyboard_pass(entities: Seq<Entity>, command: Option<MovementCommand>) -> Seq<
    Entity,
> {
    entities.map_values(|e: Entity| commanded(e, command))
}

/// Without a command the pass changes nothing: velocities stay, they are not reset.
pub proof fn lemma_no_command(entities: Seq<Entity>)
    ensures
        keyboard_pass(entities, None) == entities,
{
    assert(keyboard_pass(entities, None) =~= entities);
}

/// One command brings any velocity within its top speed, if that is not negative.
pub proof fn lemma_steered_within(velocity: Velocity, dir: Direction)
    requires
        velocity.max_speed >= 0,
    ensures
        within_top_speed(steered(velocity, dir)),
        steered(velocity, dir).max_speed == velocity.max_speed,
        steered(velocity, dir).acc == velocity.acc,
{
}

/// However many commands follow each other, no axis speed leaves the top speed: not
/// after the first command, and never if the velocity was within it to begin with.
pub proof fn lemma_steered_by_all_within(velocity: Velocity, dirs: Seq<Direction>)
    requires
        velocity.max_speed >= 0,
        dirs.len() > 0 || within_top_speed(velocity),
    ensures
        within_top_speed(steered_by_all(velocity, dirs)),
        steered_by_all(velocity, dirs).max_speed == velocity.max_speed,
    decreases dirs.len(),
{
    if dirs.len() > 0 {
        lemma_steered_carries(velocity, dirs.drop_last());
        lemma_steered_within(steered_by_all(velocity, dirs.drop_last()), dirs.last());
    }
}

proof fn lemma_steered_carries(velocity: Velocity, dirs: Seq<Direction>)
    ensures
        steered_by_all(velocity, dirs).max_speed == velocity.max_speed,
    decreases dirs.len(),
{
    if dirs.len() > 0 {
        lemma_steered_carries(velocity, dirs.drop_last());
    }
}

fn steer_axis(speed: i8, delta: i8, acc: u32, max_speed: i8) -> (r: i8)
    ensures
        r == steered_axis(speed, delta, acc, max_speed),
{
    assert(-0x80_0000_0000 <= delta * acc <= 0x80_0000_0000) by (nonlinear_arith)
        requires
            -128 <= delta <= 127,
            0 <= acc <= 0xffff_ffff,
    ;
    let step: i64 = (delta as i64) * (acc as i64);
    let sum: i64 = speed as i64 + step;
    if sum >= max_speed as i64 {
        max_speed
    } else if sum <= -(max_speed as i64) {
        saturate(-(max_speed as i64))
    } else {
        sum as i8
    }
}

impl Keyboard {
    /// Applies one movement command to one velocity.
    pub fn steer(velocity: &mut Velocity, command: &MovementCommand)
        ensures
            *final(velocity) == steered(*old(velocity), command->0),
    {
        match *command {
            MovementCommand::Move(dir) => match dir {
                Direction::MoveDelta { x, y } => {
                    let (mut x_cur, mut y_cur) = velocity.unencode_speed();
                    x_cur = steer_axis(x_cur, x, velocity.acc, velocity.max_speed);
                    y_cur = steer_axis(y_cur, y, velocity.acc, velocity.max_speed);
                    velocity.encode_speed(x_cur, y_cur);
                    if x != 0 {
                        velocity.last_dir = Some(dir);
                    }
                },
            },
        }
    }

    /// One keyboard pass over the world.
    pub fn run(&mut self, command: &Option<MovementCommand>, world: &mut World)
        ensures
            final(world)@ == keyboard_pass(old(world)@, *command),
            command is None ==> final(world)@ == old(world)@,
            final(world).next_id() == old(world).next_id(),
            old(world).ids_in_order() ==> final(world).ids_in_order(),
    {
        let movement_command = match command {
            Some(movement_command) => movement_command,
            None => {
                proof {
                    lemma_no_command(world@);
                }
                return ;
            },
        };
        let n = world.len();
        let mut k: usize = 0;
        while k < n
            invariant
                k <= n,
                n == world@.len(),
                n == old(world)@.len(),
                *command == Some(*movement_command),
                world.next_id() == old(world).next_id(),
                old(world).ids_in_order() ==> world.ids_in_order(),
                forall|m: int| 0 <= m < k ==> world@[m] == commanded(old(world)@[m], *command),
                forall|m: int| k <= m < n ==> world@[m] == old(world)@[m],
            decreases n - k,
        {
            let e = world.entity(k);
            match (e.components.keyboard_controlled, e.components.velocity) {
                (Some(_), Some(velocity)) => {
                    let mut velocity = velocity;
                    Self::steer(&mut velocity, movement_command);
                    let mut components = e.components;
                    components.velocity = Some(velocity);
                    world.set_components(k, components);
                },
                _ => {},
            }
            k += 1;
        }
    }
}

} // verus!
