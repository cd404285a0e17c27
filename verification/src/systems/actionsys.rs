//! Action: on a fire command every player entity launches a projectile.
//!
//! The projectile is not made at once: its components are queued, and the entity
//! exists from the end of the frame on.

use crate::entities::entity_components::encode_speed;
use crate::entities::entity_components::encoded;
use crate::entities::entity_components::saturate;
use crate::entities::entity_components::saturated;
use crate::entities::entity_components::Damage;
use crate::entities::entity_components::DecayLife;
use crate::entities::entity_components::Direction;
use crate::entities::entity_components::Position;
use crate::entities::entity_components::Sprite;
use crate::entities::entity_components::Velocity;
use crate::entities::entity_flags::SingleDamage;
use crate::geometry::Rect;
use crate::library::commands::ActionCommand;
use crate::world::CommandBuffer;
use crate::world::Components;
use crate::world::Entity;
use crate::world::World;
use vstd::prelude::*;

verus! {

pub struct ActionSys;

/// The speed that a projectile gets for each unit of aim.
pub const PROJECTILE_ACCELERATION: u32 = 30;

/// The top speed of a projectile.
pub const PROJECTILE_MAX_SPEED: i8 = 100;

/// The frames that a projectile lives.
pub const PROJECTILE_LIFE: i32 = 10;

/// The hit points that a projectile takes.
pub const PROJECTILE_DAMAGE: u32 = 10;

/// The side of the square box and of the sprite of a projectile.
pub const PROJECTILE_SIZE: u32 = 5;

/// The sprite sheet that projectiles are drawn from.
pub const PROJECTILE_SPRITESHEET: usize = 1;

/// The side that an entity faces: the x step of the direction it last moved in, and
/// the right-hand side where no such step is on record.
pub open spec fn facing(last_dir: Option<Direction>) -> i8 {
    match last_dir {
        Some(Direction::MoveDelta { x, y }) => if x != 0 {
            x
        } else {
            1
        },
        None => 1,
    }
}

/// The aim that a shot takes: the aim of the command, or, where that is zero on both
/// axes, the side that the firer faces.
pub open spec fn aim_of(dir: Direction, firer: Velocity) -> (i8, i8) {
    match dir {
        Direction::MoveDelta { x, y } => if x == 0 && y == 0 {
            (facing(firer.last_dir), 0)
        } else {
            (x, y)
        },
    }
}

/// The speed of a projectile along an axis on which the aim is `aim`.
pub open spec fn launch_speed(aim: i8) -> i8 {
    saturated(aim * PROJECTILE_ACCELERATION)
}

/// The box and the sprite region of a projectile.
pub open spec fn projectile_box() -> Rect {
    Rect::at(0, 0, PROJECTILE_SIZE as int, PROJECTILE_SIZE as int)
}

/// The components of the projectile that a firer at `position`, moving with `firer`,
/// launches on the command to shoot in `dir`: it starts where the firer is, flies
/// along the aim, lives a fixed number of frames and is used up by its first hit.
pub open spec fn projectile(position: Position, firer: Velocity, dir: Direction) -> Components {
    Components {
        position: Some(position),
        velocity: Some(
            Velocity {
                speed: encoded(
                    launch_speed(aim_of(dir, firer).0),
                    launch_speed(aim_of(dir, firer).1),
                ),
                max_speed: PROJECTILE_MAX_SPEED,
                acc: PROJECTILE_ACCELERATION,
                last_dir: None,
            },
        ),
        collideable: None,
        gravity: None,
        health: None,
        damage: Some(Damage { dmg: PROJECTILE_DAMAGE, dmg_box: projectile_box() }),
        decay: Some(DecayLife { life: PROJECTILE_LIFE }),
        sprite: Some(
            Sprite {
                spritesheet: PROJECTILE_SPRITESHEET,
                region: projectile_box(),
                mouse_rot_flag: false,
            },
        ),
        keyboard_controlled: None,
        player: None,
        single_damage: Some(SingleDamage),
    }
}

/// Whether the entity fires on a command: it is a player with a position and a
/// velocity.
pub open spec fn fires(e: Entity) -> bool {
    e.components.player is Some && e.components.position is Some && e.components.velocity is Some
}

/// The projectiles that `entities` launch on the command to shoot in `dir`, one for
/// each firer, in the order of the firers.
pub open spec fn fired(entities: Seq<Entity>, dir: Direction) -> Seq<Components>
    decreases entities.len(),
{
    if entities.len() == 0 {
        Seq::empty()
    } else if fires(entities.last()) {
        fired(entities.drop_last(), dir).push(
            projectile(
                entities.last().components.position->0,
                entities.last().components.velocity->0,
                dir,
            ),
        )
    } else {
        fired(entities.drop_last(), dir)
    }
}

/// What one action pass queues for creation.
pub open spec fn action_creations(entities: Seq<Entity>, command: Option<ActionCommand>) -> Seq<
    Components,
> {
    match command {
        Some(ActionCommand::Shoot(dir)) => fired(entities, dir),
        None => Seq::empty(),
    }
}

/// No projectile is launched at rest. A shot without an aim flies along the x axis:
/// to the side that the firer last moved to, and to the right if it never did.
pub proof fn lemma_never_at_rest(position: Position, firer: Velocity, dir: Direction)
    ensures
        projectile(position, firer, dir).velocity->0.speed != 0,
        dir == (Direction::MoveDelta { x: 0, y: 0 }) ==> {
            &&& projectile(position, firer, dir).velocity->0.axes().1 == 0
            &&& facing(firer.last_dir) > 0 ==> projectile(position, firer, dir).velocity->0.axes().0
                > 0
            &&& facing(firer.last_dir) < 0 ==> projectile(position, firer, dir).velocity->0.axes().0
                < 0
        },
{
    let aim = aim_of(dir, firer);
    assert(aim.0 != 0 || aim.1 != 0);
    assert(aim.0 > 0 ==> aim.0 * PROJECTILE_ACCELERATION >= 30);
    assert(aim.0 < 0 ==> aim.0 * PROJECTILE_ACCELERATION <= -30);
    assert(aim.1 > 0 ==> aim.1 * PROJECTILE_ACCELERATION >= 30);
    assert(aim.1 < 0 ==> aim.1 * PROJECTILE_ACCELERATION <= -30);
    crate::entities::entity_components::lemma_encoded_zero(
        launch_speed(aim.0),
        launch_speed(aim.1),
    );
    crate::entities::entity_components::lemma_decode_encode(
        launch_speed(aim.0),
        launch_speed(aim.1),
    );
}

/// A firer launches exactly one projectile, and nobody else launches any.
pub proof fn lemma_fired_len(entities: Seq<Entity>, dir: Direction)
    ensures
        fired(entities, dir).len() == entities.filter(|e: Entity| fires(e)).len(),
        fired(entities, dir).len() <= entities.len(),
    decreases entities.len(),
{
    reveal(Seq::filter);
    if entities.len() > 0 {
        lemma_fired_len(entities.drop_last(), dir);
    }
}

fn launch(aim: i8) -> (speed: i8)
    ensures
        speed == launch_speed(aim),
{
    let acc = PROJECTILE_ACCELERATION as i64;
    assert(acc == 30);
    saturate((aim as i64) * acc)
}

impl ActionSys {
    /// The components of the projectile that one firer launches.
    pub fn shoot(position: &Position, firer: &Velocity, dir: Direction) -> (bullet: Components)
        ensures
            bullet == projectile(*position, *firer, dir),
    {
        let (mut x_aim, mut y_aim) = match dir {
            Direction::MoveDelta { x, y } => (x, y),
        };
        if x_aim == 0 && y_aim == 0 {
            x_aim =
            match firer.last_dir {
                Some(Direction::MoveDelta { x, y }) => if x != 0 {
                    x
                } else {
                    1
                },
                None => 1,
            };
        }
        let mut bullet = Components::none();
        bullet.position = Some(*position);
        bullet.velocity =
        Some(
            Velocity {
                speed: encode_speed(launch(x_aim), launch(y_aim)),
                max_speed: PROJECTILE_MAX_SPEED,
                acc: PROJECTILE_ACCELERATION,
                last_dir: None,
            },
        );
        bullet.damage =
        Some(
            Damage {
                dmg: PROJECTILE_DAMAGE,
                dmg_box: Rect::new(0, 0, PROJECTILE_SIZE, PROJECTILE_SIZE),
            },
        );
        bullet.decay = Some(DecayLife { life: PROJECTILE_LIFE });
        bullet.sprite =
        Some(
            Sprite {
                spritesheet: PROJECTILE_SPRITESHEET,
                region: Rect::new(0, 0, PROJECTILE_SIZE, PROJECTILE_SIZE),
                mouse_rot_flag: false,
            },
        );
        bullet.single_damage = Some(SingleDamage);
        bullet
    }

    /// One action pass over the world. Creations are queued in `buffer`, the world
    /// itself is only read.
    pub fn run(
        &mut self,
        command: &Option<ActionCommand>,
        world: &World,
        buffer: &mut CommandBuffer,
    )
        ensures
            final(buffer).creations() == old(buffer).creations() + action_creations(
                world@,
                *command,
            ),
            final(buffer).deletions() == old(buffer).deletions(),
    {
        let action = match command {
            Some(action) => action,
            None => {
                return ;
            },
        };
        let dir = match *action {
            ActionCommand::Shoot(dir) => dir,
        };
        let n = world.len();
        let mut k: usize = 0;
        while k < n
            invariant
                k <= n,
                n == world@.len(),
                buffer.creations() == old(buffer).creations() + fired(world@.take(k as int), dir),
                buffer.deletions() == old(buffer).deletions(),
            decreases n - k,
        {
            let e = world.entity(k);
            proof {
                assert(world@.take(k + 1).drop_last() == world@.take(k as int));
                assert(world@.take(k + 1).last() == e);
            }
            match (e.components.player, e.components.position, e.components.velocity) {
                (Some(_), Some(position), Some(velocity)) => {
                    buffer.create(Self::shoot(&position, &velocity, dir));
                },
                _ => {},
            }
            k += 1;
        }
        assert(world@.take(k as int) == world@);
    }
}

} // verus!
