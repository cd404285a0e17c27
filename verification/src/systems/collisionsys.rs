//! Collision: a moving entity loses the speed on each axis along which it runs into the
//! box of another entity.
//!
//! The broad phase is by quadrant: a mover is tested only against entities whose
//! position lies in another quadrant than its own. This is cheap and knowingly
//! incomplete: two entities of the same quadrant are never tested against each other.

use crate::entities::entity_components::Collideable;
use crate::entities::entity_components::Position;
use crate::entities::entity_components::Velocity;
use crate::geometry::Rect;
use crate::world::Components;
use crate::world::Entity;
use crate::world::World;
use vstd::prelude::*;

verus! {

pub struct CollisionSys;

/// An entity as a mover sees it: its identity, where it is and how large it is.
#[derive(Debug, Copy, Clone, PartialEq, Eq, Structural)]
pub struct Obstacle {
    pub id: u32,
    pub position: Position,
    pub collideable: Collideable,
}

/// The collision box of an entity: of the width and height of `col_box`, around the
/// entity's position.
pub open spec fn box_around(position: Position, collideable: Collideable) -> Rect {
    Rect::centered(
        position.point,
        collideable.col_box.width() as int,
        collideable.col_box.height() as int,
    )
}

/// Whether the mover `id` at `position` is tested against `target` at all: never
/// against itself, and only against entities of another quadrant.
pub open spec fn tested(id: u32, position: Position, target: Obstacle) -> bool {
    target.id != id && target.position.quadrant != position.quadrant
}

/// Whether `target` stops a mover that runs along the x axis with speed `x_dir`: it is
/// tested, it lies strictly on the side that the mover runs to, and the two boxes
/// overlap.
pub open spec fn blocks_x(
    id: u32,
    position: Position,
    collideable: Collideable,
    x_dir: i8,
    target: Obstacle,
) -> bool {
    &&& tested(id, position, target)
    &&& (x_dir > 0 && target.position.point.x() > position.point.x()) || (x_dir < 0
        && target.position.point.x() < position.point.x())
    &&& box_around(position, collideable).overlaps(
        box_around(target.position, target.collideable),
    )
}

/// Whether `target` stops a mover that runs along the y axis with speed `y_dir`.
pub open spec fn blocks_y(
    id: u32,
    position: Position,
    collideable: Collideable,
    y_dir: i8,
    target: Obstacle,
) -> bool {
    &&& tested(id, position, target)
    &&& (y_dir > 0 && target.position.point.y() > position.point.y()) || (y_dir < 0
        && target.position.point.y() < position.point.y())
    &&& box_around(position, collideable).overlaps(
        box_around(target.position, target.collideable),
    )
}

/// Whether one of `targets` stops the mover along the x axis.
pub open spec fn blocked_x(
    id: u32,
    position: Position,
    collideable: Collideable,
    x_dir: i8,
    targets: Seq<Obstacle>,
) -> bool {
    exists|k: int|
        0 <= k < targets.len() && #[trigger] blocks_x(id, position, collideable, x_dir, targets[k])
}

/// Whether one of `targets` stops the mover along the y axis.
pub open spec fn blocked_y(
    id: u32,
    position: Position,
    collideable: Collideable,
    y_dir: i8,
    targets: Seq<Obstacle>,
) -> bool {
    exists|k: int|
        0 <= k < targets.len() && #[trigger] blocks_y(id, position, collideable, y_dir, targets[k])
}

/// The velocity of the entity `id` after collision with `targets`. An entity at rest
/// is no mover and keeps its velocity. A mover keeps the speed on each axis along which
/// no target stops it, and has speed zero on the others.
pub open spec fn resolved(
    id: u32,
    position: Position,
    collideable: Collideable,
    velocity: Velocity,
    targets: Seq<Obstacle>,
) -> Velocity {
    if velocity.speed == 0 {
        velocity
    } else {
        velocity.with_axes(
            if blocked_x(id, position, collideable, velocity.axes().0, targets) {
                0
            } else {
                velocity.axes().0
            },
            if blocked_y(id, position, collideable, velocity.axes().1, targets) {
                0
            } else {
                velocity.axes().1
            },
        )
    }
}

/// How a mover sees the entity `e`, if `e` has a position and a collision box.
pub open spec fn as_obstacle(e: Entity) -> Option<Obstacle> {
    match (e.components.position, e.components.collideable) {
        (Some(position), Some(collideable)) => Some(Obstacle { id: e.id, position, collideable }),
        _ => None,
    }
}

/// The obstacles among `entities`, in their order.
pub open spec fn obstacles(entities: Seq<Entity>) -> Seq<Obstacle>
    decreases entities.len(),
{
    if entities.len() == 0 {
        Seq::empty()
    } else {
        match as_obstacle(entities.last()) {
            Some(obstacle) => obstacles(entities.drop_last()).push(obstacle),
            None => obstacles(entities.drop_last()),
        }
    }
}

/// The entity `e` after the collision pass in a world with the obstacles `targets`.
/// Only an entity with a position, a collision box and a velocity takes part; of it
/// only the velocity changes.
pub open spec fn collided(e: Entity, targets: Seq<Obstacle>) -> Entity {
    match (e.components.position, e.components.collideable, e.components.velocity) {
        (Some(position), Some(collideable), Some(velocity)) => Entity {
            id: e.id,
            components: Components {
                velocity: Some(resolved(e.id, position, collideable, velocity, targets)),
                ..e.components
            },
        },
        _ => e,
    }
}

/// The entities after one collision pass: every entity collides with the obstacles of
/// the world as they are before the pass.
pub open spec fn collision_pass(entities: Seq<Entity>) -> Seq<Entity> {
    entities.map_values(|e: Entity| collided(e, obstacles(entities)))
}

/// Every entity with a position and a collision box is among the obstacles.
pub proof fn lemma_obstacles_complete(entities: Seq<Entity>, k: int)
    requires
        0 <= k < entities.len(),
        as_obstacle(entities[k]) is Some,
    ensures
        obstacles(entities).contains(as_obstacle(entities[k])->0),
    decreases entities.len(),
{
    let rest = obstacles(entities.drop_last());
    if k == entities.len() - 1 {
        let all = obstacles(entities);
        assert(all[all.len() - 1] == as_obstacle(entities[k])->0);
    } else {
        lemma_obstacles_complete(entities.drop_last(), k);
        let o = as_obstacle(entities[k])->0;
        let m = choose|m: int| 0 <= m < rest.len() && rest[m] == o;
        assert(obstacles(entities)[m] == o);
    }
}

/// Every obstacle is an entity with a position and a collision box.
pub proof fn lemma_obstacles_sound(entities: Seq<Entity>, m: int)
    requires
        0 <= m < obstacles(entities).len(),
    ensures
        exists|k: int|
            0 <= k < entities.len() && #[trigger] as_obstacle(entities[k]) == Some(
                obstacles(entities)[m],
            ),
    decreases entities.len(),
{
    let rest = obstacles(entities.drop_last());
    if m < rest.len() {
        lemma_obstacles_sound(entities.drop_last(), m);
        let k = choose|k: int|
            0 <= k < entities.drop_last().len() && #[trigger] as_obstacle(entities.drop_last()[k])
                == Some(rest[m]);
        assert(as_obstacle(entities[k]) == Some(obstacles(entities)[m]));
    } else {
        assert(as_obstacle(entities[entities.len() - 1]) == Some(obstacles(entities)[m]));
    }
}

/// Two entities of different quadrants whose boxes overlap, each running along the x
/// axis towards the other, both have no speed on the x axis after one pass, whatever
/// else is in the world.
pub proof fn lemma_head_on_x(entities: Seq<Entity>, i: int, j: int)
    requires
        0 <= i < entities.len(),
        0 <= j < entities.len(),
        entities[i].id != entities[j].id,
        as_obstacle(entities[i]) is Some,
        as_obstacle(entities[j]) is Some,
        entities[i].components.velocity is Some,
        entities[j].components.velocity is Some,
        entities[i].components.position->0.quadrant != entities[j].components.position->0.quadrant,
        box_around(
            entities[i].components.position->0,
            entities[i].components.collideable->0,
        ).overlaps(
            box_around(entities[j].components.position->0, entities[j].components.collideable->0),
        ),
        entities[i].components.position->0.point.x() < entities[j].components.position->0.point.x(),
        entities[i].components.velocity->0.axes().0 > 0,
        entities[j].components.velocity->0.axes().0 < 0,
    ensures
        collision_pass(entities)[i].components.velocity->0.axes().0 == 0,
        collision_pass(entities)[j].components.velocity->0.axes().0 == 0,
{
    let targets = obstacles(entities);
    let a = entities[i];
    let b = entities[j];
    lemma_obstacles_complete(entities, i);
    lemma_obstacles_complete(entities, j);
    let oa = as_obstacle(a)->0;
    let ob = as_obstacle(b)->0;
    let ka = choose|k: int| 0 <= k < targets.len() && targets[k] == oa;
    let kb = choose|k: int| 0 <= k < targets.len() && targets[k] == ob;
    let va = a.components.velocity->0;
    let vb = b.components.velocity->0;
    assert(blocks_x(a.id, oa.position, oa.collideable, va.axes().0, targets[kb]));
    assert(blocks_x(b.id, ob.position, ob.collideable, vb.axes().0, targets[ka]));
    crate::entities::entity_components::lemma_encode_decode(va.speed);
    crate::entities::entity_components::lemma_encode_decode(vb.speed);
    assert(va.speed != 0);
    assert(vb.speed != 0);
}

/// The same along the y axis.
pub proof fn lemma_head_on_y(entities: Seq<Entity>, i: int, j: int)
    requires
        0 <= i < entities.len(),
        0 <= j < entities.len(),
        entities[i].id != entities[j].id,
        as_obstacle(entities[i]) is Some,
        as_obstacle(entities[j]) is Some,
        entities[i].components.velocity is Some,
        entities[j].components.velocity is Some,
        entities[i].components.position->0.quadrant != entities[j].components.position->0.quadrant,
        box_around(
            entities[i].components.position->0,
            entities[i].components.collideable->0,
        ).overlaps(
            box_around(entities[j].components.position->0, entities[j].components.collideable->0),
        ),
        entities[i].components.position->0.point.y() < entities[j].components.position->0.point.y(),
        entities[i].components.velocity->0.axes().1 > 0,
        entities[j].components.velocity->0.axes().1 < 0,
    ensures
        collision_pass(entities)[i].components.velocity->0.axes().1 == 0,
        collision_pass(entities)[j].components.velocity->0.axes().1 == 0,
{
    let targets = obstacles(entities);
    let a = entities[i];
    let b = entities[j];
    lemma_obstacles_complete(entities, i);
    lemma_obstacles_complete(entities, j);
    let oa = as_obstacle(a)->0;
    let ob = as_obstacle(b)->0;
    let ka = choose|k: int| 0 <= k < targets.len() && targets[k] == oa;
    let kb = choose|k: int| 0 <= k < targets.len() && targets[k] == ob;
    let va = a.components.velocity->0;
    let vb = b.components.velocity->0;
    assert(blocks_y(a.id, oa.position, oa.collideable, va.axes().1, targets[kb]));
    assert(blocks_y(b.id, ob.position, ob.collideable, vb.axes().1, targets[ka]));
    crate::entities::entity_components::lemma_encode_decode(va.speed);
    crate::entities::entity_components::lemma_encode_decode(vb.speed);
    assert(va.speed != 0);
    assert(vb.speed != 0);
}

/// The axes are resolved apart: a mover that nothing stops along one axis keeps its
/// speed on that axis, whatever happens on the other.
pub proof fn lemma_axes_apart(
    id: u32,
    position: Position,
    collideable: Collideable,
    velocity: Velocity,
    targets: Seq<Obstacle>,
)
    ensures
        !blocked_x(id, position, collideable, velocity.axes().0, targets) ==> resolved(
            id,
            position,
            collideable,
            velocity,
            targets,
        ).axes().0 == velocity.axes().0,
        !blocked_y(id, position, collideable, velocity.axes().1, targets) ==> resolved(
            id,
            position,
            collideable,
            velocity,
            targets,
        ).axes().1 == velocity.axes().1,
{
}

proof fn lemma_blocked_x_grows(
    id: u32,
    position: Position,
    collideable: Collideable,
    x_dir: i8,
    targets: Seq<Obstacle>,
    k: int,
)
    requires
        0 <= k < targets.len(),
    ensures
        blocked_x(id, position, collideable, x_dir, targets.take(k + 1)) <==> blocked_x(
            id,
            position,
            collideable,
            x_dir,
            targets.take(k),
        ) || blocks_x(id, position, collideable, x_dir, targets[k]),
{
    let before = targets.take(k);
    let after = targets.take(k + 1);
    assert(after[k] == targets[k]);
    assert(forall|m: int| 0 <= m < k ==> before[m] == after[m]);
    if blocks_x(id, position, collideable, x_dir, targets[k]) {
        assert(blocks_x(id, position, collideable, x_dir, after[k]));
    }
    if blocked_x(id, position, collideable, x_dir, before) {
        let m = choose|m: int|
            0 <= m < before.len() && #[trigger] blocks_x(
                id,
                position,
                collideable,
                x_dir,
                before[m],
            );
        assert(blocks_x(id, position, collideable, x_dir, after[m]));
    }
    if blocked_x(id, position, collideable, x_dir, after) {
        let m = choose|m: int|
            0 <= m < after.len() && #[trigger] blocks_x(id, position, collideable, x_dir, after[m]);
        if m < k {
            assert(blocks_x(id, position, collideable, x_dir, before[m]));
        }
    }
}

proof fn lemma_blocked_y_grows(
    id: u32,
    position: Position,
    collideable: Collideable,
    y_dir: i8,
    targets: Seq<Obstacle>,
    k: int,
)
    requires
        0 <= k < targets.len(),
    ensures
        blocked_y(id, position, collideable, y_dir, targets.take(k + 1)) <==> blocked_y(
            id,
            position,
            collideable,
            y_dir,
            targets.take(k),
        ) || blocks_y(id, position, collideable, y_dir, targets[k]),
{
    let before = targets.take(k);
    let after = targets.take(k + 1);
    assert(after[k] == targets[k]);
    assert(forall|m: int| 0 <= m < k ==> before[m] == after[m]);
    if blocks_y(id, position, collideable, y_dir, targets[k]) {
        assert(blocks_y(id, position, collideable, y_dir, after[k]));
    }
    if blocked_y(id, position, collideable, y_dir, before) {
        let m = choose|m: int|
            0 <= m < before.len() && #[trigger] blocks_y(
                id,
                position,
                collideable,
                y_dir,
                before[m],
            );
        assert(blocks_y(id, position, collideable, y_dir, after[m]));
    }
    if blocked_y(id, position, collideable, y_dir, after) {
        let m = choose|m: int|
            0 <= m < after.len() && #[trigger] blocks_y(id, position, collideable, y_dir, after[m]);
        if m < k {
            assert(blocks_y(id, position, collideable, y_dir, before[m]));
        }
    }
}

impl CollisionSys {
    /// The collision box of an entity at `position`.
    pub fn bounding_box(position: &Position, collideable: &Collideable) -> (rect: Rect)
        ensures
            rect == box_around(*position, *collideable),
    {
        Rect::from_center(
            position.point,
            collideable.col_box.width(),
            collideable.col_box.height(),
        )
    }

    /// Resolves the collisions of one entity: takes from `velocity` the speed on each
    /// axis along which one of `targets` stops the entity.
    pub fn resolve(
        id: u32,
        position: &Position,
        collideable: &Collideable,
        velocity: &mut Velocity,
        targets: &Vec<Obstacle>,
    )
        ensures
            *final(velocity) == resolved(id, *position, *collideable, *old(velocity), targets@),
    {
        if velocity.speed == 0 {
            return ;
        }
        let cur_rect = Self::bounding_box(position, collideable);
        let (x_start, y_start) = velocity.unencode_speed();
        let mut x_dir = x_start;
        let mut y_dir = y_start;
        let mut k: usize = 0;
        while k < targets.len()
            invariant
                k <= targets.len(),
                cur_rect == box_around(*position, *collideable),
                x_dir == if blocked_x(
                    id,
                    *position,
                    *collideable,
                    x_start,
                    targets@.take(k as int),
                ) {
                    0
                } else {
                    x_start
                },
                y_dir == if blocked_y(
                    id,
                    *position,
                    *collideable,
                    y_start,
                    targets@.take(k as int),
                ) {
                    0
                } else {
                    y_start
                },
            decreases targets.len() - k,
        {
            let target = targets[k];
            proof {
                lemma_blocked_x_grows(id, *position, *collideable, x_start, targets@, k as int);
                lemma_blocked_y_grows(id, *position, *collideable, y_start, targets@, k as int);
            }
            if target.id != id && !same_quadrant(&target.position, position) {
                if x_dir > 0 {
                    if target.position.point.x() > position.point.x() {
                        let trect = Self::bounding_box(&target.position, &target.collideable);
                        if cur_rect.has_intersection(trect) {
                            x_dir = 0;
                        }
                    }
                } else if x_dir < 0 {
                    if target.position.point.x() < position.point.x() {
                        let trect = Self::bounding_box(&target.position, &target.collideable);
                        if cur_rect.has_intersection(trect) {
                            x_dir = 0;
                        }
                    }
                }
                if y_dir > 0 {
                    if target.position.point.y() > position.point.y() {
                        let trect = Self::bounding_box(&target.position, &target.collideable);
                        if cur_rect.has_intersection(trect) {
                            y_dir = 0;
                        }
                    }
                } else if y_dir < 0 {
                    if target.position.point.y() < position.point.y() {
                        let trect = Self::bounding_box(&target.position, &target.collideable);
                        if cur_rect.has_intersection(trect) {
                            y_dir = 0;
                        }
                    }
                }
            }
            k += 1;
        }
        assert(targets@.take(k as int) == targets@);
        velocity.encode_speed(x_dir, y_dir);
    }

    /// The obstacles of a world.
    pub fn targets(world: &World) -> (targets: Vec<Obstacle>)
        ensures
            targets@ == obstacles(world@),
    {
        let mut targets: Vec<Obstacle> = Vec::new();
        let n = world.len();
        let mut k: usize = 0;
        while k < n
            invariant
                k <= n,
                n == world@.len(),
                targets@ == obstacles(world@.take(k as int)),
            decreases n - k,
        {
            let e = world.entity(k);
            proof {
                assert(world@.take(k + 1).drop_last() == world@.take(k as int));
                assert(world@.take(k + 1).last() == e);
            }
            match (e.components.position, e.components.collideable) {
                (Some(position), Some(collideable)) => {
                    targets.push(Obstacle { id: e.id, position, collideable });
                },
                _ => {},
            }
            k += 1;
        }
        assert(world@.take(k as int) == world@);
        targets
    }

    /// One collision pass over the world.
    pub fn run(&mut self, world: &mut World)
        ensures
            final(world)@ == collision_pass(old(world)@),
            final(world).next_id() == old(world).next_id(),
            old(world).ids_in_order() ==> final(world).ids_in_order(),
    {
        let targets = Self::targets(world);
        let n = world.len();
        let mut k: usize = 0;
        while k < n
            invariant
                k <= n,
                n == world@.len(),
                n == old(world)@.len(),
                targets@ == obstacles(old(world)@),
                world.next_id() == old(world).next_id(),
                old(world).ids_in_order() ==> world.ids_in_order(),
                forall|m: int| 0 <= m < k ==> world@[m] == collided(old(world)@[m], targets@),
                forall|m: int| k <= m < n ==> world@[m] == old(world)@[m],
            decreases n - k,
        {
            let e = world.entity(k);
            match (e.components.position, e.components.collideable, e.components.velocity) {
                (Some(position), Some(collideable), Some(velocity)) => {
                    let mut velocity = velocity;
                    Self::resolve(e.id, &position, &collideable, &mut velocity, &targets);
                    let mut components = e.components;
                    components.velocity = Some(velocity);
                    world.set_components(k, components);
                },
                _ => {},
            }
            k += 1;
        }
    }
}

fn same_quadrant(a: &Position, b: &Position) -> (same: bool)
    ensures
        same == (a.quadrant == b.quadrant),
{
    a.quadrant == b.quadrant
}

} // verus!
