//! Physics: positions follow velocities, on a screen that wraps around, and every
//! velocity wears off by one unit of speed per frame.
//!
//! One unit of speed is one pixel per frame.

use crate::entities::entity_components::Position;
use crate::entities::entity_components::Quadrant;
use crate::entities::entity_components::Velocity;
use crate::geometry::Point;
use crate::library::globalcomponents::ScreenInfo;
use crate::library::globalcomponents::ScreenSize;
use crate::world::Components;
use crate::world::Entity;
use crate::world::World;
use vstd::prelude::*;

verus! {

pub struct Physics;

/// A screen that positions can be wrapped to: neither side is zero.
pub open spec fn usable(screen: ScreenSize) -> bool {
    match screen {
        ScreenSize::Size { width, height } => width > 0 && height > 0,
    }
}

/// The point of the screen that `point` falls on when the plane is rolled up along
/// both axes: each coordinate is taken modulo the side of the screen, and so lies
/// between zero and that side.
pub open spec fn wrapped(point: Point, screen: ScreenSize) -> Point {
    match screen {
        ScreenSize::Size { width, height } => Point::at(
            point.x() as int % width as int,
            point.y() as int % height as int,
        ),
    }
}

/// The quarter of the screen that `point` falls in once it is wrapped: left of the
/// middle column or not, above the middle row or not.
pub open spec fn quadrant_at(point: Point, screen: ScreenSize) -> Quadrant {
    match screen {
        ScreenSize::Size { width, height } => {
            let left = (point.x() as int % width as int) < width / 2;
            let top = (point.y() as int % height as int) < height / 2;
            if top {
                if left {
                    Quadrant::Q2
                } else {
                    Quadrant::Q1
                }
            } else {
                if left {
                    Quadrant::Q3
                } else {
                    Quadrant::Q4
                }
            }
        },
    }
}

/// The speed `v` one unit nearer to zero.
pub open spec fn slowed(v: i8) -> i8 {
    if v > 0 {
        (v - 1) as i8
    } else if v < 0 {
        (v + 1) as i8
    } else {
        0
    }
}

/// Where an entity at `position` is after one frame at `velocity`: moved by the two
/// axis speeds and wrapped to the screen, with the quadrant of the place it reached.
pub open spec fn moved(position: Position, velocity: Velocity, screen: ScreenSize) -> Position {
    let point = wrapped(
        position.point.shifted(velocity.axes().0 as int, velocity.axes().1 as int),
        screen,
    );
    Position { point, quadrant: quadrant_at(point, screen) }
}

/// The velocity after the friction of one frame: each axis one unit nearer to zero.
pub open spec fn worn(velocity: Velocity) -> Velocity {
    velocity.with_axes(slowed(velocity.axes().0), slowed(velocity.axes().1))
}

/// The entity `e` after the physics pass. Only an entity with a position and a
/// velocity takes part.
pub open spec fn integrated(e: Entity, screen: ScreenSize) -> Entity {
    match (e.components.position, e.components.velocity) {
        (Some(position), Some(velocity)) => Entity {
            id: e.id,
            components: Components {
                position: Some(moved(position, velocity, screen)),
                velocity: Some(worn(velocity)),
                ..e.components
            },
        },
        _ => e,
    }
}

/// The entities after one physics pass.
pub open spec fn physics_pass(entities: Seq<Entity>, screen: ScreenSize) -> Seq<Entity> {
    entities.map_values(|e: Entity| integrated(e, screen))
}

/// Friction never turns a speed around and never speeds it up.
pub proof fn lemma_slowed(v: i8)
    ensures
        v > 0 ==> 0 <= slowed(v) < v,
        v < 0 ==> v < slowed(v) <= 0,
        v == 0 ==> slowed(v) == 0,
{
}

/// After the pass the quadrant of a position is the quadrant of its point, and the
/// point lies on the screen.
pub proof fn lemma_moved_on_screen(position: Position, velocity: Velocity, screen: ScreenSize)
    requires
        usable(screen),
    ensures
        moved(position, velocity, screen).quadrant == quadrant_at(
            moved(position, velocity, screen).point,
            screen,
        ),
        0 <= moved(position, velocity, screen).point.x() < screen->width,
        0 <= moved(position, velocity, screen).point.y() < screen->height,
{
    let from = position.point.shifted(velocity.axes().0 as int, velocity.axes().1 as int);
    Point::lemma_at(
        from.x() as int % screen->width as int,
        from.y() as int % screen->height as int,
    );
}

proof fn lemma_wrap_negative(a: int, w: int, n: int)
    requires
        w > 0,
        a < 0,
        n == (-a) % w,
    ensures
        a % w == if n == 0 {
            0
        } else {
            w - n
        },
{
    vstd::arithmetic::div_mod::lemma_fundamental_div_mod(-a, w);
    let q = (-a) / w;
    if n == 0 {
        assert(a == w * (-q)) by (nonlinear_arith)
            requires
                -a == w * q + n,
                n == 0,
        ;
        vstd::arithmetic::div_mod::lemma_fundamental_div_mod_converse(a, w, -q, 0);
    } else {
        assert(a == w * (-q - 1) + (w - n)) by (nonlinear_arith)
            requires
                -a == w * q + n,
        ;
        vstd::arithmetic::div_mod::lemma_fundamental_div_mod_converse(a, w, -q - 1, w - n);
    }
}

/// The coordinate `a` modulo the side of a screen.
fn wrap(a: i32, side: u32) -> (r: i64)
    requires
        side > 0,
    ensures
        r == a as int % side as int,
        0 <= r < side,
{
    if a >= 0 {
        ((a as u64) % (side as u64)) as i64
    } else {
        let n = ((-(a as i64)) as u64) % (side as u64);
        proof {
            lemma_wrap_negative(a as int, side as int, n as int);
        }
        if n == 0 {
            0
        } else {
            (side as u64 - n) as i64
        }
    }
}

impl Physics {
    /// The quadrant of a point.
    pub fn quadrant(point: Point, screen: ScreenSize) -> (quadrant: Quadrant)
        requires
            usable(screen),
        ensures
            quadrant == quadrant_at(point, screen),
    {
        match screen {
            ScreenSize::Size { width, height } => {
                let left = wrap(point.x(), width) < (width / 2) as i64;
                let top = wrap(point.y(), height) < (height / 2) as i64;
                if top {
                    if left {
                        Quadrant::Q2
                    } else {
                        Quadrant::Q1
                    }
                } else {
                    if left {
                        Quadrant::Q3
                    } else {
                        Quadrant::Q4
                    }
                }
            },
        }
    }

    /// One frame of motion for one entity: the position moves by the velocity and is
    /// wrapped to the screen, its quadrant is set anew, and friction slows the velocity.
    pub fn integrate(position: &mut Position, velocity: &mut Velocity, screen: ScreenSize)
        requires
            usable(screen),
        ensures
            *final(position) == moved(*old(position), *old(velocity), screen),
            *final(velocity) == worn(*old(velocity)),
    {
        let (mut x_speed, mut y_speed) = velocity.unencode_speed();
        let to = position.point.offset(x_speed as i32, y_speed as i32);
        match screen {
            ScreenSize::Size { width, height } => {
                position.point = Point::nearest(wrap(to.x(), width), wrap(to.y(), height));
            },
        }
        position.quadrant = Self::quadrant(position.point, screen);
        if x_speed > 0 {
            x_speed -= 1;
        } else if x_speed < 0 {
            x_speed += 1;
        }
        if y_speed > 0 {
            y_speed -= 1;
        } else if y_speed < 0 {
            y_speed += 1;
        }
        velocity.encode_speed(x_speed, y_speed);
    }

    /// One physics pass over the world.
    pub fn run(&mut self, world: &mut World, screen: &ScreenInfo)
        requires
            usable(screen.screen_size),
        ensures
            final(world)@ == physics_pass(old(world)@, screen.screen_size),
            final(world).next_id() == old(world).next_id(),
            old(world).ids_in_order() ==> final(world).ids_in_order(),
    {
        let n = world.len();
        let mut k: usize = 0;
        while k < n
            invariant
                k <= n,
                n == world@.len(),
                n == old(world)@.len(),
                usable(screen.screen_size),
                world.next_id() == old(world).next_id(),
                old(world).ids_in_order() ==> world.ids_in_order(),
                forall|m: int|
                    0 <= m < k ==> world@[m] == integrated(old(world)@[m], screen.screen_size),
                forall|m: int| k <= m < n ==> world@[m] == old(world)@[m],
            decreases n - k,
        {
            let e = world.entity(k);
            match (e.components.position, e.components.velocity) {
                (Some(position), Some(velocity)) => {
                    let mut position = position;
                    let mut velocity = velocity;
                    Self::integrate(&mut position, &mut velocity, screen.screen_size);
                    let mut components = e.components;
                    components.position = Some(position);
                    components.velocity = Some(velocity);
                    world.set_components(k, components);
                },
                _ => {},
            }
            k += 1;
        }
    }
}

} // verus!
